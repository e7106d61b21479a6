use networking::address::{parse_addr, parse_ipv4, parse_port, Ipv4Address, PortError};
use networking::error::LibError;

fn args(words: &[&str]) -> Vec<String> {
    words.iter().map(|w| w.to_string()).collect()
}

fn ip(a: u8, b: u8, c: u8, d: u8) -> Ipv4Address {
    Ipv4Address { a, b, c, d }
}

#[test]
fn no_arguments_give_the_defaults() {
    assert_eq!(parse_addr(&args(&[])).unwrap(), (ip(127, 0, 0, 1), 11111));
}

#[test]
fn the_port_comes_first() {
    assert_eq!(parse_addr(&args(&["8080"])).unwrap(), (ip(127, 0, 0, 1), 8080));
    assert_eq!(
        parse_addr(&args(&["8080", "192.168.1.20"])).unwrap(),
        (ip(192, 168, 1, 20), 8080)
    );
    assert_eq!(
        parse_addr(&args(&["0", "0.0.0.0", "ignored", "too"])).unwrap(),
        (ip(0, 0, 0, 0), 0)
    );
}

#[test]
fn a_bad_port_is_a_port_parsing_error() {
    for (word, text) in [
        ("", "Port parsing error: cannot parse integer from empty string"),
        ("http", "Port parsing error: invalid digit found in string"),
        ("65536", "Port parsing error: number too large to fit in target type"),
        ("-1", "Port parsing error: invalid digit found in string"),
    ] {
        match parse_addr(&args(&[word, "not an address"])) {
            Err(error @ LibError::PortParsingError(_)) => assert_eq!(error.message(), text),
            other => panic!("unexpected: {:?}", other),
        }
    }
}

#[test]
fn a_bad_address_is_an_address_parsing_error() {
    for word in ["", "localhost", "1.2.3", "1.2.3.4.5", "256.1.1.1", "01.2.3.4", "1.2.3.4 ", "1..3.4"] {
        match parse_addr(&args(&["80", word])) {
            Err(error @ LibError::AddressParsingError(_)) => {
                assert_eq!(error.message(), "Address parsing error: invalid IPv4 address syntax")
            }
            other => panic!("unexpected: {:?}", other),
        }
    }
}

#[test]
fn a_port_is_what_the_standard_library_reads() {
    let words = [
        "", "+", "-", "0", "00", "+0", "1", "+1", "-1", "11111", "65535", "65536", "065535",
        "0000000000000000000065535", "0000000000000000000065536", "99999", "9999x", "99999x",
        "x99999", "655350", "1 ", " 1", "1_0", "++1", "1+", "٣", "１", "123456789012345678901234567890",
        "6553x", "65535x", "65536x", "+65535", "+65536", "+x",
    ];
    for word in words {
        let expected = word.parse::<u16>();
        let got = parse_port(word);
        match (&got, &expected) {
            (Ok(port), Ok(value)) => assert_eq!(port, value, "{:?}", word),
            (Err(error), Err(other)) => {
                assert_eq!(error.describe(), other.to_string(), "{:?}", word)
            }
            _ => panic!("{:?}: {:?} against {:?}", word, got, expected),
        }
    }
}

#[test]
fn each_port_error_has_its_input() {
    assert_eq!(parse_port(""), Err(PortError::Empty));
    assert_eq!(parse_port("12a"), Err(PortError::InvalidDigit));
    assert_eq!(parse_port("70000"), Err(PortError::TooLarge));
    assert_eq!(parse_port("11111"), Ok(11111));
}

#[test]
fn an_address_is_four_octets() {
    assert_eq!(parse_ipv4("127.0.0.1"), Some(ip(127, 0, 0, 1)));
    assert_eq!(parse_ipv4("0.0.0.0"), Some(ip(0, 0, 0, 0)));
    assert_eq!(parse_ipv4("255.255.255.255"), Some(ip(255, 255, 255, 255)));
    assert_eq!(parse_ipv4("1.20.200.9"), Some(ip(1, 20, 200, 9)));
    for word in [
        "", ".", "...", "1", "1.2", "1.2.3", "1.2.3.", ".1.2.3", "1.2.3.4.", "1.2.3.4.5",
        "256.0.0.0", "0.0.0.256", "999.1.1.1", "1000.1.1.1", "00.0.0.0", "0.0.0.00", "1.02.3.4",
        "+1.2.3.4", "-1.2.3.4", "1.2.3.4\n", " 1.2.3.4", "1. 2.3.4", "a.b.c.d", "0x1.2.3.4",
        "1,2,3,4", "１.2.3.4", "::1",
    ] {
        assert_eq!(parse_ipv4(word), None, "{:?}", word);
    }
}
