//! The address of the server: a port and an IPv4 address, as they are given
//! on the command line, with their defaults.

use vstd::prelude::*;

use crate::error::{Failure, LibError};
use crate::text::chars_of;

verus! {

/// The port that is used where none is given.
pub const DEFAULT_PORT: u16 = 11111;

/// An IPv4 address: its four octets, the first one first.
#[derive(Debug, Clone, Copy, PartialEq, Eq, Structural)]
pub struct Ipv4Address {
    pub a: u8,
    pub b: u8,
    pub c: u8,
    pub d: u8,
}

/// The address that is used where none is given: the loopback address.
pub open spec fn localhost() -> Ipv4Address {
    Ipv4Address { a: 127, b: 0, c: 0, d: 1 }
}

/// Why a text is no port number.
#[derive(Debug, Clone, Copy, PartialEq, Eq, Structural)]
pub enum PortError {
    /// The text is empty.
    Empty,
    /// The text holds something else than digits after an optional `+`, or
    /// no digit at all.
    InvalidDigit,
    /// The number does not fit in sixteen bits.
    TooLarge,
}

impl PortError {
    /// The description of the error.
    pub open spec fn message(self) -> Seq<char> {
        match self {
            PortError::Empty => "cannot parse integer from empty string"@,
            PortError::InvalidDigit => "invalid digit found in string"@,
            PortError::TooLarge => "number too large to fit in target type"@,
        }
    }

    /// Returns the description of the error.
    pub fn describe(&self) -> (text: String)
        ensures
            text@ == self.message(),
    {
        match self {
            PortError::Empty => "cannot parse integer from empty string".to_string(),
            PortError::InvalidDigit => "invalid digit found in string".to_string(),
            PortError::TooLarge => "number too large to fit in target type".to_string(),
        }
    }
}

/// Tells whether `c` is one of the digits `0` to `9`.
pub open spec fn is_digit(c: char) -> bool {
    '0' <= c <= '9'
}

/// The value of the digit `c`.
pub open spec fn digit_value(c: char) -> int {
    c as u32 - '0' as u32
}

/// The number that the digits `s` denote in base ten.
pub open spec fn decimal_value(s: Seq<char>) -> int
    decreases s.len(),
{
    if s.len() == 0 {
        0
    } else {
        decimal_value(s.drop_last()) * 10 + digit_value(s.last())
    }
}

/// The number of digits that `s` begins with.
pub open spec fn leading_digits(s: Seq<char>) -> int
    decreases s.len(),
{
    if s.len() > 0 && is_digit(s[0]) {
        1 + leading_digits(s.drop_first())
    } else {
        0
    }
}

/// The port that `s` denotes. A port is written as digits, with or without a
/// `+` before them, and is at most 65535.
///
/// The text is read from the left, so a number that has grown too large is
/// reported before a character further right that is no digit.
pub open spec fn port_of(s: Seq<char>) -> Result<u16, PortError> {
    let digits = if s.len() > 0 && s[0] == '+' {
        s.drop_first()
    } else {
        s
    };
    let run = digits.take(leading_digits(digits));
    if s.len() == 0 {
        Err(PortError::Empty)
    } else if digits.len() == 0 {
        Err(PortError::InvalidDigit)
    } else if decimal_value(run) > u16::MAX {
        Err(PortError::TooLarge)
    } else if run.len() < digits.len() {
        Err(PortError::InvalidDigit)
    } else {
        Ok(decimal_value(run) as u16)
    }
}

/// The octet that `s` denotes: one to three digits, without a leading zero
/// unless it is the only digit, and at most 255.
pub open spec fn octet_of(s: Seq<char>) -> Option<u8> {
    if 1 <= s.len() <= 3 && leading_digits(s) == s.len() && (s.len() > 1 ==> s[0] != '0')
        && decimal_value(s) <= u8::MAX {
        Some(decimal_value(s) as u8)
    } else {
        None
    }
}

/// The position of the first `.` in `s`, or the length of `s`.
pub open spec fn first_dot(s: Seq<char>) -> int
    decreases s.len(),
{
    if s.len() == 0 || s[0] == '.' {
        0
    } else {
        1 + first_dot(s.drop_first())
    }
}

/// The fields of `s` that its dots separate. There is one more field than
/// there are dots.
pub open spec fn fields(s: Seq<char>) -> Seq<Seq<char>>
    decreases s.len(),
{
    let dot = first_dot(s);
    if 0 <= dot < s.len() {
        seq![s.take(dot)] + fields(s.skip(dot + 1))
    } else {
        seq![s]
    }
}

/// The IPv4 address that `s` denotes: four octets separated by dots.
pub open spec fn ipv4_of(s: Seq<char>) -> Option<Ipv4Address> {
    let f = fields(s);
    if f.len() == 4 && octet_of(f[0]) is Some && octet_of(f[1]) is Some && octet_of(f[2]) is Some
        && octet_of(f[3]) is Some {
        Some(
            Ipv4Address {
                a: octet_of(f[0])->0,
                b: octet_of(f[1])->0,
                c: octet_of(f[2])->0,
                d: octet_of(f[3])->0,
            },
        )
    } else {
        None
    }
}

/// The address that the arguments `args` configure: the port first, then the
/// IPv4 address, each with its default where it is missing. A port that
/// cannot be read is reported before the address is looked at.
pub open spec fn address_of(args: Seq<Seq<char>>) -> Result<(Ipv4Address, u16), Failure> {
    let port = if args.len() > 0 {
        port_of(args[0])
    } else {
        Ok(DEFAULT_PORT)
    };
    let ip = if args.len() > 1 {
        ipv4_of(args[1])
    } else {
        Some(localhost())
    };
    match port {
        Err(e) => Err(Failure::PortParsingError(e.message())),
        Ok(port) => match ip {
            None => Err(Failure::AddressParsingError("invalid IPv4 address syntax"@)),
            Some(ip) => Ok((ip, port)),
        },
    }
}

/// `leading_digits(s)` is the position of the first character of `s` that is
/// no digit, or the length of `s`.
pub proof fn lemma_leading_digits(s: Seq<char>, n: int)
    requires
        0 <= n <= s.len(),
        forall|k: int| 0 <= k < n ==> is_digit(#[trigger] s[k]),
        n < s.len() ==> !is_digit(s[n]),
    ensures
        leading_digits(s) == n,
    decreases n,
{
    if n > 0 {
        let rest = s.drop_first();
        assert forall|k: int| 0 <= k < n - 1 implies is_digit(#[trigger] rest[k]) by {
            assert(rest[k] == s[k + 1]);
        }
        lemma_leading_digits(rest, n - 1);
    }
}

/// `first_dot(s)` is the position `n` when no `.` stands before it and one
/// stands there, or `s` ends there.
pub proof fn lemma_first_dot(s: Seq<char>, n: int)
    requires
        0 <= n <= s.len(),
        forall|k: int| 0 <= k < n ==> #[trigger] s[k] != '.',
        n < s.len() ==> s[n] == '.',
    ensures
        first_dot(s) == n,
    decreases n,
{
    if n > 0 {
        let rest = s.drop_first();
        assert forall|k: int| 0 <= k < n - 1 implies #[trigger] rest[k] != '.' by {
            assert(rest[k] == s[k + 1]);
        }
        lemma_first_dot(rest, n - 1);
    }
}

/// Tells whether `c` is a digit.
fn digit(c: char) -> (r: Option<u8>)
    ensures
        match r {
            Some(d) => is_digit(c) && d == digit_value(c),
            None => !is_digit(c),
        },
{
    let u = c as u32;
    if 0x30 <= u && u <= 0x39 {
        Some((u - 0x30) as u8)
    } else {
        None
    }
}

/// Reads the digits of `v` from `from` on: the position after the last of
/// them and their value, or `None` once the value has passed `limit`.
fn read_digits(v: &Vec<char>, from: usize, limit: u32) -> (r: (usize, Option<u32>))
    requires
        from <= v.len(),
        limit <= 100_000_000,
    ensures
        from <= r.0 <= v.len(),
        r.0 - from <= leading_digits(v@.skip(from as int)),
        match r.1 {
            Some(value) => r.0 - from == leading_digits(v@.skip(from as int)) && value
                == decimal_value(v@.subrange(from as int, r.0 as int)) && value <= limit,
            None => decimal_value(
                v@.subrange(from as int, from + leading_digits(v@.skip(from as int))),
            ) > limit,
        },
{
    let ghost tail = v@.skip(from as int);
    let mut at: usize = from;
    let mut value: u32 = 0;
    assert(v@.subrange(from as int, from as int) =~= Seq::<char>::empty());
    loop
        invariant
            from <= at <= v.len(),
            tail == v@.skip(from as int),
            forall|k: int| from <= k < at ==> is_digit(#[trigger] v@[k]),
            value == decimal_value(v@.subrange(from as int, at as int)),
            value <= limit <= 100_000_000,
        decreases v.len() - at,
    {
        if at == v.len() {
            proof {
                lemma_digits_run(v@, from as int, at as int);
            }
            return (at, Some(value));
        }
        match digit(v[at]) {
            None => {
                proof {
                    lemma_digits_run(v@, from as int, at as int);
                }
                return (at, Some(value));
            },
            Some(d) => {
                let ghost before = v@.subrange(from as int, at as int);
                let ghost grown = v@.subrange(from as int, at + 1);
                assert(grown.drop_last() =~= before);
                assert(grown.last() == v@[at as int]);
                value = value * 10 + d as u32;
                at += 1;
                if value > limit {
                    proof {
                        lemma_digits_bound(v@, from as int, at as int);
                        let n = leading_digits(tail);
                        lemma_leading_bound(tail);
                        lemma_value_grows(tail.take(n), at - from);
                        assert(tail.take(n).take(at - from) =~= grown);
                        assert(tail.take(n) =~= v@.subrange(from as int, from + n));
                    }
                    return (at - 1, None);
                }
            },
        }
    }
}

/// Where the digits `v[from..to]` are followed by no digit, they are the
/// digits that `v[from..]` begins with.
proof fn lemma_digits_run(v: Seq<char>, from: int, to: int)
    requires
        0 <= from <= to <= v.len(),
        forall|k: int| from <= k < to ==> is_digit(#[trigger] v[k]),
        to < v.len() ==> !is_digit(v[to]),
    ensures
        leading_digits(v.skip(from)) == to - from,
{
    let tail = v.skip(from);
    assert forall|k: int| 0 <= k < to - from implies is_digit(#[trigger] tail[k]) by {
        assert(tail[k] == v[k + from]);
    }
    lemma_leading_digits(tail, to - from);
}

/// The digits `v[from..to]` are among the digits that `v[from..]` begins
/// with.
proof fn lemma_digits_bound(v: Seq<char>, from: int, to: int)
    requires
        0 <= from <= to <= v.len(),
        forall|k: int| from <= k < to ==> is_digit(#[trigger] v[k]),
    ensures
        to - from <= leading_digits(v.skip(from)) <= v.len() - from,
    decreases to - from,
{
    let tail = v.skip(from);
    if to > from {
        assert(tail[0] == v[from]);
        assert(tail.drop_first() =~= v.skip(from + 1));
        lemma_digits_bound(v, from + 1, to);
    } else {
        lemma_leading_bound(tail);
    }
}

/// The digits that a text begins with are digits, and are no more than the
/// text has characters.
proof fn lemma_leading_bound(s: Seq<char>)
    ensures
        0 <= leading_digits(s) <= s.len(),
        forall|k: int| 0 <= k < leading_digits(s) ==> is_digit(#[trigger] s[k]),
    decreases s.len(),
{
    if s.len() > 0 && is_digit(s[0]) {
        let rest = s.drop_first();
        lemma_leading_bound(rest);
        assert forall|k: int| 0 <= k < leading_digits(s) implies is_digit(#[trigger] s[k]) by {
            if k > 0 {
                assert(s[k] == rest[k - 1]);
            }
        }
    }
}

/// The value of digits does not shrink as digits are added.
proof fn lemma_value_grows(s: Seq<char>, n: int)
    requires
        0 <= n <= s.len(),
        forall|k: int| 0 <= k < s.len() ==> is_digit(#[trigger] s[k]),
    ensures
        0 <= decimal_value(s.take(n)) <= decimal_value(s),
    decreases s.len() - n,
{
    if n == s.len() {
        assert(s.take(n) =~= s);
        lemma_value_not_negative(s);
    } else {
        let front = s.drop_last();
        assert(front.take(n) =~= s.take(n));
        assert forall|k: int| 0 <= k < front.len() implies is_digit(#[trigger] front[k]) by {
            assert(front[k] == s[k]);
        }
        lemma_value_grows(front, n);
        assert(is_digit(s.last()));
    }
}

/// The value of digits is not negative.
proof fn lemma_value_not_negative(s: Seq<char>)
    requires
        forall|k: int| 0 <= k < s.len() ==> is_digit(#[trigger] s[k]),
    ensures
        0 <= decimal_value(s),
    decreases s.len(),
{
    if s.len() > 0 {
        let front = s.drop_last();
        assert forall|k: int| 0 <= k < front.len() implies is_digit(#[trigger] front[k]) by {
            assert(front[k] == s[k]);
        }
        lemma_value_not_negative(front);
        assert(is_digit(s.last()));
    }
}

/// The texts of `parts`.
pub open spec fn texts(parts: Seq<Vec<char>>) -> Seq<Seq<char>> {
    Seq::new(parts.len(), |i: int| parts[i]@)
}

/// Splits `v` at its dots.
fn split_fields(v: &Vec<char>) -> (parts: Vec<Vec<char>>)
    ensures
        texts(parts@) == fields(v@),
{
    let mut parts: Vec<Vec<char>> = Vec::new();
    let mut field: Vec<char> = Vec::new();
    let mut at: usize = 0;
    let ghost mut start: int = 0;
    assert(v@.skip(0) =~= v@);
    assert(texts(parts@) + fields(v@) =~= fields(v@));
    while at < v.len()
        invariant
            0 <= start <= at <= v.len(),
            field@ == v@.subrange(start, at as int),
            forall|k: int| start <= k < at ==> #[trigger] v@[k] != '.',
            fields(v@) == texts(parts@) + fields(v@.skip(start)),
        decreases v.len() - at,
    {
        let c = v[at];
        if c == '.' {
            proof {
                let tail = v@.skip(start);
                assert forall|k: int| 0 <= k < at - start implies #[trigger] tail[k] != '.' by {
                    assert(tail[k] == v@[k + start]);
                }
                lemma_first_dot(tail, at - start);
                assert(tail.take(at - start) =~= field@);
                assert(tail.skip(at - start + 1) =~= v@.skip(at + 1));
                assert(texts(parts@.push(field)) =~= texts(parts@) + seq![field@]);
            }
            parts.push(field);
            field = Vec::new();
            at += 1;
            proof {
                start = at as int;
            }
        } else {
            field.push(c);
            at += 1;
        }
        assert(field@ =~= v@.subrange(start, at as int));
    }
    proof {
        let tail = v@.skip(start);
        assert forall|k: int| 0 <= k < tail.len() implies #[trigger] tail[k] != '.' by {
            assert(tail[k] == v@[k + start]);
        }
        lemma_first_dot(tail, tail.len() as int);
        assert(tail =~= field@);
        assert(texts(parts@.push(field)) =~= texts(parts@) + seq![field@]);
    }
    parts.push(field);
    parts
}

/// Reads an octet.
fn parse_octet(field: &Vec<char>) -> (r: Option<u8>)
    ensures
        r == octet_of(field@),
{
    let n = field.len();
    if n < 1 || n > 3 {
        return None;
    }
    let (end, value) = read_digits(field, 0, 255);
    proof {
        assert(field@.skip(0) =~= field@);
        assert(field@.subrange(0, n as int) =~= field@);
    }
    if end < n {
        return None;
    }
    if n > 1 && field[0] == '0' {
        return None;
    }
    match value {
        Some(v) => Some(v as u8),
        None => None,
    }
}

/// Reads a port number.
pub fn parse_port(text: &str) -> (r: Result<u16, PortError>)
    ensures
        r == port_of(text@),
{
    let v = chars_of(text);
    if v.len() == 0 {
        return Err(PortError::Empty);
    }
    let from: usize = if v[0] == '+' {
        1
    } else {
        0
    };
    proof {
        assert(v@.skip(0) =~= v@);
        assert(v@.skip(1) =~= v@.drop_first());
    }
    if from == v.len() {
        return Err(PortError::InvalidDigit);
    }
    let ghost digits = v@.skip(from as int);
    let (end, value) = read_digits(&v, from, 65535);
    proof {
        let n = leading_digits(digits);
        lemma_leading_bound(digits);
        assert(digits.take(n) =~= v@.subrange(from as int, from + n));
    }
    match value {
        None => Err(PortError::TooLarge),
        Some(port) => if end < v.len() {
            Err(PortError::InvalidDigit)
        } else {
            Ok(port as u16)
        },
    }
}

/// Reads an IPv4 address in dotted decimal notation.
pub fn parse_ipv4(text: &str) -> (r: Option<Ipv4Address>)
    ensures
        r == ipv4_of(text@),
{
    let v = chars_of(text);
    let parts = split_fields(&v);
    assert(parts@.len() == fields(v@).len());
    if parts.len() != 4 {
        return None;
    }
    proof {
        assert(texts(parts@)[0] == parts@[0]@);
        assert(texts(parts@)[1] == parts@[1]@);
        assert(texts(parts@)[2] == parts@[2]@);
        assert(texts(parts@)[3] == parts@[3]@);
    }
    let a = parse_octet(&parts[0]);
    let b = parse_octet(&parts[1]);
    let c = parse_octet(&parts[2]);
    let d = parse_octet(&parts[3]);
    match (a, b, c, d) {
        (Some(a), Some(b), Some(c), Some(d)) => Some(Ipv4Address { a, b, c, d }),
        _ => None,
    }
}

/// The model of the arguments: their texts.
pub open spec fn arguments(args: Seq<String>) -> Seq<Seq<char>> {
    Seq::new(args.len(), |i: int| args[i]@)
}

/// The model of a configured address, or of why there is none.
pub open spec fn address_view(r: Result<(Ipv4Address, u16), LibError>) -> Result<
    (Ipv4Address, u16),
    Failure,
> {
    match r {
        Ok(address) => Ok(address),
        Err(error) => Err(error@),
    }
}

/// Reads the address of the server from the arguments of the command line:
/// the port, then the IPv4 address. What is missing takes its default, port
/// 11111 on the loopback address; arguments after the second are not looked
/// at.
pub fn parse_addr(args: &Vec<String>) -> (r: Result<(Ipv4Address, u16), LibError>)
    ensures
        address_view(r) == address_of(arguments(args@)),
{
    let mut port: u16 = DEFAULT_PORT;
    let mut ip = Ipv4Address { a: 127, b: 0, c: 0, d: 1 };
    if args.len() > 0 {
        assert(arguments(args@)[0] == args@[0]@);
        match parse_port(args[0].as_str()) {
            Ok(p) => {
                port = p;
            },
            Err(e) => {
                return Err(LibError::PortParsingError(e.describe()));
            },
        }
    }
    if args.len() > 1 {
        assert(arguments(args@)[1] == args@[1]@);
        match parse_ipv4(args[1].as_str()) {
            Some(address) => {
                ip = address;
            },
            None => {
                return Err(
                    LibError::AddressParsingError("invalid IPv4 address syntax".to_string()),
                );
            },
        }
    }
    Ok((ip, port))
}

} // verus!
