use networking::str_utils::{
    check_transformation, csv_formatted_str, csv_parse, double_str, remove_spaces, reverse,
    slugify_str, to_lowercase, to_uppercase, transform, Csv, TransformError,
};

fn strings(cells: &[&str]) -> Vec<String> {
    cells.iter().map(|&s| s.to_string()).collect()
}

#[test]
fn str_utils_test_lowercase() {
    assert_eq!(
        transform("Hello, World!", "lowercase").unwrap(),
        "hello, world!".to_string()
    );
}

#[test]
fn str_utils_test_uppercase() {
    assert_eq!(
        transform("Hello, World!", "uppercase").unwrap(),
        "HELLO, WORLD!".to_string()
    );
}

#[test]
fn str_utils_test_no_spaces() {
    assert_eq!(
        transform("Hello, World!", "no-spaces").unwrap(),
        "Hello,World!".to_string()
    );
}

#[test]
fn str_utils_test_slugify() {
    assert_eq!(
        transform("Hello, World!", "slugify").unwrap(),
        "hello-world".to_string()
    );
}

#[test]
fn str_utils_test_double() {
    assert_eq!(
        transform("Hello, World!", "double").unwrap(),
        "Hello, World!Hello, World!".to_string()
    );
}

#[test]
fn str_utils_test_reverse() {
    assert_eq!(
        transform("Hello, World!", "reverse").unwrap(),
        "!dlroW ,olleH".to_string()
    );
}

#[test]
fn str_utils_test_empty_string() {
    assert!(transform("", "reverse").is_err());
}

#[test]
fn str_utils_test_newline_string() {
    assert!(transform("\n", "no-spaces").is_err());
}

#[test]
fn str_utils_test_spaces_string() {
    assert!(transform("", "no-spaces").is_err());
}

#[test]
fn test_existing_transformation() {
    assert_eq!(check_transformation("no-spaces").unwrap(), "no-spaces");
}

#[test]
fn test_csv_transformation() {
    assert_eq!(check_transformation("csv").unwrap(), "csv");
}

#[test]
fn test_non_existing_transformation() {
    assert!(check_transformation("adhoc").is_err());
}

#[test]
fn str_utils_test_csv_display() {
    let headers = strings(&["Name", "Age", "City"]);
    let rows = vec![
        strings(&["Alice", "308989", "New York"]),
        strings(&["Bob", "25", "Los Angeles"]),
    ];

    let csv = Csv::new(headers, rows);

    let expected_output: &str = "\
Name   Age     City         
----------------------------
Alice  308989  New York     
Bob    25      Los Angeles  
";

    assert_eq!(csv_formatted_str(csv).unwrap(), expected_output);
}

#[test]
fn str_utils_test_csv_parse() {
    let headers = strings(&["Name", "Age", "City"]);
    let rows = vec![
        strings(&["Alice", "30", "New York"]),
        strings(&["Bob", "25", "Los Angeles"]),
    ];

    let csv = Csv::new(headers, rows);

    let input_str = "Name,Age,City\nAlice,30,New York\nBob,25,Los Angeles";

    assert_eq!(csv, csv_parse(input_str).unwrap());
}

#[test]
fn unknown_name_is_reported_as_such() {
    match check_transformation("Lowercase") {
        Err(TransformError::UnknownTransformation) => {}
        other => panic!("unexpected: {:?}", other),
    }
    assert_eq!(
        TransformError::UnknownTransformation.message(),
        "Non-existing transformation"
    );
}

#[test]
fn blank_input_is_empty_input() {
    for blank in ["", " ", "\n", " \t\r\n", "\u{a0}\u{3000}"] {
        for result in [
            to_lowercase(blank),
            to_uppercase(blank),
            remove_spaces(blank),
            slugify_str(blank),
            double_str(blank),
            reverse(blank),
        ] {
            match result {
                Err(TransformError::EmptyInput) => {}
                other => panic!("unexpected: {:?}", other),
            }
        }
    }
    assert_eq!(TransformError::EmptyInput.message(), "Input is empty");
}

#[test]
fn blank_means_what_trim_leaves_nothing_of() {
    for line in ["", " x", "\u{2003}", "\u{200b}", "\u{85}", "\u{1680}\u{2028}\u{2029}\u{202f}\u{205f}", "\u{feff}"] {
        assert_eq!(reverse(line).is_err(), line.trim().is_empty(), "{:?}", line);
    }
}

#[test]
fn each_transformation_on_its_own() {
    assert_eq!(to_lowercase("ÄBC ß").unwrap(), "äbc ß");
    assert_eq!(to_uppercase("äbc ß").unwrap(), "ÄBC SS");
    assert_eq!(remove_spaces(" a  b\tc ").unwrap(), "ab\tc");
    assert_eq!(slugify_str("My Test String!!!1!1").unwrap(), "my-test-string-1-1");
    assert_eq!(double_str("ab ").unwrap(), "ab ab ");
    assert_eq!(reverse("añb").unwrap(), "bña");
    assert_eq!(reverse("x").unwrap(), "x");
}

#[test]
fn csv_transformation_reads_and_lays_out() {
    let input = "a,bb\nccc,d\n";
    assert_eq!(transform(input, "csv").unwrap(), "a    bb  \n---------\nccc  d   \n");
}

#[test]
fn csv_with_uneven_rows_is_an_error() {
    match csv_parse("a,b\n1,2,3\n") {
        Err(TransformError::Csv(why)) => assert!(!why.is_empty()),
        other => panic!("unexpected: {:?}", other),
    }
    assert!(transform("a,b\n1,2,3\n", "csv").is_err());
}

#[test]
fn csv_of_nothing_is_an_empty_table() {
    let csv = csv_parse("").unwrap();
    assert_eq!(csv, Csv::new(vec![], vec![]));
    assert_eq!(csv_formatted_str(csv).unwrap(), "\n\n");
}

#[test]
fn layout_counts_bytes_for_widths_and_characters_for_filling() {
    // "é" is two bytes and one character: the column is two wide, and the
    // cell is filled to four characters.
    let csv = Csv::new(strings(&["é"]), vec![strings(&["x"])]);
    assert_eq!(csv.render(), "é   \n----\nx   \n");
}

#[test]
fn layout_leaves_out_cells_without_a_column() {
    let csv = Csv::new(strings(&["h"]), vec![strings(&["a", "extra"]), vec![]]);
    assert_eq!(csv.render(), "h  \n---\na  \n\n");
}

#[test]
fn layout_widens_a_column_for_a_long_cell() {
    let csv = Csv::new(strings(&["h", "k"]), vec![strings(&["long"]), strings(&["", "wider"])]);
    assert_eq!(
        csv.render(),
        "h     k      \n-------------\nlong  \n      wider  \n"
    );
}
