use lotto::parse::{chunk_value_of, parse_series_bytes};
use lotto::rules::UserInput;

#[test]
fn parses_a_clean_series_and_superzahl() {
    let input = UserInput::new("1, 45, 38, 5, 23, 19".to_string(), "13".to_string());
    let (series, superzahl) = input.parse().unwrap();
    assert_eq!(series, vec![1, 45, 38, 5, 23, 19]);
    assert_eq!(superzahl, 13);
}

#[test]
fn gathers_digits_and_ignores_other_characters() {
    let input = UserInput::new("1a, 2b".to_string(), "0 7".to_string());
    let (series, superzahl) = input.parse().unwrap();
    assert_eq!(series, vec![1, 2]);
    assert_eq!(superzahl, 7);
}

#[test]
fn trims_stray_commas_and_whitespace() {
    let input = UserInput::new(",, 5, 6 ,,".to_string(), "8".to_string());
    let (series, superzahl) = input.parse().unwrap();
    assert_eq!(series, vec![5, 6]);
    assert_eq!(superzahl, 8);
}

#[test]
fn an_empty_chunk_counts_as_zero_and_is_rejected() {
    let input = UserInput::new("5,,6".to_string(), "8".to_string());
    assert!(input.parse().is_err());
}

#[test]
fn an_overflowing_chunk_counts_as_zero_and_is_rejected() {
    let input = UserInput::new("300".to_string(), "8".to_string());
    assert!(input.parse().is_err());
}

#[test]
fn an_empty_series_line_is_rejected() {
    let input = UserInput::new("".to_string(), "8".to_string());
    let err = input.parse().unwrap_err();
    assert_eq!(err.message(), "Bad guess.");
}

#[test]
fn a_duplicate_number_in_the_series_is_rejected() {
    let input = UserInput::new("1, 2, 2".to_string(), "4".to_string());
    assert!(input.parse().is_err());
}

#[test]
fn series_bytes_parse_chunk_by_chunk() {
    assert_eq!(parse_series_bytes("7".as_bytes()), vec![7]);
    assert_eq!(parse_series_bytes("1,2,3".as_bytes()), vec![1, 2, 3]);
    assert_eq!(parse_series_bytes(" 4 2 , 19".as_bytes()), vec![42, 19]);
    assert_eq!(parse_series_bytes("".as_bytes()), vec![0]);
    assert_eq!(parse_series_bytes(" ,\n".as_bytes()), vec![0]);
}

#[test]
fn superzahl_digits_are_read_from_the_whole_line() {
    let line = "  13\n";
    let bytes = line.as_bytes();
    assert_eq!(chunk_value_of(bytes, 0, bytes.len()), 13);

    let blank = "\n";
    let blank_bytes = blank.as_bytes();
    assert_eq!(chunk_value_of(blank_bytes, 0, blank_bytes.len()), 0);

    let wide = "999";
    let wide_bytes = wide.as_bytes();
    assert_eq!(chunk_value_of(wide_bytes, 0, wide_bytes.len()), 0);
}
