use quick_capture::ids::{parse_capture_id, parse_cursor};

#[test]
fn canonical_id_is_returned_as_is() {
    assert_eq!(parse_capture_id("01ARZ3NDEKTSV4RRFFQ69G5FAV"), Ok("01ARZ3NDEKTSV4RRFFQ69G5FAV".to_string()));
}

#[test]
fn lower_case_id_is_read_and_upper_cased() {
    assert_eq!(parse_capture_id("01arz3ndektsv4rrffq69g5fav"), Ok("01ARZ3NDEKTSV4RRFFQ69G5FAV".to_string()));
}

#[test]
fn first_digit_keeps_its_low_three_bits() {
    assert_eq!(parse_capture_id("Z1ARZ3NDEKTSV4RRFFQ69G5FAV"), Ok("71ARZ3NDEKTSV4RRFFQ69G5FAV".to_string()));
    assert_eq!(parse_capture_id("81ARZ3NDEKTSV4RRFFQ69G5FAV"), Ok("01ARZ3NDEKTSV4RRFFQ69G5FAV".to_string()));
}

#[test]
fn wrong_length_is_rejected() {
    assert_eq!(parse_capture_id("not-a-ulid"), Err("invalid id: invalid length".to_string()));
    assert_eq!(parse_capture_id(""), Err("invalid id: invalid length".to_string()));
}

#[test]
fn excluded_letters_are_rejected() {
    assert_eq!(parse_capture_id("01ARZ3NDEKTSV4RRFFQ69G5FAI"), Err("invalid id: invalid character".to_string()));
    assert_eq!(parse_capture_id("01ARZ3NDEKTSV4RRFFQ69G5FAl"), Err("invalid id: invalid character".to_string()));
    assert_eq!(parse_capture_id("01ARZ3NDEKTSV4RRFFQ69G5FAO"), Err("invalid id: invalid character".to_string()));
    assert_eq!(parse_capture_id("01ARZ3NDEKTSV4RRFFQ69G5FAU"), Err("invalid id: invalid character".to_string()));
}

#[test]
fn non_ascii_id_is_rejected() {
    assert!(parse_capture_id("01ARZ3NDEKTSV4RRFFQ69G5FAé").is_err());
}

#[test]
fn cursor_errors_name_the_cursor() {
    assert_eq!(parse_cursor("abc"), Err("invalid cursor: invalid length".to_string()));
    assert_eq!(parse_cursor("01ARZ3NDEKTSV4RRFFQ69G5FAV"), Ok("01ARZ3NDEKTSV4RRFFQ69G5FAV".to_string()));
}
