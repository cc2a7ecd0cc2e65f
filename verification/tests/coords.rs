use battleship::coord::check_correct_field_format;
use battleship::coord::coord_wire_bytes;
use battleship::coord::decode_wire_coord;
use battleship::coord::encode_coord;
use battleship::coord::get_indices_from_field;
use battleship::coord::wire_format_ok;

#[test]
fn decode_first_cell() {
    assert_eq!(get_indices_from_field("0a"), (0, 0));
}

#[test]
fn decode_last_cell_uppercase() {
    assert_eq!(get_indices_from_field("9J"), (9, 9));
}

#[test]
fn decode_mixed() {
    assert_eq!(get_indices_from_field("7e"), (7, 4));
    assert_eq!(get_indices_from_field("5b"), (5, 1));
}

#[test]
fn encode_normalizes_to_lowercase() {
    let (r, c) = get_indices_from_field("9J");
    assert_eq!(encode_coord(r, c), ('9', 'j'));
}

#[test]
fn encode_decode_round_trip() {
    let (r, c) = get_indices_from_field("3c");
    assert_eq!(encode_coord(r, c), ('3', 'c'));
    let (r2, c2) = get_indices_from_field("0a");
    assert_eq!(encode_coord(r2, c2), ('0', 'a'));
}

#[test]
fn format_accepts_two_char_tokens() {
    assert!(check_correct_field_format("4d"));
    assert!(check_correct_field_format("5b"));
    assert!(check_correct_field_format("6C"));
    assert!(check_correct_field_format("9J"));
}

#[test]
fn format_accepts_any_letter_even_out_of_range() {
    // the shape check does not bound the decoded indices
    assert!(check_correct_field_format("9z"));
    assert!(check_correct_field_format("xy"));
}

#[test]
fn format_accepts_unicode_letters() {
    assert!(check_correct_field_format("3\u{e7}"));
}

#[test]
fn format_rejects_wrong_length() {
    assert!(!check_correct_field_format("abc"));
    assert!(!check_correct_field_format("4"));
    assert!(!check_correct_field_format(""));
}

#[test]
fn format_rejects_non_alphabetic_second_char() {
    assert!(!check_correct_field_format("1!"));
    assert!(!check_correct_field_format("12"));
}

#[test]
fn format_rejects_non_alphanumeric_first_char() {
    assert!(!check_correct_field_format("!a"));
    assert!(!check_correct_field_format(" a"));
}

#[test]
fn wire_decode_is_case_insensitive() {
    assert_eq!(decode_wire_coord(b'3', b'C'), (3, 2));
    assert_eq!(decode_wire_coord(b'3', b'c'), (3, 2));
}

#[test]
fn wire_bytes_keep_the_typed_case() {
    assert_eq!(coord_wire_bytes('3', 'C'), (b'3', b'C'));
    assert_eq!(coord_wire_bytes('5', 'b'), (b'5', b'b'));
}

#[test]
fn wire_format_bounds_row_and_column() {
    assert!(wire_format_ok(b'0', b'a'));
    assert!(wire_format_ok(b'9', b'J'));
    assert!(!wire_format_ok(b'x', b'a'));
    assert!(!wire_format_ok(b'3', b'z'));
    assert!(!wire_format_ok(b'3', b'K'));
    assert!(!wire_format_ok(b'3', b'1'));
}
