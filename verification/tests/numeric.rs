use guikit::numeric::{is_valid_number, FilterKind, NumericKind, TextFilter};

#[test]
fn letters_are_rejected() {
    assert!(!is_valid_number(NumericKind::U32, 'a', &String::new()));
    assert!(!is_valid_number(NumericKind::I64, 'x', &String::from("12")));
}

#[test]
fn a_digit_into_an_empty_field_is_accepted() {
    assert!(is_valid_number(NumericKind::U32, '5', &String::new()));
}

#[test]
fn signs_are_not_digits() {
    assert!(!is_valid_number(NumericKind::I32, '-', &String::new()));
    assert!(!is_valid_number(NumericKind::I32, '+', &String::new()));
}

#[test]
fn digits_extend_an_existing_numeral() {
    assert!(is_valid_number(NumericKind::U32, '9', &String::from("12")));
    assert!(is_valid_number(NumericKind::U32, '0', &String::from("+1")));
}

#[test]
fn values_past_the_range_are_rejected() {
    // 4294967295 is the largest u32; one more digit must fail
    assert!(is_valid_number(NumericKind::U32, '5', &String::from("429496729")));
    assert!(!is_valid_number(NumericKind::U32, '6', &String::from("429496729")));
    assert!(!is_valid_number(NumericKind::U32, '0', &String::from("4294967295")));
    assert!(is_valid_number(NumericKind::U64, '0', &String::from("4294967295")));
}

#[test]
fn signed_ranges_are_asymmetric() {
    assert!(is_valid_number(NumericKind::I32, '8', &String::from("-214748364")));
    assert!(!is_valid_number(NumericKind::I32, '8', &String::from("214748364")));
    assert!(is_valid_number(NumericKind::I32, '7', &String::from("214748364")));
}

#[test]
fn leading_zeros_are_fine() {
    assert!(is_valid_number(NumericKind::U32, '7', &String::from("000")));
}

#[test]
fn non_digit_tail_never_validates() {
    assert!(!is_valid_number(NumericKind::U32, '1', &String::from("2x")));
}

#[test]
fn numeric_filter_carries_its_kind() {
    let filter = TextFilter::numeric(NumericKind::U32);
    assert_eq!(filter.kind, FilterKind::Numeric(NumericKind::U32));
    assert!(filter.matches('3', &String::from("1")));
    assert!(!filter.matches('a', &String::from("1")));
}

#[test]
fn unicode_digits_outside_ascii_are_rejected() {
    // an Arabic-Indic five is numeric but not an ascii digit
    assert!(!is_valid_number(NumericKind::U32, '\u{0665}', &String::new()));
}
