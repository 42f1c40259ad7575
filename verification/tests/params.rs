use public_server::error::CatalogError;
use public_server::params::parse_id;

#[test]
fn decimal_parameters_are_identifiers() {
    assert_eq!(parse_id("0"), Ok(0));
    assert_eq!(parse_id("7"), Ok(7));
    assert_eq!(parse_id("42"), Ok(42));
    assert_eq!(parse_id("1234567890"), Ok(1234567890));
    assert_eq!(parse_id("-15"), Ok(-15));
    assert_eq!(parse_id("+15"), Ok(15));
    assert_eq!(parse_id("-0"), Ok(0));
    assert_eq!(parse_id("007"), Ok(7));
    assert_eq!(parse_id("000000000000000000000000000012"), Ok(12));
}

#[test]
fn identifiers_span_the_whole_range() {
    assert_eq!(parse_id("2147483647"), Ok(i32::MAX));
    assert_eq!(parse_id("-2147483648"), Ok(i32::MIN));
    assert_eq!(parse_id("+2147483647"), Ok(i32::MAX));
    assert_eq!(parse_id("2147483648"), Err(CatalogError::InvalidInput));
    assert_eq!(parse_id("-2147483649"), Err(CatalogError::InvalidInput));
    assert_eq!(parse_id("99999999999999999999999999"), Err(CatalogError::InvalidInput));
    assert_eq!(parse_id("-99999999999999999999999999"), Err(CatalogError::InvalidInput));
}

#[test]
fn malformed_parameters_are_invalid_input() {
    for raw in ["", "-", "+", "abc", "12a", "a12", "1 2", " 12", "12 ", "--1", "+-1", "1-", "1.0", "0x10", "١٢"] {
        assert_eq!(parse_id(raw), Err(CatalogError::InvalidInput), "{:?}", raw);
    }
}

#[test]
fn parameters_are_read_as_the_standard_library_reads_them() {
    for raw in ["5", "-5", "+5", "", "-", "2147483647", "2147483648", "-2147483648", "0012", "4 2", "x"] {
        assert_eq!(parse_id(raw).ok(), raw.parse::<i32>().ok(), "{:?}", raw);
    }
}
