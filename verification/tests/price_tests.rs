use pallets::price::{
    cents_fit_check, digit_runs_are_bounded, parse_price, price_from_response, price_in_cents, price_text_parseable,
    try_parse_price, try_price_from_response, HttpError, JsonNumber,
};

#[test]
fn parses_usd_price_with_two_decimals() {
    assert_eq!(parse_price("{\"USD\": 6.33}"), Some(633));
}

#[test]
fn parses_usd_price_keeping_two_decimals() {
    assert_eq!(parse_price("{\"USD\": 6.3316}"), Some(633));
}

#[test]
fn parses_whole_usd_price() {
    assert_eq!(parse_price("{\"USD\": 6}"), Some(600));
}

#[test]
fn single_decimal_is_tenths() {
    // One fractional digit counts as tenths: 6.3 dollars are 630 cents.
    assert_eq!(parse_price("{\"USD\": 6.3}"), Some(630));
    assert_eq!(parse_price("{\"USD\":6.5}"), Some(650));
    assert_eq!(parse_price("{\"USD\": 0.1}"), Some(10));
}

#[test]
fn first_usd_member_wins() {
    assert_eq!(parse_price("{\"EUR\": 1.25, \"USD\": 1.5, \"USD\": 2}"), Some(150));
}

#[test]
fn no_price_without_usd_number() {
    assert_eq!(parse_price("{\"EUR\": 1.25}"), None);
    assert_eq!(parse_price("{\"USD\": \"6.33\"}"), None);
    assert_eq!(parse_price("[1, 2]"), None);
    assert_eq!(parse_price("not json"), None);
    assert_eq!(parse_price("{\"USD\": 6.33} trailing"), None);
}

#[test]
fn price_in_cents_formula() {
    let n = JsonNumber { integer: 12, fraction: 3456, fraction_length: 4, exponent: 0, negative: false };
    assert_eq!(price_in_cents(&n), 1234);
    let n = JsonNumber { integer: 7, fraction: 5, fraction_length: 2, exponent: 0, negative: true };
    assert_eq!(price_in_cents(&n), 705);
    let n = JsonNumber { integer: 7, fraction: 5, fraction_length: 1, exponent: 0, negative: false };
    assert_eq!(price_in_cents(&n), 750);
    let n = JsonNumber { integer: 7, fraction: 0, fraction_length: 0, exponent: 0, negative: false };
    assert_eq!(price_in_cents(&n), 700);
}

#[test]
fn overflowing_fraction_is_refused() {
    let n = JsonNumber { integer: 0, fraction: u64::MAX, fraction_length: 1, exponent: 0, negative: false };
    assert!(!cents_fit_check(&n));
    let n = JsonNumber { integer: 0, fraction: 99, fraction_length: 30, exponent: 0, negative: false };
    assert!(!cents_fit_check(&n));
    let n = JsonNumber { integer: 1, fraction: 9, fraction_length: 1, exponent: 0, negative: false };
    assert!(cents_fit_check(&n));
    assert_eq!(price_in_cents(&n), 190);
}

#[test]
fn long_digit_runs_are_refused() {
    assert!(digit_runs_are_bounded("{\"USD\": 1234567890123456789}"));
    assert!(!digit_runs_are_bounded("{\"USD\": 12345678901234567890}"));
    assert!(digit_runs_are_bounded("{\"USD\": 1e123456789}"));
    assert!(!digit_runs_are_bounded("{\"USD\": 1e1234567890}"));
    assert!(!digit_runs_are_bounded("{\"USD\": 1E-1234567890}"));
    assert!(digit_runs_are_bounded("{\"ID\": 1234567890}"));
    assert_eq!(try_parse_price("{\"USD\": 12345678901234567890}"), None);
}

#[test]
fn overflowing_price_is_refused() {
    // 50000000 dollars do not fit in a u32 of cents.
    assert!(!price_text_parseable("{\"USD\": 50000000}"));
    assert_eq!(try_parse_price("{\"USD\": 50000000}"), None);
    assert!(price_text_parseable("{\"USD\": 40000000}"));
    assert_eq!(try_parse_price("{\"USD\": 40000000}"), Some(Some(4000000000)));
}

#[test]
fn response_price() {
    assert_eq!(price_from_response(200, b"{\"USD\": 6.33}"), Ok(633));
    assert_eq!(price_from_response(404, b"{\"USD\": 6.33}"), Err(HttpError::Unknown));
    assert_eq!(price_from_response(200, &[0xff, 0xfe]), Err(HttpError::Unknown));
    assert_eq!(price_from_response(200, b"{}"), Err(HttpError::Unknown));
    assert_eq!(try_price_from_response(200, b"{\"USD\": 12.5}"), Some(Ok(1250)));
    assert_eq!(try_price_from_response(200, b"{\"USD\": 99999999999}"), None);
    assert_eq!(try_price_from_response(500, b"{\"USD\": 99999999999}"), Some(Err(HttpError::Unknown)));
}

#[test]
fn digits_inside_strings_are_not_bounded() {
    let text = "{\"USD\":6.5,\"id\":\"123456789012345678901\"}";
    assert!(digit_runs_are_bounded(text));
    assert_eq!(try_parse_price(text), Some(Some(650)));
    assert!(digit_runs_are_bounded("{\"a\":\"e1234567890\",\"USD\":1}"));
    // an escaped quote does not end the string
    assert!(digit_runs_are_bounded("{\"a\":\"\\\"123456789012345678901\",\"USD\":1}"));
    // an escaped backslash does
    assert!(!digit_runs_are_bounded("{\"a\":\"x\\\\\",\"USD\":12345678901234567890}"));
    assert_eq!(
        try_price_from_response(200, b"{\"name\":\"12345678901234567890123\",\"USD\": 2.25}"),
        Some(Ok(225))
    );
}
