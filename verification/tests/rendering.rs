use storefront::ident::{format_uuid, parse_uuid};
use storefront::products::{push_price, Price};
use storefront::text::push_escaped;

fn price_string(mantissa: i64, scale: u32) -> String {
    let mut s = String::new();
    push_price(&mut s, &Price { mantissa, scale });
    s
}

#[test]
fn uuid_format_zero() {
    assert_eq!(format_uuid(0), "00000000-0000-0000-0000-000000000000");
}

#[test]
fn uuid_format_known_value() {
    let u: u128 = 0x123e4567e89b12d3a456426614174000;
    assert_eq!(format_uuid(u), "123e4567-e89b-12d3-a456-426614174000");
}

#[test]
fn uuid_parse_round_trip() {
    let u: u128 = 0x123e4567e89b12d3a456426614174000;
    assert_eq!(parse_uuid(&format_uuid(u)), Some(u));
    assert_eq!(parse_uuid("00000000-0000-0000-0000-000000000001"), Some(1));
}

#[test]
fn uuid_parse_accepts_uppercase() {
    let u: u128 = 0x123e4567e89b12d3a456426614174000;
    assert_eq!(parse_uuid("123E4567-E89B-12D3-A456-426614174000"), Some(u));
}

#[test]
fn uuid_parse_rejects_malformed() {
    assert_eq!(parse_uuid(""), None);
    assert_eq!(parse_uuid("123e4567e89b12d3a456426614174000"), None);
    assert_eq!(parse_uuid("123e4567-e89b-12d3-a456-42661417400"), None);
    assert_eq!(parse_uuid("123e4567-e89b-12d3-a456_426614174000"), None);
    assert_eq!(parse_uuid("123g4567-e89b-12d3-a456-426614174000"), None);
    assert_eq!(parse_uuid("123e4567-e89b-12d3-a456-42661417400z"), None);
}

#[test]
fn price_renders_plain_integers() {
    assert_eq!(price_string(7, 0), "7");
    assert_eq!(price_string(-42, 0), "-42");
    assert_eq!(price_string(0, 0), "0");
}

#[test]
fn price_renders_fractions() {
    assert_eq!(price_string(1999, 2), "19.99");
    assert_eq!(price_string(5, 3), "0.005");
    assert_eq!(price_string(-1250, 2), "-12.50");
    assert_eq!(price_string(10, 1), "1.0");
    assert_eq!(price_string(0, 2), "0.00");
}

#[test]
fn price_renders_extreme_scales_in_exponent_form() {
    assert_eq!(price_string(123, 25), "123e-25");
}

#[test]
fn json_escaping_covers_specials() {
    let mut s = String::new();
    push_escaped(&mut s, "a\"b\\c\nd\te\rf");
    assert_eq!(s, "a\\\"b\\\\c\\nd\\te\\rf");
    let mut t = String::new();
    push_escaped(&mut t, "\u{1}");
    assert_eq!(t, "\\u0001");
    let mut u = String::new();
    push_escaped(&mut u, "héllo");
    assert_eq!(u, "héllo");
}
