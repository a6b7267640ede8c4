use pipes::{decode_token, encode_token, Error};

#[test]
fn token_format_posix_example() {
    let t = encode_token(5, 9);
    assert_eq!(t, "dpipe:5,9");
}

#[test]
fn token_format_negative_and_zero() {
    assert_eq!(encode_token(0, 0), "dpipe:0,0");
    assert_eq!(encode_token(-3, 14), "dpipe:-3,14");
    assert_eq!(encode_token(i32::MIN, i32::MAX), "dpipe:-2147483648,2147483647");
}

#[test]
fn decode_ok_simple() {
    assert_eq!(decode_token("dpipe:5,9"), Ok((5, 9)));
}

#[test]
fn decode_bad_prefix() {
    assert_eq!(decode_token("bad:1,2"), Err(Error::BadPrefix));
    assert_eq!(decode_token(""), Err(Error::BadPrefix));
    assert_eq!(decode_token("dpipe"), Err(Error::BadPrefix));
    assert_eq!(decode_token("DPIPE:1,2"), Err(Error::BadPrefix));
}

#[test]
fn decode_missing_field() {
    assert_eq!(decode_token("dpipe:1"), Err(Error::MissingField));
    assert_eq!(decode_token("dpipe:"), Err(Error::MissingField));
}

#[test]
fn decode_too_many_fields() {
    assert_eq!(decode_token("dpipe:1,2,3"), Err(Error::TooManyFields));
    assert_eq!(decode_token("dpipe:1,2,"), Err(Error::TooManyFields));
    assert_eq!(decode_token("dpipe:,,"), Err(Error::TooManyFields));
}

#[test]
fn decode_bad_number() {
    assert_eq!(decode_token("dpipe:,2"), Err(Error::BadNumber));
    assert_eq!(decode_token("dpipe:1,x"), Err(Error::BadNumber));
    assert_eq!(decode_token("dpipe:+,1"), Err(Error::BadNumber));
    assert_eq!(decode_token("dpipe:-,1"), Err(Error::BadNumber));
    assert_eq!(decode_token("dpipe:1,2 "), Err(Error::BadNumber));
    assert_eq!(decode_token("dpipe: 1,2"), Err(Error::BadNumber));
    assert_eq!(decode_token("dpipe:--1,2"), Err(Error::BadNumber));
}

#[test]
fn decode_accepts_sign_and_leading_zeros() {
    assert_eq!(decode_token("dpipe:007,+9"), Ok((7, 9)));
    assert_eq!(decode_token("dpipe:-3,-14"), Ok((-3, -14)));
    assert_eq!(decode_token("dpipe:0000000000000000007,9"), Ok((7, 9)));
}

#[test]
fn decode_extremes() {
    assert_eq!(
        decode_token("dpipe:-2147483648,2147483647"),
        Ok((i32::MIN, i32::MAX))
    );
}

#[test]
fn decode_overflow_is_bad_number() {
    assert_eq!(decode_token("dpipe:2147483648,0"), Err(Error::BadNumber));
    assert_eq!(decode_token("dpipe:0,-2147483649"), Err(Error::BadNumber));
    assert_eq!(
        decode_token("dpipe:99999999999999999999,0"),
        Err(Error::BadNumber)
    );
}

#[test]
fn encode_then_decode_round_trips() {
    let cases: Vec<(i32, i32)> = vec![
        (0, 0),
        (5, 9),
        (-1, 1),
        (123456789, -987654321),
        (i32::MIN, i32::MAX),
        (i32::MAX, i32::MIN),
    ];
    for (r, w) in cases {
        let t = encode_token(r, w);
        assert_eq!(decode_token(&t), Ok((r, w)));
    }
}

#[test]
fn parse_i32_exact_values() {
    assert_eq!(pipes::parse_i32("42"), Some(42));
    assert_eq!(pipes::parse_i32("-42"), Some(-42));
    assert_eq!(pipes::parse_i32("+42"), Some(42));
    assert_eq!(pipes::parse_i32("-2147483648"), Some(i32::MIN));
    assert_eq!(pipes::parse_i32("2147483647"), Some(i32::MAX));
    assert_eq!(pipes::parse_i32("2147483648"), None);
    assert_eq!(pipes::parse_i32(""), None);
    assert_eq!(pipes::parse_i32("-"), None);
    assert_eq!(pipes::parse_i32("4 2"), None);
}

#[test]
fn descriptor_identifier_round_trips_as_text() {
    let d = pipes::from_string("9").expect("parse");
    assert_eq!(d.raw(), 9);
    assert_eq!(pipes::to_string(&d), "9");
    assert!(matches!(pipes::from_string("x"), Err(pipes::Error::BadNumber)));
    let neg = pipes::Desc::adopt(-17);
    assert_eq!(pipes::to_string(&neg), "-17");
}

#[test]
fn cvt_maps_minus_one_to_os_error() {
    assert_eq!(pipes::cvt(5), Ok(5));
    assert_eq!(pipes::cvt(0), Ok(0));
    assert!(matches!(pipes::cvt(-1), Err(pipes::Error::Os(_))));
}
