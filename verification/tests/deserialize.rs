use hiisi::date::parse_date;
use hiisi::date::Date;
use hiisi::decimal::parse_decimal;
use hiisi::decimal::parse_int64;
use hiisi::decimal::Decimal;
use hiisi::error::AlphaVantageError;
use hiisi::error::DeserializeError;
use hiisi::json::parse_json;
use hiisi::json::JsonValue;
use hiisi::response::parse_adjusted_price_info;
use hiisi::response::parse_price_info;

/// The numeric value a decimal denotes, for comparing against literals.
fn dec_f64(d: &Decimal) -> f64 {
    let m = d.mantissa as f64 / 10f64.powi(d.scale as i32);
    if d.negative {
        -m
    } else {
        m
    }
}

#[test]
fn test_deserialize_price_info() {
    let data = r#"{
        "1. open": "10.0",
        "2. high": "20.0",
        "3. low": "5.0",
        "4. close": "15.0",
        "5. volume": "1000"
    }"#;

    let price_info = parse_price_info(data.as_bytes()).unwrap();

    assert_eq!(dec_f64(&price_info.open), 10.0);
    assert_eq!(dec_f64(&price_info.high), 20.0);
    assert_eq!(dec_f64(&price_info.low), 5.0);
    assert_eq!(dec_f64(&price_info.close), 15.0);
    assert_eq!(price_info.volume, 1000);
}

#[test]
fn test_deserialize_adjusted_price_info() {
    let data = r#"{
        "1. open": "10.0",
        "2. high": "20.0",
        "3. low": "5.0",
        "4. close": "15.0",
        "5. adjusted close": "14.0",
        "6. volume": "1000",
        "7. dividend amount": "0.1",
        "8. split coefficient": "1.0"
    }"#;

    let adjusted_price_info = parse_adjusted_price_info(data.as_bytes()).unwrap();

    assert_eq!(dec_f64(&adjusted_price_info.open), 10.0);
    assert_eq!(dec_f64(&adjusted_price_info.high), 20.0);
    assert_eq!(dec_f64(&adjusted_price_info.low), 5.0);
    assert_eq!(dec_f64(&adjusted_price_info.close), 15.0);
    assert_eq!(dec_f64(&adjusted_price_info.adjusted_close), 14.0);
    assert_eq!(adjusted_price_info.volume, 1000);
    assert_eq!(dec_f64(&adjusted_price_info.dividend), 0.1);
    assert_eq!(dec_f64(&adjusted_price_info.split_coefficient), 1.0);
}

#[test]
fn test_missing_split_coefficient_defaults_to_zero() {
    let data = r#"{
        "1. open": "10.0",
        "2. high": "20.0",
        "3. low": "5.0",
        "4. close": "15.0",
        "5. adjusted close": "14.0",
        "6. volume": "1000",
        "7. dividend amount": "0.1"
    }"#;

    let adjusted_price_info = parse_adjusted_price_info(data.as_bytes()).unwrap();

    assert_eq!(dec_f64(&adjusted_price_info.split_coefficient), 0.0);
    assert_eq!(adjusted_price_info.split_coefficient, Decimal { negative: false, mantissa: 0, scale: 0 });
}

#[test]
fn test_non_numeric_field_fails_the_parse() {
    let data = r#"{
        "1. open": "abc",
        "2. high": "20.0",
        "3. low": "5.0",
        "4. close": "15.0",
        "5. volume": "1000"
    }"#;

    let r = parse_price_info(data.as_bytes());

    assert!(matches!(
        r,
        Err(AlphaVantageError::DeserializeError(DeserializeError::BadNumber { .. }))
    ));
}

#[test]
fn test_non_numeric_volume_fails_the_parse() {
    let data = r#"{
        "1. open": "10.0",
        "2. high": "20.0",
        "3. low": "5.0",
        "4. close": "15.0",
        "5. volume": "10.5"
    }"#;

    let r = parse_price_info(data.as_bytes());

    assert!(matches!(
        r,
        Err(AlphaVantageError::DeserializeError(DeserializeError::BadNumber { .. }))
    ));
}

#[test]
fn test_missing_field_fails_the_parse() {
    let data = r#"{
        "1. open": "10.0",
        "2. high": "20.0",
        "3. low": "5.0",
        "5. volume": "1000"
    }"#;

    let r = parse_price_info(data.as_bytes());

    assert!(matches!(
        r,
        Err(AlphaVantageError::DeserializeError(DeserializeError::MissingField { .. }))
    ));
}

#[test]
fn test_wrong_field_type_fails_the_parse() {
    let data = r#"{
        "1. open": 10.0,
        "2. high": "20.0",
        "3. low": "5.0",
        "4. close": "15.0",
        "5. volume": "1000"
    }"#;

    let r = parse_price_info(data.as_bytes());

    assert!(matches!(
        r,
        Err(AlphaVantageError::DeserializeError(DeserializeError::WrongType { .. }))
    ));
}

#[test]
fn test_parse_decimal_values() {
    assert_eq!(
        parse_decimal(b"123.45"),
        Some(Decimal { negative: false, mantissa: 12345, scale: 2 })
    );
    assert_eq!(
        parse_decimal(b"-0.5"),
        Some(Decimal { negative: true, mantissa: 5, scale: 1 })
    );
    assert_eq!(
        parse_decimal(b"+10"),
        Some(Decimal { negative: false, mantissa: 10, scale: 0 })
    );
    assert_eq!(
        parse_decimal(b"10.0"),
        Some(Decimal { negative: false, mantissa: 100, scale: 1 })
    );
    assert_eq!(
        parse_decimal(b"0.0000"),
        Some(Decimal { negative: false, mantissa: 0, scale: 4 })
    );
}

#[test]
fn test_parse_decimal_rejections() {
    assert_eq!(parse_decimal(b""), None);
    assert_eq!(parse_decimal(b"abc"), None);
    assert_eq!(parse_decimal(b"1."), None);
    assert_eq!(parse_decimal(b".5"), None);
    assert_eq!(parse_decimal(b"1.2.3"), None);
    assert_eq!(parse_decimal(b"1 "), None);
    assert_eq!(parse_decimal(b"--1"), None);
    // The mantissa exceeds what u64 holds.
    assert_eq!(parse_decimal(b"99999999999999999999999"), None);
}

#[test]
fn test_parse_int64_values() {
    assert_eq!(parse_int64(b"1000"), Some(1000));
    assert_eq!(parse_int64(b"-42"), Some(-42));
    assert_eq!(parse_int64(b"+7"), Some(7));
    assert_eq!(parse_int64(b"0"), Some(0));
    assert_eq!(parse_int64(b"9223372036854775807"), Some(i64::MAX));
    assert_eq!(parse_int64(b"-9223372036854775808"), Some(i64::MIN));
}

#[test]
fn test_parse_int64_rejections() {
    assert_eq!(parse_int64(b""), None);
    assert_eq!(parse_int64(b"12.5"), None);
    assert_eq!(parse_int64(b"abc"), None);
    assert_eq!(parse_int64(b"9223372036854775808"), None);
    assert_eq!(parse_int64(b"-9223372036854775809"), None);
}

#[test]
fn test_parse_date_values() {
    assert_eq!(
        parse_date(b"2023-04-28"),
        Some(Date { year: 2023, month: 4, day: 28 })
    );
    assert_eq!(
        parse_date(b"1970-01-01"),
        Some(Date { year: 1970, month: 1, day: 1 })
    );
    assert_eq!(
        parse_date(b"2024-02-29"),
        Some(Date { year: 2024, month: 2, day: 29 })
    );
}

#[test]
fn test_parse_date_rejections() {
    assert_eq!(parse_date(b"2023-02-29"), None);
    assert_eq!(parse_date(b"2023-13-01"), None);
    assert_eq!(parse_date(b"2023-00-10"), None);
    assert_eq!(parse_date(b"2023-04-31"), None);
    assert_eq!(parse_date(b"23-04-28"), None);
    assert_eq!(parse_date(b"2023/04/28"), None);
    assert_eq!(parse_date(b"0000-01-01"), None);
}

#[test]
fn test_epoch_seconds() {
    let epoch = Date { year: 1970, month: 1, day: 1 };
    assert_eq!(epoch.epoch_days(), 0);
    assert_eq!(epoch.epoch_seconds(), 0);

    let d = Date { year: 2023, month: 4, day: 28 };
    assert_eq!(d.epoch_days(), 19475);
    assert_eq!(d.epoch_seconds(), 1682640000);

    let before = Date { year: 1969, month: 12, day: 31 };
    assert_eq!(before.epoch_days(), -1);
}

#[test]
fn test_json_values() {
    assert!(matches!(parse_json(b" null "), Some(JsonValue::Null)));
    assert!(matches!(parse_json(b"true"), Some(JsonValue::Boolean(true))));
    assert!(matches!(parse_json(b"false"), Some(JsonValue::Boolean(false))));

    match parse_json(b"\"a\\u0041\\n\\\"\"") {
        Some(JsonValue::Text(t)) => assert_eq!(t, b"aA\n\"".to_vec()),
        other => panic!("unexpected parse: {:?}", other),
    }
    // A surrogate pair decodes to one scalar's UTF-8 bytes.
    match parse_json(b"\"\\uD83D\\uDE00\"") {
        Some(JsonValue::Text(t)) => assert_eq!(t, vec![0xf0, 0x9f, 0x98, 0x80]),
        other => panic!("unexpected parse: {:?}", other),
    }
    // Unescaped non-ASCII text passes through as its UTF-8 bytes.
    match parse_json("\"é\"".as_bytes()) {
        Some(JsonValue::Text(t)) => assert_eq!(t, vec![0xc3, 0xa9]),
        other => panic!("unexpected parse: {:?}", other),
    }
    match parse_json(b"[1, -2.5e3, []]") {
        Some(JsonValue::Array(elems)) => {
            assert_eq!(elems.len(), 3);
            assert!(matches!(&elems[0], JsonValue::Number(n) if n == &b"1".to_vec()));
            assert!(matches!(&elems[1], JsonValue::Number(n) if n == &b"-2.5e3".to_vec()));
            assert!(matches!(&elems[2], JsonValue::Array(inner) if inner.is_empty()));
        },
        other => panic!("unexpected parse: {:?}", other),
    }
    match parse_json(b"{\"a\": {\"b\": null}, \"a\": true}") {
        Some(JsonValue::Object(ms)) => assert_eq!(ms.len(), 2),
        other => panic!("unexpected parse: {:?}", other),
    }
}

#[test]
fn test_json_rejections() {
    assert!(parse_json(b"").is_none());
    assert!(parse_json(b"nul").is_none());
    assert!(parse_json(b"01").is_none());
    assert!(parse_json(b"1 2").is_none());
    assert!(parse_json(b"{\"a\": }").is_none());
    assert!(parse_json(b"[1,]").is_none());
    assert!(parse_json(b"\"\\uD83D\"").is_none());
    assert!(parse_json(b"\"unterminated").is_none());
    // Nesting deeper than the parser's limit is refused.
    let mut deep = Vec::new();
    for _ in 0..200 {
        deep.push(b'[');
    }
    deep.push(b'1');
    for _ in 0..200 {
        deep.push(b']');
    }
    assert!(parse_json(&deep).is_none());
}
