use hiisi::client::Endpoint;
use hiisi::date::Date;
use hiisi::decimal::Decimal;
use hiisi::error::AlphaVantageError;
use hiisi::error::DeserializeError;
use hiisi::response::parse_time_series_daily;
use hiisi::response::parse_time_series_daily_adjusted;
use hiisi::response::parse_time_series_monthly;
use hiisi::response::parse_time_series_monthly_adjusted;
use hiisi::response::parse_time_series_weekly;
use hiisi::response::parse_time_series_weekly_adjusted;

const DAILY_BODY: &str = r#"{
    "Meta Data": {
        "1. Information": "Daily Prices (open, high, low, close) and Volumes",
        "2. Symbol": "IBM",
        "3. Last Refreshed": "2023-04-28",
        "4. Output Size": "Compact",
        "5. Time Zone": "US/Eastern"
    },
    "Time Series (Daily)": {
        "2023-04-28": {
            "1. open": "126.58",
            "2. high": "127.25",
            "3. low": "125.64",
            "4. close": "126.41",
            "5. volume": "4180614"
        },
        "2023-04-27": {
            "1. open": "126.37",
            "2. high": "127.02",
            "3. low": "125.46",
            "4. close": "126.97",
            "5. volume": "3204829"
        }
    }
}"#;

const MONTHLY_ADJUSTED_BODY: &str = r#"{
    "Meta Data": {
        "1. Information": "Monthly Adjusted Prices and Volumes",
        "2. Symbol": "AAPL",
        "3. Last Refreshed": "2023-04-28",
        "4. Time Zone": "US/Eastern"
    },
    "Monthly Adjusted Time Series": {
        "2023-04-28": {
            "1. open": "164.27",
            "2. high": "169.85",
            "3. low": "159.78",
            "4. close": "169.68",
            "5. adjusted close": "169.68",
            "6. volume": "969709578",
            "7. dividend amount": "0.0000"
        },
        "2023-03-31": {
            "1. open": "146.83",
            "2. high": "165.00",
            "3. low": "143.90",
            "4. close": "164.90",
            "5. adjusted close": "164.90",
            "6. volume": "1520266287",
            "7. dividend amount": "0.2300",
            "8. split coefficient": "1.0"
        }
    }
}"#;

#[test]
fn test_parse_daily_response() {
    let resp = parse_time_series_daily(DAILY_BODY.as_bytes()).unwrap();

    assert_eq!(resp.metadata.symbol, b"IBM".to_vec());
    assert_eq!(resp.metadata.size, b"Compact".to_vec());
    assert_eq!(resp.metadata.tz, b"US/Eastern".to_vec());
    assert_eq!(resp.prices.len(), 2);

    let (date, row) = &resp.prices[0];
    assert_eq!(*date, Date { year: 2023, month: 4, day: 28 });
    assert_eq!(row.open, Decimal { negative: false, mantissa: 12658, scale: 2 });
    assert_eq!(row.close, Decimal { negative: false, mantissa: 12641, scale: 2 });
    assert_eq!(row.volume, 4180614);

    let (date, row) = &resp.prices[1];
    assert_eq!(*date, Date { year: 2023, month: 4, day: 27 });
    assert_eq!(row.high, Decimal { negative: false, mantissa: 12702, scale: 2 });
    assert_eq!(row.low, Decimal { negative: false, mantissa: 12546, scale: 2 });
    assert_eq!(row.volume, 3204829);
}

#[test]
fn test_parse_monthly_adjusted_response() {
    let resp = parse_time_series_monthly_adjusted(MONTHLY_ADJUSTED_BODY.as_bytes()).unwrap();

    assert_eq!(resp.metadata.symbol, b"AAPL".to_vec());
    assert_eq!(resp.prices.len(), 2);

    let (_, first) = &resp.prices[0];
    // The first row omits the split coefficient: it defaults to zero.
    assert_eq!(first.split_coefficient, Decimal { negative: false, mantissa: 0, scale: 0 });
    assert_eq!(first.dividend, Decimal { negative: false, mantissa: 0, scale: 4 });

    let (_, second) = &resp.prices[1];
    assert_eq!(second.split_coefficient, Decimal { negative: false, mantissa: 10, scale: 1 });
    assert_eq!(second.adjusted_close, Decimal { negative: false, mantissa: 16490, scale: 2 });
}

fn plain_body(series_label: &str) -> String {
    format!(
        r#"{{
            "Meta Data": {{
                "1. Information": "prices",
                "2. Symbol": "IBM",
                "3. Last Refreshed": "2023-04-28",
                "4. Time Zone": "US/Eastern"
            }},
            "{}": {{
                "2023-04-28": {{
                    "1. open": "1.0",
                    "2. high": "2.0",
                    "3. low": "0.5",
                    "4. close": "1.5",
                    "5. volume": "100"
                }}
            }}
        }}"#,
        series_label
    )
}

fn adjusted_body(series_label: &str) -> String {
    format!(
        r#"{{
            "Meta Data": {{
                "1. Information": "prices",
                "2. Symbol": "IBM",
                "3. Last Refreshed": "2023-04-28",
                "4. Output Size": "Full size",
                "5. Time Zone": "US/Eastern"
            }},
            "{}": {{
                "2023-04-28": {{
                    "1. open": "1.0",
                    "2. high": "2.0",
                    "3. low": "0.5",
                    "4. close": "1.5",
                    "5. adjusted close": "1.4",
                    "6. volume": "100",
                    "7. dividend amount": "0.1",
                    "8. split coefficient": "1.0"
                }}
            }}
        }}"#,
        series_label
    )
}

#[test]
fn test_each_endpoint_parses_its_series_label() {
    let daily_adjusted = adjusted_body("Time Series (Daily)");
    let resp = parse_time_series_daily_adjusted(daily_adjusted.as_bytes()).unwrap();
    assert_eq!(resp.metadata.size, b"Full size".to_vec());
    assert_eq!(resp.prices.len(), 1);
    assert_eq!(resp.prices[0].1.volume, 100);

    let weekly = plain_body("Weekly Time Series");
    let resp = parse_time_series_weekly(weekly.as_bytes()).unwrap();
    assert_eq!(resp.prices.len(), 1);
    assert_eq!(resp.prices[0].0, Date { year: 2023, month: 4, day: 28 });

    let monthly = plain_body("Monthly Time Series");
    let resp = parse_time_series_monthly(monthly.as_bytes()).unwrap();
    assert_eq!(resp.prices[0].1.close, Decimal { negative: false, mantissa: 15, scale: 1 });

    let weekly_adjusted = {
        // The weekly endpoints carry plain metadata, without an output size.
        let b = adjusted_body("Weekly Adjusted Time Series");
        b.replace("\"4. Output Size\": \"Full size\",", "")
            .replace("5. Time Zone", "4. Time Zone")
    };
    let resp = parse_time_series_weekly_adjusted(weekly_adjusted.as_bytes()).unwrap();
    assert_eq!(resp.prices[0].1.adjusted_close, Decimal { negative: false, mantissa: 14, scale: 1 });
}

#[test]
fn test_malformed_json_is_a_syntax_error() {
    let r = parse_time_series_daily(b"{\"Meta Data\": ");
    assert!(matches!(
        r,
        Err(AlphaVantageError::DeserializeError(DeserializeError::Syntax))
    ));
}

#[test]
fn test_non_object_document_is_the_wrong_shape() {
    let r = parse_time_series_daily(b"[1, 2, 3]");
    assert!(matches!(
        r,
        Err(AlphaVantageError::DeserializeError(DeserializeError::WrongShape))
    ));
}

#[test]
fn test_series_key_that_is_no_date_fails_the_parse() {
    let body = plain_body("Weekly Time Series").replace("2023-04-28\": {", "not-a-date\": {");
    let r = parse_time_series_weekly(body.as_bytes());
    assert!(matches!(
        r,
        Err(AlphaVantageError::DeserializeError(DeserializeError::BadDate { .. }))
    ));
}

#[test]
fn test_wrong_series_label_fails_the_parse() {
    // The weekly parser expects its own series label, not the daily one.
    assert!(parse_time_series_weekly(DAILY_BODY.as_bytes()).is_err());
}

#[test]
fn test_daily_round_trip_preserves_records() {
    let resp = parse_time_series_daily(DAILY_BODY.as_bytes()).unwrap();
    let ts = resp.to_time_series(Endpoint::Daily.interval_seconds());

    assert_eq!(ts.interval, 86400);
    assert_eq!(ts.data.len(), resp.prices.len());
    for (record, (date, row)) in ts.data.iter().zip(resp.prices.iter()) {
        assert_eq!(record.timestamp, date.epoch_seconds());
        assert_eq!(record.open, row.open);
        assert_eq!(record.high, row.high);
        assert_eq!(record.low, row.low);
        assert_eq!(record.close, row.close);
        assert_eq!(record.volume, row.volume);
    }
    // The first record: 2023-04-28 at midnight UTC.
    assert_eq!(ts.data[0].timestamp, 1682640000);
}

#[test]
fn test_monthly_adjusted_round_trip_preserves_records() {
    let resp = parse_time_series_monthly_adjusted(MONTHLY_ADJUSTED_BODY.as_bytes()).unwrap();
    let ts = resp.to_time_series(Endpoint::MonthlyAdjusted.interval_seconds());

    assert_eq!(ts.interval, 30 * 86400);
    assert_eq!(ts.data.len(), resp.prices.len());
    for (record, (date, row)) in ts.data.iter().zip(resp.prices.iter()) {
        assert_eq!(record.timestamp, date.epoch_seconds());
        assert_eq!(record.open, row.open);
        assert_eq!(record.high, row.high);
        assert_eq!(record.low, row.low);
        assert_eq!(record.close, row.close);
        assert_eq!(record.volume, row.volume);
    }
}
