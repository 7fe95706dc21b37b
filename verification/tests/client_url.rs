use hiisi::client::Client;
use hiisi::client::Endpoint;
use hiisi::error::AlphaVantageError;

#[test]
fn test_client_make_url() {
    let client = Client::new("test_api_key");
    let url = client.make_url("TIME_SERIES_DAILY", "MSFT", true).unwrap();

    assert_eq!(
        url,
        "https://alphavantage.co/query?function=TIME_SERIES_DAILY&symbol=MSFT&apikey=test_api_key&outputsize=full"
    );
}

#[test]
fn test_compact_url_has_three_parameters() {
    let client = Client::new("test_api_key");
    let url = client.make_url("TIME_SERIES_DAILY", "MSFT", false).unwrap();

    assert_eq!(
        url,
        "https://alphavantage.co/query?function=TIME_SERIES_DAILY&symbol=MSFT&apikey=test_api_key"
    );
    assert!(!url.contains("outputsize"));
    assert_eq!(url.matches('=').count(), 3);
    assert_eq!(url.matches('&').count(), 2);
}

#[test]
fn test_full_url_appends_output_size_after_apikey() {
    let client = Client::new_with_url("k", "http://127.0.0.1:9999");
    let compact = client.make_url("TIME_SERIES_WEEKLY", "IBM", false).unwrap();
    let full = client.make_url("TIME_SERIES_WEEKLY", "IBM", true).unwrap();

    assert_eq!(full, format!("{}&outputsize=full", compact));
    assert_eq!(
        full,
        "http://127.0.0.1:9999/query?function=TIME_SERIES_WEEKLY&symbol=IBM&apikey=k&outputsize=full"
    );
}

#[test]
fn test_base_url_path_is_discarded() {
    let client = Client::new_with_url("k", "https://example.com/some/old/path");
    let url = client.make_url("TIME_SERIES_MONTHLY", "IBM", false).unwrap();

    assert_eq!(
        url,
        "https://example.com/query?function=TIME_SERIES_MONTHLY&symbol=IBM&apikey=k"
    );
}

#[test]
fn test_symbol_is_percent_encoded() {
    let client = Client::new_with_url("a key", "https://example.com");
    let url = client.make_url("TIME_SERIES_DAILY", "A B&C=d.é", false).unwrap();

    assert_eq!(
        url,
        "https://example.com/query?function=TIME_SERIES_DAILY&symbol=A+B%26C%3Dd.%C3%A9&apikey=a+key"
    );
}

#[test]
fn test_invalid_base_url_is_a_parse_error() {
    let client = Client::new_with_url("k", "not a url");
    let r = client.make_url("TIME_SERIES_DAILY", "IBM", false);

    assert!(matches!(r, Err(AlphaVantageError::ParseError(_))));
}

#[test]
fn test_endpoint_function_names() {
    assert_eq!(Endpoint::Daily.function_name(), "TIME_SERIES_DAILY");
    assert_eq!(Endpoint::DailyAdjusted.function_name(), "TIME_SERIES_DAILY_ADJUSTED");
    assert_eq!(Endpoint::Weekly.function_name(), "TIME_SERIES_WEEKLY");
    assert_eq!(Endpoint::WeeklyAdjusted.function_name(), "TIME_SERIES_WEEKLY_ADJUSTED");
    assert_eq!(Endpoint::Monthly.function_name(), "TIME_SERIES_MONTHLY");
    assert_eq!(Endpoint::MonthlyAdjusted.function_name(), "TIME_SERIES_MONTHLY_ADJUSTED");
}

#[test]
fn test_endpoint_intervals() {
    assert_eq!(Endpoint::Daily.interval_seconds(), 86400);
    assert_eq!(Endpoint::DailyAdjusted.interval_seconds(), 86400);
    assert_eq!(Endpoint::Weekly.interval_seconds(), 7 * 86400);
    assert_eq!(Endpoint::WeeklyAdjusted.interval_seconds(), 7 * 86400);
    assert_eq!(Endpoint::Monthly.interval_seconds(), 30 * 86400);
    assert_eq!(Endpoint::MonthlyAdjusted.interval_seconds(), 30 * 86400);
}
