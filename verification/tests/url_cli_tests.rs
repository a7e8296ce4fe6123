use aggfetch::cli::{missing_key_message, plan_invocation, usage_message, Plan};
use aggfetch::url::{build_url, parse_url};

fn args(v: &[&str]) -> Vec<String> {
    v.iter().map(|s| s.to_string()).collect()
}

#[test]
fn url_has_all_inputs_verbatim() {
    let u = build_url("AAPL", "2023-01-01", "2023-01-02", "k3y");
    assert_eq!(
        u,
        "https://api.polygon.io/v2/aggs/ticker/AAPL/range/1/day/2023-01-01/2023-01-02?apiKey=k3y"
    );
    assert!(u.contains("AAPL"));
    assert!(u.contains("2023-01-01"));
    assert!(u.contains("2023-01-02"));
    assert!(u.contains("k3y"));
}

#[test]
fn url_round_trip_recovers_inputs() {
    let u = build_url("MSFT", "2020-02-02", "2020-03-03", "secret-key");
    let (t, f, o, k) = parse_url(&u).expect("built URL must parse");
    assert_eq!(t, "MSFT");
    assert_eq!(f, "2020-02-02");
    assert_eq!(o, "2020-03-03");
    assert_eq!(k, "secret-key");
}

#[test]
fn url_parse_rejects_other_hosts() {
    assert!(parse_url("https://example.com/v2/aggs/ticker/A/range/1/day/a/b?apiKey=k").is_none());
    assert!(parse_url("").is_none());
    assert!(parse_url("https://api.polygon.io/v2/aggs/ticker/A/range/1/day/a/b").is_none());
}

#[test]
fn plan_usage_on_wrong_argument_count() {
    // too few and too many positional arguments, with and without a key
    for argv in [
        args(&["prog"]),
        args(&["prog", "AAPL"]),
        args(&["prog", "AAPL", "2023-01-01"]),
        args(&["prog", "AAPL", "2023-01-01", "2023-01-02", "extra"]),
    ] {
        match plan_invocation(&argv, Some("k".to_string())) {
            Plan::Usage => {}
            _ => panic!("expected a usage error"),
        }
        match plan_invocation(&argv, None) {
            Plan::Usage => {}
            _ => panic!("expected a usage error"),
        }
    }
}

#[test]
fn plan_missing_key_on_three_arguments_without_key() {
    let argv = args(&["prog", "AAPL", "2023-01-01", "2023-01-02"]);
    match plan_invocation(&argv, None) {
        Plan::MissingKey => {}
        _ => panic!("expected a configuration error"),
    }
}

#[test]
fn plan_fetch_carries_arguments_verbatim() {
    let argv = args(&["prog", "AAPL", "2023-01-01", "2023-01-02"]);
    match plan_invocation(&argv, Some("k3y".to_string())) {
        Plan::Fetch {
            ticker,
            from,
            to,
            api_key,
        } => {
            assert_eq!(ticker, "AAPL");
            assert_eq!(from, "2023-01-01");
            assert_eq!(to, "2023-01-02");
            assert_eq!(api_key, "k3y");
        }
        _ => panic!("expected a fetch plan"),
    }
}

#[test]
fn messages_are_fixed() {
    assert_eq!(usage_message(), "Usage: cargo run <ticker> <from> <to>");
    assert_eq!(
        missing_key_message(),
        "Error: API_KEY environment variable not set"
    );
}
