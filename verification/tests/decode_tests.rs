use aggfetch::error::FetchError;
use aggfetch::fetch::complete_fetch;
use aggfetch::schema::decode_response;

const GOOD_BODY: &str = "{\"adjusted\":true,\"queryCount\":1,\"request_id\":\"abc123\",\
         \"resultsCount\":1,\"status\":\"OK\",\"ticker\":\"AAPL\",\
         \"results\":[{\"c\":150.0,\"h\":151.0,\"l\":149.0,\"n\":1000,\
         \"o\":149.5,\"t\":1700000000000,\"v\":1000000.0,\"vw\":150.2}]}";

#[test]
fn well_formed_body_decodes() {
    let r = decode_response(GOOD_BODY).expect("well-formed body must decode");
    assert!(r.adjusted);
    assert_eq!(r.query_count, 1);
    assert_eq!(r.request_id, "abc123");
    assert_eq!(r.results_count, 1);
    assert_eq!(r.status, "OK");
    assert_eq!(r.ticker, "AAPL");
    assert_eq!(r.results.len(), 1);
    let bar = &r.results[0];
    assert_eq!(bar.c, "150.0");
    assert_eq!(bar.c.parse::<f64>().unwrap(), 150.0);
    assert_eq!(bar.h, "151.0");
    assert_eq!(bar.l, "149.0");
    assert_eq!(bar.n, 1000);
    assert_eq!(bar.o, "149.5");
    assert_eq!(bar.t, 1700000000000);
    assert_eq!(bar.v, "1000000.0");
    assert_eq!(bar.vw.parse::<f64>().unwrap(), 150.2);
}

#[test]
fn missing_status_fails() {
    let body = "{\"adjusted\":true,\"queryCount\":1,\"request_id\":\"abc123\",\
         \"resultsCount\":1,\"ticker\":\"AAPL\",\"results\":[]}";
    match decode_response(body) {
        Err(FetchError::Decode(_)) => {}
        _ => panic!("a body missing a required field must fail to decode"),
    }
}

#[test]
fn missing_bar_field_fails() {
    // the lone bar lacks `vw`
    let body = "{\"adjusted\":true,\"queryCount\":1,\"request_id\":\"x\",\
         \"resultsCount\":1,\"status\":\"OK\",\"ticker\":\"A\",\
         \"results\":[{\"c\":1,\"h\":1,\"l\":1,\"n\":1,\"o\":1,\"t\":1,\"v\":1}]}";
    assert!(decode_response(body).is_err());
}

#[test]
fn wrong_type_fails() {
    // a string where a number is expected
    let body = "{\"adjusted\":true,\"queryCount\":\"1\",\"request_id\":\"x\",\
         \"resultsCount\":1,\"status\":\"OK\",\"ticker\":\"A\",\"results\":[]}";
    assert!(decode_response(body).is_err());
    // a number where a string is expected
    let body2 = "{\"adjusted\":true,\"queryCount\":1,\"request_id\":7,\
         \"resultsCount\":1,\"status\":\"OK\",\"ticker\":\"A\",\"results\":[]}";
    assert!(decode_response(body2).is_err());
    // a fractional number where an integer is expected
    let body3 = "{\"adjusted\":true,\"queryCount\":1.5,\"request_id\":\"x\",\
         \"resultsCount\":1,\"status\":\"OK\",\"ticker\":\"A\",\"results\":[]}";
    assert!(decode_response(body3).is_err());
}

#[test]
fn unknown_fields_are_ignored() {
    let body = "{\"adjusted\":false,\"queryCount\":0,\"request_id\":\"r\",\
         \"resultsCount\":0,\"status\":\"OK\",\"ticker\":\"T\",\"results\":[],\
         \"count\":0,\"extra\":{\"deep\":[1,2,{\"x\":null}]},\"note\":\"hi\"}";
    let r = decode_response(body).expect("unknown fields must be ignored");
    assert_eq!(r.ticker, "T");
    assert_eq!(r.results.len(), 0);
    assert!(!r.adjusted);
}

#[test]
fn duplicate_field_fails() {
    let body = "{\"adjusted\":true,\"adjusted\":true,\"queryCount\":1,\
         \"request_id\":\"x\",\"resultsCount\":1,\"status\":\"OK\",\
         \"ticker\":\"A\",\"results\":[]}";
    assert!(decode_response(body).is_err());
}

#[test]
fn trailing_text_fails() {
    let mut body = GOOD_BODY.to_string();
    body.push_str(" x");
    assert!(decode_response(&body).is_err());
}

#[test]
fn malformed_json_fails() {
    assert!(decode_response("").is_err());
    assert!(decode_response("   ").is_err());
    assert!(decode_response("[1,2]").is_err());
    assert!(decode_response("{").is_err());
    assert!(decode_response("{\"adjusted\":true,}").is_err());
    let mut truncated = GOOD_BODY.to_string();
    truncated.pop();
    assert!(decode_response(&truncated).is_err());
}

#[test]
fn whitespace_around_tokens_is_accepted() {
    let body = " {\n\t\"adjusted\" : true ,\r\n \"queryCount\" : 2 , \"request_id\" : \"r\" ,\
          \"resultsCount\" : 0 , \"status\" : \"DELAYED\" , \"ticker\" : \"X\" ,\
          \"results\" : [ ] } \n";
    let r = decode_response(body).expect("whitespace must be insignificant");
    assert_eq!(r.query_count, 2);
    assert_eq!(r.status, "DELAYED");
}

#[test]
fn two_bars_keep_their_order() {
    let body = "{\"adjusted\":true,\"queryCount\":2,\"request_id\":\"r\",\
         \"resultsCount\":2,\"status\":\"OK\",\"ticker\":\"A\",\"results\":[\
         {\"c\":1,\"h\":2,\"l\":0.5,\"n\":3,\"o\":1.5,\"t\":100,\"v\":10,\"vw\":1.2},\
         {\"c\":2,\"h\":3,\"l\":1.5,\"n\":4,\"o\":2.5,\"t\":200,\"v\":20,\"vw\":2.2}]}";
    let r = decode_response(body).unwrap();
    assert_eq!(r.results.len(), 2);
    assert_eq!(r.results[0].t, 100);
    assert_eq!(r.results[1].t, 200);
    assert_eq!(r.results[0].c, "1");
    assert_eq!(r.results[1].n, 4);
}

#[test]
fn string_escapes_are_decoded() {
    let body = "{\"adjusted\":true,\"queryCount\":1,\"request_id\":\"a\\n\\t\\\"b\\\\\\u0041\",\
         \"resultsCount\":0,\"status\":\"\\u00e9\",\"ticker\":\"\\uD83D\\uDE00\",\
         \"results\":[]}";
    let r = decode_response(body).expect("escapes must decode");
    assert_eq!(r.request_id, "a\n\t\"b\\A");
    assert_eq!(r.status, "\u{e9}");
    assert_eq!(r.ticker, "\u{1F600}");
}

#[test]
fn bad_escapes_fail() {
    let mk = |rid: &str| {
        format!(
            "{{\"adjusted\":true,\"queryCount\":1,\"request_id\":\"{}\",\
             \"resultsCount\":0,\"status\":\"OK\",\"ticker\":\"A\",\"results\":[]}}",
            rid
        )
    };
    assert!(decode_response(&mk("\\q")).is_err());
    assert!(decode_response(&mk("\\uZZZZ")).is_err());
    // a lone leading surrogate, and a lone trailing surrogate
    assert!(decode_response(&mk("\\uD83D")).is_err());
    assert!(decode_response(&mk("\\uDE00")).is_err());
    // an unescaped control character
    assert!(decode_response(&mk("a\u{0001}b")).is_err());
}

#[test]
fn integer_bounds_are_enforced() {
    let mk = |t: &str| {
        format!(
            "{{\"adjusted\":true,\"queryCount\":1,\"request_id\":\"r\",\
             \"resultsCount\":1,\"status\":\"OK\",\"ticker\":\"A\",\"results\":[\
             {{\"c\":1,\"h\":1,\"l\":1,\"n\":1,\"o\":1,\"t\":{},\"v\":1,\"vw\":1}}]}}",
            t
        )
    };
    assert_eq!(
        decode_response(&mk("9223372036854775807")).unwrap().results[0].t,
        i64::MAX
    );
    assert_eq!(
        decode_response(&mk("-9223372036854775808")).unwrap().results[0].t,
        i64::MIN
    );
    assert!(decode_response(&mk("9223372036854775808")).is_err());
    assert!(decode_response(&mk("-9223372036854775809")).is_err());
    assert!(decode_response(&mk("123456789012345678901234567890")).is_err());
    assert!(decode_response(&mk("1.5")).is_err());
    assert!(decode_response(&mk("1e3")).is_err());
    assert!(decode_response(&mk("-0")).is_err());
    // queryCount is 32-bit: a value beyond it must fail
    let body = "{\"adjusted\":true,\"queryCount\":2147483648,\"request_id\":\"r\",\
         \"resultsCount\":0,\"status\":\"OK\",\"ticker\":\"A\",\"results\":[]}";
    assert!(decode_response(body).is_err());
    let body2 = "{\"adjusted\":true,\"queryCount\":-2147483648,\"request_id\":\"r\",\
         \"resultsCount\":0,\"status\":\"OK\",\"ticker\":\"A\",\"results\":[]}";
    assert_eq!(decode_response(body2).unwrap().query_count, i32::MIN);
}

#[test]
fn number_grammar_is_enforced() {
    let mk = |c: &str| {
        format!(
            "{{\"adjusted\":true,\"queryCount\":1,\"request_id\":\"r\",\
             \"resultsCount\":1,\"status\":\"OK\",\"ticker\":\"A\",\"results\":[\
             {{\"c\":{},\"h\":1,\"l\":1,\"n\":1,\"o\":1,\"t\":1,\"v\":1,\"vw\":1}}]}}",
            c
        )
    };
    // valid number spellings are kept as their text
    assert_eq!(decode_response(&mk("1e3")).unwrap().results[0].c, "1e3");
    assert_eq!(decode_response(&mk("-0.5E+2")).unwrap().results[0].c, "-0.5E+2");
    assert_eq!(decode_response(&mk("0")).unwrap().results[0].c, "0");
    // invalid spellings fail
    assert!(decode_response(&mk("012")).is_err());
    assert!(decode_response(&mk("1.")).is_err());
    assert!(decode_response(&mk(".5")).is_err());
    assert!(decode_response(&mk("+1")).is_err());
    assert!(decode_response(&mk("1e")).is_err());
    assert!(decode_response(&mk("--1")).is_err());
}

#[test]
fn transport_failure_is_passed_through() {
    match complete_fetch(Err("connection refused".to_string())) {
        Err(FetchError::Transport(m)) => assert_eq!(m, "connection refused"),
        _ => panic!("a transport failure must surface as Transport"),
    }
}

#[test]
fn fetched_body_is_decoded() {
    let r = complete_fetch(Ok(GOOD_BODY.to_string())).expect("good body via fetch");
    assert_eq!(r.ticker, "AAPL");
    assert_eq!(r.results.len(), 1);
    match complete_fetch(Ok("{not json".to_string())) {
        Err(FetchError::Decode(_)) => {}
        _ => panic!("a bad body via fetch must surface as Decode"),
    }
}

#[test]
fn error_messages_are_readable() {
    let e = FetchError::Transport("no route to host".to_string());
    assert_eq!(e.message(), "no route to host");
    match decode_response("{") {
        Err(e) => assert!(!e.message().is_empty()),
        Ok(_) => panic!("must fail"),
    }
}
