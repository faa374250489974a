use shunt::json::{read_json, Json, JsonNumber};
use shunt::usage::{
    parse_usage, refusal, usage_of_reading, usage_of_response, usage_request, UsageError,
    API_VERSION,
};

fn object(members: Vec<(&str, Json)>) -> Json {
    Json::Object(
        members
            .into_iter()
            .map(|(key, value)| (key.to_string(), value))
            .collect(),
    )
}

fn text(s: &str) -> Json {
    Json::Text(s.to_string())
}

fn double(d: f64) -> JsonNumber {
    JsonNumber::Double(d.to_bits())
}

#[test]
fn parses_real_quota_response_shape() {
    let value = object(vec![(
        "buckets",
        Json::Array(vec![
            object(vec![
                ("modelId", text("gpt-oss-120b-medium")),
                ("remainingFraction", Json::Number(double(0.92))),
                ("remainingAmount", text("920")),
                ("resetTime", text("2026-09-24T00:00:00Z")),
            ]),
            object(vec![
                ("modelId", text("gemini-3.5-flash")),
                ("remainingFraction", Json::Number(double(0.41))),
                ("resetTime", text("2026-09-25T12:00:00Z")),
            ]),
            object(vec![("remainingFraction", Json::Number(double(0.5)))]),
        ]),
    )]);
    let buckets = parse_usage(&value).expect("recognizable buckets parse");
    assert_eq!(buckets.len(), 3);
    assert_eq!(buckets[0].label, "gpt-oss-120b-medium");
    assert_eq!(buckets[0].remaining, Some(double(0.92)));
    assert_eq!(
        buckets[0].reset_time.as_deref(),
        Some("2026-09-24T00:00:00Z")
    );
    assert_eq!(buckets[1].label, "gemini-3.5-flash");
    assert_eq!(buckets[1].remaining, Some(double(0.41)));
    assert_eq!(buckets[2].label, "unknown");
    assert_eq!(buckets[2].remaining, Some(double(0.5)));
    assert_eq!(buckets[2].reset_time, None);
}

#[test]
fn rejects_response_without_buckets() {
    let value = object(vec![("garbage", Json::Bool(true))]);
    assert!(
        parse_usage(&value).is_err(),
        "an unrelated payload must not parse as quota"
    );
}

#[test]
fn only_an_array_of_buckets_counts() {
    for value in [
        Json::Null,
        Json::Array(vec![]),
        text("buckets"),
        object(vec![("buckets", object(vec![]))]),
        object(vec![("buckets", Json::Null)]),
    ] {
        let error = parse_usage(&value).unwrap_err();
        assert!(matches!(error, UsageError::NoBuckets));
        assert_eq!(
            error.message(),
            "usage response carries no recognizable quota buckets"
        );
    }
}

#[test]
fn no_buckets_at_all_is_no_error() {
    let value = object(vec![("buckets", Json::Array(vec![])), ("more", Json::Null)]);
    assert!(parse_usage(&value).unwrap().is_empty());
}

#[test]
fn members_of_the_wrong_kind_are_passed_over() {
    let value = object(vec![(
        "buckets",
        Json::Array(vec![
            Json::Null,
            object(vec![
                ("modelId", Json::Number(JsonNumber::Unsigned(1))),
                ("remainingFraction", text("0.5")),
                ("resetTime", Json::Bool(false)),
            ]),
            object(vec![
                ("modelId", text("first")),
                ("remainingFraction", Json::Number(JsonNumber::Unsigned(1))),
                ("modelId", text("last")),
            ]),
        ]),
    )]);
    let buckets = parse_usage(&value).unwrap();
    for bucket in &buckets[..2] {
        assert_eq!(bucket.label, "unknown");
        assert_eq!(bucket.remaining, None);
        assert_eq!(bucket.reset_time, None);
    }
    assert_eq!(buckets[2].label, "last");
    assert_eq!(buckets[2].remaining, Some(JsonNumber::Unsigned(1)));
}

#[test]
fn fetch_usage_sends_hub_user_agent() {
    let request = usage_request("https://host", "token", "project", "hub/1.2");
    assert_eq!(request.user_agent, "hub/1.2");
    assert_eq!(request.bearer, "token");
    assert_eq!(request.body, "{\"project\":\"project\"}");
    assert_eq!(request.timeout_secs, 10);

    let body = "{\"buckets\":[{\"modelId\":\"gemini-3.5-flash\",\"remainingFraction\":0.7}]}";
    let buckets = usage_of_response(200, body).expect("usage fetch succeeds");
    assert_eq!(buckets.len(), 1);
    assert_eq!(buckets[0].label, "gemini-3.5-flash");
    assert_eq!(buckets[0].remaining, Some(double(0.7)));
}

#[test]
fn fetch_usage_errors_on_non_success() {
    let error = usage_of_response(403, "PERMISSION_DENIED").expect_err("a 403 must surface");
    assert!(error.message().contains("403"), "got: {}", error.message());
    assert_eq!(
        error.message(),
        "usage request failed (403 Forbidden): PERMISSION_DENIED"
    );
}

#[test]
fn every_refused_status_is_named() {
    for status in 100..=999 {
        let r = usage_of_response(status, "{\"buckets\":[]}");
        if (200..300).contains(&status) {
            assert!(r.unwrap().is_empty());
        } else {
            let message = r.unwrap_err().message();
            assert!(message.starts_with(&format!("usage request failed ({status} ")));
            assert!(message.ends_with("): {\"buckets\":[]}"));
        }
    }
}

#[test]
fn refusals_quote_the_start_of_the_answer() {
    let answer = "é".repeat(300);
    let error = refusal("599 Odd".to_string(), &answer);
    let quoted = "é".repeat(200);
    assert_eq!(
        error.message(),
        format!("usage request failed (599 Odd): {quoted}")
    );
    let whole = "é".repeat(200);
    let error = refusal("599 Odd".to_string(), &whole);
    assert_eq!(
        error.message(),
        format!("usage request failed (599 Odd): {whole}")
    );
}

#[test]
fn answers_that_are_no_json_are_refused() {
    let error = usage_of_response(200, "<html>").unwrap_err();
    assert!(matches!(error, UsageError::InvalidResponse { .. }));
    assert_eq!(
        error.message(),
        "invalid usage response: expected value at line 1 column 1"
    );
    let error = usage_of_reading(Err("words".to_string())).unwrap_err();
    assert_eq!(error.message(), "invalid usage response: words");
}

#[test]
fn base_slashes_do_not_matter() {
    assert_eq!(API_VERSION, "v1internal");
    for base in ["https://host/api", "https://host/api/", "https://host/api///"] {
        assert_eq!(
            usage_request(base, "t", "p", "u").url,
            "https://host/api/v1internal:retrieveUserQuota"
        );
    }
}

#[test]
fn project_bodies_are_json() {
    let request = usage_request("b", "t", "a\"b\\c", "u");
    assert_eq!(request.body, "{\"project\":\"a\\\"b\\\\c\"}");
    let json = read_json(&request.body).unwrap();
    assert!(matches!(json.member("project"), Some(Json::Text(s)) if s == "a\"b\\c"));
}

#[test]
fn documents_are_read_in_full() {
    let json = read_json("{\"a\":[null,true,3,-4,1.5,18446744073709551615,\"x\",{\"b\":{}}],\"c\":1,\"c\":2}")
        .unwrap();
    let items = json.member("a").unwrap().elements().unwrap();
    assert_eq!(items.len(), 8);
    assert!(matches!(items[0], Json::Null));
    assert!(matches!(items[1], Json::Bool(true)));
    assert!(matches!(items[2], Json::Number(JsonNumber::Unsigned(3))));
    assert!(matches!(items[3], Json::Number(JsonNumber::Negative(-4))));
    assert!(matches!(items[4], Json::Number(n) if n == double(1.5)));
    assert!(matches!(items[5], Json::Number(JsonNumber::Unsigned(u64::MAX))));
    assert!(matches!(&items[6], Json::Text(s) if s == "x"));
    assert!(matches!(items[7].member("b"), Some(Json::Object(members)) if members.is_empty()));
    assert!(matches!(
        json.member("c"),
        Some(Json::Number(JsonNumber::Unsigned(2)))
    ));
    assert!(json.member("d").is_none());
    assert!(items[0].member("a").is_none());
    assert!(json.elements().is_none());
}

#[test]
fn numbers_that_are_read_are_finite() {
    let body = "{\"buckets\":[{\"remainingFraction\":1.7976931348623157e308},\
                {\"remainingFraction\":-0},{\"remainingFraction\":-1}]}";
    let buckets = usage_of_response(200, body).unwrap();
    assert_eq!(buckets[0].remaining, Some(double(f64::MAX)));
    assert_eq!(buckets[1].remaining, Some(double(-0.0)));
    assert_eq!(buckets[2].remaining, Some(JsonNumber::Negative(-1)));

    let body = "{\"buckets\":[{\"remainingFraction\":1e400}]}";
    let error = usage_of_response(200, body).unwrap_err();
    assert!(
        error.message().starts_with("invalid usage response: number out of range"),
        "got: {}",
        error.message()
    );
}
