use uppy::config::parse_config;
use uppy::config::config_template;
use uppy::config::config_dir_suffix;
use uppy::config::config_file_name;
use uppy::response::next_step;
use uppy::response::parse_response;
use uppy::response::PipelineStep;
use uppy::upload::classify_send;
use uppy::upload::construct_headers;
use uppy::upload::upload_url;
use uppy::upload::SendResult;
use uppy::upload::UploadOutcome;

#[test]
fn template_text_is_pretty_printed() {
    assert_eq!(config_template(), "{\n  \"host\": \"https://\",\n  \"token\": \"\"\n}");
}

#[test]
fn template_round_trips_through_parser() {
    let t = config_template();
    let c = parse_config(&t).unwrap();
    assert_eq!(c.host, "https://");
    assert_eq!(c.token, "");
}

#[test]
fn config_constants() {
    assert_eq!(config_dir_suffix(), "\\.config\\uppy");
    assert_eq!(config_file_name(), "config.json");
}

#[test]
fn config_members_in_either_order() {
    let c = parse_config("{\"host\": \"https://h.example\", \"token\": \"T\"}").unwrap();
    assert_eq!(c.host, "https://h.example");
    assert_eq!(c.token, "T");
    let c = parse_config("{ \"token\" : \"T\" , \"host\" : \"https://h.example\" }").unwrap();
    assert_eq!(c.host, "https://h.example");
    assert_eq!(c.token, "T");
}

#[test]
fn config_with_simple_escapes() {
    let c = parse_config("{\"host\":\"a\\nb\\\"c\",\"token\":\"x\\\\y\\/z\"}").unwrap();
    assert_eq!(c.host, "a\nb\"c");
    assert_eq!(c.token, "x\\y/z");
}

#[test]
fn config_with_unicode_escapes() {
    let c = parse_config("{\"host\":\"\\u0041\\u00e9\",\"token\":\"\\uD83D\\uDE00\"}").unwrap();
    assert_eq!(c.host, "A\u{e9}");
    assert_eq!(c.token, "\u{1F600}");
}

#[test]
fn config_rejects_missing_member() {
    assert!(parse_config("{\"host\":\"h\"}").is_none());
}

#[test]
fn config_rejects_duplicate_keys() {
    assert!(parse_config("{\"host\":\"a\",\"host\":\"b\"}").is_none());
}

#[test]
fn config_ignores_unknown_members() {
    let c = parse_config("{\"host\":\"a\",\"port\":\"b\",\"token\":\"t\"}").unwrap();
    assert_eq!(c.host, "a");
    assert_eq!(c.token, "t");
    let c = parse_config(
        "{ \"n\": -12.5e+3, \"ok\": true, \"host\": \"a\", \"z\": null, \"token\": \"t\" }",
    )
    .unwrap();
    assert_eq!(c.host, "a");
    assert_eq!(c.token, "t");
    let c = parse_config(
        "{\"deep\":{\"a\":[1,{\"b\":[]},\"s\"],\"c\":{}},\"token\":\"t\",\"host\":\"h\"}",
    )
    .unwrap();
    assert_eq!(c.host, "h");
    assert_eq!(c.token, "t");
}

#[test]
fn config_ignores_duplicate_unknown_members() {
    let c = parse_config("{\"a\":\"1\",\"a\":\"2\",\"host\":\"h\",\"token\":\"t\"}").unwrap();
    assert_eq!(c.host, "h");
    assert_eq!(c.token, "t");
}

#[test]
fn config_rejects_missing_member_among_others() {
    assert!(parse_config("{\"host\":\"h\",\"extra\":\"x\"}").is_none());
    assert!(parse_config("{}").is_none());
}

#[test]
fn config_rejects_non_string_expected_member() {
    assert!(parse_config("{\"host\":7,\"token\":\"t\"}").is_none());
    assert!(parse_config("{\"host\":\"h\",\"token\":null}").is_none());
}

#[test]
fn config_rejects_malformed_unknown_value() {
    assert!(parse_config("{\"a\":01,\"host\":\"h\",\"token\":\"t\"}").is_none());
    assert!(parse_config("{\"a\":[1,,2],\"host\":\"h\",\"token\":\"t\"}").is_none());
}

#[test]
fn config_rejects_trailing_text() {
    assert!(parse_config("{\"host\":\"a\",\"token\":\"b\"} x").is_none());
}

#[test]
fn config_rejects_lone_surrogate() {
    assert!(parse_config("{\"host\":\"\\uD83D\",\"token\":\"b\"}").is_none());
}

#[test]
fn config_rejects_raw_control_character() {
    assert!(parse_config("{\"host\":\"a\nb\",\"token\":\"b\"}").is_none());
}

#[test]
fn response_with_one_url() {
    let files = parse_response("{\"files\":[\"https://h.example/abc\"]}").unwrap();
    assert_eq!(files, vec!["https://h.example/abc".to_string()]);
}

#[test]
fn response_with_no_url() {
    let files = parse_response("{ \"files\" : [ ] }").unwrap();
    assert!(files.is_empty());
}

#[test]
fn response_with_several_urls() {
    let files = parse_response("{\"files\":[\"a\", \"b\" ,\"c\"]}").unwrap();
    assert_eq!(files, vec!["a".to_string(), "b".to_string(), "c".to_string()]);
}

#[test]
fn response_ignores_unknown_members() {
    let files = parse_response("{\"files\":[\"u\"],\"size\":\"10\"}").unwrap();
    assert_eq!(files, vec!["u".to_string()]);
    let files = parse_response("{\"ok\":true,\"files\":[],\"meta\":{\"n\":3}}").unwrap();
    assert!(files.is_empty());
}

#[test]
fn response_rejects_malformed_body() {
    assert!(parse_response("not json").is_none());
    assert!(parse_response("{\"files\":[\"a\"").is_none());
    assert!(parse_response("{\"files\":\"a\"}").is_none());
    assert!(parse_response("{\"other\":[\"a\"]}").is_none());
}

#[test]
fn classification_follows_status_class() {
    let r = classify_send(SendResult::Response { status: 200, body: "b".to_string() });
    assert!(matches!(r, UploadOutcome::Success { body } if body == "b"));
    let r = classify_send(SendResult::Response { status: 399, body: String::new() });
    assert!(matches!(r, UploadOutcome::Success { .. }));
    let r = classify_send(SendResult::Response { status: 400, body: String::new() });
    assert!(matches!(r, UploadOutcome::ClientError { status: 400 }));
    let r = classify_send(SendResult::Response { status: 499, body: String::new() });
    assert!(matches!(r, UploadOutcome::ClientError { status: 499 }));
    let r = classify_send(SendResult::Response { status: 500, body: String::new() });
    assert!(matches!(r, UploadOutcome::ServerError { status: 500 }));
    let r = classify_send(SendResult::Response { status: 599, body: String::new() });
    assert!(matches!(r, UploadOutcome::ServerError { status: 599 }));
    let r = classify_send(SendResult::Response { status: 600, body: String::new() });
    assert!(matches!(r, UploadOutcome::Success { .. }));
}

#[test]
fn classification_of_failed_sends() {
    assert!(matches!(classify_send(SendResult::FormError), UploadOutcome::IOFailure));
    assert!(matches!(classify_send(SendResult::SendError), UploadOutcome::TransportFailure));
}

#[test]
fn one_url_goes_to_the_clipboard() {
    let outcome = UploadOutcome::Success {
        body: "{\"files\":[\"https://h.example/abc\"]}".to_string(),
    };
    let step = next_step(&outcome);
    assert!(matches!(step, PipelineStep::CopyUrl { url } if url == "https://h.example/abc"));
}

#[test]
fn one_url_among_other_members_goes_to_the_clipboard() {
    let outcome = UploadOutcome::Success {
        body: "{\"files\":[\"https://h.example/abc\"],\"size\":\"10\"}".to_string(),
    };
    let step = next_step(&outcome);
    assert!(matches!(step, PipelineStep::CopyUrl { url } if url == "https://h.example/abc"));
}

#[test]
fn other_cardinalities_are_silently_ignored() {
    let outcome = UploadOutcome::Success { body: "{\"files\":[]}".to_string() };
    assert!(matches!(next_step(&outcome), PipelineStep::Ignore));
    let outcome = UploadOutcome::Success { body: "{\"files\":[\"a\",\"b\"]}".to_string() };
    assert!(matches!(next_step(&outcome), PipelineStep::Ignore));
    let outcome = UploadOutcome::Success { body: "{\"files\":[],\"x\":\"y\"}".to_string() };
    assert!(matches!(next_step(&outcome), PipelineStep::Ignore));
}

#[test]
fn malformed_body_is_fatal() {
    let outcome = UploadOutcome::Success { body: "oops".to_string() };
    assert!(matches!(next_step(&outcome), PipelineStep::MalformedBody));
}

#[test]
fn client_error_never_reaches_the_clipboard() {
    let outcome = classify_send(SendResult::Response { status: 404, body: String::new() });
    assert!(matches!(outcome, UploadOutcome::ClientError { status: 404 }));
    let step = next_step(&outcome);
    assert!(matches!(step, PipelineStep::ReportClientError { status: 404 }));
}

#[test]
fn failure_outcomes_map_to_their_reports() {
    assert!(matches!(next_step(&UploadOutcome::IOFailure), PipelineStep::ReportIOFailure));
    assert!(matches!(
        next_step(&UploadOutcome::TransportFailure),
        PipelineStep::ReportTransportFailure
    ));
    assert!(matches!(
        next_step(&UploadOutcome::ServerError { status: 503 }),
        PipelineStep::ReportServerError { status: 503 }
    ));
}

#[test]
fn upload_url_appends_the_route() {
    assert_eq!(upload_url("https://h.example"), "https://h.example/api/upload");
}

#[test]
fn headers_carry_token_verbatim_and_fixed_pair() {
    let config = parse_config("{\"host\":\"https://h.example\",\"token\":\"T\"}").unwrap();
    let headers = construct_headers(&config);
    assert_eq!(headers.len(), 3);
    assert_eq!(headers[0], ("Authorization".to_string(), "T".to_string()));
    assert_eq!(headers[1], ("Format".to_string(), "RANDOM".to_string()));
    assert_eq!(headers[2], ("Embed".to_string(), "true".to_string()));
}
