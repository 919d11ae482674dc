use loopback_gateway::envelope::{ResponseEnvelope, TransportOutcome};

fn responded(status: u16, body: &str) -> TransportOutcome {
    TransportOutcome::Responded { status, body: body.as_bytes().to_vec() }
}

#[test]
fn transport_failure_becomes_request_error() {
    let outcome = TransportOutcome::Failed { details: String::from("connection refused") };
    let envelope = ResponseEnvelope::from_outcome(outcome);
    assert_eq!(
        envelope,
        ResponseEnvelope::RequestError { details: String::from("connection refused") }
    );
    assert_eq!(envelope.body(), "{\"error\":\"request_error\",\"details\":\"connection refused\"}");
    assert_eq!(envelope.status(), 502);
    assert!(!envelope.is_success());
}

#[test]
fn request_error_body_is_json_whatever_the_cause() {
    for details in ["", "a \"quoted\" cause", "back\\slash", "line\nbreak\ttab", "\u{0}\u{1f}", "dns: 名前解決 ✗"] {
        let envelope = ResponseEnvelope::RequestError { details: String::from(details) };
        let body = envelope.body();
        assert!(body.starts_with("{\"error\":\"request_error\",\"details\":\""));
        assert!(body.ends_with("\"}"));
        let value: serde_json::Value = serde_json::from_str(&body).unwrap();
        let object = value.as_object().unwrap();
        assert_eq!(object.len(), 2);
        assert_eq!(object.get("error").unwrap().as_str(), Some("request_error"));
        assert_eq!(object.get("details").unwrap().as_str(), Some(details));
    }
}

#[test]
fn non_json_body_becomes_parse_error_with_the_status() {
    let envelope = ResponseEnvelope::from_outcome(responded(500, "not json"));
    assert_eq!(envelope, ResponseEnvelope::ParseError { status: 500 });
    assert_eq!(envelope.body(), "{\"error\":\"parse_error\",\"status\":500}");
    assert_eq!(envelope.status(), 502);
}

#[test]
fn parse_error_keeps_the_status_of_a_successful_response() {
    let envelope = ResponseEnvelope::from_outcome(responded(200, "<html></html>"));
    assert_eq!(envelope, ResponseEnvelope::ParseError { status: 200 });
    assert_eq!(envelope.body(), "{\"error\":\"parse_error\",\"status\":200}");
}

#[test]
fn empty_or_truncated_body_is_a_parse_error() {
    assert_eq!(
        ResponseEnvelope::from_outcome(responded(204, "")),
        ResponseEnvelope::ParseError { status: 204 }
    );
    assert_eq!(
        ResponseEnvelope::from_outcome(responded(200, "{\"ok\":tr")),
        ResponseEnvelope::ParseError { status: 200 }
    );
    assert_eq!(
        ResponseEnvelope::from_outcome(responded(200, "{\"ok\":true} trailing")),
        ResponseEnvelope::ParseError { status: 200 }
    );
    assert_eq!(
        ResponseEnvelope::from_outcome(TransportOutcome::Responded {
            status: 200,
            body: vec![0x22, 0xff, 0x22],
        }),
        ResponseEnvelope::ParseError { status: 200 }
    );
}

#[test]
fn unread_body_is_a_parse_error_with_the_status() {
    let envelope = ResponseEnvelope::from_outcome(TransportOutcome::Truncated { status: 206 });
    assert_eq!(envelope, ResponseEnvelope::ParseError { status: 206 });
    assert_eq!(envelope.body(), "{\"error\":\"parse_error\",\"status\":206}");
}

#[test]
fn parse_error_status_is_written_in_decimal() {
    for (status, text) in [(0u16, "0"), (7, "7"), (10, "10"), (99, "99"), (100, "100"), (404, "404"), (65535, "65535")] {
        let body = ResponseEnvelope::ParseError { status }.body();
        assert_eq!(body, format!("{{\"error\":\"parse_error\",\"status\":{}}}", text));
        let value: serde_json::Value = serde_json::from_str(&body).unwrap();
        assert_eq!(value.get("status").unwrap().as_u64(), Some(u64::from(status)));
        assert_eq!(value.get("error").unwrap().as_str(), Some("parse_error"));
    }
}

#[test]
fn json_body_becomes_the_document() {
    let envelope = ResponseEnvelope::from_outcome(responded(200, "{\"ok\":true}"));
    assert_eq!(
        envelope,
        ResponseEnvelope::Success { status: 200, document: String::from("{\"ok\":true}") }
    );
    assert_eq!(envelope.body(), "{\"ok\":true}");
    assert_eq!(envelope.status(), 200);
    assert!(envelope.is_success());
}

#[test]
fn document_is_written_compactly() {
    let envelope =
        ResponseEnvelope::from_outcome(responded(200, " { \"name\" : \"x\" ,\n \"n\" : [ 1 , 2.5 , null ] } "));
    assert_eq!(envelope.body(), "{\"n\":[1,2.5,null],\"name\":\"x\"}");
}

#[test]
fn document_is_the_same_value_as_the_upstream_body() {
    for body in ["null", "true", "0", "-12.5e3", "\"text\"", "[]", "{}", "[1,[2,[3]]]", "{\"a\":{\"b\":[\"c\",{\"d\":\"\\u00e9\\n\"}]}}"] {
        let envelope = ResponseEnvelope::from_outcome(responded(200, body));
        let sent: serde_json::Value = serde_json::from_str(&envelope.body()).unwrap();
        let upstream: serde_json::Value = serde_json::from_str(body).unwrap();
        assert_eq!(sent, upstream);
    }
}

#[test]
fn success_keeps_the_upstream_status_and_is_sent_with_200() {
    let envelope = ResponseEnvelope::from_outcome(responded(404, "{\"message\":\"no such item\"}"));
    assert_eq!(
        envelope,
        ResponseEnvelope::Success { status: 404, document: String::from("{\"message\":\"no such item\"}") }
    );
    assert_eq!(envelope.status(), 200);
}

#[test]
fn from_decoded_follows_the_decoder() {
    assert_eq!(
        ResponseEnvelope::from_decoded(201, Some(String::from("[1]"))),
        ResponseEnvelope::Success { status: 201, document: String::from("[1]") }
    );
    assert_eq!(ResponseEnvelope::from_decoded(201, None), ResponseEnvelope::ParseError { status: 201 });
}

#[test]
fn request_level_errors_have_fixed_bodies() {
    assert_eq!(ResponseEnvelope::InvalidUrl.body(), "{\"error\":\"invalid_url\"}");
    assert_eq!(ResponseEnvelope::InvalidUrl.status(), 400);
    assert_eq!(ResponseEnvelope::InvalidBody.body(), "{\"error\":\"invalid_body\"}");
    assert_eq!(ResponseEnvelope::InvalidBody.status(), 400);
}

#[test]
fn only_success_is_sent_with_a_2xx_status() {
    let envelopes = [
        ResponseEnvelope::Success { status: 500, document: String::from("{}") },
        ResponseEnvelope::RequestError { details: String::new() },
        ResponseEnvelope::ParseError { status: 200 },
        ResponseEnvelope::InvalidUrl,
        ResponseEnvelope::InvalidBody,
    ];
    for envelope in envelopes.iter() {
        let status = envelope.status();
        assert_eq!(envelope.is_success(), (200..300).contains(&status));
        if !envelope.is_success() {
            let value: serde_json::Value = serde_json::from_str(&envelope.body()).unwrap();
            assert!(value.get("error").is_some());
        }
    }
}
