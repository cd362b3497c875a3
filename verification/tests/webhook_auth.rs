use twilio::Client;
use twilio::FieldMap;
use twilio::FromMap;
use twilio::InboundRequest;
use twilio::Method;
use twilio::Twiml;
use twilio::TwilioError;

use crypto::hmac::Hmac;
use crypto::mac::Mac;
use crypto::sha1::Sha1;

fn signature_for(canonical: &str, token: &str) -> String {
    let mut mac = Hmac::new(Sha1::new(), token.as_bytes());
    mac.input(canonical.as_bytes());
    let result = mac.result();
    base64::encode(result.code())
}

fn get_request(path: &str, host: &str, signature: Option<String>) -> InboundRequest {
    InboundRequest {
        method: Method::Get,
        path: path.to_string(),
        host: Some(host.to_string()),
        signature,
        body: Vec::new(),
    }
}

fn post_request(path: &str, host: &str, signature: Option<String>, body: &str) -> InboundRequest {
    InboundRequest {
        method: Method::Post,
        path: path.to_string(),
        host: Some(host.to_string()),
        signature,
        body: body.as_bytes().to_vec(),
    }
}

#[test]
fn get_with_query_authenticates() {
    let client = Client::new("AC123", "secret");
    let sig = signature_for(
        "https://example.com/message?From=%2B15551234567&Body=hi",
        "secret",
    );
    let req = get_request("/message?From=%2B15551234567&Body=hi", "example.com", Some(sig));
    let map = client.authenticate(&req).expect("authentication should succeed");
    assert_eq!(map.len(), 2);
    assert_eq!(map.get("From"), Some(&"+15551234567".to_string()));
    assert_eq!(map.get("Body"), Some(&"hi".to_string()));
}

#[test]
fn get_with_wrong_secret_fails() {
    let client = Client::new("AC123", "secret");
    let sig = signature_for(
        "https://example.com/message?From=%2B15551234567&Body=hi",
        "other-secret",
    );
    let req = get_request("/message?From=%2B15551234567&Body=hi", "example.com", Some(sig));
    assert!(matches!(client.authenticate(&req), Err(TwilioError::AuthError)));
}

#[test]
fn get_with_tampered_signature_fails() {
    let client = Client::new("AC123", "secret");
    let canonical = "https://example.com/message?From=%2B15551234567&Body=hi";
    let mut raw = {
        let mut mac = Hmac::new(Sha1::new(), "secret".as_bytes());
        mac.input(canonical.as_bytes());
        mac.result().code().to_vec()
    };
    raw[0] ^= 0x01;
    let sig = base64::encode(&raw);
    let req = get_request("/message?From=%2B15551234567&Body=hi", "example.com", Some(sig));
    assert!(matches!(client.authenticate(&req), Err(TwilioError::AuthError)));
}

#[test]
fn get_with_tampered_message_fails() {
    let client = Client::new("AC123", "secret");
    let sig = signature_for("https://example.com/message?From=%2B15551234567&Body=ho", "secret");
    let req = get_request("/message?From=%2B15551234567&Body=hi", "example.com", Some(sig));
    assert!(matches!(client.authenticate(&req), Err(TwilioError::AuthError)));
}

#[test]
fn post_fields_sign_in_encounter_order() {
    let client = Client::new("AC123", "secret");
    let sig = signature_for("https://example.com/messageFrom+1555Bodyhi", "secret");
    let req = post_request("/message", "example.com", Some(sig), "From=%2B1555&Body=hi");
    let map = client.authenticate(&req).expect("authentication should succeed");
    assert_eq!(map.len(), 2);
    assert_eq!(map.get("From"), Some(&"+1555".to_string()));
    assert_eq!(map.get("Body"), Some(&"hi".to_string()));
}

#[test]
fn post_fields_signed_in_wrong_order_fail() {
    let client = Client::new("AC123", "secret");
    let sig = signature_for("https://example.com/messageBodyhiFrom+1555", "secret");
    let req = post_request("/message", "example.com", Some(sig), "From=%2B1555&Body=hi");
    assert!(matches!(client.authenticate(&req), Err(TwilioError::AuthError)));
}

#[test]
fn missing_signature_header_is_auth_error() {
    let client = Client::new("AC123", "secret");
    let req = get_request("/message", "example.com", None);
    assert!(matches!(client.authenticate(&req), Err(TwilioError::AuthError)));
}

#[test]
fn signature_that_is_not_base64_is_bad_request() {
    let client = Client::new("AC123", "secret");
    let req = get_request("/message", "example.com", Some("!!! not base64 !!!".to_string()));
    assert!(matches!(client.authenticate(&req), Err(TwilioError::BadRequest)));
}

#[test]
fn missing_host_is_bad_request() {
    let client = Client::new("AC123", "secret");
    let sig = signature_for("https://example.com/message", "secret");
    let req = InboundRequest {
        method: Method::Get,
        path: "/message".to_string(),
        host: None,
        signature: Some(sig),
        body: Vec::new(),
    };
    assert!(matches!(client.authenticate(&req), Err(TwilioError::BadRequest)));
}

#[test]
fn wildcard_path_is_bad_request_even_with_correct_signature() {
    let client = Client::new("AC123", "secret");
    let sig = signature_for("https://example.com*", "secret");
    let req = get_request("*", "example.com", Some(sig));
    assert!(matches!(client.authenticate(&req), Err(TwilioError::BadRequest)));
}

#[test]
fn unsupported_method_is_bad_request() {
    let client = Client::new("AC123", "secret");
    let sig = signature_for("https://example.com/message", "secret");
    let req = InboundRequest {
        method: Method::Put,
        path: "/message".to_string(),
        host: Some("example.com".to_string()),
        signature: Some(sig),
        body: Vec::new(),
    };
    assert!(matches!(client.authenticate(&req), Err(TwilioError::BadRequest)));
}

#[test]
fn get_without_query_yields_empty_map() {
    let client = Client::new("AC123", "secret");
    let sig = signature_for("https://example.com/message", "secret");
    let req = get_request("/message", "example.com", Some(sig));
    let map = client.authenticate(&req).expect("authentication should succeed");
    assert_eq!(map.len(), 0);
}

#[test]
fn get_with_two_question_marks_yields_empty_map() {
    let client = Client::new("AC123", "secret");
    let sig = signature_for("https://example.com/a?b=1?c=2", "secret");
    let req = get_request("/a?b=1?c=2", "example.com", Some(sig));
    let map = client.authenticate(&req).expect("authentication should succeed");
    assert_eq!(map.len(), 0);
}

#[test]
fn duplicate_query_keys_last_value_wins() {
    let client = Client::new("AC123", "secret");
    let sig = signature_for("https://example.com/m?a=1&a=2", "secret");
    let req = get_request("/m?a=1&a=2", "example.com", Some(sig));
    let map = client.authenticate(&req).expect("authentication should succeed");
    assert_eq!(map.len(), 1);
    assert_eq!(map.get("a"), Some(&"2".to_string()));
}

#[test]
fn sign_then_verify_succeeds_and_tampering_fails() {
    let sig = twilio::webhook::sign("https://example.com/x", "key");
    assert!(twilio::webhook::verify(&sig, "https://example.com/x", "key"));
    assert!(!twilio::webhook::verify(&sig, "https://example.com/y", "key"));
    assert!(!twilio::webhook::verify(&sig, "https://example.com/x", "kez"));
    let mut tampered = sig.clone();
    tampered[3] ^= 0x80;
    assert!(!twilio::webhook::verify(&tampered, "https://example.com/x", "key"));
}

struct TestMessage {
    from: Option<String>,
    body: Option<String>,
}

impl FromMap for TestMessage {
    fn from_map(m: FieldMap) -> Result<Box<Self>, TwilioError> {
        Ok(Box::new(TestMessage {
            from: m.get("From").cloned(),
            body: m.get("Body").cloned(),
        }))
    }
}

struct RequiredFrom {
    from: String,
}

impl FromMap for RequiredFrom {
    fn from_map(m: FieldMap) -> Result<Box<Self>, TwilioError> {
        match m.get("From") {
            Some(v) => Ok(Box::new(RequiredFrom { from: v.clone() })),
            None => Err(TwilioError::ParsingError),
        }
    }
}

struct Doc {
    text: String,
}

impl Twiml for Doc {
    fn as_twiml(&self) -> String {
        format!("<Response><Say>{}</Say></Response>", self.text)
    }
}

#[test]
fn parse_request_hands_fields_to_the_payload_type() {
    let client = Client::new("AC123", "secret");
    let sig = signature_for("https://example.com/messageFrom+1555Bodyhi", "secret");
    let req = post_request("/message", "example.com", Some(sig), "From=%2B1555&Body=hi");
    let msg: Box<TestMessage> = client.parse_request(req).expect("parsing should succeed");
    assert_eq!(msg.from, Some("+1555".to_string()));
    assert_eq!(msg.body, Some("hi".to_string()));
}

#[test]
fn parse_request_surfaces_conversion_failure() {
    let client = Client::new("AC123", "secret");
    let sig = signature_for("https://example.com/messageBodyhi", "secret");
    let req = post_request("/message", "example.com", Some(sig), "Body=hi");
    let r: Result<Box<RequiredFrom>, TwilioError> = client.parse_request(req);
    assert!(matches!(r, Err(TwilioError::ParsingError)));
}

#[test]
fn respond_builds_success_response() {
    let client = Client::new("AC123", "secret");
    let sig = signature_for("https://example.com/messageFrom+1555Bodyhi", "secret");
    let req = post_request("/message", "example.com", Some(sig), "From=%2B1555&Body=hi");
    let resp = client.respond_to_webhook(req, |m: TestMessage| Doc {
        text: m.body.unwrap_or_default(),
    });
    assert_eq!(resp.status, 200);
    assert_eq!(resp.content_type, Some("text/xml".to_string()));
    assert_eq!(resp.body, "<Response><Say>hi</Say></Response>");
    assert_eq!(resp.content_length, Some(resp.body.len() as u64));
}

#[test]
fn respond_collapses_failures_to_400() {
    let client = Client::new("AC123", "secret");
    let req = get_request("/message", "example.com", None);
    let resp = client.respond_to_webhook(req, |_m: TestMessage| Doc { text: String::new() });
    assert_eq!(resp.status, 400);
    assert_eq!(resp.body, "Error.");
    assert_eq!(resp.content_type, None);
    assert_eq!(resp.content_length, None);
}

#[test]
fn responding_twice_yields_byte_identical_output() {
    let client = Client::new("AC123", "secret");
    let sig = signature_for("https://example.com/messageFrom+1555Bodyhi", "secret");
    let make_req = || post_request(
        "/message",
        "example.com",
        Some(sig.clone()),
        "From=%2B1555&Body=hi",
    );
    let logic = |m: TestMessage| Doc { text: m.body.unwrap_or_default() };
    let first = client.respond_to_webhook(make_req(), logic);
    let second = client.respond_to_webhook(make_req(), logic);
    assert_eq!(first.status, second.status);
    assert_eq!(first.content_type, second.content_type);
    assert_eq!(first.content_length, second.content_length);
    assert_eq!(first.body, second.body);
}

#[test]
fn query_percent_escapes_are_decoded() {
    let client = Client::new("AC123", "secret");
    let sig = signature_for("https://example.com/m?Body=a%2Bb%20c", "secret");
    let req = get_request("/m?Body=a%2Bb%20c", "example.com", Some(sig));
    let map = client.authenticate(&req).expect("authentication should succeed");
    assert_eq!(map.get("Body"), Some(&"a+b c".to_string()));
}
