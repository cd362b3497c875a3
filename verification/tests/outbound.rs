use twilio::classify_status;
use twilio::decode_outcome;
use twilio::url_encode;
use twilio::Client;
use twilio::TwilioError;

#[test]
fn url_encode_escapes_plus_and_keeps_trailing_separator() {
    assert_eq!(url_encode(&[("Body", "a+b")]), "Body=a%2Bb&");
}

#[test]
fn url_encode_joins_pairs_in_order() {
    assert_eq!(url_encode(&[("To", "+155"), ("From", "+166"), ("Body", "hi")]),
        "To=%2B155&From=%2B166&Body=hi&");
}

#[test]
fn url_encode_of_nothing_is_empty() {
    assert_eq!(url_encode(&[]), "");
}

#[test]
fn url_encode_escapes_plus_in_keys_too() {
    assert_eq!(url_encode(&[("a+b", "c++")]), "a%2Bb=c%2B%2B&");
}

#[test]
fn request_url_targets_the_account_endpoint() {
    let client = Client::new("AC123", "token");
    assert_eq!(client.request_url("Messages"),
        "https://api.twilio.com/2010-04-01/Accounts/AC123/Messages.json");
}

#[test]
fn client_keeps_its_identity() {
    let client = Client::new("AC123", "token");
    assert_eq!(client.account_id(), "AC123");
    assert_eq!(client.auth_token(), "token");
}

#[test]
fn non_success_status_is_http_error_with_its_code() {
    assert!(matches!(classify_status(500), Err(TwilioError::HTTPError(500))));
    assert!(matches!(classify_status(404), Err(TwilioError::HTTPError(404))));
    assert!(matches!(classify_status(302), Err(TwilioError::HTTPError(302))));
}

#[test]
fn success_statuses_are_accepted() {
    assert!(classify_status(200).is_ok());
    assert!(classify_status(201).is_ok());
}

#[test]
fn undecodable_success_body_is_parsing_error() {
    let r: Result<u32, TwilioError> = decode_outcome(None);
    assert!(matches!(r, Err(TwilioError::ParsingError)));
}

#[test]
fn decoded_success_body_is_returned() {
    let r: Result<u32, TwilioError> = decode_outcome(Some(7));
    assert_eq!(r, Ok(7));
}
