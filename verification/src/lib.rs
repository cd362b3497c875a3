//! A verified core for a telephony REST client: signed outbound requests,
//! authenticated inbound webhooks, and typed dispatch of their payloads.

use vstd::prelude::*;
use vstd::string::StrSliceExecFns;
use vstd::string::StringExecFns;

pub mod field_map;
mod outside;
pub mod webhook;

pub use field_map::FieldMap;
pub use webhook::InboundRequest;
pub use webhook::Method;

use crate::outside::push_char;

verus! {

/// A payload type that can be built from an inbound field map. Every
/// domain type dispatched to by [`Client::respond_to_webhook`] implements
/// this single conversion; it fails with an error when required fields are
/// absent or malformed.
pub trait FromMap {
    /// Build a value of the type from the parsed fields.
    fn from_map(m: FieldMap) -> Result<Box<Self>, TwilioError>;
}

/// A markup document as the response builder hands it over: something that
/// serializes itself to the wire format the remote service expects.
pub trait Twiml {
    /// Serialize the accumulated instructions into the response body.
    fn as_twiml(&self) -> String;
}

/// The error taxonomy of the library. Every failure is returned to the
/// immediate caller; nothing is swallowed.
#[derive(Debug, PartialEq, Eq, Structural, Clone, Copy)]
pub enum TwilioError {
    /// The outbound request could not be built at the HTTP-client level.
    NetworkError,
    /// The underlying transport failed to complete the exchange.
    TransmissionError,
    /// The remote service answered with a non-success status, kept here.
    HTTPError(u16),
    /// A response body or an inbound field map could not be decoded.
    ParsingError,
    /// Missing or invalid webhook signature, or a signature mismatch.
    AuthError,
    /// Malformed inbound request shape.
    BadRequest,
}

/// A client identity: account id and shared secret, immutable once built.
pub struct Client {
    account_id: String,
    auth_token: String,
}

impl Client {
    /// The account identifier, as a mathematical value.
    pub closed spec fn account(&self) -> Seq<char> {
        self.account_id@
    }

    /// The shared secret, as a mathematical value.
    pub closed spec fn token(&self) -> Seq<char> {
        self.auth_token@
    }

    /// Build a client from an account id and its auth token.
    pub fn new(account_id: &str, auth_token: &str) -> (c: Client)
        ensures
            c.account() == account_id@,
            c.token() == auth_token@,
    {
        Client {
            account_id: account_id.to_owned(),
            auth_token: auth_token.to_owned(),
        }
    }

    /// The account identifier.
    pub fn account_id(&self) -> (r: &str)
        ensures
            r@ == self.account(),
    {
        self.account_id.as_str()
    }

    /// The shared secret.
    pub fn auth_token(&self) -> (r: &str)
        ensures
            r@ == self.token(),
    {
        self.auth_token.as_str()
    }

    /// Build the outbound request target for an endpoint of this account.
    pub fn request_url(&self, endpoint: &str) -> (r: String)
        ensures
            r@ == api_url(self.account(), endpoint@),
    {
        let mut r = String::from_str("https://api.twilio.com/2010-04-01/Accounts/");
        r.append(self.account_id.as_str());
        r.append("/");
        r.append(endpoint);
        r.append(".json");
        r
    }
}

/// The target URL of an outbound API call.
pub open spec fn api_url(account: Seq<char>, endpoint: Seq<char>) -> Seq<char> {
    "https://api.twilio.com/2010-04-01/Accounts/"@ + account + "/"@ + endpoint + ".json"@
}

/// A character with a literal `+` written out as its percent escape.
pub open spec fn esc_char(c: char) -> Seq<char> {
    if c == '+' {
        seq!['%', '2', 'B']
    } else {
        seq![c]
    }
}

/// A string with every literal `+` replaced by `%2B`.
pub open spec fn plus_escape(s: Seq<char>) -> Seq<char>
    decreases s.len(),
{
    if s.len() == 0 {
        Seq::empty()
    } else {
        plus_escape(s.drop_last()) + esc_char(s.last())
    }
}

/// The form-urlencoded rendering of an ordered parameter list: each pair
/// as `key=value` followed by `&` — the separator trails the last pair too
/// — with every `+` of a key or value escaped to `%2B`.
pub open spec fn encoded_pairs(params: Seq<(Seq<char>, Seq<char>)>) -> Seq<char>
    decreases params.len(),
{
    if params.len() == 0 {
        Seq::empty()
    } else {
        encoded_pairs(params.drop_last()) + plus_escape(params.last().0) + seq!['=']
            + plus_escape(params.last().1) + seq!['&']
    }
}

proof fn lemma_plus_escape_push(s: Seq<char>, c: char)
    ensures
        plus_escape(s.push(c)) == plus_escape(s) + esc_char(c),
{
    assert(s.push(c).drop_last() =~= s);
    assert(s.push(c).last() == c);
}

/// Append `piece` to `out` with every `+` escaped to `%2B`.
fn append_escaped(out: &mut String, piece: &str)
    ensures
        final(out)@ == old(out)@ + plus_escape(piece@),
{
    let len = piece.unicode_len();
    let mut i: usize = 0;
    proof {
        assert(out@ =~= old(out)@ + plus_escape(piece@.subrange(0, 0)));
    }
    while i < len
        invariant
            i <= len,
            len == piece@.len(),
            out@ == old(out)@ + plus_escape(piece@.subrange(0, i as int)),
        decreases len - i,
    {
        let c = piece.get_char(i);
        if c == '+' {
            push_char(out, '%');
            push_char(out, '2');
            push_char(out, 'B');
        } else {
            push_char(out, c);
        }
        proof {
            assert(piece@.subrange(0, i + 1) =~= piece@.subrange(0, i as int).push(
                piece@[i as int],
            ));
            lemma_plus_escape_push(piece@.subrange(0, i as int), piece@[i as int]);
            assert(out@ =~= old(out)@ + plus_escape(piece@.subrange(0, i + 1)));
        }
        i += 1;
    }
    proof {
        assert(piece@.subrange(0, len as int) =~= piece@);
    }
}

/// Render an ordered parameter list as a form-urlencoded body. Reproduces
/// the wire encoding exactly, trailing separator included.
pub fn url_encode(params: &[(&str, &str)]) -> (r: String)
    ensures
        r@ == encoded_pairs(params.deep_view()),
{
    let mut r = String::new();
    let n = params.len();
    let mut i: usize = 0;
    proof {
        assert(r@ =~= encoded_pairs(params.deep_view().subrange(0, 0)));
    }
    while i < n
        invariant
            i <= n,
            n == params@.len(),
            params.deep_view().len() == params@.len(),
            r@ == encoded_pairs(params.deep_view().subrange(0, i as int)),
        decreases n - i,
    {
        let p = params[i];
        append_escaped(&mut r, p.0);
        push_char(&mut r, '=');
        append_escaped(&mut r, p.1);
        push_char(&mut r, '&');
        proof {
            let pv = params.deep_view();
            assert(pv.subrange(0, i + 1).drop_last() =~= pv.subrange(0, i as int));
            assert(pv.subrange(0, i + 1).last() == pv[i as int]);
            assert(pv[i as int] == (p.0@, p.1@));
            assert(r@ =~= encoded_pairs(pv.subrange(0, i + 1)));
        }
        i += 1;
    }
    proof {
        assert(params.deep_view().subrange(0, n as int) =~= params.deep_view());
    }
    r
}

/// Map a response status to the outbound result: 200 and 201 are the only
/// successes; every other status is surfaced as `HTTPError` with its code.
pub fn classify_status(status: u16) -> (r: Result<(), TwilioError>)
    ensures
        r is Ok <==> (status == 200 || status == 201),
        r is Err ==> r == Result::<(), TwilioError>::Err(TwilioError::HTTPError(status)),
{
    if status == 200 || status == 201 {
        Ok(())
    } else {
        Err(TwilioError::HTTPError(status))
    }
}

/// Map the outcome of decoding a success-status response body: the decoded
/// value, or `ParsingError` where the body did not decode.
pub fn decode_outcome<T>(decoded: Option<T>) -> (r: Result<T, TwilioError>)
    ensures
        match decoded {
            Some(v) => r == Result::<T, TwilioError>::Ok(v),
            None => r == Result::<T, TwilioError>::Err(TwilioError::ParsingError),
        },
{
    match decoded {
        Some(v) => Ok(v),
        None => Err(TwilioError::ParsingError),
    }
}

/// The HTTP response a webhook dispatch answers with.
pub struct WebhookResponse {
    pub status: u16,
    pub content_type: Option<String>,
    pub content_length: Option<u64>,
    pub body: String,
}

/// The byte length of a body text, as set in the content-length header.
pub open spec fn body_byte_len(s: Seq<char>) -> u64 {
    (vstd::utf8::encode_utf8(s).len() as usize) as u64
}

/// The fixed rejection that every authentication or parsing failure is
/// collapsed to: HTTP 400 with a plain body, leaking no detail.
pub open spec fn is_error_response(r: WebhookResponse) -> bool {
    &&& r.status == 400
    &&& r.body@ == "Error."@
    &&& r.content_type is None
    &&& r.content_length is None
}

/// A successful dispatch: HTTP 200, the markup media type, and a content
/// length that is exactly the byte length of the body.
pub open spec fn is_success_response(r: WebhookResponse) -> bool {
    &&& r.status == 200
    &&& match r.content_type {
        Some(ct) => ct@ == "text/xml"@,
        None => false,
    }
    &&& r.content_length == Some(body_byte_len(r.body@))
}

/// The fixed 400 rejection.
pub fn error_response() -> (r: WebhookResponse)
    ensures
        is_error_response(r),
{
    WebhookResponse {
        status: 400,
        content_type: None,
        content_length: None,
        body: String::from_str("Error."),
    }
}

/// Wrap a serialized markup document into the success response.
pub fn success_response(body: String) -> (r: WebhookResponse)
    ensures
        is_success_response(r),
        r.body@ == body@,
{
    let len = body.as_str().len();
    WebhookResponse {
        status: 200,
        content_type: Some(String::from_str("text/xml")),
        content_length: Some(len as u64),
        body,
    }
}

/// Law: response serialization is deterministic — two success responses
/// built over the same body text agree on every wire-visible field.
pub proof fn lemma_response_build_deterministic(r1: WebhookResponse, r2: WebhookResponse)
    requires
        is_success_response(r1),
        is_success_response(r2),
        r1.body@ == r2.body@,
    ensures
        r1.status == r2.status,
        r1.content_length == r2.content_length,
        match (r1.content_type, r2.content_type) {
            (Some(a), Some(b)) => a@ == b@,
            _ => false,
        },
{
}

impl Client {
    /// Authenticate and dispatch an inbound webhook request. On any
    /// authentication or parsing failure the fixed 400 rejection is
    /// returned; otherwise the caller's logic runs on the typed payload and
    /// its markup document is serialized into a 200 response.
    pub fn respond_to_webhook<T: FromMap, M: Twiml, F: FnOnce(T) -> M>(
        &self,
        req: InboundRequest,
        logic: F,
    ) -> (r: WebhookResponse)
        requires
            forall|t: T| #[trigger] call_requires(logic, (t,)),
        ensures
            webhook::auth_spec(req, self.token()) is Err ==> is_error_response(r),
            is_success_response(r) ==> webhook::auth_spec(req, self.token()) is Ok,
            is_error_response(r) || is_success_response(r),
    {
        let o: T = match self.parse_request::<T>(req) {
            Ok(obj) => *obj,
            Err(_) => {
                return error_response();
            },
        };
        let t = logic(o);
        let body = t.as_twiml();
        success_response(body)
    }
}

} // verus!
