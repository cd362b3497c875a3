//! Webhook authentication: rebuilding the canonical string the remote
//! service signed — the externally visible HTTPS URL plus, for POST, the
//! flattened form fields — and checking it against the signature header.

use vstd::prelude::*;
use vstd::string::StrSliceExecFns;
use vstd::string::StringExecFns;
use vstd::utf8::encode_utf8;

use crate::field_map::fm_from_pairs;
use crate::field_map::fm_suffix;
use crate::field_map::str_eq;
use crate::field_map::FieldMap;
use crate::outside::base64_decode_bytes;
use crate::outside::base64_decoded;
use crate::outside::hmac_sha1;
use crate::outside::hmac_sha1_digest;
use crate::outside::mac_bytes_equal;
use crate::outside::parse_urlencoded;
use crate::outside::parsed_form;
use crate::Client;
use crate::FromMap;
use crate::TwilioError;

verus! {

/// An HTTP method. Inbound webhooks accept GET and POST only; anything
/// else is rejected as malformed.
#[derive(Debug, PartialEq, Eq, Structural, Clone, Copy)]
pub enum Method {
    Get,
    Post,
    Put,
    Other,
}

/// An inbound webhook request, handed over fully parsed by the HTTP layer.
pub struct InboundRequest {
    pub method: Method,
    /// The request target as received: the path, followed by `?` and the
    /// query string when one was sent.
    pub path: String,
    /// The `Host` header, when present.
    pub host: Option<String>,
    /// The `X-Twilio-Signature` header, when present.
    pub signature: Option<String>,
    /// The raw body bytes.
    pub body: Vec<u8>,
}

/// The scheme the remote service always signs with, whatever scheme the
/// request actually arrived over.
pub open spec fn https_scheme() -> Seq<char> {
    seq!['h', 't', 't', 'p', 's', ':', '/', '/']
}

/// The canonical string to sign: `https://<host><path><suffix>`.
pub open spec fn canonical_message(host: Seq<char>, path: Seq<char>, suffix: Seq<char>) -> Seq<
    char,
> {
    https_scheme() + host + path + suffix
}

/// Whether `sig` is the keyed digest of `message` under `token`.
pub open spec fn signature_matches(sig: Seq<u8>, message: Seq<char>, token: Seq<char>) -> bool {
    sig == hmac_sha1(encode_utf8(token), encode_utf8(message))
}

/// How often `c` occurs in `s`.
pub open spec fn count_char(s: Seq<char>, c: char) -> nat
    decreases s.len(),
{
    if s.len() == 0 {
        0
    } else {
        count_char(s.drop_last(), c) + (if s.last() == c {
            1nat
        } else {
            0nat
        })
    }
}

/// The position of the first occurrence of `c` in `s`, or the length of
/// `s` when it is absent.
pub open spec fn first_index(s: Seq<char>, c: char) -> int
    decreases s.len(),
{
    if s.len() == 0 {
        0
    } else if s.first() == c {
        0
    } else {
        1 + first_index(s.drop_first(), c)
    }
}

/// The query string of a request target that holds exactly one `?`; a
/// target with none or with several yields no fields at all.
pub open spec fn query_part(path: Seq<char>) -> Option<Seq<char>> {
    if count_char(path, '?') == 1 {
        Some(path.subrange(first_index(path, '?') + 1, path.len() as int))
    } else {
        None
    }
}

/// The field map a GET request target parses to.
pub open spec fn get_args_spec(path: Seq<char>) -> Seq<(Seq<char>, Seq<char>)> {
    match query_part(path) {
        Some(q) => fm_from_pairs(parsed_form(encode_utf8(q))),
        None => Seq::empty(),
    }
}

/// What authenticating an inbound request yields: the parsed field map, or
/// the error the request is rejected with. The checks run in this order:
/// signature header present, header decodes as base64, `Host` present,
/// path not the wildcard `*`, method GET or POST, and last the keyed-hash
/// comparison itself.
pub open spec fn auth_spec(req: InboundRequest, token: Seq<char>) -> Result<
    Seq<(Seq<char>, Seq<char>)>,
    TwilioError,
> {
    match req.signature {
        None => Err(TwilioError::AuthError),
        Some(sig_header) => match base64_decoded(encode_utf8(sig_header@)) {
            None => Err(TwilioError::BadRequest),
            Some(sig) => match req.host {
                None => Err(TwilioError::BadRequest),
                Some(host) => {
                    if req.path@ == "*"@ {
                        Err(TwilioError::BadRequest)
                    } else if req.method == Method::Get {
                        if signature_matches(
                            sig,
                            canonical_message(host@, req.path@, Seq::empty()),
                            token,
                        ) {
                            Ok(get_args_spec(req.path@))
                        } else {
                            Err(TwilioError::AuthError)
                        }
                    } else if req.method == Method::Post {
                        let m = fm_from_pairs(parsed_form(req.body@));
                        if signature_matches(
                            sig,
                            canonical_message(host@, req.path@, fm_suffix(m)),
                            token,
                        ) {
                            Ok(m)
                        } else {
                            Err(TwilioError::AuthError)
                        }
                    } else {
                        Err(TwilioError::BadRequest)
                    }
                },
            },
        },
    }
}

/// `first_index` is the position of a match that nothing precedes.
proof fn lemma_first_index_at(s: Seq<char>, c: char, j: int)
    requires
        0 <= j < s.len(),
        s[j] == c,
        forall|k: int| 0 <= k < j ==> s[k] != c,
    ensures
        first_index(s, c) == j,
    decreases j,
{
    if j == 0 {
    } else {
        assert(s.drop_first()[j - 1] == c);
        assert(forall|k: int| 0 <= k < j - 1 ==> s.drop_first()[k] == s[k + 1]);
        lemma_first_index_at(s.drop_first(), c, j - 1);
    }
}

/// Parse the query-string fields out of a GET request target. The target
/// must hold exactly one `?` for any fields to be read; otherwise the map
/// is empty.
pub fn get_args(path: &str) -> (r: FieldMap)
    ensures
        r@ == get_args_spec(path@),
{
    let len = path.unicode_len();
    let mut i: usize = 0;
    let mut cnt: usize = 0;
    let mut first: usize = len;
    while i < len
        invariant
            i <= len,
            len == path@.len(),
            cnt <= i,
            cnt == count_char(path@.subrange(0, i as int), '?'),
            cnt == 0 ==> first == len && (forall|j: int| 0 <= j < i ==> path@[j] != '?'),
            cnt > 0 ==> first < i && path@[first as int] == '?' && (forall|j: int|
                0 <= j < first ==> path@[j] != '?'),
        decreases len - i,
    {
        let c = path.get_char(i);
        proof {
            assert(path@.subrange(0, i + 1).drop_last() =~= path@.subrange(0, i as int));
            assert(path@.subrange(0, i + 1).last() == path@[i as int]);
        }
        if c == '?' {
            if cnt == 0 {
                first = i;
            }
            cnt = cnt + 1;
        }
        i += 1;
    }
    proof {
        assert(path@.subrange(0, len as int) =~= path@);
    }
    if cnt == 1 {
        proof {
            lemma_first_index_at(path@, '?', first as int);
        }
        let q = path.substring_char(first + 1, len);
        let pairs = parse_urlencoded(q.as_bytes());
        FieldMap::from_pairs(&pairs)
    } else {
        FieldMap::new()
    }
}

/// Parse a form-urlencoded byte string into a field map, later occurrences
/// of a key overwriting earlier ones.
pub fn args_from_urlencoded(enc: &[u8]) -> (r: FieldMap)
    ensures
        r@ == fm_from_pairs(parsed_form(enc@)),
{
    let pairs = parse_urlencoded(enc);
    FieldMap::from_pairs(&pairs)
}

/// Compute the keyed digest of a canonical string under a shared secret:
/// the signature the remote service would attach.
pub fn sign(message: &str, token: &str) -> (r: Vec<u8>)
    ensures
        r@ == hmac_sha1(encode_utf8(token@), encode_utf8(message@)),
        r@.len() == 20,
{
    hmac_sha1_digest(token.as_bytes(), message.as_bytes())
}

/// Check a decoded signature against a canonical string, in constant time.
pub fn verify(signature: &[u8], message: &str, token: &str) -> (r: bool)
    ensures
        r == signature_matches(signature@, message@, token@),
{
    let digest = sign(message, token);
    mac_bytes_equal(digest.as_slice(), signature)
}

/// Law: a signature produced over a canonical string verifies against the
/// same string and the same secret.
pub proof fn lemma_sign_then_verify(message: Seq<char>, token: Seq<char>)
    ensures
        signature_matches(
            hmac_sha1(encode_utf8(token), encode_utf8(message)),
            message,
            token,
        ),
{
}

impl Client {
    /// Authenticate an inbound webhook request and hand back its fields.
    /// Exactly the checks of [`auth_spec`], in its order: the result is the
    /// field map on a signature match, and otherwise the error that names
    /// what was rejected.
    pub fn authenticate(&self, req: &InboundRequest) -> (r: Result<FieldMap, TwilioError>)
        ensures
            ({
                let s = auth_spec(*req, self.token());
                &&& r is Ok ==> s is Ok && r->Ok_0@ == s->Ok_0
                &&& r is Err ==> s is Err && r->Err_0 == s->Err_0
            }),
    {
        let sig_header = match &req.signature {
            None => {
                return Err(TwilioError::AuthError);
            },
            Some(s) => s,
        };
        let sig = match base64_decode_bytes(sig_header.as_str().as_bytes()) {
            None => {
                return Err(TwilioError::BadRequest);
            },
            Some(v) => v,
        };
        let host = match &req.host {
            None => {
                return Err(TwilioError::BadRequest);
            },
            Some(h) => h,
        };
        if str_eq(req.path.as_str(), "*") {
            return Err(TwilioError::BadRequest);
        }
        let mut canonical = String::from_str("https://");
        proof {
            reveal_strlit("https://");
            assert(canonical@ =~= https_scheme());
        }
        canonical.append(host.as_str());
        canonical.append(req.path.as_str());
        let args: FieldMap = match req.method {
            Method::Get => {
                proof {
                    assert(canonical@ =~= canonical_message(host@, req.path@, Seq::empty()));
                }
                get_args(req.path.as_str())
            },
            Method::Post => {
                let m = args_from_urlencoded(req.body.as_slice());
                m.append_suffix(&mut canonical);
                m
            },
            _ => {
                return Err(TwilioError::BadRequest);
            },
        };
        if verify(sig.as_slice(), canonical.as_str(), self.auth_token()) {
            Ok(args)
        } else {
            Err(TwilioError::AuthError)
        }
    }

    /// Authenticate an inbound webhook request and convert its field map
    /// into the caller's payload type. Any rejection of [`auth_spec`] is
    /// returned as that error; a request that authenticates is handed to
    /// the type's own conversion, whose result is returned as is.
    pub fn parse_request<T: FromMap>(&self, req: InboundRequest) -> (r: Result<
        Box<T>,
        TwilioError,
    >)
        ensures
            auth_spec(req, self.token()) is Err ==> r is Err && r->Err_0 == auth_spec(
                req,
                self.token(),
            )->Err_0,
            r is Ok ==> auth_spec(req, self.token()) is Ok,
    {
        let args = match self.authenticate(&req) {
            Ok(m) => m,
            Err(e) => {
                return Err(e);
            },
        };
        T::from_map(args)
    }
}

} // verus!
