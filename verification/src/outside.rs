//! Trusted declarations for the outside crates this library leans on:
//! the keyed-hash primitive, base64 decoding, and form-urlencoded parsing.
//! Each wrapper's contract states what the outside source shows; nothing
//! else in the crate is taken on trust.

use vstd::prelude::*;

verus! {

/// The HMAC-SHA1 digest of `msg` under `key`, as the `crypto` crate computes
/// it: a pure function of the two byte sequences alone.
pub uninterp spec fn hmac_sha1(key: Seq<u8>, msg: Seq<u8>) -> Seq<u8>;

/// Relies on `crypto::hmac::Hmac` over `crypto::sha1::Sha1` (`Mac::input`,
/// `Mac::result`): the digest depends on the key and message bytes alone,
/// and is always the 20 bytes of a SHA-1 output (`Sha1::output_bits` is 160).
#[verifier::external_body]
pub(crate) fn hmac_sha1_digest(key: &[u8], msg: &[u8]) -> (r: Vec<u8>)
    ensures
        r@ == hmac_sha1(key@, msg@),
        r@.len() == 20,
{
    let mut mac = crypto::hmac::Hmac::new(crypto::sha1::Sha1::new(), key);
    crypto::mac::Mac::input(&mut mac, msg);
    crypto::mac::Mac::result(&mut mac).code().to_vec()
}

/// Relies on `crypto::mac::MacResult`'s equality, which compares the two byte
/// strings in constant time (`crypto::util::fixed_time_eq`) and is false when
/// the lengths differ: on a nonempty left side it returns exactly whether the
/// bytes are equal. Two empty slices are excluded: the comparison's C helper
/// reports them unequal and reads past an empty slice, so this wrapper never
/// admits that input.
#[verifier::external_body]
pub(crate) fn mac_bytes_equal(a: &[u8], b: &[u8]) -> (r: bool)
    requires
        a@.len() > 0,
    ensures
        r == (a@ == b@),
{
    crypto::mac::MacResult::new(a) == crypto::mac::MacResult::new(b)
}

/// What `base64::decode` (standard alphabet; unpadded remainders accepted)
/// returns on a given input: `Some` decoded bytes, or `None` where the input
/// is not valid base64. A pure function of the input bytes alone.
pub uninterp spec fn base64_decoded(b: Seq<u8>) -> Option<Seq<u8>>;

/// Relies on `base64::decode`: deterministic decoding of the input bytes.
#[verifier::external_body]
pub(crate) fn base64_decode_bytes(b: &[u8]) -> (r: Option<Vec<u8>>)
    ensures
        match r {
            Some(v) => base64_decoded(b@) == Some(v@),
            None => base64_decoded(b@) is None,
        },
{
    base64::decode(b).ok()
}

/// The `(name, value)` pairs that `url::form_urlencoded::parse` yields for a
/// byte string, in encounter order: a pure function of the input bytes alone.
pub uninterp spec fn parsed_form(b: Seq<u8>) -> Seq<(Seq<char>, Seq<char>)>;

/// Relies on `url::form_urlencoded::parse` (with `into_owned`): yields the
/// percent-decoded `(name, value)` pairs of the input, in encounter order.
#[verifier::external_body]
pub(crate) fn parse_urlencoded(b: &[u8]) -> (r: Vec<(String, String)>)
    ensures
        r.deep_view() == parsed_form(b@),
{
    url::form_urlencoded::parse(b).into_owned().collect()
}

/// Relies on std's `String::push`: appends the given character to the end of
/// the string.
#[verifier::external_body]
pub(crate) fn push_char(s: &mut String, c: char)
    ensures
        final(s)@ == old(s)@.push(c),
{
    s.push(c);
}

} // verus!
