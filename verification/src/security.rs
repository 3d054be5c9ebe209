//! Signed-URL verification.
//!
//! A request path has the shape `/{token}/{rest}`.  The canonical message is
//! `rest` exactly as received — no decoding and no normalization — so any two
//! byte-identical messages demand the same token and any mutation of the
//! directives invalidates it.  The token is the HMAC-SHA1 of the message
//! under the configured secret, base64-encoded with `+` and `/` remapped to
//! `-` and `_`.  An empty secret disables signing: only the reserved token
//! `unsafe` then passes.

use base64::Engine;
use hmac::{Hmac, Mac};
use sha1::Sha1;
use vstd::prelude::*;
use vstd::utf8::encode_utf8;

use crate::settings::Settings;
use crate::url_props::{find_char, spec_find_char};

verus! {

/// Error reserved for a MAC key the underlying digest rejects; HMAC accepts
/// keys of any length, so token computation never actually reports it.
#[derive(Clone, Copy, Debug, PartialEq, Eq, Structural)]
pub enum KeyError {
    InvalidKeyLength,
}

/// The HMAC-SHA1 digest of `msg` under `key`, a function of both alone.
pub uninterp spec fn hmac_sha1_of(key: Seq<u8>, msg: Seq<u8>) -> Seq<u8>;

/// The padded standard-alphabet base64 encoding of `bytes`, a function of
/// the bytes alone.
pub uninterp spec fn base64_standard_of(bytes: Seq<u8>) -> Seq<char>;

/// Relies on the hmac and sha1 crates: `Hmac::<Sha1>` accepts a key of any
/// length and produces a 20-byte digest determined by key and message alone.
#[verifier::external_body]
fn hmac_sha1(key: &[u8], msg: &[u8]) -> (r: Vec<u8>)
    ensures
        r@ == hmac_sha1_of(key@, msg@),
        r@.len() == 20,
{
    let mut mac = <Hmac<Sha1> as Mac>::new_from_slice(key).expect("HMAC accepts keys of any length");
    mac.update(msg);
    mac.finalize().into_bytes().to_vec()
}

/// Relies on base64's `STANDARD` engine: a padded encoding over the standard
/// alphabet, determined by the input bytes alone.  The length bound keeps
/// the encoded length well away from overflowing.
#[verifier::external_body]
fn base64_standard(bytes: &[u8]) -> (r: String)
    requires
        bytes@.len() <= 0x1000_0000,
    ensures
        r@ == base64_standard_of(bytes@),
{
    base64::engine::general_purpose::STANDARD.encode(bytes)
}

/// Relies on std's `String::push`: appends exactly one character.
#[verifier::external_body]
fn push_char(s: &mut String, c: char)
    ensures
        final(s)@ == old(s)@.push(c),
{
    s.push(c);
}

/// The URL-safe remapping applied to one base64 character.
pub open spec fn urlsafe_char(c: char) -> char {
    if c == '+' {
        '-'
    } else if c == '/' {
        '_'
    } else {
        c
    }
}

/// The URL-safe remapping applied character-wise; padding is kept.
pub open spec fn urlsafe_of(s: Seq<char>) -> Seq<char> {
    s.map_values(|c: char| urlsafe_char(c))
}

/// The token that signs `msg` under `secret`: the URL-safe base64 of the
/// HMAC-SHA1 digest, or the reserved literal when signing is disabled.
pub open spec fn spec_key_chars(secret: Seq<char>, msg: Seq<char>) -> Seq<char> {
    if secret.len() == 0 {
        "unsafe"@
    } else {
        urlsafe_of(base64_standard_of(hmac_sha1_of(encode_utf8(secret), encode_utf8(msg))))
    }
}

/// Whether `path` carries a valid token: it must have at least three
/// `/`-separated segments, and the segment between the first two slashes
/// must equal the token recomputed for everything after the second slash.
/// The token is a function of the secret and the message alone, so two
/// byte-identical messages always demand the same token.
pub open spec fn spec_valid_key(path: Seq<char>, secret: Seq<char>) -> bool {
    let i1 = spec_find_char(path, 0, '/');
    let i2 = spec_find_char(path, i1 + 1, '/');
    &&& i2 < path.len()
    &&& path.subrange(i1 + 1, i2) == spec_key_chars(secret, path.subrange(i2 + 1, path.len() as int))
}

/// `s` with `+` remapped to `-` and `/` to `_`.
fn urlsafe(s: &str) -> (r: String)
    ensures
        r@ == urlsafe_of(s@),
{
    let n = s.unicode_len();
    let mut r = String::new();
    assert(urlsafe_of(s@.take(0)) =~= Seq::<char>::empty());
    for i in 0..n
        invariant
            n == s@.len(),
            r@ == urlsafe_of(s@.take(i as int)),
    {
        let c = s.get_char(i);
        let mapped = if c == '+' {
            '-'
        } else if c == '/' {
            '_'
        } else {
            c
        };
        push_char(&mut r, mapped);
        assert(urlsafe_of(s@.take(i as int + 1)) =~= urlsafe_of(s@.take(i as int)).push(
            urlsafe_char(s@[i as int]),
        ));
    }
    assert(s@.take(n as int) =~= s@);
    r
}

/// The token that signs `path` (already stripped of its token segment)
/// under the current secret: URL-safe base64 of the HMAC-SHA1 digest, or
/// the reserved literal `unsafe` when the secret is empty.  Never fails.
pub fn get_key_by_path(path: String, settings: &Settings) -> (r: Result<String, KeyError>)
    ensures
        r is Ok,
        r->Ok_0@ == spec_key_chars(settings.secret_key@, path@),
{
    if settings.secret_key.as_str().is_empty() {
        return Ok(String::from_str("unsafe"));
    }
    let digest = hmac_sha1(settings.secret_key.as_str().as_bytes(), path.as_str().as_bytes());
    let encoded = base64_standard(digest.as_slice());
    Ok(urlsafe(encoded.as_str()))
}

/// Whether the request path carries a valid token for its message, the
/// message being everything after the second slash, byte-exact.  A path
/// with fewer than three `/`-separated segments never validates (and never
/// panics).
pub fn is_valid_key(path: String, settings: &Settings) -> (r: bool)
    ensures
        r == spec_valid_key(path@, settings.secret_key@),
{
    let s = path.as_str();
    let n = s.unicode_len();
    let i1 = find_char(s, 0, '/');
    if i1 == n {
        return false;
    }
    let i2 = find_char(s, i1 + 1, '/');
    if i2 == n {
        return false;
    }
    let token = s.substring_char(i1 + 1, i2).to_owned();
    let message = s.substring_char(i2 + 1, n).to_owned();
    let expected = match get_key_by_path(message, settings) {
        Ok(k) => k,
        Err(_) => {
            return false;
        },
    };
    expected == token
}

} // verus!
