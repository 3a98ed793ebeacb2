//! Session tokens. A token is the hex text of the claims, a full stop, and the
//! hex text of the claims' HMAC-SHA256 tag under the signing key. The claims
//! are one byte of language id, issue and expiry time as eight little-endian
//! bytes each, and the username in UTF-8.

use crate::hex::{
    hex_bytes, hex_text, lemma_hex_canonical, lemma_hex_round_trip, parse_hex, push_hex,
};
use crate::text::{supported_language, LANGUAGES};
use hmac::Mac;
use vstd::bytes::{
    lemma_auto_spec_u64_to_from_le_bytes, spec_u64_from_le_bytes, spec_u64_to_le_bytes,
    u64_from_le_bytes, u64_to_le_bytes,
};
use vstd::prelude::*;
use vstd::slice::{slice_subrange, slice_to_vec};
use vstd::string::*;
use vstd::utf8::{
    decode_utf8, decode_utf8_encode_utf8, encode_utf8, encode_utf8_decode_utf8,
    encode_utf8_valid_utf8, valid_utf8,
};

verus! {

/// Seconds for which a token is valid after it was issued.
pub const TOKEN_LIFETIME: u64 = 3600;

/// Bytes of the claims that stand before the username.
pub const CLAIMS_HEADER: usize = 17;

/// The error of `String::from_utf8`, carried through unread.
#[verifier::external_type_specification]
#[verifier::external_body]
pub struct ExFromUtf8Error(std::string::FromUtf8Error);

/// The HMAC-SHA256 tag of a message under a key.
pub uninterp spec fn hmac_sha256(key: Seq<u8>, message: Seq<u8>) -> Seq<u8>;

/// Computes a tag with `hmac::Hmac<sha2::Sha256>`: `new_from_slice`, which
/// takes a key of any length, `update` with the message, and `finalize`.
/// Trusted: the tag is a function of key and message.
#[verifier::external_body]
fn mac_tag(key: &[u8], message: &[u8]) -> (tag: Vec<u8>)
    ensures
        tag@ == hmac_sha256(key@, message@),
{
    let mut mac = hmac::Hmac::<sha2::Sha256>::new_from_slice(key).unwrap();
    mac.update(message);
    mac.finalize().into_bytes().to_vec()
}

/// Checks a tag with `verify_slice` of `hmac::Hmac<sha2::Sha256>`, which
/// compares it in constant time with the tag of the message. Trusted: the
/// answer is whether the given tag is the message's tag under the key.
#[verifier::external_body]
fn mac_accepts(key: &[u8], message: &[u8], tag: &[u8]) -> (ok: bool)
    ensures
        ok == (tag@ == hmac_sha256(key@, message@)),
{
    let mut mac = hmac::Hmac::<sha2::Sha256>::new_from_slice(key).unwrap();
    mac.update(message);
    mac.verify_slice(tag).is_ok()
}

/// Calls `String::from_utf8`. Trusted: it succeeds exactly on valid UTF-8,
/// and the string it returns is made of the given bytes.
#[verifier::external_body]
fn string_from_utf8(bytes: Vec<u8>) -> (r: Result<String, std::string::FromUtf8Error>)
    ensures
        r is Ok <==> valid_utf8(bytes@),
        r matches Ok(s) ==> encode_utf8(s@) == bytes@,
{
    String::from_utf8(bytes)
}

/// What a session token says: who is logged in, in which language they read,
/// and from when until when the token counts.
#[derive(Debug, Clone)]
pub struct SessionClaims {
    pub username: String,
    pub language_id: u8,
    pub issued_at: u64,
    pub expires_at: u64,
}

/// The claims as plain values.
pub struct Claims {
    pub username: Seq<char>,
    pub language_id: u8,
    pub issued_at: u64,
    pub expires_at: u64,
}

impl View for SessionClaims {
    type V = Claims;

    open spec fn view(&self) -> Claims {
        Claims {
            username: self.username@,
            language_id: self.language_id,
            issued_at: self.issued_at,
            expires_at: self.expires_at,
        }
    }
}

/// The claims of a token issued at `now`.
pub open spec fn issued(username: Seq<char>, language_id: u8, now: u64) -> Claims {
    Claims {
        username,
        language_id,
        issued_at: now,
        expires_at: (now + TOKEN_LIFETIME) as u64,
    }
}

/// The bytes that are signed.
pub open spec fn claims_bytes(claims: Claims) -> Seq<u8> {
    seq![claims.language_id] + spec_u64_to_le_bytes(claims.issued_at) + spec_u64_to_le_bytes(
        claims.expires_at,
    ) + encode_utf8(claims.username)
}

/// The claims that signed bytes hold, `None` where they are too short, name
/// an unknown language or hold a username that is not UTF-8.
pub open spec fn read_claims(body: Seq<u8>) -> Option<Claims> {
    if body.len() >= CLAIMS_HEADER && supported_language(body[0]) && valid_utf8(
        body.skip(CLAIMS_HEADER as int),
    ) {
        Some(
            Claims {
                username: decode_utf8(body.skip(CLAIMS_HEADER as int)),
                language_id: body[0],
                issued_at: spec_u64_from_le_bytes(body.subrange(1, 9)),
                expires_at: spec_u64_from_le_bytes(body.subrange(9, 17)),
            },
        )
    } else {
        None
    }
}

/// The token for claims under a key.
pub open spec fn token_text(key: Seq<u8>, claims: Claims) -> Seq<char> {
    hex_text(claims_bytes(claims)) + seq!['.'] + hex_text(
        hmac_sha256(key, claims_bytes(claims)),
    )
}

/// Number of characters before the first full stop, the length where there is none.
pub open spec fn stem_len(token: Seq<char>) -> int
    decreases token.len(),
{
    if token.len() == 0 || token[0] == '.' {
        0
    } else {
        1 + stem_len(token.drop_first())
    }
}

/// The signed bytes and the tag that a token holds, `None` where it has no
/// full stop or a side of it is no hex text.
pub open spec fn token_parts(token: Seq<char>) -> Option<(Seq<u8>, Seq<u8>)> {
    let at = stem_len(token);
    if at < token.len() {
        match (hex_bytes(token.take(at)), hex_bytes(token.skip(at + 1))) {
            (Some(body), Some(tag)) => Some((body, tag)),
            _ => None,
        }
    } else {
        None
    }
}

/// The claims that a token proves at the time `now` to the holder of `key`:
/// `None` where it is malformed, its tag is not the tag of its claims under
/// the key, or `now` is not before its expiry.
pub open spec fn token_claims(key: Seq<u8>, token: Seq<char>, now: u64) -> Option<Claims> {
    match token_parts(token) {
        Some((body, tag)) => if tag == hmac_sha256(key, body) {
            match read_claims(body) {
                Some(claims) => if now < claims.expires_at {
                    Some(claims)
                } else {
                    None
                },
                None => None,
            }
        } else {
            None
        },
        None => None,
    }
}

/// A position up to which there is no full stop, and at which the text ends
/// or a full stop stands, is the stem length.
pub proof fn lemma_stem_len(token: Seq<char>, at: int)
    requires
        0 <= at <= token.len(),
        forall|j: int| 0 <= j < at ==> token[j] != '.',
        at < token.len() ==> token[at] == '.',
    ensures
        stem_len(token) == at,
    decreases token.len(),
{
    if at > 0 {
        let rest = token.drop_first();
        assert forall|j: int| 0 <= j < at - 1 implies rest[j] != '.' by {
            assert(rest[j] == token[j + 1]);
        }
        lemma_stem_len(rest, at - 1);
    }
}

/// Reading signed bytes that were written for claims gives the claims back.
pub proof fn lemma_claims_round_trip(claims: Claims)
    requires
        supported_language(claims.language_id),
    ensures
        read_claims(claims_bytes(claims)) == Some(claims),
{
    let body = claims_bytes(claims);
    lemma_auto_spec_u64_to_from_le_bytes();
    encode_utf8_valid_utf8(claims.username);
    encode_utf8_decode_utf8(claims.username);
    assert(body.subrange(1, 9) =~= spec_u64_to_le_bytes(claims.issued_at));
    assert(body.subrange(9, 17) =~= spec_u64_to_le_bytes(claims.expires_at));
    assert(body.skip(CLAIMS_HEADER as int) =~= encode_utf8(claims.username));
}

/// Signed bytes that can be read are the bytes written for what was read.
pub proof fn lemma_claims_canonical(body: Seq<u8>)
    requires
        read_claims(body) is Some,
    ensures
        claims_bytes(read_claims(body)->0) == body,
        supported_language(read_claims(body)->0.language_id),
{
    let claims = read_claims(body)->0;
    lemma_auto_spec_u64_to_from_le_bytes();
    decode_utf8_encode_utf8(body.skip(CLAIMS_HEADER as int));
    assert(spec_u64_to_le_bytes(spec_u64_from_le_bytes(body.subrange(1, 9))) == body.subrange(
        1,
        9,
    ));
    assert(spec_u64_to_le_bytes(spec_u64_from_le_bytes(body.subrange(9, 17))) == body.subrange(
        9,
        17,
    ));
    assert(claims_bytes(claims) =~= body);
}

/// The parts of a token written for signed bytes and a tag are those bytes and that tag.
pub proof fn lemma_parts_round_trip(body: Seq<u8>, tag: Seq<u8>)
    ensures
        token_parts(hex_text(body) + seq!['.'] + hex_text(tag)) == Some((body, tag)),
{
    let token = hex_text(body) + seq!['.'] + hex_text(tag);
    let at = hex_text(body).len() as int;
    lemma_hex_round_trip(body);
    lemma_hex_round_trip(tag);
    assert forall|j: int| 0 <= j < at implies token[j] != '.' by {
        assert(token[j] == hex_text(body)[j]);
    }
    lemma_stem_len(token, at);
    assert(token.take(at) =~= hex_text(body));
    assert(token.skip(at + 1) =~= hex_text(tag));
}

/// Writes the bytes that are signed.
fn write_claims(username: &str, language_id: u8, issued_at: u64, expires_at: u64) -> (body: Vec<u8>)
    ensures
        body@ == claims_bytes(Claims { username: username@, language_id, issued_at, expires_at }),
{
    let mut body: Vec<u8> = Vec::new();
    body.push(language_id);
    let mut issued = u64_to_le_bytes(issued_at);
    body.append(&mut issued);
    let mut expires = u64_to_le_bytes(expires_at);
    body.append(&mut expires);
    body.extend_from_slice(username.as_bytes());
    assert(body@ =~= claims_bytes(
        Claims { username: username@, language_id, issued_at, expires_at },
    ));
    body
}

/// Reads the claims from signed bytes.
fn parse_claims(body: &Vec<u8>) -> (r: Option<SessionClaims>)
    ensures
        match r {
            Some(claims) => read_claims(body@) == Some(claims@),
            None => read_claims(body@) is None,
        },
{
    if body.len() < CLAIMS_HEADER {
        return None;
    }
    let language_id = body[0];
    if language_id >= LANGUAGES {
        return None;
    }
    let bytes = body.as_slice();
    let issued_at = u64_from_le_bytes(slice_subrange(bytes, 1, 9));
    let expires_at = u64_from_le_bytes(slice_subrange(bytes, 9, 17));
    let name = slice_to_vec(slice_subrange(bytes, CLAIMS_HEADER, bytes.len()));
    assert(name@ =~= body@.skip(CLAIMS_HEADER as int));
    match string_from_utf8(name) {
        Ok(username) => {
            proof {
                encode_utf8_decode_utf8(username@);
            }
            Some(SessionClaims { username, language_id, issued_at, expires_at })
        },
        Err(_) => None,
    }
}

/// Mints the token for a user and a language at the time `now`. It expires
/// `TOKEN_LIFETIME` seconds later.
pub fn encode_token(key: &[u8], username: &str, language_id: u8, now: u64) -> (token: String)
    requires
        supported_language(language_id),
        now + TOKEN_LIFETIME <= u64::MAX,
    ensures
        token@ == token_text(key@, issued(username@, language_id, now)),
{
    let body = write_claims(username, language_id, now, now + TOKEN_LIFETIME);
    let tag = mac_tag(key, body.as_slice());
    let mut token = String::new();
    push_hex(&mut token, body.as_slice());
    token.append(".");
    proof {
        reveal_strlit(".");
        assert("."@ =~= seq!['.']);
    }
    push_hex(&mut token, tag.as_slice());
    token
}

/// The characters of a text.
fn chars_of(text: &str) -> (chars: Vec<char>)
    ensures
        chars@ == text@,
{
    let mut chars: Vec<char> = Vec::new();
    for c in it: text.chars()
        invariant
            it.seq() == text@,
            chars@ == text@.take(it.index()),
    {
        chars.push(c);
        assert(text@.take(it.index() + 1) =~= text@.take(it.index()).push(c));
    }
    assert(text@.take(text@.len() as int) =~= text@);
    chars
}

/// Checks a token at the time `now` and returns its claims. `None` for a
/// token that is malformed, was not signed with `key`, or has expired.
pub fn decode_token(key: &[u8], token: &str, now: u64) -> (r: Option<SessionClaims>)
    ensures
        match r {
            Some(claims) => token_claims(key@, token@, now) == Some(claims@),
            None => token_claims(key@, token@, now) is None,
        },
{
    let chars = chars_of(token);
    let mut at: usize = 0;
    while at < chars.len() && chars[at] != '.'
        invariant
            at <= chars.len(),
            forall|j: int| 0 <= j < at ==> chars@[j] != '.',
        decreases chars.len() - at,
    {
        at += 1;
    }
    proof {
        lemma_stem_len(chars@, at as int);
    }
    if at >= chars.len() {
        return None;
    }
    assert(chars@.subrange(0, at as int) =~= chars@.take(at as int));
    assert(chars@.subrange(at + 1, chars@.len() as int) =~= chars@.skip(at + 1));
    let body = match parse_hex(&chars, 0, at) {
        Some(body) => body,
        None => {
            return None;
        },
    };
    let tag = match parse_hex(&chars, at + 1, chars.len()) {
        Some(tag) => tag,
        None => {
            return None;
        },
    };
    if !mac_accepts(key, body.as_slice(), tag.as_slice()) {
        return None;
    }
    match parse_claims(&body) {
        Some(claims) => if now < claims.expires_at {
            Some(claims)
        } else {
            None
        },
        None => None,
    }
}

/// What a valid token proves is what it was minted for: at a time before
/// the expiry, the token for claims under a key decodes to those claims.
pub proof fn lemma_token_round_trip(key: Seq<u8>, claims: Claims, now: u64)
    requires
        supported_language(claims.language_id),
        now < claims.expires_at,
    ensures
        token_claims(key, token_text(key, claims), now) == Some(claims),
{
    lemma_parts_round_trip(claims_bytes(claims), hmac_sha256(key, claims_bytes(claims)));
    lemma_claims_round_trip(claims);
}

/// From its expiry on, a token proves nothing.
pub proof fn lemma_expired_token_rejected(key: Seq<u8>, claims: Claims, now: u64)
    requires
        now >= claims.expires_at,
    ensures
        token_claims(key, token_text(key, claims), now) is None,
{
    let body = claims_bytes(claims);
    lemma_parts_round_trip(body, hmac_sha256(key, body));
    if read_claims(body) is Some {
        lemma_claims_canonical(body);
        lemma_claims_injective(read_claims(body)->0, claims);
    }
}

/// Different claims are signed as different bytes.
pub proof fn lemma_claims_injective(a: Claims, b: Claims)
    requires
        claims_bytes(a) == claims_bytes(b),
    ensures
        a == b,
{
    lemma_auto_spec_u64_to_from_le_bytes();
    encode_utf8_decode_utf8(a.username);
    encode_utf8_decode_utf8(b.username);
    let x = claims_bytes(a);
    let y = claims_bytes(b);
    assert(x[0] == a.language_id);
    assert(y[0] == b.language_id);
    assert(x.subrange(1, 9) =~= spec_u64_to_le_bytes(a.issued_at));
    assert(y.subrange(1, 9) =~= spec_u64_to_le_bytes(b.issued_at));
    assert(x.subrange(9, 17) =~= spec_u64_to_le_bytes(a.expires_at));
    assert(y.subrange(9, 17) =~= spec_u64_to_le_bytes(b.expires_at));
    assert(x.skip(CLAIMS_HEADER as int) =~= encode_utf8(a.username));
    assert(y.skip(CLAIMS_HEADER as int) =~= encode_utf8(b.username));
}

/// A token is accepted only as it was minted: whatever decodes to claims is,
/// character for character, the token of those claims under the same key,
/// and it decodes before their expiry only.
pub proof fn lemma_accepted_token_was_minted(key: Seq<u8>, token: Seq<char>, now: u64)
    ensures
        token_claims(key, token, now) matches Some(claims) ==> {
            &&& token == token_text(key, claims)
            &&& now < claims.expires_at
            &&& supported_language(claims.language_id)
        },
{
    if token_claims(key, token, now) is Some {
        let at = stem_len(token);
        let (body, tag) = token_parts(token)->0;
        lemma_claims_canonical(body);
        lemma_hex_canonical(token.take(at));
        lemma_hex_canonical(token.skip(at + 1));
        lemma_stem_is_stop(token);
        assert(token =~= token.take(at) + seq!['.'] + token.skip(at + 1));
    }
}

/// A token whose claims or tag were altered is rejected: signed bytes with
/// a tag decode only where the tag is the tag of those very bytes under the key.
pub proof fn lemma_altered_token_rejected(key: Seq<u8>, body: Seq<u8>, tag: Seq<u8>, now: u64)
    ensures
        tag != hmac_sha256(key, body) ==> token_claims(
            key,
            hex_text(body) + seq!['.'] + hex_text(tag),
            now,
        ) is None,
{
    lemma_parts_round_trip(body, tag);
}

/// A token minted under one key is rejected under another, unless both keys
/// give its claims the same tag.
pub proof fn lemma_token_of_other_key_rejected(
    key: Seq<u8>,
    other_key: Seq<u8>,
    claims: Claims,
    now: u64,
)
    ensures
        hmac_sha256(other_key, claims_bytes(claims)) != hmac_sha256(key, claims_bytes(claims))
            ==> token_claims(key, token_text(other_key, claims), now) is None,
{
    lemma_altered_token_rejected(
        key,
        claims_bytes(claims),
        hmac_sha256(other_key, claims_bytes(claims)),
        now,
    );
}

/// Where the stem ends before the text does, a full stop follows it.
pub proof fn lemma_stem_is_stop(token: Seq<char>)
    ensures
        0 <= stem_len(token) <= token.len(),
        stem_len(token) < token.len() ==> token[stem_len(token)] == '.',
    decreases token.len(),
{
    if token.len() == 0 || token[0] == '.' {
    } else {
        lemma_stem_is_stop(token.drop_first());
    }
}

} // verus!
