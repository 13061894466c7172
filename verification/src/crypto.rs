//! The cryptographic functions, encodings and sources of chance that other
//! crates provide.
use base64::engine::general_purpose::URL_SAFE_NO_PAD;
use base64::Engine;
use hmac::Hmac;
use hmac::Mac;
use sha2::Digest;
use sha2::Sha256;
use vstd::prelude::*;

verus! {

/// The SHA-256 digest of `data`.
pub uninterp spec fn sha256_of(data: Seq<u8>) -> Seq<u8>;

/// The HMAC-SHA-256 code of `message` under `key`.
pub uninterp spec fn hmac_sha256_of(key: Seq<u8>, message: Seq<u8>) -> Seq<u8>;

/// The unpadded URL-safe Base64 notation of `bytes`.
pub uninterp spec fn base64url_encoded(bytes: Seq<u8>) -> Seq<char>;

/// What unpadded URL-safe Base64 notation stands for.
pub uninterp spec fn base64url_decoded(text: Seq<char>) -> Option<Seq<u8>>;

/// A character of the URL-safe Base64 alphabet.
pub open spec fn is_base64url_char(c: char) -> bool {
    ||| 'A' <= c && c <= 'Z'
    ||| 'a' <= c && c <= 'z'
    ||| '0' <= c && c <= '9'
    ||| c == '-'
    ||| c == '_'
}

/// How many characters unpadded Base64 takes for a number of bytes.
pub open spec fn base64url_length(bytes: nat) -> nat {
    (4 * bytes + 2) / 3
}

/// The longest key, in bytes, that HMAC-SHA-256 uses as it is.
pub const HMAC_BLOCK_BYTES: usize = 64;

/// Calls `Sha256::digest`. The contract claims that the digest depends on
/// `data` alone, that it has 32 bytes, and, of `hmac`, that a key longer than
/// a block of the hash serves exactly as its digest does.
#[verifier::external_body]
pub(crate) fn sha256(data: &[u8]) -> (r: Vec<u8>)
    ensures
        r@ == sha256_of(data@),
        r@.len() == 32,
        data@.len() > HMAC_BLOCK_BYTES ==> forall|message: Seq<u8>| #[trigger]
            hmac_sha256_of(data@, message) == hmac_sha256_of(r@, message),
{
    Sha256::digest(data).to_vec()
}

/// Calls `Hmac::<Sha256>::new_from_slice`, which takes a key of any length,
/// then `update` and `finalize`. The contract claims that the code depends on
/// `key` and `message` alone and has 32 bytes.
#[verifier::external_body]
pub(crate) fn hmac_sha256(key: &[u8], message: &[u8]) -> (r: Vec<u8>)
    ensures
        r@ == hmac_sha256_of(key@, message@),
        r@.len() == 32,
{
    let mut mac = Hmac::<Sha256>::new_from_slice(key).expect("HMAC accepts any key length");
    mac.update(message);
    mac.finalize().into_bytes().to_vec()
}

/// Calls `Engine::encode` of the engine `URL_SAFE_NO_PAD`. The contract claims
/// that the text depends on `bytes` alone, that it is made of the characters
/// of the alphabet, four for every three bytes, and that decoding it gives
/// `bytes` back.
#[verifier::external_body]
pub(crate) fn base64url_encode(bytes: &[u8]) -> (r: String)
    ensures
        r@ == base64url_encoded(bytes@),
        base64url_decoded(r@) == Some(bytes@),
        forall|i: int| 0 <= i < r@.len() ==> is_base64url_char(#[trigger] r@[i]),
        r@.len() == base64url_length(bytes@.len()),
{
    URL_SAFE_NO_PAD.encode(bytes)
}

/// Calls `Engine::decode` of the engine `URL_SAFE_NO_PAD`. The contract claims
/// that the outcome depends on `text` alone, and that bytes are found only
/// where `text` is exactly their encoding, so with four characters for every
/// three bytes: padding, characters outside the alphabet and unused bits that
/// are set are refused.
#[verifier::external_body]
pub(crate) fn base64url_decode(text: &str) -> (r: Option<Vec<u8>>)
    ensures
        match r {
            Some(bytes) => base64url_decoded(text@) == Some(bytes@) && base64url_encoded(bytes@)
                == text@ && text@.len() == base64url_length(bytes@.len()),
            None => base64url_decoded(text@) is None,
        },
{
    URL_SAFE_NO_PAD.decode(text).ok()
}

/// A salt that was drawn by chance. Only a draw gives one.
pub struct Salt {
    bytes: [u8; 16],
}

impl Salt {
    /// The bytes of the salt.
    pub closed spec fn bytes(&self) -> Seq<u8> {
        self.bytes@
    }

    /// The bytes of the salt.
    pub fn as_slice(&self) -> (r: &[u8])
        ensures
            r@ == self.bytes(),
            r@.len() == 16,
    {
        self.bytes.as_slice()
    }
}

/// Calls `rand::random`. Nothing is claimed of the bytes, which are random.
#[verifier::external_body]
pub(crate) fn random_salt() -> (r: Salt) {
    Salt { bytes: rand::random() }
}

/// A number that was drawn by chance from a range. Only a draw gives one.
pub struct Draw {
    low: u32,
    high: u32,
    number: u32,
}

impl Draw {
    /// The smallest number that could have been drawn.
    pub closed spec fn low(&self) -> u32 {
        self.low
    }

    /// The greatest number that could have been drawn.
    pub closed spec fn high(&self) -> u32 {
        self.high
    }

    /// The number that was drawn.
    pub closed spec fn number(&self) -> u32 {
        self.number
    }

    /// The number that was drawn.
    pub fn value(&self) -> (r: u32)
        ensures
            r == self.number(),
    {
        self.number
    }
}

/// Calls `rand::random_range` on an inclusive range. The contract claims that
/// the number lies in the range; it is otherwise left to chance.
#[verifier::external_body]
pub(crate) fn random_number(low: u32, high: u32) -> (r: Draw)
    requires
        low <= high,
    ensures
        r.low() == low,
        r.high() == high,
        low <= r.number() <= high,
{
    Draw { low, high, number: rand::random_range(low..=high) }
}

/// An identifier that was drawn by chance. Only a draw gives one.
pub struct FreshId {
    text: String,
}

impl FreshId {
    /// The text of the identifier.
    pub closed spec fn text(&self) -> Seq<char> {
        self.text@
    }

    /// The text of the identifier.
    pub fn as_str(&self) -> (r: &str)
        ensures
            r@ == self.text(),
    {
        self.text.as_str()
    }
}

/// Calls `uuid::Uuid::new_v4` and takes its text. The contract claims the form
/// of the text; the digits are otherwise left to chance.
#[verifier::external_body]
pub(crate) fn random_uuid() -> (r: FreshId)
    ensures
        crate::avatar::is_uuid_text(r.text()),
{
    FreshId { text: uuid::Uuid::new_v4().to_string() }
}

/// What was drawn is what the draw holds.
proof fn law_draws_hold_what_was_drawn(salt: Salt, draw: Draw, id: FreshId)
    ensures
        salt.bytes() == salt.bytes@,
        draw.low() == draw.low,
        draw.high() == draw.high,
        draw.number() == draw.number,
        id.text() == id.text@,
{
}

} // verus!
