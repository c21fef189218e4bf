//! The calls this library makes into std and into outside crates. Each item
//! here is trusted: its contract is believed, not proved. Results that take
//! pages to state are given a name (`uninterp spec fn`); a name stands for
//! exactly what the outside function computes from its arguments.

use base64::Engine;
use chrono::Datelike;
use ed25519_dalek::Signer;
use sha2::Digest;
use vstd::prelude::*;
use crate::date::is_calendar_date;
use crate::message::json_string;
use crate::text::lower_hex_digit;

verus! {

/// A character with the Unicode `White_Space` property.
pub open spec fn is_white_space(c: char) -> bool {
    let v = c as u32;
    ||| 0x09 <= v <= 0x0d
    ||| v == 0x20
    ||| v == 0x85
    ||| v == 0xa0
    ||| v == 0x1680
    ||| 0x2000 <= v <= 0x200a
    ||| v == 0x2028
    ||| v == 0x2029
    ||| v == 0x202f
    ||| v == 0x205f
    ||| v == 0x3000
}

pub open spec fn without_leading_white_space(s: Seq<char>) -> Seq<char>
    decreases s.len(),
{
    if s.len() > 0 && is_white_space(s[0]) {
        without_leading_white_space(s.drop_first())
    } else {
        s
    }
}

pub open spec fn without_trailing_white_space(s: Seq<char>) -> Seq<char>
    decreases s.len(),
{
    if s.len() > 0 && is_white_space(s.last()) {
        without_trailing_white_space(s.drop_last())
    } else {
        s
    }
}

/// `s` with leading and trailing white space removed.
pub open spec fn trim_white_space(s: Seq<char>) -> Seq<char> {
    without_trailing_white_space(without_leading_white_space(s))
}

/// `str::trim`: std documents it as removing leading and trailing characters
/// with the Unicode `White_Space` property; the contract says exactly that.
#[verifier::external_body]
pub(crate) fn trim_text(text: &str) -> (trimmed: &str)
    ensures
        trimmed@ == trim_white_space(text@),
{
    text.trim()
}

/// What `base64::engine::general_purpose::STANDARD.decode` gives for the
/// UTF-8 bytes of `text`: the decoded bytes, or `None` where it reports an
/// error (the standard alphabet with canonical `=` padding).
pub uninterp spec fn standard_base64_decoded(text: Seq<char>) -> Option<Seq<u8>>;

/// What `base64::engine::general_purpose::STANDARD.encode` gives for `bytes`.
pub uninterp spec fn standard_base64_encoded(bytes: Seq<u8>) -> Seq<char>;

/// A character of the standard base64 alphabet, or the padding character.
pub open spec fn is_standard_base64_char(c: char) -> bool {
    ||| 'A' <= c <= 'Z'
    ||| 'a' <= c <= 'z'
    ||| '0' <= c <= '9'
    ||| c == '+'
    ||| c == '/'
    ||| c == '='
}

/// Text made of base64 characters has no white space to trim.
pub proof fn lemma_base64_text_is_trimmed(text: Seq<char>)
    requires
        forall|i: int| 0 <= i < text.len() ==> is_standard_base64_char(#[trigger] text[i]),
    ensures
        trim_white_space(text) == text,
{
    if text.len() > 0 {
        assert(is_standard_base64_char(text[0]));
        assert(!is_white_space(text[0]));
        assert(is_standard_base64_char(text.last()));
        assert(!is_white_space(text.last()));
    }
    assert(without_leading_white_space(text) == text);
    assert(without_trailing_white_space(text) == text);
}

/// `STANDARD.decode` (base64): the contract ties the result to the name
/// `standard_base64_decoded` of the text, `None` standing for the crate's
/// `DecodeError`. Nothing more is claimed of the decoding.
#[verifier::external_body]
pub(crate) fn decode_standard_base64(text: &str) -> (decoded: Option<Vec<u8>>)
    ensures
        decoded is None <==> standard_base64_decoded(text@) is None,
        decoded matches Some(bytes) ==> standard_base64_decoded(text@) == Some(bytes@),
{
    match base64::engine::general_purpose::STANDARD.decode(text) {
        Ok(bytes) => Some(bytes),
        Err(_) => None,
    }
}

/// `STANDARD.encode` (base64): the result is the name `standard_base64_encoded`
/// of the bytes; it is made of alphabet and padding characters only, and the
/// same engine decodes it back to the bytes. The bound on the length keeps the
/// crate's computation of the output length from overflowing.
#[verifier::external_body]
pub(crate) fn encode_standard_base64(bytes: &[u8]) -> (text: String)
    requires
        bytes@.len() <= usize::MAX / 2,
    ensures
        text@ == standard_base64_encoded(bytes@),
        standard_base64_decoded(text@) == Some(bytes@),
        forall|i: int| 0 <= i < text@.len() ==> is_standard_base64_char(#[trigger] text@[i]),
{
    base64::engine::general_purpose::STANDARD.encode(bytes)
}

/// `serde_json::to_string` of a string: the JSON string literal, written as
/// its serializer does (the escape table in its `ser.rs`: quote, backslash
/// and control characters below U+0020 escaped, the short forms where JSON
/// has one and `\u00xx` with lowercase digits otherwise; every other
/// character as is). Serializing a string into memory does not fail.
#[verifier::external_body]
pub(crate) fn json_string_literal(text: &str) -> (literal: String)
    ensures
        literal@ == json_string(text@),
{
    match serde_json::to_string(text) {
        Ok(literal) => literal,
        Err(_) => String::new(),
    }
}

/// What `sha2::Sha256::digest` gives for `data`.
pub uninterp spec fn sha256_digest(data: Seq<u8>) -> Seq<u8>;

/// `Sha256::digest` (sha2): the result is the name `sha256_digest` of the
/// data, and it is 32 bytes long (the output type is a 32-byte array).
#[verifier::external_body]
pub(crate) fn sha256(data: &[u8]) -> (digest: Vec<u8>)
    ensures
        digest@ == sha256_digest(data@),
        digest@.len() == 32,
{
    sha2::Sha256::digest(data).to_vec()
}

/// The lowercase hexadecimal text of `bytes`, two digits per byte, high
/// nibble first.
pub open spec fn lower_hex_text(bytes: Seq<u8>) -> Seq<char>
    decreases bytes.len(),
{
    if bytes.len() == 0 {
        Seq::empty()
    } else {
        lower_hex_text(bytes.drop_last()) + seq![
            lower_hex_digit((bytes.last() / 16) as int),
            lower_hex_digit((bytes.last() % 16) as int),
        ]
    }
}

/// `hex::encode`: writes each byte as two lowercase hexadecimal digits, high
/// nibble first, as its source does with its lowercase digit table.
#[verifier::external_body]
pub(crate) fn encode_lower_hex(bytes: &[u8]) -> (text: String)
    ensures
        text@ == lower_hex_text(bytes@),
{
    hex::encode(bytes)
}

/// Whether `ed25519_dalek::VerifyingKey::from_bytes` accepts the 32 bytes as
/// a compressed Edwards point.
pub uninterp spec fn ed25519_public_key_decodes(key: Seq<u8>) -> bool;

/// Whether `ed25519_dalek::VerifyingKey::verify_strict`, for the key decoded
/// from `key`, accepts the 64-byte `signature` over `message` (false where the
/// key does not decode).
pub uninterp spec fn ed25519_strict_accepts(key: Seq<u8>, message: Seq<u8>, signature: Seq<u8>) -> bool;

/// The 64 bytes of the signature that `ed25519_dalek::SigningKey::sign`
/// makes over `message` with the key whose 32-byte secret is `seed`.
pub uninterp spec fn ed25519_signature(seed: Seq<u8>, message: Seq<u8>) -> Seq<u8>;

/// `VerifyingKey::try_from` a 32-byte slice (ed25519-dalek): whether the bytes
/// decode to a public key; the contract names the answer and claims nothing else.
#[verifier::external_body]
pub(crate) fn public_key_decodes(key: &[u8]) -> (decodes: bool)
    requires
        key@.len() == 32,
    ensures
        decodes == ed25519_public_key_decodes(key@),
{
    ed25519_dalek::VerifyingKey::try_from(key).is_ok()
}

/// `VerifyingKey::verify_strict` (ed25519-dalek) on the key decoded from
/// `key` and the signature made from `signature`: whether it returns `Ok`.
/// The contract names the answer, and states one fact of its source: the
/// all-zero key is a point of small order, which `verify_strict` refuses
/// outright, so it accepts nothing. Nothing else is claimed of the cryptography.
#[verifier::external_body]
pub(crate) fn verify_strict(key: &[u8], message: &[u8], signature: &[u8]) -> (accepted: bool)
    requires
        key@.len() == 32,
        signature@.len() == 64,
    ensures
        accepted == ed25519_strict_accepts(key@, message@, signature@),
        key@ == Seq::new(32, |i: int| 0u8) ==> !accepted,
{
    match (ed25519_dalek::VerifyingKey::try_from(key), ed25519_dalek::Signature::from_slice(signature)) {
        (Ok(k), Ok(s)) => k.verify_strict(message, &s).is_ok(),
        _ => false,
    }
}

/// `SigningKey::sign` (ed25519-dalek) with the key made from the 32-byte
/// secret `seed`: the signature's bytes, named `ed25519_signature`, 64 of them.
/// Whether `verify_strict` accepts the result is not claimed.
#[verifier::external_body]
pub(crate) fn sign(seed: &[u8], message: &[u8]) -> (signature: Vec<u8>)
    requires
        seed@.len() == 32,
    ensures
        signature@ == ed25519_signature(seed@, message@),
        signature@.len() == 64,
{
    match ed25519_dalek::SigningKey::try_from(seed) {
        Ok(k) => k.sign(message).to_bytes().to_vec(),
        Err(_) => Vec::new(),
    }
}

/// The 32 bytes of the public key of the `ed25519_dalek::SigningKey` whose
/// secret is `seed` (`verifying_key().to_bytes()`).
pub uninterp spec fn ed25519_public_key_of(seed: Seq<u8>) -> Seq<u8>;

/// `SigningKey::verifying_key` (ed25519-dalek) of the key made from the
/// 32-byte secret `seed`, as its 32 bytes, named `ed25519_public_key_of`.
#[verifier::external_body]
pub(crate) fn public_key_of(seed: &[u8]) -> (key: Vec<u8>)
    requires
        seed@.len() == 32,
    ensures
        key@ == ed25519_public_key_of(seed@),
        key@.len() == 32,
{
    match ed25519_dalek::SigningKey::try_from(seed) {
        Ok(k) => k.verifying_key().to_bytes().to_vec(),
        Err(_) => Vec::new(),
    }
}

/// What `chrono::NaiveDate::parse_from_str(text, "%Y-%m-%d")` gives: the
/// `(year, month, day)` of the parsed date, or `None` where it reports an error.
pub uninterp spec fn ymd_date_parsed(text: Seq<char>) -> Option<(int, int, int)>;

/// `NaiveDate::parse_from_str` with the format `%Y-%m-%d` (chrono): the result
/// is the name `ymd_date_parsed` of the text; a parsed date is a valid
/// calendar day of chrono's range, as every `NaiveDate` is.
#[verifier::external_body]
pub(crate) fn parse_ymd_date(text: &str) -> (parsed: Option<(i32, u32, u32)>)
    ensures
        parsed is None <==> ymd_date_parsed(text@) is None,
        parsed matches Some(t) ==> ymd_date_parsed(text@) == Some((t.0 as int, t.1 as int, t.2 as int)),
        parsed matches Some(t) ==> is_calendar_date(t.0 as int, t.1 as int, t.2 as int),
{
    match chrono::NaiveDate::parse_from_str(text, "%Y-%m-%d") {
        Ok(d) => Some((d.year(), d.month(), d.day())),
        Err(_) => None,
    }
}

/// `machine_uid::get`: the operating system's machine id, or `None` where the
/// crate reports an error. It depends on the machine, so nothing is claimed of it.
#[verifier::external_body]
pub(crate) fn read_machine_uid() -> (uid: Option<String>) {
    match machine_uid::get() {
        Ok(uid) => Some(uid),
        Err(_) => None,
    }
}

} // verus!
