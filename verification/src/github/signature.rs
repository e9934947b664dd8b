use crate::text::{chars_of, has_prefix, starts_with};
use hmac::{Hmac, Mac};
use sha2::Sha256;
use vstd::prelude::*;
use vstd::string::*;

verus! {

/// Why a signature header carries no tag.
#[derive(Clone, Copy, Debug, PartialEq, Eq, Structural)]
pub enum SignatureError {
    /// The header does not begin with `sha256=`.
    MissingPrefix,
    /// What follows the prefix is not an even number of hexadecimal digits.
    InvalidHex,
}

/// `hex::FromHexError`, the error of `hex::decode`. Nothing is read from it.
#[verifier::external_type_specification]
#[verifier::external_body]
pub struct ExFromHexError(hex::FromHexError);

/// The tag that HMAC-SHA256 gives `message` under `key`.
pub uninterp spec fn hmac_sha256(key: Seq<u8>, message: Seq<u8>) -> Seq<u8>;

/// The algorithm prefix of a signature header, `sha256=`.
pub open spec fn signature_prefix() -> Seq<char> {
    seq!['s', 'h', 'a', '2', '5', '6', '=']
}

/// The number that the hexadecimal digit `c` stands for, in either case.
pub open spec fn hex_digit(c: char) -> Option<nat> {
    if '0' <= c && c <= '9' {
        Some((c as int - 48) as nat)
    } else if 'a' <= c && c <= 'f' {
        Some((c as int - 87) as nat)
    } else if 'A' <= c && c <= 'F' {
        Some((c as int - 55) as nat)
    } else {
        None
    }
}

/// Whether `s` is an even number of hexadecimal digits.
pub open spec fn is_hex_text(s: Seq<char>) -> bool {
    s.len() % 2 == 0 && forall|i: int| 0 <= i < s.len() ==> hex_digit(#[trigger] s[i]) is Some
}

/// The bytes that the hexadecimal text `s` writes, two digits to a byte, the
/// high half first.
pub open spec fn hex_bytes(s: Seq<char>) -> Seq<u8> {
    Seq::new(
        s.len() / 2,
        |i: int| (hex_digit(s[2 * i]).unwrap() * 16 + hex_digit(s[2 * i + 1]).unwrap()) as u8,
    )
}

/// The lower-case hexadecimal digit for `d`.
pub open spec fn hex_char(d: nat) -> char {
    if d < 10 {
        (48 + d) as char
    } else {
        (87 + d) as char
    }
}

/// `bytes` in lower-case hexadecimal.
pub open spec fn hex_text(bytes: Seq<u8>) -> Seq<char> {
    Seq::new(
        2 * bytes.len(),
        |i: int|
            if i % 2 == 0 {
                hex_char((bytes[i / 2] / 16) as nat)
            } else {
                hex_char((bytes[i / 2] % 16) as nat)
            },
    )
}

/// Whether `s` holds none of the capital hexadecimal digits `A` to `F`.
pub open spec fn lower_case(s: Seq<char>) -> bool {
    forall|i: int| 0 <= i < s.len() ==> !('A' <= #[trigger] s[i] && s[i] <= 'F')
}

/// The header that carries `tag`: the prefix, then the tag in lower-case
/// hexadecimal.
pub open spec fn signature_header(tag: Seq<u8>) -> Seq<char> {
    signature_prefix() + hex_text(tag)
}

/// The tag that a signature header claims, or why it claims none.
pub open spec fn claimed_tag(header: Seq<char>) -> Result<Seq<u8>, SignatureError> {
    if !has_prefix(header, signature_prefix()) {
        Err(SignatureError::MissingPrefix)
    } else if !is_hex_text(header.skip(7)) {
        Err(SignatureError::InvalidHex)
    } else {
        Ok(hex_bytes(header.skip(7)))
    }
}

/// Whether `header` vouches for a message whose tag is `tag`: `Ok(true)` for
/// an authentic message, `Ok(false)` for a forged one, an error for a header
/// that is malformed.
pub open spec fn verdict(tag: Seq<u8>, header: Seq<char>) -> Result<bool, SignatureError> {
    match claimed_tag(header) {
        Ok(claimed) => Ok(claimed == tag),
        Err(e) => Err(e),
    }
}

/// HMAC-SHA256 of `message` under `key`, computed by `Hmac<Sha256>` of the
/// `hmac` and `sha2` crates: `new_from_slice`, `update`, `finalize`. The tag
/// depends on the key and the message alone; a key of any length is taken.
#[verifier::external_body]
pub(crate) fn hmac_sha256_tag(key: &[u8], message: &[u8]) -> (tag: Vec<u8>)
    ensures
        tag@ == hmac_sha256(key@, message@),
{
    let mut mac = Hmac::<Sha256>::new_from_slice(key).unwrap();
    mac.update(message);
    mac.finalize().into_bytes().to_vec()
}

/// `constant_time_eq::constant_time_eq`: whether the two byte strings are
/// equal, in time that does not depend on where they differ.
#[verifier::external_body]
pub(crate) fn constant_time_equal(a: &[u8], b: &[u8]) -> (same: bool)
    ensures
        same == (a@ == b@),
{
    constant_time_eq::constant_time_eq(a, b)
}

/// `hex::decode`: succeeds on an even number of hexadecimal digits, of either
/// case, and then gives one byte for each two digits, the high half first.
#[verifier::external_body]
fn hex_decode(text: &str) -> (r: Result<Vec<u8>, hex::FromHexError>)
    ensures
        r is Ok <==> is_hex_text(text@),
        r matches Ok(bytes) ==> bytes@ == hex_bytes(text@),
{
    hex::decode(text)
}

/// Reading the two digits of a byte gives the byte back.
proof fn lemma_hex_byte(b: u8)
    ensures
        hex_digit(hex_char((b / 16) as nat)) == Some((b / 16) as nat),
        hex_digit(hex_char((b % 16) as nat)) == Some((b % 16) as nat),
        ((b / 16) * 16 + b % 16) as u8 == b,
{
}

/// The header written for a tag claims that tag.
pub proof fn lemma_header_claims_tag(tag: Seq<u8>)
    ensures
        claimed_tag(signature_header(tag)) == Ok::<Seq<u8>, SignatureError>(tag),
        lower_case(signature_header(tag)),
{
    let header = signature_header(tag);
    let text = hex_text(tag);
    assert(header.take(7) =~= signature_prefix());
    assert(header.skip(7) =~= text);
    assert forall|i: int| 0 <= i < text.len() implies hex_digit(#[trigger] text[i]) is Some by {
        lemma_hex_byte(tag[i / 2]);
    }
    assert forall|i: int| 0 <= i < tag.len() implies hex_bytes(text)[i] == tag[i] by {
        lemma_hex_byte(tag[i]);
        assert(text[2 * i] == hex_char((tag[i] / 16) as nat));
        assert(text[2 * i + 1] == hex_char((tag[i] % 16) as nat));
    }
    assert(hex_bytes(text) =~= tag);
    assert forall|i: int| 0 <= i < header.len() implies !('A' <= #[trigger] header[i] && header[i]
        <= 'F') by {
        if i >= 7 {
            assert(header[i] == text[i - 7]);
        }
    }
}

/// A message is authentic under the header that carries its own tag: for
/// every body and every secret, the tag of the body under the secret, written
/// in hexadecimal behind the prefix, verifies.
pub proof fn lemma_own_signature_is_authentic(body: Seq<u8>, secret: Seq<u8>)
    ensures
        verdict(hmac_sha256(secret, body), signature_header(hmac_sha256(secret, body))) == Ok::<
            bool,
            SignatureError,
        >(true),
{
    lemma_header_claims_tag(hmac_sha256(secret, body));
}

/// A header that carries any other tag is forged.
pub proof fn lemma_other_tag_is_forged(tag: Seq<u8>, other: Seq<u8>)
    requires
        other != tag,
    ensures
        verdict(tag, signature_header(other)) == Ok::<bool, SignatureError>(false),
{
    lemma_header_claims_tag(other);
}

/// Among the headers without capital digits, only the one written for the
/// tag is authentic: changing any character of it gives a header that is
/// forged or malformed.
pub proof fn lemma_changed_header_is_not_authentic(tag: Seq<u8>, header: Seq<char>)
    requires
        lower_case(header),
        header != signature_header(tag),
    ensures
        verdict(tag, header) != Ok::<bool, SignatureError>(true),
{
    if claimed_tag(header) == Ok::<Seq<u8>, SignatureError>(tag) {
        let text = header.skip(7);
        assert forall|i: int| 0 <= i < text.len() implies text[i] == hex_text(tag)[i] by {
            let k = i / 2;
            assert(text[2 * k] == header[2 * k + 7]);
            assert(text[2 * k + 1] == header[2 * k + 8]);
            assert(hex_digit(text[2 * k]) is Some);
            assert(hex_digit(text[2 * k + 1]) is Some);
            assert(tag[k] == hex_bytes(text)[k]);
        }
        assert(text =~= hex_text(tag));
        assert(header =~= header.take(7) + header.skip(7));
        assert(false);
    }
}

/// One signature vouches for another body exactly when both bodies have the
/// same tag under the secret.
pub proof fn lemma_signature_of_other_body(secret: Seq<u8>, body: Seq<u8>, other: Seq<u8>)
    ensures
        verdict(hmac_sha256(secret, other), signature_header(hmac_sha256(secret, body))) == Ok::<
            bool,
            SignatureError,
        >(hmac_sha256(secret, body) == hmac_sha256(secret, other)),
{
    lemma_header_claims_tag(hmac_sha256(secret, body));
}

/// Reads the tag that a signature header claims.
pub fn signature_tag(header: &str) -> (r: Result<Vec<u8>, SignatureError>)
    ensures
        match r {
            Ok(tag) => claimed_tag(header@) == Ok::<Seq<u8>, SignatureError>(tag@),
            Err(e) => claimed_tag(header@) == Err::<Seq<u8>, SignatureError>(e),
        },
{
    let chars = chars_of(header);
    let prefix = chars_of("sha256=");
    proof {
        reveal_strlit("sha256=");
        assert(prefix@ =~= signature_prefix());
    }
    if !starts_with(chars.as_slice(), prefix.as_slice()) {
        return Err(SignatureError::MissingPrefix);
    }
    let text = header.substring_char(7, chars.len());
    assert(text@ =~= header@.skip(7));
    match hex_decode(text) {
        Ok(tag) => Ok(tag),
        Err(_) => Err(SignatureError::InvalidHex),
    }
}

/// Judges a signature header against the tag that the message must have.
/// A malformed header is refused before anything is compared; the comparison
/// takes the same time wherever the tags differ.
pub fn tag_matches(tag: &[u8], header: &str) -> (r: Result<bool, SignatureError>)
    ensures
        r == verdict(tag@, header@),
{
    match signature_tag(header) {
        Ok(claimed) => Ok(constant_time_equal(claimed.as_slice(), tag)),
        Err(e) => Err(e),
    }
}

/// Judges a signature header against the raw body of a delivery and the
/// shared secret.
pub fn verify_signature(body: &[u8], secret: &[u8], header: &str) -> (r: Result<
    bool,
    SignatureError,
>)
    ensures
        r == verdict(hmac_sha256(secret@, body@), header@),
{
    let tag = hmac_sha256_tag(secret, body);
    tag_matches(tag.as_slice(), header)
}

} // verus!
