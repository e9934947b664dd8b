use hmac::{Hmac, Mac};
use sha2::Sha256;
use webhook_runners::github::signature::{
    signature_tag, tag_matches, verify_signature, SignatureError,
};

fn tag_of(secret: &[u8], body: &[u8]) -> Vec<u8> {
    let mut mac = Hmac::<Sha256>::new_from_slice(secret).unwrap();
    mac.update(body);
    mac.finalize().into_bytes().to_vec()
}

fn header_of(secret: &[u8], body: &[u8]) -> String {
    format!("sha256={}", hex::encode(tag_of(secret, body)))
}

#[test]
fn known_tag_verifies() {
    let header = "sha256=5bdcc146bf60754e6a042426089575c75a003f089d2739839dec58b964ec3843";
    assert_eq!(verify_signature(b"what do ya want for nothing?", b"Jefe", header), Ok(true));
    assert_eq!(verify_signature(b"what do ya want for nothing!", b"Jefe", header), Ok(false));
    assert_eq!(verify_signature(b"what do ya want for nothing?", b"jefe", header), Ok(false));
}

#[test]
fn documented_example_verifies() {
    let header = "sha256=757107ea0eb2509fc211221cce984b8a37570b6d7586c22c46f4379c8b043e17";
    assert_eq!(
        verify_signature(b"Hello, World!", b"It's a Secret to Everybody", header),
        Ok(true)
    );
}

#[test]
fn own_signature_is_authentic() {
    let cases: [(&[u8], &[u8]); 5] = [
        (b"", b""),
        (b"{}", b"secret"),
        (b"{\"action\":\"queued\"}", b"0123456789"),
        (&[0u8, 255, 128, 10, 13], &[1u8, 2, 3]),
        (&[7u8; 300], &[9u8; 200]),
    ];
    for (body, secret) in cases.iter() {
        assert_eq!(verify_signature(body, secret, &header_of(secret, body)), Ok(true));
    }
}

#[test]
fn changing_one_byte_of_the_body_is_forged() {
    let secret = b"secret";
    let body = b"{\"action\":\"queued\"}".to_vec();
    let header = header_of(secret, &body);
    for i in 0..body.len() {
        let mut other = body.clone();
        other[i] ^= 1;
        assert_eq!(verify_signature(&other, secret, &header), Ok(false));
    }
}

#[test]
fn changing_one_byte_of_the_tag_is_forged() {
    let secret = b"secret";
    let body = b"{\"action\":\"queued\"}";
    let tag = tag_of(secret, body);
    for i in 0..tag.len() {
        let mut other = tag.clone();
        other[i] ^= 0x80;
        let header = format!("sha256={}", hex::encode(&other));
        assert_eq!(verify_signature(body, secret, &header), Ok(false));
    }
}

#[test]
fn changing_one_character_of_the_header_is_not_authentic() {
    let secret = b"secret";
    let body = b"payload";
    let header = header_of(secret, body);
    for i in 0..header.len() {
        let mut bytes = header.clone().into_bytes();
        bytes[i] = if bytes[i] == b'0' { b'1' } else { b'0' };
        let other = String::from_utf8(bytes).unwrap();
        assert_ne!(verify_signature(body, secret, &other), Ok(true));
    }
}

#[test]
fn capital_digits_are_read_like_small_ones() {
    let secret = b"secret";
    let body = b"payload";
    let header = format!("sha256={}", hex::encode_upper(tag_of(secret, body)));
    assert_eq!(verify_signature(body, secret, &header), Ok(true));
}

#[test]
fn header_without_prefix_is_malformed() {
    let tag = hex::encode(tag_of(b"secret", b"payload"));
    assert_eq!(verify_signature(b"payload", b"secret", &tag), Err(SignatureError::MissingPrefix));
    assert_eq!(verify_signature(b"payload", b"secret", ""), Err(SignatureError::MissingPrefix));
    assert_eq!(
        verify_signature(b"payload", b"secret", &format!("sha1={}", tag)),
        Err(SignatureError::MissingPrefix)
    );
    assert_eq!(
        verify_signature(b"payload", b"secret", &format!("SHA256={}", tag)),
        Err(SignatureError::MissingPrefix)
    );
    assert_eq!(signature_tag("sha256"), Err(SignatureError::MissingPrefix));
}

#[test]
fn header_that_is_not_hexadecimal_is_malformed() {
    assert_eq!(signature_tag("sha256=abc"), Err(SignatureError::InvalidHex));
    assert_eq!(signature_tag("sha256=zz"), Err(SignatureError::InvalidHex));
    assert_eq!(signature_tag("sha256=0g"), Err(SignatureError::InvalidHex));
    assert_eq!(signature_tag("sha256= 0a"), Err(SignatureError::InvalidHex));
    assert_eq!(signature_tag("sha256=\u{e9}"), Err(SignatureError::InvalidHex));
    assert_eq!(signature_tag("sha256=\u{e9}a"), Err(SignatureError::InvalidHex));
    assert_eq!(tag_matches(&[0xab], "sha256=abc"), Err(SignatureError::InvalidHex));
}

#[test]
fn header_carries_the_bytes_that_its_digits_write() {
    assert_eq!(signature_tag("sha256="), Ok(vec![]));
    assert_eq!(signature_tag("sha256=0aff"), Ok(vec![0x0a, 0xff]));
    assert_eq!(signature_tag("sha256=0AfF10"), Ok(vec![0x0a, 0xff, 0x10]));
    assert_eq!(
        signature_tag("sha256=0123456789abcdefABCDEF"),
        Ok(vec![0x01, 0x23, 0x45, 0x67, 0x89, 0xab, 0xcd, 0xef, 0xab, 0xcd, 0xef])
    );
}

#[test]
fn tags_are_matched_byte_for_byte() {
    assert_eq!(tag_matches(&[0x0a, 0xff], "sha256=0aff"), Ok(true));
    assert_eq!(tag_matches(&[0x0a, 0xfe], "sha256=0aff"), Ok(false));
    assert_eq!(tag_matches(&[0x0a], "sha256=0aff"), Ok(false));
    assert_eq!(tag_matches(&[0x0a, 0xff, 0x00], "sha256=0aff"), Ok(false));
    assert_eq!(tag_matches(&[], "sha256="), Ok(true));
    assert_eq!(tag_matches(&[0x00], "sha256="), Ok(false));
}

#[test]
fn signature_of_another_length_is_forged() {
    assert_eq!(verify_signature(b"payload", b"secret", "sha256="), Ok(false));
    assert_eq!(verify_signature(b"payload", b"secret", "sha256=00"), Ok(false));
}
