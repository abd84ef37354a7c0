//! Digests and their hexadecimal text.
use hmac::Mac;
use sha2::Digest;
use vstd::prelude::*;

verus! {

/// The SHA-256 digest of some bytes.
pub uninterp spec fn sha256_of(bytes: Seq<u8>) -> Seq<u8>;

/// The HMAC-SHA256 of some bytes under a key.
pub uninterp spec fn hmac_sha256_of(key: Seq<u8>, body: Seq<u8>) -> Seq<u8>;

/// `sha2::Sha256`: the digest of the bytes, 32 bytes long.
#[verifier::external_body]
fn sha256(bytes: &[u8]) -> (d: Vec<u8>)
    ensures
        d@ == sha256_of(bytes@),
        d@.len() == 32,
{
    let mut h = sha2::Sha256::new();
    h.update(bytes);
    h.finalize().to_vec()
}

/// `hmac::Hmac<sha2::Sha256>`: the code of the body under the key, 32 bytes long. A key
/// of any length is taken, so there is always one.
#[verifier::external_body]
fn hmac_sha256(key: &[u8], body: &[u8]) -> (r: Option<Vec<u8>>)
    ensures
        r is Some,
        r->Some_0@ == hmac_sha256_of(key@, body@),
        r->Some_0@.len() == 32,
{
    let mut mac = hmac::Hmac::<sha2::Sha256>::new_from_slice(key).ok()?;
    mac.update(body);
    Some(mac.finalize().into_bytes().to_vec())
}

/// The lower-case hexadecimal digit of a value below sixteen.
pub open spec fn hex_digit(v: int) -> char {
    if v < 10 {
        (48 + v) as u8 as char
    } else {
        (87 + v) as u8 as char
    }
}

/// Two lower-case hexadecimal digits for each byte.
pub open spec fn hex_text(bytes: Seq<u8>) -> Seq<char> {
    Seq::new(
        2 * bytes.len(),
        |i: int|
            if i % 2 == 0 {
                hex_digit(bytes[i / 2] as int / 16)
            } else {
                hex_digit(bytes[i / 2] as int % 16)
            },
    )
}

/// The value of a hexadecimal digit of either case.
pub open spec fn hex_value(b: u8) -> Option<int> {
    if 48 <= b <= 57 {
        Some(b - 48)
    } else if 97 <= b <= 102 {
        Some(b - 87)
    } else if 65 <= b <= 70 {
        Some(b - 55)
    } else {
        None
    }
}

/// Whether some bytes are hexadecimal text.
pub open spec fn is_hex(text: Seq<u8>) -> bool {
    &&& text.len() % 2 == 0
    &&& forall|i: int| 0 <= i < text.len() ==> hex_value(#[trigger] text[i]) is Some
}

/// The bytes that hexadecimal text stands for.
pub open spec fn hex_bytes(text: Seq<u8>) -> Seq<u8> {
    Seq::new(
        text.len() / 2,
        |i: int| (16 * hex_value(text[2 * i])->Some_0 + hex_value(text[2 * i + 1])->Some_0) as u8,
    )
}

/// `hex::encode`: lower-case hexadecimal text.
#[verifier::external_body]
fn hex_encode(bytes: &[u8]) -> (s: String)
    ensures
        s@ == hex_text(bytes@),
{
    hex::encode(bytes)
}

/// `hex::decode`: reads hexadecimal text of either case; anything else is refused.
#[verifier::external_body]
pub(crate) fn hex_decode(text: &[u8]) -> (r: Option<Vec<u8>>)
    ensures
        match r {
            Some(b) => is_hex(text@) && b@ == hex_bytes(text@),
            None => !is_hex(text@),
        },
{
    hex::decode(text).ok()
}

/// The SHA-256 digest of some bytes, as hexadecimal text.
pub fn sha256_hex(bytes: &[u8]) -> (s: String)
    ensures
        s@ == hex_text(sha256_of(bytes@)),
        s@.len() == 64,
{
    let d = sha256(bytes);
    hex_encode(d.as_slice())
}

/// The HMAC-SHA256 of a body under a key, as hexadecimal text.
pub fn compute_hmac_sha256(key: &[u8], body: &[u8]) -> (s: String)
    ensures
        s@ == hex_text(hmac_sha256_of(key@, body@)),
        s@.len() == 64,
{
    match hmac_sha256(key, body) {
        Some(d) => hex_encode(d.as_slice()),
        None => String::new(),
    }
}

/// Hexadecimal text reads back as the bytes that it was written from.
pub proof fn hex_round_trip(bytes: Seq<u8>, text: Seq<u8>)
    requires
        text.len() == hex_text(bytes).len(),
        forall|i: int| 0 <= i < text.len() ==> text[i] == hex_text(bytes)[i] as u8,
    ensures
        is_hex(text),
        hex_bytes(text) == bytes,
{
    assert forall|i: int| 0 <= i < bytes.len() implies {
        &&& hex_value(#[trigger] text[2 * i]) == Some(bytes[i] as int / 16)
        &&& hex_value(text[2 * i + 1]) == Some(bytes[i] as int % 16)
    } by {
        assert((2 * i) / 2 == i && (2 * i) % 2 == 0);
        assert((2 * i + 1) / 2 == i && (2 * i + 1) % 2 == 1);
        assert(hex_text(bytes)[2 * i] == hex_digit(bytes[i] as int / 16));
        assert(hex_text(bytes)[2 * i + 1] == hex_digit(bytes[i] as int % 16));
    }
    assert forall|i: int| 0 <= i < text.len() implies hex_value(#[trigger] text[i]) is Some by {
        let k = i / 2;
        assert(hex_value(text[2 * k]) is Some);
        assert(i == 2 * k || i == 2 * k + 1);
    }
    assert(hex_bytes(text) =~= bytes);
}

} // verus!
