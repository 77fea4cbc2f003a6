use vstd::prelude::*;

verus! {

/// The HMAC-SHA256 tag of `message` under `key`, as ring computes it.
pub uninterp spec fn hmac_sha256_of(key: Seq<u8>, message: Seq<u8>) -> Seq<u8>;

/// Number of bytes in an HMAC-SHA256 tag.
pub const TAG_LEN: usize = 32;

/// Longest key or message, in bytes, handed to the HMAC computation. SHA-256
/// takes at most 2^64 - 1 bits, and the inner hash adds one block to the message.
pub const MAX_SIGNED_LEN: u64 = 0x0fff_ffff_ffff_ffff;

/// The sixteen lowercase hexadecimal digits, in order of value.
pub open spec fn lower_hex_alphabet() -> Seq<char> {
    seq!['0', '1', '2', '3', '4', '5', '6', '7', '8', '9', 'a', 'b', 'c', 'd', 'e', 'f']
}

pub open spec fn hex_digit(n: int) -> char
    recommends
        0 <= n < 16,
{
    lower_hex_alphabet()[n]
}

/// Lowercase hex text of `bytes`: two digits per byte, high nibble first.
pub open spec fn hex_of(bytes: Seq<u8>) -> Seq<char> {
    Seq::new(
        2 * bytes.len(),
        |i: int|
            if i % 2 == 0 {
                hex_digit(bytes[i / 2] as int / 16)
            } else {
                hex_digit(bytes[i / 2] as int % 16)
            },
    )
}

/// The signature of `message` under `secret`: the lowercase hex text of its tag.
pub open spec fn signature_of(secret: Seq<u8>, message: Seq<u8>) -> Seq<char> {
    hex_of(hmac_sha256_of(secret, message))
}

/// Relies on ring::hmac::Key::new and ring::hmac::sign with HMAC_SHA256: the tag
/// depends on the key and the message alone and is 32 bytes long. Both panic only
/// on inputs longer than SHA-256 accepts, which `requires` leaves out.
#[verifier::external_body]
fn hmac_sha256(key: &[u8], message: &[u8]) -> (r: Vec<u8>)
    requires
        key@.len() <= MAX_SIGNED_LEN,
        message@.len() <= MAX_SIGNED_LEN,
    ensures
        r@ == hmac_sha256_of(key@, message@),
        r@.len() == TAG_LEN,
{
    let key = ring::hmac::Key::new(ring::hmac::HMAC_SHA256, key);
    ring::hmac::sign(&key, message).as_ref().to_vec()
}

/// Relies on hex::encode: each byte becomes two digits of "0123456789abcdef",
/// the high nibble first.
#[verifier::external_body]
fn hex_encode(bytes: &[u8]) -> (r: String)
    ensures
        r@ == hex_of(bytes@),
{
    hex::encode(bytes)
}

/// Signs `message` with `secret`: the lowercase hex HMAC-SHA256 tag, 64 characters.
pub fn sign(secret: &[u8], message: &[u8]) -> (r: String)
    requires
        secret@.len() <= MAX_SIGNED_LEN,
        message@.len() <= MAX_SIGNED_LEN,
    ensures
        r@ == signature_of(secret@, message@),
        r@.len() == 2 * TAG_LEN,
        forall|i: int| 0 <= i < r@.len() ==> lower_hex_alphabet().contains(#[trigger] r@[i]),
{
    let tag = hmac_sha256(secret, message);
    let r = hex_encode(tag.as_slice());
    proof {
        lemma_hex_of_is_lower_hex(tag@);
    }
    r
}

/// Every character of the hex text of any byte string is a lowercase hex digit,
/// and the text has two characters per byte.
pub proof fn lemma_hex_of_is_lower_hex(bytes: Seq<u8>)
    ensures
        hex_of(bytes).len() == 2 * bytes.len(),
        forall|i: int|
            0 <= i < hex_of(bytes).len() ==> lower_hex_alphabet().contains(#[trigger] hex_of(bytes)[i]),
{
    assert forall|i: int| 0 <= i < hex_of(bytes).len() implies lower_hex_alphabet().contains(
        #[trigger] hex_of(bytes)[i],
    ) by {
        let b = bytes[i / 2] as int;
        let n = if i % 2 == 0 { b / 16 } else { b % 16 };
        assert(0 <= n < 16);
        assert(hex_of(bytes)[i] == lower_hex_alphabet()[n]);
    }
}

/// Signing is deterministic: equal secrets and equal messages give equal
/// signatures, whatever the call that produced them.
pub proof fn lemma_signature_deterministic(
    secret_a: Seq<u8>,
    message_a: Seq<u8>,
    secret_b: Seq<u8>,
    message_b: Seq<u8>,
)
    requires
        secret_a == secret_b,
        message_a == message_b,
    ensures
        signature_of(secret_a, message_a) == signature_of(secret_b, message_b),
{
}

} // verus!
