use vstd::prelude::*;

verus! {

/// The lowercase hexadecimal digit for a value below sixteen.
pub open spec fn hex_digit(d: int) -> char {
    seq!['0', '1', '2', '3', '4', '5', '6', '7', '8', '9', 'a', 'b', 'c', 'd', 'e', 'f'][d]
}

/// Lowercase hexadecimal text of a byte string: two digits per byte, high
/// nibble first.
pub open spec fn hex_of(b: Seq<u8>) -> Seq<char> {
    Seq::new(
        (2 * b.len()) as nat,
        |i: int|
            if i % 2 == 0 {
                hex_digit(b[i / 2] as int / 16)
            } else {
                hex_digit(b[i / 2] as int % 16)
            },
    )
}

/// The ed25519 public key derived from a 32-byte secret key.
pub uninterp spec fn public_key_of(secret: Seq<u8>) -> Seq<u8>;

/// Distinct nibbles have distinct digits.
proof fn lemma_hex_digit_injective(a: int, b: int)
    requires
        0 <= a < 16,
        0 <= b < 16,
        hex_digit(a) == hex_digit(b),
    ensures
        a == b,
{
    let digits = seq!['0', '1', '2', '3', '4', '5', '6', '7', '8', '9', 'a', 'b', 'c', 'd', 'e', 'f'];
    assert(digits[a] == digits[b]);
}

/// Hex text is collision-free: two byte strings with the same text are equal.
pub proof fn lemma_hex_injective(a: Seq<u8>, b: Seq<u8>)
    requires
        hex_of(a) == hex_of(b),
    ensures
        a == b,
{
    assert(hex_of(a).len() == 2 * a.len());
    assert(a.len() == b.len());
    assert forall|j: int| 0 <= j < a.len() implies a[j] == b[j] by {
        let k = 2 * j;
        assert(k / 2 == j && k % 2 == 0);
        assert((k + 1) / 2 == j && (k + 1) % 2 == 1);
        assert(hex_of(a)[k] == hex_digit(a[j] as int / 16));
        assert(hex_of(b)[k] == hex_digit(b[j] as int / 16));
        assert(hex_of(a)[k + 1] == hex_digit(a[j] as int % 16));
        assert(hex_of(b)[k + 1] == hex_digit(b[j] as int % 16));
        lemma_hex_digit_injective(a[j] as int / 16, b[j] as int / 16);
        lemma_hex_digit_injective(a[j] as int % 16, b[j] as int % 16);
    }
    assert(a =~= b);
}

#[verifier::external_type_specification]
#[verifier::external_body]
pub struct ExSystemRandom(ring::rand::SystemRandom);

#[verifier::external_type_specification]
#[verifier::external_body]
pub struct ExUnspecified(ring::error::Unspecified);

#[verifier::external_type_specification]
#[verifier::external_body]
pub struct ExSignatureError(ed25519_dalek::SignatureError);

/// Relies on ring's `SystemRandom::new`, which opens the system's secure
/// random source.
pub assume_specification[ ring::rand::SystemRandom::new ]() -> ring::rand::SystemRandom;

/// Relies on ring's `SecureRandom::fill` to fill a 32-byte buffer from the
/// system's secure random source; it fails only when that source fails.
#[verifier::external_body]
fn random_seed(rng: &ring::rand::SystemRandom) -> (r: Result<Vec<u8>, ring::error::Unspecified>)
    ensures
        r is Ok ==> r->Ok_0@.len() == 32,
{
    let mut bytes = [0u8; 32];
    ring::rand::SecureRandom::fill(rng, &mut bytes)?;
    Ok(bytes.to_vec())
}

/// A fresh secret key seed: 32 bytes from `rng`, or `CryptoOperation` when the
/// random source fails.
pub fn generate_secret(rng: &ring::rand::SystemRandom) -> (r: Result<Vec<u8>, crate::error::CryptoNodeError>)
    ensures
        r is Ok ==> r->Ok_0@.len() == 32,
        r is Err ==> r->Err_0 is CryptoOperation,
{
    match random_seed(rng) {
        Ok(seed) => Ok(seed),
        Err(_) => Err(crate::error::CryptoNodeError::CryptoOperation("random source failed".to_string())),
    }
}

/// Relies on ed25519-dalek's `SecretKey::from_bytes`, which accepts exactly
/// 32 bytes, and on `PublicKey::from(&SecretKey)`, which derives the 32-byte
/// public key from them.
#[verifier::external_body]
fn ed25519_public_key(secret: &Vec<u8>) -> (r: Result<Vec<u8>, ed25519_dalek::SignatureError>)
    ensures
        r is Ok <==> secret@.len() == 32,
        r is Ok ==> r->Ok_0@ == public_key_of(secret@),
        r is Ok ==> r->Ok_0@.len() == 32,
{
    let sk = ed25519_dalek::SecretKey::from_bytes(secret)?;
    Ok(ed25519_dalek::PublicKey::from(&sk).as_bytes().to_vec())
}

/// The public key of a 32-byte secret key.
pub fn derive_public_key(secret: &Vec<u8>) -> (r: Result<Vec<u8>, crate::error::CryptoNodeError>)
    ensures
        r is Ok <==> secret@.len() == 32,
        r is Ok ==> r->Ok_0@ == public_key_of(secret@) && r->Ok_0@.len() == 32,
        r is Err ==> r->Err_0 is CryptoOperation,
{
    match ed25519_public_key(secret) {
        Ok(pk) => Ok(pk),
        Err(_) => Err(crate::error::CryptoNodeError::CryptoOperation("secret key must be 32 bytes".to_string())),
    }
}

/// Relies on `hex::encode`: two lowercase hex digits per byte, high nibble first.
#[verifier::external_body]
pub(crate) fn encode_hex(b: &Vec<u8>) -> (r: String)
    ensures
        r@ == hex_of(b@),
{
    hex::encode(b)
}

/// The textual address of a public key: its hex text.
pub fn address_of(public_key: &Vec<u8>) -> (r: String)
    ensures
        r@ == hex_of(public_key@),
{
    encode_hex(public_key)
}

/// Relies on `uuid::Uuid::new_v4` for a random identifier, read as a `u128`.
#[verifier::external_body]
pub(crate) fn random_id() -> (r: u128) {
    uuid::Uuid::new_v4().as_u128()
}

} // verus!
