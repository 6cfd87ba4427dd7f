//! The cryptographic primitives the analysis borrows from `ring`: SHA-256 and
//! opening AEAD-protected records.
use ring::aead;
use vstd::prelude::*;

verus! {

/// The AEAD algorithms that TLS 1.3 records can be protected with.
#[derive(Debug, Clone, Copy)]
pub enum AeadAlgorithm {
    Aes128Gcm,
    Aes256Gcm,
    Chacha20Poly1305,
}

/// The key length, in bytes, that `ring` demands for `a`.
pub open spec fn aead_key_len(a: AeadAlgorithm) -> nat {
    match a {
        AeadAlgorithm::Aes128Gcm => 16,
        AeadAlgorithm::Aes256Gcm => 32,
        AeadAlgorithm::Chacha20Poly1305 => 32,
    }
}

/// The SHA-256 digest of `data`, as `ring::digest::digest` computes it.
pub uninterp spec fn sha256(data: Seq<u8>) -> Seq<u8>;

/// The plaintext that `ring::aead::LessSafeKey::open_in_place` recovers from
/// `ciphertext` (authentication tag last) under `key` and `nonce` with empty
/// associated data, or `None` when authentication fails.
pub uninterp spec fn ring_aead_open(
    algorithm: AeadAlgorithm,
    key: Seq<u8>,
    nonce: Seq<u8>,
    ciphertext: Seq<u8>,
) -> Option<Seq<u8>>;

/// What came of an attempt to open a record.
#[derive(Debug)]
pub enum OpenOutcome {
    /// `ring` refused the key: its length is wrong for the algorithm.
    KeyRejected,
    /// Authentication failed.
    Failed,
    /// The recovered plaintext.
    Opened(Vec<u8>),
}

/// Calls `ring::digest::digest` with `SHA256`. Trusted: the result is the
/// named digest of `data`, 32 bytes long, as ring's documentation of
/// `SHA256` states (`output_len` 32).
#[verifier::external_body]
pub(crate) fn sha256_digest(data: &[u8]) -> (r: Vec<u8>)
    ensures
        r@ == sha256(data@),
        r@.len() == 32,
{
    ring::digest::digest(&ring::digest::SHA256, data).as_ref().to_vec()
}

/// Calls `ring::aead::UnboundKey::new` and then
/// `LessSafeKey::open_in_place` with empty associated data. Trusted: the
/// key is refused exactly when its length differs from the algorithm's key
/// length (the documented failure of `UnboundKey::new`); otherwise the
/// outcome is the named result of opening, and a plaintext is 16 bytes (the
/// tag) shorter than the ciphertext, as `open_within` splits it.
#[verifier::external_body]
pub(crate) fn aead_open(algorithm: AeadAlgorithm, key: &[u8], nonce: [u8; 12], ciphertext: &[u8]) -> (r: OpenOutcome)
    ensures
        r is KeyRejected <==> key@.len() != aead_key_len(algorithm),
        r matches OpenOutcome::Opened(p) ==> ring_aead_open(algorithm, key@, nonce@, ciphertext@)
            == Some(p@) && p@.len() + 16 == ciphertext@.len(),
        r is Failed ==> ring_aead_open(algorithm, key@, nonce@, ciphertext@) is None,
{
    let alg = match algorithm {
        AeadAlgorithm::Aes128Gcm => &aead::AES_128_GCM,
        AeadAlgorithm::Aes256Gcm => &aead::AES_256_GCM,
        AeadAlgorithm::Chacha20Poly1305 => &aead::CHACHA20_POLY1305,
    };
    let unbound = match aead::UnboundKey::new(alg, key) {
        Ok(k) => k,
        Err(_) => return OpenOutcome::KeyRejected,
    };
    let mut in_out = ciphertext.to_vec();
    let nonce = aead::Nonce::assume_unique_for_key(nonce);
    match aead::LessSafeKey::new(unbound).open_in_place(nonce, aead::Aad::empty(), &mut in_out) {
        Ok(p) => OpenOutcome::Opened(p.to_vec()),
        Err(_) => OpenOutcome::Failed,
    }
}

} // verus!
