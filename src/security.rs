use vstd::prelude::*;

use crate::axdr::append_bytes;

verus! {

#[derive(Debug, Clone, Copy, PartialEq, Eq, Structural)]
pub enum SecurityError {
    InvalidKeyLength,
    EncryptionError,
    DecryptionError,
    /// The operating system gave no random bytes.
    RandomnessUnavailable,
}

/// The length of an HMAC-SHA256 tag.
pub const HMAC_SHA256_LEN: usize = 32;

/// The length of an AES-GCM nonce.
pub const GCM_NONCE_LEN: usize = 12;

/// The tag that `hmac::Hmac<sha2::Sha256>` computes over `message` under `key`.
pub uninterp spec fn hmac_sha256_of(key: Seq<u8>, message: Seq<u8>) -> Seq<u8>;

/// What `aes_gcm::Aes128Gcm` makes of `plaintext` under `key` and `nonce`
/// (ciphertext followed by the tag).
pub uninterp spec fn aes128_gcm_sealed(key: Seq<u8>, nonce: Seq<u8>, plaintext: Seq<u8>) -> Seq<u8>;

/// What `aes_gcm::Aes128Gcm` recovers from an authentic `ciphertext` under
/// `key` and `nonce`.
pub uninterp spec fn aes128_gcm_opened(key: Seq<u8>, nonce: Seq<u8>, ciphertext: Seq<u8>) -> Seq<
    u8,
>;

/// Relies on `hmac::Mac` for `Hmac<Sha256>`: `new_from_slice` (which takes
/// a key of any length and never fails), `update` and `finalize`; the tag
/// depends on key and message alone and is 32 bytes.
#[verifier::external_body]
fn hmac_sha256(key: &[u8], message: &[u8]) -> (r: Result<Vec<u8>, SecurityError>)
    ensures
        r is Ok,
        r matches Ok(v) ==> v@ == hmac_sha256_of(key@, message@) && v@.len() == HMAC_SHA256_LEN,
{
    let mut mac = <hmac::Hmac<sha2::Sha256> as hmac::Mac>::new_from_slice(key).map_err(
        |_| SecurityError::InvalidKeyLength,
    )?;
    hmac::Mac::update(&mut mac, message);
    Ok(hmac::Mac::finalize(mac).into_bytes().to_vec())
}

/// Relies on `rand_core::OsRng::try_fill_bytes`: on success every byte of
/// `dest` has been written; nothing is known of their values.
#[verifier::external_body]
pub(crate) fn fill_random(dest: &mut [u8]) -> (r: Result<(), SecurityError>)
    ensures
        final(dest)@.len() == old(dest)@.len(),
{
    rand_core::RngCore::try_fill_bytes(&mut rand_core::OsRng, dest).map_err(
        |_| SecurityError::RandomnessUnavailable,
    )
}

/// Relies on `aes_gcm::KeyInit::new_from_slice` (a key of any length but 16
/// bytes is refused) and `aead::Aead::encrypt` for `Aes128Gcm`, whose output
/// depends on key, nonce and plaintext alone.
#[verifier::external_body]
fn aes128_gcm_seal(key: &[u8], nonce: &[u8; 12], plaintext: &[u8]) -> (r: Result<Vec<u8>, SecurityError>)
    ensures
        r matches Ok(_) ==> key@.len() == 16,
        r matches Ok(v) ==> v@ == aes128_gcm_sealed(key@, nonce@, plaintext@),
        r matches Err(e) ==> (e == SecurityError::InvalidKeyLength || e == SecurityError::EncryptionError),
{
    let cipher = <aes_gcm::Aes128Gcm as aes_gcm::KeyInit>::new_from_slice(key).map_err(
        |_| SecurityError::InvalidKeyLength,
    )?;
    let nonce = aes_gcm::Nonce::from_slice(nonce.as_slice());
    aes_gcm::aead::Aead::encrypt(&cipher, nonce, plaintext).map_err(
        |_| SecurityError::EncryptionError,
    )
}

/// Relies on `aes_gcm::KeyInit::new_from_slice` (a key of any length but 16
/// bytes is refused) and `aead::Aead::decrypt` for `Aes128Gcm`, whose output,
/// when the tag checks, depends on key, nonce and ciphertext alone.
#[verifier::external_body]
fn aes128_gcm_open(key: &[u8], nonce: &[u8; 12], ciphertext: &[u8]) -> (r: Result<
    Vec<u8>,
    SecurityError,
>)
    ensures
        r matches Ok(_) ==> key@.len() == 16,
        r matches Ok(v) ==> v@ == aes128_gcm_opened(key@, nonce@, ciphertext@),
        r matches Err(e) ==> (e == SecurityError::InvalidKeyLength || e == SecurityError::DecryptionError),
{
    let cipher = <aes_gcm::Aes128Gcm as aes_gcm::KeyInit>::new_from_slice(key).map_err(
        |_| SecurityError::InvalidKeyLength,
    )?;
    let nonce = aes_gcm::Nonce::from_slice(nonce.as_slice());
    aes_gcm::aead::Aead::decrypt(&cipher, nonce, ciphertext).map_err(
        |_| SecurityError::DecryptionError,
    )
}

/// The LLS response to a challenge: HMAC-SHA256 of the challenge keyed by
/// the password.
pub fn lls_authenticate(password: &[u8], challenge: &[u8]) -> (r: Result<Vec<u8>, SecurityError>)
    ensures
        r matches Ok(v) && v@ == hmac_sha256_of(password@, challenge@) && v@.len()
            == HMAC_SHA256_LEN,
{
    hmac_sha256(password, challenge)
}

/// Seals `data` under a fresh random nonce; the result is the nonce
/// followed by the sealed data.
pub fn hls_encrypt(data: &[u8], key: &[u8]) -> (r: Result<Vec<u8>, SecurityError>)
    ensures
        key@.len() != 16 ==> r is Err,
        r matches Ok(v) ==> v@.len() >= GCM_NONCE_LEN && v@.subrange(GCM_NONCE_LEN as int, v@.len() as int)
            == aes128_gcm_sealed(key@, v@.subrange(0, GCM_NONCE_LEN as int), data@),
{
    let mut nonce = [0u8; 12];
    fill_random(&mut nonce)?;
    let sealed = aes128_gcm_seal(key, &nonce, data)?;
    let mut out: Vec<u8> = Vec::new();
    append_bytes(&mut out, nonce.as_slice());
    append_bytes(&mut out, sealed.as_slice());
    assert(out@.subrange(0, 12) =~= nonce@);
    assert(out@.subrange(12, out@.len() as int) =~= sealed@);
    Ok(out)
}

/// Opens data sealed by `hls_encrypt`: the first twelve bytes are the nonce.
/// Input shorter than a nonce cannot be opened.
pub fn hls_decrypt(data: &[u8], key: &[u8]) -> (r: Result<Vec<u8>, SecurityError>)
    ensures
        data@.len() < GCM_NONCE_LEN ==> r == Err::<Vec<u8>, SecurityError>(
            SecurityError::DecryptionError,
        ),
        data@.len() >= GCM_NONCE_LEN && key@.len() != 16 ==> r is Err,
        r matches Ok(v) ==> v@ == aes128_gcm_opened(
            key@,
            data@.subrange(0, GCM_NONCE_LEN as int),
            data@.subrange(GCM_NONCE_LEN as int, data@.len() as int),
        ),
{
    if data.len() < GCM_NONCE_LEN {
        return Err(SecurityError::DecryptionError);
    }
    let nonce = [data[0], data[1], data[2], data[3], data[4], data[5], data[6], data[7], data[8], data[9], data[10], data[11]];
    assert(nonce@ =~= data@.subrange(0, GCM_NONCE_LEN as int));
    let ciphertext = vstd::slice::slice_subrange(data, GCM_NONCE_LEN, data.len());
    aes128_gcm_open(key, &nonce, ciphertext)
}

} // verus!
