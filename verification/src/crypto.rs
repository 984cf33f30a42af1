//! The cipher envelope engine.
//!
//! Derives a symmetric key from a passphrase and a key-derivation parameter
//! set (Argon2id, version 0x13), and performs authenticated encryption and
//! decryption of opaque byte payloads (ChaCha20-Poly1305, 96-bit nonce,
//! 128-bit tag appended to the ciphertext).
//!
//! The outside cryptographic calls stand behind trusted wrappers; everything
//! around them — parameter validation, the shape of the results, and how the
//! callers may combine them — is verified.

use vstd::prelude::*;

use crate::error::PassmanError;
use argon2::{Algorithm, Argon2, Params, Version};
use chacha20poly1305::aead::{Aead, KeyInit};
use chacha20poly1305::{ChaCha20Poly1305, Key, Nonce};
use rand::RngCore;
use rand::SeedableRng;
use rand_chacha::ChaCha20Rng;

verus! {

/// Length in bytes of the random salt persisted with each entry.
pub const SALT_LEN: usize = 16;

/// Length in bytes of the random nonce drawn for each encryption.
pub const NONCE_LEN: usize = 12;

/// Length in bytes of the derived symmetric key.
pub const KEY_LEN: usize = 32;

/// Length in bytes of the authentication tag appended to the ciphertext.
pub const TAG_LEN: usize = 16;

/// Version tag of the key-derivation algorithm.  Only version 0x13 of
/// Argon2 is ever produced or accepted.
#[derive(Clone, Copy, Debug, PartialEq, Eq, Structural)]
pub enum KdfVersion {
    V0x13,
}

/// The key-derivation parameter set persisted alongside each ciphertext, so
/// that decryption can reproduce the exact key.
#[derive(Debug, PartialEq, Eq)]
pub struct KdfParameters {
    pub salt: Vec<u8>,
    pub version: KdfVersion,
    pub m_cost: u32,
    pub t_cost: u32,
    pub p_cost: u32,
}

impl KdfParameters {
    /// Well-formedness: the salt has its fixed length.
    pub open spec fn wf(&self) -> bool {
        self.salt@.len() == SALT_LEN
    }
}

/// Exactly the cost triples that the Argon2 implementation accepts: at
/// least one iteration, between 1 and 2^24 - 1 lanes, and at least eight
/// 1-KiB memory blocks per lane.
pub open spec fn kdf_params_valid(m_cost: u32, t_cost: u32, p_cost: u32) -> bool {
    &&& m_cost >= 8
    &&& t_cost >= 1
    &&& p_cost >= 1
    &&& p_cost <= 0xFFFFFF
    &&& m_cost >= p_cost * 8
}

/// Decide [`kdf_params_valid`] executably (the product is taken in 64 bits,
/// so no overflow can occur).
pub fn check_kdf_params(m_cost: u32, t_cost: u32, p_cost: u32) -> (b: bool)
    ensures
        b == kdf_params_valid(m_cost, t_cost, p_cost),
{
    m_cost >= 8 && t_cost >= 1 && p_cost >= 1 && p_cost <= 0xFFFFFF && (m_cost as u64)
        >= (p_cost as u64) * 8
}

/// The 32-byte key that Argon2id (version 0x13) derives from a passphrase,
/// a salt and a cost triple.  The algorithm is deterministic in these
/// arguments alone; its pages-long definition is not restated here, only
/// named.
pub uninterp spec fn kdf_key(
    pwd: Seq<u8>,
    salt: Seq<u8>,
    m_cost: u32,
    t_cost: u32,
    p_cost: u32,
) -> Seq<u8>;

/// The ciphertext-with-tag that ChaCha20-Poly1305 produces from a key, a
/// nonce and a plaintext.  Deterministic in these arguments alone.
pub uninterp spec fn chacha_seal(key: Seq<u8>, nonce: Seq<u8>, plaintext: Seq<u8>) -> Seq<u8>;

/// What ChaCha20-Poly1305 decryption yields on a key, a nonce and a
/// ciphertext-with-tag: the plaintext where the tag verifies, nothing
/// otherwise.  Deterministic in these arguments alone.
pub uninterp spec fn chacha_open(key: Seq<u8>, nonce: Seq<u8>, ciphertext: Seq<u8>) -> Option<
    Seq<u8>,
>;

/// Relies on `argon2::Argon2::hash_password_into` with `Algorithm::Argon2id`
/// and `Version::V0x13`: the result is a deterministic function of the
/// passphrase, the salt and the cost parameters.  `Params::new` accepts
/// exactly the triples of [`kdf_params_valid`]; with a 16-byte salt and a
/// 32-byte output buffer the hash call itself fails only for a passphrase
/// longer than 2^32 - 1 bytes.
#[verifier::external_body]
fn derive_key(pwd: &[u8], salt: &[u8], m_cost: u32, t_cost: u32, p_cost: u32) -> (r: Result<
    Vec<u8>,
    PassmanError,
>)
    requires
        kdf_params_valid(m_cost, t_cost, p_cost),
        salt@.len() == SALT_LEN,
    ensures
        pwd@.len() <= 0xFFFFFFFF ==> r is Ok,
        r is Ok ==> r->Ok_0@ == kdf_key(pwd@, salt@, m_cost, t_cost, p_cost),
        r is Ok ==> r->Ok_0@.len() == KEY_LEN,
        r is Err ==> r->Err_0 == PassmanError::Argon2,
{
    let params = match Params::new(m_cost, t_cost, p_cost, None) {
        Ok(p) => p,
        Err(_) => return Err(PassmanError::Argon2),
    };
    let argon2 = Argon2::new(Algorithm::Argon2id, Version::V0x13, params);
    let mut output_key = [0u8; 32];
    match argon2.hash_password_into(pwd, salt, &mut output_key) {
        Ok(()) => Ok(output_key.to_vec()),
        Err(_) => Err(PassmanError::Argon2),
    }
}

/// Relies on `rand_chacha::ChaCha20Rng::from_os_rng` and
/// `rand::RngCore::fill_bytes`: a fresh generator seeded from the operating
/// system fills the salt and the nonce.  Nothing is stated of the drawn
/// bytes beyond their number — they are random.
#[verifier::external_body]
fn random_salt_and_nonce() -> (r: (Vec<u8>, Vec<u8>))
    ensures
        r.0@.len() == SALT_LEN,
        r.1@.len() == NONCE_LEN,
{
    let mut rng = ChaCha20Rng::from_os_rng();
    let mut salt = [0u8; 16];
    rng.fill_bytes(&mut salt);
    let mut nonce = [0u8; 12];
    rng.fill_bytes(&mut nonce);
    (salt.to_vec(), nonce.to_vec())
}

/// Relies on `chacha20poly1305::ChaCha20Poly1305::encrypt` (through
/// `aead::Aead`): the call appends the 16-byte tag to the ciphertext, fails
/// only for a plaintext of 2^32 - 1 or more 64-byte blocks, and its result —
/// named [`chacha_seal`] — decrypts back to the plaintext under the same key
/// and nonce.
#[verifier::external_body]
pub(crate) fn chacha_encrypt(key: &[u8], nonce: &[u8], plaintext: &[u8]) -> (r: Result<
    Vec<u8>,
    PassmanError,
>)
    requires
        key@.len() == KEY_LEN,
        nonce@.len() == NONCE_LEN,
    ensures
        r is Ok <==> plaintext@.len() / 64 < 0xFFFFFFFF,
        r is Ok ==> r->Ok_0@ == chacha_seal(key@, nonce@, plaintext@),
        r is Ok ==> r->Ok_0@.len() == plaintext@.len() + TAG_LEN,
        r is Ok ==> chacha_open(key@, nonce@, r->Ok_0@) == Some(plaintext@),
        r is Err ==> r->Err_0 == PassmanError::ChaChaPoly,
{
    let cipher = ChaCha20Poly1305::new(Key::from_slice(key));
    match cipher.encrypt(Nonce::from_slice(nonce), plaintext) {
        Ok(c) => Ok(c),
        Err(_) => Err(PassmanError::ChaChaPoly),
    }
}

/// Relies on `chacha20poly1305::ChaCha20Poly1305::decrypt` (through
/// `aead::Aead`): it returns the plaintext exactly when the tag verifies —
/// the outcome named [`chacha_open`] — and an error otherwise.
#[verifier::external_body]
pub(crate) fn chacha_decrypt(key: &[u8], nonce: &[u8], ciphertext: &[u8]) -> (r: Result<
    Vec<u8>,
    PassmanError,
>)
    requires
        key@.len() == KEY_LEN,
        nonce@.len() == NONCE_LEN,
    ensures
        match chacha_open(key@, nonce@, ciphertext@) {
            Some(pt) => r is Ok && r->Ok_0@ == pt,
            None => r is Err && r->Err_0 == PassmanError::ChaChaPoly,
        },
{
    let cipher = ChaCha20Poly1305::new(Key::from_slice(key));
    match cipher.decrypt(Nonce::from_slice(nonce), ciphertext) {
        Ok(p) => Ok(p),
        Err(_) => Err(PassmanError::ChaChaPoly),
    }
}

/// Prepare a fresh encryption: draw a random 16-byte salt and a random
/// 12-byte nonce, derive a 32-byte key from the passphrase and the salt
/// with the given cost parameters, and return key, parameter set and nonce.
///
/// Fails with [`PassmanError::Argon2`] exactly when the cost parameters are
/// outside the algorithm's domain, or — for a passphrase of 4 GiB or more —
/// when the key derivation itself refuses its input.
pub fn gen_new_cipher(pwd: &[u8], m_cost: u32, t_cost: u32, p_cost: u32) -> (r: Result<
    (Vec<u8>, KdfParameters, Vec<u8>),
    PassmanError,
>)
    ensures
        r is Ok <==> (kdf_params_valid(m_cost, t_cost, p_cost) && pwd@.len() <= 0xFFFFFFFF),
        r is Err ==> r->Err_0 == PassmanError::Argon2,
        r is Ok ==> ({
            let (key, params, nonce) = r->Ok_0;
            &&& params.wf()
            &&& params.version == KdfVersion::V0x13
            &&& params.m_cost == m_cost
            &&& params.t_cost == t_cost
            &&& params.p_cost == p_cost
            &&& nonce@.len() == NONCE_LEN
            &&& key@.len() == KEY_LEN
            &&& key@ == kdf_key(pwd@, params.salt@, m_cost, t_cost, p_cost)
        }),
{
    if !check_kdf_params(m_cost, t_cost, p_cost) {
        return Err(PassmanError::Argon2);
    }
    if pwd.len() > 0xFFFFFFFF {
        return Err(PassmanError::Argon2);
    }
    let (salt, nonce) = random_salt_and_nonce();
    let key = match derive_key(pwd, salt.as_slice(), m_cost, t_cost, p_cost) {
        Ok(k) => k,
        Err(e) => return Err(e),
    };
    let params = KdfParameters { salt, version: KdfVersion::V0x13, m_cost, t_cost, p_cost };
    Ok((key, params, nonce))
}

/// Re-derive the key for decryption from the passphrase and a persisted
/// parameter set.  With the same passphrase this reproduces the original
/// key bit for bit; with any other passphrase it silently yields a
/// different key — a wrong passphrase is detected only by the tag check of
/// decryption, never here.
///
/// Fails with [`PassmanError::Argon2`] exactly when the persisted cost
/// parameters are outside the algorithm's domain, or — for a passphrase of
/// 4 GiB or more — when the key derivation itself refuses its input.
pub fn gen_decrypt_cipher(pwd: &[u8], params: &KdfParameters) -> (r: Result<Vec<u8>, PassmanError>)
    requires
        params.wf(),
    ensures
        r is Ok <==> (kdf_params_valid(params.m_cost, params.t_cost, params.p_cost)
            && pwd@.len() <= 0xFFFFFFFF),
        r is Err ==> r->Err_0 == PassmanError::Argon2,
        r is Ok ==> r->Ok_0@ == kdf_key(
            pwd@,
            params.salt@,
            params.m_cost,
            params.t_cost,
            params.p_cost,
        ),
        r is Ok ==> r->Ok_0@.len() == KEY_LEN,
{
    if !check_kdf_params(params.m_cost, params.t_cost, params.p_cost) {
        return Err(PassmanError::Argon2);
    }
    if pwd.len() > 0xFFFFFFFF {
        return Err(PassmanError::Argon2);
    }
    derive_key(pwd, params.salt.as_slice(), params.m_cost, params.t_cost, params.p_cost)
}

} // verus!
