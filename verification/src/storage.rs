//! The vault entry store: the versioned binary envelope around the cipher
//! engine's output, and the per-entry encrypt/decrypt/validate lifecycle.
//!
//! One entry file is a fixed header — magic, format version, KDF type tag,
//! KDF parameter set, cipher type tag — followed by nonce and
//! ciphertext-with-tag:
//!
//! | offset | field            | size      |
//! |--------|------------------|-----------|
//! | 0      | magic            | 4 bytes   |
//! | 4      | format version   | 1 byte    |
//! | 5      | KDF type tag     | 1 byte    |
//! | 6      | salt             | 16 bytes  |
//! | 22     | memory cost      | 4 bytes LE|
//! | 26     | time cost        | 4 bytes LE|
//! | 30     | parallelism cost | 4 bytes LE|
//! | 34     | cipher type tag  | 1 byte    |
//! | 35     | nonce            | 12 bytes  |
//! | 47     | ciphertext‖tag   | rest      |
//!
//! Parsing is strict and sequential: any field failing its expected length
//! or tag value aborts with a format error before any cryptographic work.

use vstd::bytes::lemma_auto_spec_u32_to_from_le_bytes;
use vstd::bytes::spec_u32_from_le_bytes;
use vstd::bytes::spec_u32_to_le_bytes;
use vstd::bytes::u32_from_le_bytes;
use vstd::bytes::u32_to_le_bytes;
use vstd::prelude::*;
use vstd::slice::slice_subrange;
use vstd::slice::slice_to_vec;
use vstd::string::StringExecFns;
use vstd::utf8::decode_utf8;
use vstd::utf8::encode_utf8;
use vstd::utf8::encode_utf8_decode_utf8;
use vstd::utf8::encode_utf8_valid_utf8;
use vstd::utf8::valid_utf8;

use crate::crypto::chacha_decrypt;
use crate::crypto::chacha_encrypt;
use crate::crypto::chacha_open;
use crate::crypto::chacha_seal;
use crate::crypto::gen_decrypt_cipher;
use crate::crypto::gen_new_cipher;
use crate::crypto::kdf_key;
use crate::crypto::kdf_params_valid;
use crate::crypto::KdfParameters;
use crate::crypto::KdfVersion;
use crate::crypto::NONCE_LEN;
use crate::crypto::SALT_LEN;
use crate::crypto::TAG_LEN;
use crate::error::PassmanError;

verus! {

/// First magic byte, ASCII 'P'.
pub const FILE_MAGIC_0: u8 = 0x50;

/// Second magic byte, ASCII 'M'.
pub const FILE_MAGIC_1: u8 = 0x4D;

/// Third magic byte, ASCII 'A'.
pub const FILE_MAGIC_2: u8 = 0x41;

/// Fourth magic byte, ASCII 'N'.
pub const FILE_MAGIC_3: u8 = 0x4E;

/// The format version this library writes and reads.
pub const CURRENT_FILE_VERSION: u8 = 0x01;

/// KDF type tag: Argon2id.
pub const KDF_ARGON2ID: u8 = 0x01;

/// Cipher type tag: ChaCha20-Poly1305.
pub const ENCRYPTION_CHACHA20POLY1305: u8 = 0x01;

/// Total length of the fixed header, nonce included.
pub const HEADER_LEN: usize = 47;

/// The four magic bytes that open every entry file.
pub open spec fn magic_bytes() -> Seq<u8> {
    seq![FILE_MAGIC_0, FILE_MAGIC_1, FILE_MAGIC_2, FILE_MAGIC_3]
}

/// The fields a well-formed entry file carries.
pub ghost struct ParsedEntry {
    pub salt: Seq<u8>,
    pub m_cost: u32,
    pub t_cost: u32,
    pub p_cost: u32,
    pub nonce: Seq<u8>,
    pub body: Seq<u8>,
}

/// The exact byte layout of an entry file with the given fields.
pub open spec fn entry_bytes(
    salt: Seq<u8>,
    m_cost: u32,
    t_cost: u32,
    p_cost: u32,
    nonce: Seq<u8>,
    body: Seq<u8>,
) -> Seq<u8> {
    magic_bytes() + seq![CURRENT_FILE_VERSION, KDF_ARGON2ID] + salt + spec_u32_to_le_bytes(m_cost)
        + spec_u32_to_le_bytes(t_cost) + spec_u32_to_le_bytes(p_cost)
        + seq![ENCRYPTION_CHACHA20POLY1305] + nonce + body
}

/// Strict, sequential parsing of an entry file.
///
/// A recognized header with an unsupported version byte is rejected as
/// [`PassmanError::UnsupportedVersion`]; every other malformation — wrong
/// magic, wrong KDF or cipher tag, any truncated field — is
/// [`PassmanError::InvalidFileFormat`].
pub open spec fn parse_entry(data: Seq<u8>) -> Result<ParsedEntry, PassmanError> {
    if data.len() >= 5 && data.subrange(0, 4) == magic_bytes() && data[4]
        != CURRENT_FILE_VERSION {
        Err(PassmanError::UnsupportedVersion)
    } else if data.len() >= HEADER_LEN && data.subrange(0, 4) == magic_bytes() && data[4]
        == CURRENT_FILE_VERSION && data[5] == KDF_ARGON2ID && data[34]
        == ENCRYPTION_CHACHA20POLY1305 {
        Ok(
            ParsedEntry {
                salt: data.subrange(6, 22),
                m_cost: spec_u32_from_le_bytes(data.subrange(22, 26)),
                t_cost: spec_u32_from_le_bytes(data.subrange(26, 30)),
                p_cost: spec_u32_from_le_bytes(data.subrange(30, 34)),
                nonce: data.subrange(35, 47),
                body: data.subrange(47, data.len() as int),
            },
        )
    } else {
        Err(PassmanError::InvalidFileFormat)
    }
}

/// What decrypting an entry file with a given passphrase yields, at the
/// byte level: the parsed header decides the key derivation, and the tag
/// check of [`chacha_open`] decides between plaintext and authentication
/// failure.
pub open spec fn decrypt_entry_spec(pwd: Seq<u8>, data: Seq<u8>) -> Result<Seq<u8>, PassmanError> {
    match parse_entry(data) {
        Err(e) => Err(e),
        Ok(entry) => {
            if !kdf_params_valid(entry.m_cost, entry.t_cost, entry.p_cost) {
                Err(PassmanError::Argon2)
            } else {
                match chacha_open(
                    kdf_key(pwd, entry.salt, entry.m_cost, entry.t_cost, entry.p_cost),
                    entry.nonce,
                    entry.body,
                ) {
                    Some(pt) => Ok(pt),
                    None => Err(PassmanError::ChaChaPoly),
                }
            }
        },
    }
}

/// What retrieval of an entry file with a given passphrase yields: the
/// decrypted bytes read as UTF-8 text, or the first error on the way.
pub open spec fn retrieve_spec(pwd: Seq<u8>, data: Seq<u8>) -> Result<Seq<char>, PassmanError> {
    match decrypt_entry_spec(pwd, data) {
        Err(e) => Err(e),
        Ok(pt) => if valid_utf8(pt) {
            Ok(decode_utf8(pt))
        } else {
            Err(PassmanError::FromUtf8)
        },
    }
}

/// The directory name the store uses when none is supplied: a relative
/// `.passwords` directory.  Callers wanting a per-user absolute location
/// resolve it themselves and use [`PassmanStorage::with_path`].
pub open spec fn default_storage_dir() -> Seq<char> {
    ".passwords"@
}

/// Relies on `String::from_utf8`: it succeeds exactly on valid UTF-8 and
/// decodes it; the error is mapped to [`PassmanError::FromUtf8`].
#[verifier::external_body]
pub(crate) fn bytes_to_string(bytes: Vec<u8>) -> (r: Result<String, PassmanError>)
    ensures
        valid_utf8(bytes@) ==> r is Ok && r->Ok_0@ == decode_utf8(bytes@),
        !valid_utf8(bytes@) ==> r is Err && r->Err_0 == PassmanError::FromUtf8,
{
    match String::from_utf8(bytes) {
        Ok(s) => Ok(s),
        Err(_) => Err(PassmanError::FromUtf8),
    }
}

/// The vault entry store: a master passphrase held for the session and the
/// directory that holds one file per service.
///
/// The store owns the byte layout of its files exclusively; reading and
/// writing the bytes is the caller's part.
pub struct PassmanStorage {
    pub master_password: String,
    pub storage_path: String,
}

impl PassmanStorage {
    /// The KDF input: the UTF-8 bytes of the master passphrase.
    pub open spec fn pwd_bytes(&self) -> Seq<u8> {
        encode_utf8(self.master_password@)
    }

    /// Create a store over the default (relative) storage directory.
    pub fn new(master_password: String) -> (r: Self)
        ensures
            r.master_password == master_password,
            r.storage_path@ == default_storage_dir(),
    {
        Self { master_password, storage_path: ".passwords".to_owned() }
    }

    /// Create a store over a caller-chosen storage directory.
    pub fn with_path(master_password: String, storage_path: String) -> (r: Self)
        ensures
            r.master_password == master_password,
            r.storage_path == storage_path,
    {
        Self { master_password, storage_path }
    }

    /// The path of the file that holds `service_name`'s entry.
    pub fn get_service_file_path(&self, service_name: &str) -> (r: String)
        ensures
            r@ == self.storage_path@ + "/"@ + service_name@,
    {
        let mut path = self.storage_path.clone();
        path.append("/");
        path.append(service_name);
        path
    }

    /// Encrypt `content` into a complete entry file.
    ///
    /// Draws a fresh salt and nonce, derives the key from the session
    /// passphrase, seals the content, and serializes header and envelope in
    /// the exact binary layout.  Succeeds exactly when the cost parameters
    /// are in the KDF's domain (and passphrase and content are below the
    /// algorithms' astronomical size limits); the result then decrypts back
    /// to `content` under the same passphrase.
    pub fn encrypt_content(&self, content: &[u8], m_cost: u32, t_cost: u32, p_cost: u32) -> (r:
        Result<Vec<u8>, PassmanError>)
        ensures
            r is Ok <==> (kdf_params_valid(m_cost, t_cost, p_cost) && self.pwd_bytes().len()
                <= 0xFFFFFFFF && content@.len() / 64 < 0xFFFFFFFF),
            !kdf_params_valid(m_cost, t_cost, p_cost) ==> r == Err::<Vec<u8>, PassmanError>(
                PassmanError::Argon2,
            ),
            r is Err ==> (r->Err_0 == PassmanError::Argon2 || r->Err_0 == PassmanError::ChaChaPoly),
            r is Ok ==> r->Ok_0@.len() == HEADER_LEN + content@.len() + TAG_LEN,
            r is Ok ==> exists|salt: Seq<u8>, nonce: Seq<u8>|
                {
                    &&& salt.len() == SALT_LEN
                    &&& nonce.len() == NONCE_LEN
                    &&& r->Ok_0@ == entry_bytes(
                        salt,
                        m_cost,
                        t_cost,
                        p_cost,
                        nonce,
                        chacha_seal(
                            kdf_key(self.pwd_bytes(), salt, m_cost, t_cost, p_cost),
                            nonce,
                            content@,
                        ),
                    )
                    &&& decrypt_entry_spec(self.pwd_bytes(), r->Ok_0@) == Ok::<Seq<u8>, PassmanError>(
                        content@,
                    )
                },
    {
        let pwd = self.master_password.as_str().as_bytes();
        let (key, kdf_params, nonce) = match gen_new_cipher(pwd, m_cost, t_cost, p_cost) {
            Ok(t) => t,
            Err(e) => {
                return Err(e);
            },
        };
        let encrypted = match chacha_encrypt(key.as_slice(), nonce.as_slice(), content) {
            Ok(c) => c,
            Err(e) => {
                return Err(e);
            },
        };

        let mut file_data: Vec<u8> = Vec::new();
        file_data.push(FILE_MAGIC_0);
        file_data.push(FILE_MAGIC_1);
        file_data.push(FILE_MAGIC_2);
        file_data.push(FILE_MAGIC_3);
        file_data.push(CURRENT_FILE_VERSION);
        file_data.push(KDF_ARGON2ID);
        file_data.extend_from_slice(kdf_params.salt.as_slice());
        let m_bytes = u32_to_le_bytes(m_cost);
        file_data.extend_from_slice(m_bytes.as_slice());
        let t_bytes = u32_to_le_bytes(t_cost);
        file_data.extend_from_slice(t_bytes.as_slice());
        let p_bytes = u32_to_le_bytes(p_cost);
        file_data.extend_from_slice(p_bytes.as_slice());
        file_data.push(ENCRYPTION_CHACHA20POLY1305);
        file_data.extend_from_slice(nonce.as_slice());
        file_data.extend_from_slice(encrypted.as_slice());

        proof {
            let sealed = chacha_seal(
                kdf_key(self.pwd_bytes(), kdf_params.salt@, m_cost, t_cost, p_cost),
                nonce@,
                content@,
            );
            assert(file_data@ =~= entry_bytes(
                kdf_params.salt@,
                m_cost,
                t_cost,
                p_cost,
                nonce@,
                sealed,
            ));
            lemma_parse_entry_roundtrip(
                kdf_params.salt@,
                m_cost,
                t_cost,
                p_cost,
                nonce@,
                sealed,
            );
        }
        Ok(file_data)
    }

    /// Parse, validate and decrypt a complete entry file, returning the
    /// stored UTF-8 text.
    ///
    /// Fails distinctly for a malformed or unsupported header
    /// ([`PassmanError::InvalidFileFormat`] /
    /// [`PassmanError::UnsupportedVersion`], before any cryptographic
    /// work), persisted cost parameters outside the KDF's domain
    /// ([`PassmanError::Argon2`]), a failed tag check
    /// ([`PassmanError::ChaChaPoly`] — the sole signal of a wrong master
    /// passphrase or a tampered file), and non-UTF-8 plaintext
    /// ([`PassmanError::FromUtf8`]).
    pub fn decrypt_content(&self, file_content: &[u8]) -> (r: Result<String, PassmanError>)
        ensures
            self.pwd_bytes().len() <= 0xFFFFFFFF ==> match retrieve_spec(
                self.pwd_bytes(),
                file_content@,
            ) {
                Err(e) => r is Err && r->Err_0 == e,
                Ok(s) => r is Ok && r->Ok_0@ == s,
            },
            r is Ok ==> retrieve_spec(self.pwd_bytes(), file_content@) == Ok::<
                Seq<char>,
                PassmanError,
            >(r->Ok_0@),
            r is Err ==> (retrieve_spec(self.pwd_bytes(), file_content@) == Err::<
                Seq<char>,
                PassmanError,
            >(r->Err_0) || r->Err_0 == PassmanError::Argon2),
    {
        let n = file_content.len();
        if n < 4 {
            return Err(PassmanError::InvalidFileFormat);
        }
        if file_content[0] != FILE_MAGIC_0 || file_content[1] != FILE_MAGIC_1 || file_content[2]
            != FILE_MAGIC_2 || file_content[3] != FILE_MAGIC_3 {
            proof {
                let sub = file_content@.subrange(0, 4);
                assert(sub[0] == file_content@[0] && sub[1] == file_content@[1] && sub[2]
                    == file_content@[2] && sub[3] == file_content@[3]);
                assert(sub != magic_bytes());
            }
            return Err(PassmanError::InvalidFileFormat);
        }
        proof {
            assert(file_content@.subrange(0, 4) =~= magic_bytes());
        }
        if n < 5 {
            return Err(PassmanError::InvalidFileFormat);
        }
        if file_content[4] != CURRENT_FILE_VERSION {
            return Err(PassmanError::UnsupportedVersion);
        }
        if n < HEADER_LEN {
            return Err(PassmanError::InvalidFileFormat);
        }
        if file_content[5] != KDF_ARGON2ID {
            return Err(PassmanError::InvalidFileFormat);
        }
        if file_content[34] != ENCRYPTION_CHACHA20POLY1305 {
            return Err(PassmanError::InvalidFileFormat);
        }

        let salt = slice_to_vec(slice_subrange(file_content, 6, 22));
        let m_cost = u32_from_le_bytes(slice_subrange(file_content, 22, 26));
        let t_cost = u32_from_le_bytes(slice_subrange(file_content, 26, 30));
        let p_cost = u32_from_le_bytes(slice_subrange(file_content, 30, 34));
        let nonce = slice_subrange(file_content, 35, 47);
        let body = slice_subrange(file_content, 47, n);

        let kdf_params = KdfParameters {
            salt,
            version: KdfVersion::V0x13,
            m_cost,
            t_cost,
            p_cost,
        };

        let pwd = self.master_password.as_str().as_bytes();
        let key = match gen_decrypt_cipher(pwd, &kdf_params) {
            Ok(k) => k,
            Err(e) => {
                return Err(e);
            },
        };

        let decrypted = match chacha_decrypt(key.as_slice(), nonce, body) {
            Ok(p) => p,
            Err(e) => {
                return Err(e);
            },
        };

        bytes_to_string(decrypted)
    }
}

/// The envelope codec round trip: serializing fields with [`entry_bytes`]
/// and parsing the result with [`parse_entry`] recovers exactly those
/// fields, for every salt, cost triple, nonce and body.
pub proof fn lemma_parse_entry_roundtrip(
    salt: Seq<u8>,
    m_cost: u32,
    t_cost: u32,
    p_cost: u32,
    nonce: Seq<u8>,
    body: Seq<u8>,
)
    requires
        salt.len() == SALT_LEN,
        nonce.len() == NONCE_LEN,
    ensures
        parse_entry(entry_bytes(salt, m_cost, t_cost, p_cost, nonce, body)) == Ok::<
            ParsedEntry,
            PassmanError,
        >(ParsedEntry { salt, m_cost, t_cost, p_cost, nonce, body }),
{
    lemma_auto_spec_u32_to_from_le_bytes();
    let data = entry_bytes(salt, m_cost, t_cost, p_cost, nonce, body);
    assert(data.len() == HEADER_LEN + body.len());
    assert(data.subrange(0, 4) =~= magic_bytes());
    assert(data[4] == CURRENT_FILE_VERSION);
    assert(data[5] == KDF_ARGON2ID);
    assert(data[34] == ENCRYPTION_CHACHA20POLY1305);
    assert(data.subrange(6, 22) =~= salt);
    assert(data.subrange(22, 26) =~= spec_u32_to_le_bytes(m_cost));
    assert(data.subrange(26, 30) =~= spec_u32_to_le_bytes(t_cost));
    assert(data.subrange(30, 34) =~= spec_u32_to_le_bytes(p_cost));
    assert(data.subrange(35, 47) =~= nonce);
    assert(data.subrange(47, data.len() as int) =~= body);
}

/// If an entry decrypts to exactly the UTF-8 encoding of a text `s`,
/// retrieval returns exactly `s`: together with the round-trip clause of
/// [`PassmanStorage::encrypt_content`], what was stored is what comes back,
/// byte for byte, for every content and passphrase.
pub proof fn lemma_retrieve_utf8_roundtrip(pwd: Seq<u8>, data: Seq<u8>, s: Seq<char>)
    requires
        decrypt_entry_spec(pwd, data) == Ok::<Seq<u8>, PassmanError>(encode_utf8(s)),
    ensures
        retrieve_spec(pwd, data) == Ok::<Seq<char>, PassmanError>(s),
{
    broadcast use encode_utf8_valid_utf8, encode_utf8_decode_utf8;

}

/// Format rejection: corrupted magic bytes and unrecognized version, KDF or
/// cipher tags each fail with their format error, for every passphrase.
pub proof fn lemma_format_rejection(pwd: Seq<u8>, data: Seq<u8>)
    ensures
        data.len() < 4 || data.subrange(0, 4) != magic_bytes() ==> retrieve_spec(pwd, data)
            == Err::<Seq<char>, PassmanError>(PassmanError::InvalidFileFormat),
        data.len() >= 5 && data.subrange(0, 4) == magic_bytes() && data[4] != CURRENT_FILE_VERSION
            ==> retrieve_spec(pwd, data) == Err::<Seq<char>, PassmanError>(
            PassmanError::UnsupportedVersion,
        ),
        data.len() >= HEADER_LEN && data.subrange(0, 4) == magic_bytes() && data[4]
            == CURRENT_FILE_VERSION && data[5] != KDF_ARGON2ID ==> retrieve_spec(pwd, data)
            == Err::<Seq<char>, PassmanError>(PassmanError::InvalidFileFormat),
        data.len() >= HEADER_LEN && data.subrange(0, 4) == magic_bytes() && data[4]
            == CURRENT_FILE_VERSION && data[34] != ENCRYPTION_CHACHA20POLY1305 ==> retrieve_spec(
            pwd,
            data,
        ) == Err::<Seq<char>, PassmanError>(PassmanError::InvalidFileFormat),
        data.len() < HEADER_LEN && !(data.len() >= 5 && data.subrange(0, 4) == magic_bytes()
            && data[4] != CURRENT_FILE_VERSION) ==> retrieve_spec(pwd, data) == Err::<
            Seq<char>,
            PassmanError,
        >(PassmanError::InvalidFileFormat),
{
}

/// A header that fails to parse is rejected identically under every
/// passphrase: the rejection happens before any key derivation, so the
/// passphrase cannot influence it.
pub proof fn lemma_parse_error_passphrase_independent(pwd1: Seq<u8>, pwd2: Seq<u8>, data: Seq<u8>)
    requires
        parse_entry(data) is Err,
    ensures
        retrieve_spec(pwd1, data) == retrieve_spec(pwd2, data),
{
}

} // verus!
