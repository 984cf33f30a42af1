//! Tests of the cipher envelope engine and the vault entry store: round
//! trips, rejection of wrong passphrases and tampered or malformed files,
//! and the exact binary layout.

use passman::crypto::gen_decrypt_cipher;
use passman::crypto::gen_new_cipher;
use passman::error::IoErrorKind;
use passman::error::PassmanError;
use passman::storage::PassmanStorage;

fn store(pwd: &str) -> PassmanStorage {
    PassmanStorage::with_path(pwd.to_string(), ".".to_string())
}

#[test]
fn round_trip_basic() {
    let st1 = store("hunter2");
    let st2 = store("hunter2");
    let entry = st1.encrypt_content(b"payload bytes", 8, 1, 1).unwrap();
    let back = st2.decrypt_content(&entry).unwrap();
    assert_eq!(back, "payload bytes");
}

#[test]
fn round_trip_empty() {
    let st = store("w");
    let entry = st.encrypt_content(b"", 8, 1, 1).unwrap();
    assert_eq!(st.decrypt_content(&entry).unwrap(), "");
}

#[test]
fn round_trip_unicode() {
    let st = store("pässwörd");
    let secret = "gehëim ✓ 秘密";
    let entry = st.encrypt_content(secret.as_bytes(), 8, 1, 1).unwrap();
    assert_eq!(st.decrypt_content(&entry).unwrap(), secret);
}

#[test]
fn scenario_github() {
    let st = store("correct horse battery staple");
    let entry = st.encrypt_content(b"s3cr3t!", 65536, 10, 2).unwrap();
    assert_eq!(st.decrypt_content(&entry).unwrap(), "s3cr3t!");
    let listed = passman::utils::sort_service_names(vec!["github".to_string()]);
    assert_eq!(listed, vec!["github".to_string()]);
}

#[test]
fn wrong_passphrase_rejected() {
    let st1 = store("first passphrase");
    let st2 = store("second passphrase");
    let entry = st1.encrypt_content(b"top secret", 8, 1, 1).unwrap();
    assert_eq!(st2.decrypt_content(&entry), Err(PassmanError::ChaChaPoly));
}

#[test]
fn tamper_detection_every_bit() {
    let st = store("w");
    let entry = st.encrypt_content(b"s3cr3t!", 8, 1, 1).unwrap();
    // Flip each single bit of the ciphertext/tag region in turn.
    for byte in 47..entry.len() {
        for bit in 0..8 {
            let mut tampered = entry.clone();
            tampered[byte] ^= 1 << bit;
            assert_eq!(st.decrypt_content(&tampered), Err(PassmanError::ChaChaPoly));
        }
    }
}

#[test]
fn format_rejection_magic() {
    let st = store("w");
    let mut entry = st.encrypt_content(b"x", 8, 1, 1).unwrap();
    entry[0] ^= 0xFF;
    assert_eq!(st.decrypt_content(&entry), Err(PassmanError::InvalidFileFormat));
}

#[test]
fn format_rejection_version() {
    let st = store("w");
    let mut entry = st.encrypt_content(b"x", 8, 1, 1).unwrap();
    entry[4] = 0x02;
    assert_eq!(st.decrypt_content(&entry), Err(PassmanError::UnsupportedVersion));
}

#[test]
fn format_rejection_kdf_tag() {
    let st = store("w");
    let mut entry = st.encrypt_content(b"x", 8, 1, 1).unwrap();
    entry[5] = 0x02;
    assert_eq!(st.decrypt_content(&entry), Err(PassmanError::InvalidFileFormat));
}

#[test]
fn format_rejection_cipher_tag() {
    let st = store("w");
    let mut entry = st.encrypt_content(b"x", 8, 1, 1).unwrap();
    entry[34] = 0x02;
    assert_eq!(st.decrypt_content(&entry), Err(PassmanError::InvalidFileFormat));
}

#[test]
fn format_rejection_truncated() {
    let st = store("w");
    let entry = st.encrypt_content(b"x", 8, 1, 1).unwrap();
    for len in [0usize, 3, 4, 5, 10, 34, 46] {
        assert_eq!(
            st.decrypt_content(&entry[..len]),
            Err(PassmanError::InvalidFileFormat),
            "prefix of {} bytes",
            len
        );
    }
}

#[test]
fn uniqueness_of_salt_nonce_ciphertext() {
    let st = store("w");
    let a = st.encrypt_content(b"same plaintext", 8, 1, 1).unwrap();
    let b = st.encrypt_content(b"same plaintext", 8, 1, 1).unwrap();
    assert_ne!(a[6..22], b[6..22], "salts must differ");
    assert_ne!(a[35..47], b[35..47], "nonces must differ");
    assert_ne!(a[47..], b[47..], "ciphertexts must differ");
}

#[test]
fn ciphertext_is_not_plaintext() {
    let st = store("w");
    let payload = b"plain enough text";
    let entry = st.encrypt_content(payload, 8, 1, 1).unwrap();
    assert_eq!(entry.len(), 47 + payload.len() + 16);
    assert_ne!(&entry[47..47 + payload.len()], &payload[..]);
}

#[test]
fn header_layout_exact() {
    let st = store("w");
    let m = 64u32;
    let t = 3u32;
    let p = 2u32;
    let entry = st.encrypt_content(b"abc", m, t, p).unwrap();
    assert_eq!(&entry[0..4], b"PMAN");
    assert_eq!(entry[4], 0x01);
    assert_eq!(entry[5], 0x01);
    assert_eq!(&entry[22..26], &m.to_le_bytes());
    assert_eq!(&entry[26..30], &t.to_le_bytes());
    assert_eq!(&entry[30..34], &p.to_le_bytes());
    assert_eq!(entry[34], 0x01);
}

#[test]
fn invalid_cost_parameters_rejected() {
    let st = store("w");
    assert_eq!(st.encrypt_content(b"x", 0, 1, 1), Err(PassmanError::Argon2));
    assert_eq!(st.encrypt_content(b"x", 64, 0, 1), Err(PassmanError::Argon2));
    assert_eq!(st.encrypt_content(b"x", 64, 1, 0), Err(PassmanError::Argon2));
    // memory must cover eight blocks per lane
    assert_eq!(st.encrypt_content(b"x", 8, 1, 2), Err(PassmanError::Argon2));
    assert!(st.encrypt_content(b"x", 16, 1, 2).is_ok());
}

#[test]
fn invalid_persisted_costs_rejected() {
    let st = store("w");
    let mut entry = st.encrypt_content(b"x", 8, 1, 1).unwrap();
    // Overwrite the persisted time cost with zero: rejected by the KDF
    // domain check, after parsing but before any cipher work.
    entry[26..30].copy_from_slice(&0u32.to_le_bytes());
    assert_eq!(st.decrypt_content(&entry), Err(PassmanError::Argon2));
}

#[test]
fn non_utf8_plaintext_rejected() {
    let st = store("w");
    let entry = st.encrypt_content(&[0xFF, 0xFE, 0x00, 0x80], 8, 1, 1).unwrap();
    assert_eq!(st.decrypt_content(&entry), Err(PassmanError::FromUtf8));
}

#[test]
fn kdf_reproduces_key_from_persisted_parameters() {
    let (key1, params, _nonce) = gen_new_cipher(b"the passphrase", 8, 1, 1).unwrap();
    let key2 = gen_decrypt_cipher(b"the passphrase", &params).unwrap();
    assert_eq!(key1, key2);
    let other = gen_decrypt_cipher(b"another passphrase", &params).unwrap();
    assert_ne!(key1, other);
}

#[test]
fn gen_new_cipher_shapes() {
    let (key, params, nonce) = gen_new_cipher(b"w", 8, 1, 1).unwrap();
    assert_eq!(key.len(), 32);
    assert_eq!(params.salt.len(), 16);
    assert_eq!(nonce.len(), 12);
    assert_eq!(params.m_cost, 8);
    assert_eq!(params.t_cost, 1);
    assert_eq!(params.p_cost, 1);
    assert_eq!(gen_new_cipher(b"w", 7, 1, 1), Err(PassmanError::Argon2));
}

#[test]
fn error_messages() {
    assert_eq!(PassmanError::UnsupportedVersion.message(), "Unsupported file version.");
    assert_eq!(
        PassmanError::InvalidFileFormat.message(),
        "Invalid file format: Header check failed or file is corrupted."
    );
    assert_eq!(PassmanError::ChaChaPoly.message(), "Encryption error. Wrong master password?");
    assert_eq!(PassmanError::Argon2.message(), "Password hashing error.");
    assert_eq!(PassmanError::FromUtf8.message(), "Invalid password file contents.");
    assert_eq!(PassmanError::IoError(IoErrorKind::NotFound).message(), "File not found.");
}
