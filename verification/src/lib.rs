//! A local, file-based secret vault library.
//!
//! Each stored secret is encrypted independently with a key derived from a
//! master passphrase (Argon2id) and sealed with an authenticated cipher
//! (ChaCha20-Poly1305).  The crate owns the versioned binary envelope
//! format, the key-derivation parameter binding, and the per-entry
//! encrypt/decrypt/validate lifecycle.  File and terminal I/O stay with the
//! caller: the library takes and returns plain values.

pub mod commands;
pub mod crypto;
pub mod error;
pub mod storage;
pub mod utils;
