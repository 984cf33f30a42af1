//! The command model of the vault's command-line surface: which commands
//! exist, how an argument vector is read as one, and which of them require
//! the master passphrase.
//!
//! Executing a command — prompting, file access, clipboard — is the
//! caller's part; this module only decides.

use vstd::prelude::*;
use vstd::utf8::decode_utf8;
use vstd::utf8::encode_utf8;
use vstd::utf8::encode_utf8_decode_utf8;

use crate::error::IoErrorKind;
use crate::error::PassmanError;
use crate::storage::default_storage_dir;
use crate::storage::PassmanStorage;

verus! {

/// Byte-for-byte equality of two byte slices.
fn bytes_eq(a: &[u8], b: &[u8]) -> (r: bool)
    ensures
        r == (a@ == b@),
{
    if a.len() != b.len() {
        return false;
    }
    let mut i: usize = 0;
    while i < a.len()
        invariant
            0 <= i <= a@.len(),
            a@.len() == b@.len(),
            forall|j: int| 0 <= j < i ==> a@[j] == b@[j],
        decreases a@.len() - i,
    {
        if a[i] != b[i] {
            return false;
        }
        i += 1;
    }
    proof {
        assert(a@ =~= b@);
    }
    true
}

/// Equality of two strings, decided on their UTF-8 bytes.
fn str_eq(a: &str, b: &str) -> (r: bool)
    ensures
        r == (a@ == b@),
{
    let r = bytes_eq(a.as_bytes(), b.as_bytes());
    proof {
        broadcast use encode_utf8_decode_utf8;

        assert(decode_utf8(encode_utf8(a@)) == a@);
        assert(decode_utf8(encode_utf8(b@)) == b@);
    }
    r
}

/// A session over the vault: the store constructed from the master
/// passphrase the user supplied.
pub struct PassmanSession {
    pub storage: PassmanStorage,
}

impl PassmanSession {
    /// Open a session: build the store over the default storage directory.
    pub fn new(master_pwd: String) -> (r: Result<Self, PassmanError>)
        ensures
            r is Ok,
            r->Ok_0.storage.master_password == master_pwd,
            r->Ok_0.storage.storage_path@ == default_storage_dir(),
    {
        let storage = PassmanStorage::new(master_pwd);
        Ok(Self { storage })
    }
}

/// A command of the vault's command-line surface.
#[derive(Debug)]
pub enum CommandType {
    New { service: String },
    Get { service: Option<String> },
    List,
    Help,
}

/// How an argument vector reads as a command: `args[0]` is the program
/// name; `args[1]` selects the command; `args[2]`, where present, names the
/// service.  Anything else is an invalid-input error.
pub open spec fn parse_spec(args: Seq<String>) -> Result<CommandType, PassmanError> {
    if args.len() < 2 {
        Err(PassmanError::IoError(IoErrorKind::InvalidInput))
    } else {
        let cmd = args[1]@;
        if cmd == "new"@ {
            if args.len() >= 3 {
                Ok(CommandType::New { service: args[2] })
            } else {
                Err(PassmanError::IoError(IoErrorKind::InvalidInput))
            }
        } else if cmd == "get"@ {
            Ok(
                CommandType::Get {
                    service: if args.len() >= 3 {
                        Some(args[2])
                    } else {
                        None
                    },
                },
            )
        } else if cmd == "list"@ || cmd == "ls"@ {
            Ok(CommandType::List)
        } else if cmd == "help"@ || cmd == "--help"@ || cmd == "-h"@ {
            Ok(CommandType::Help)
        } else {
            Err(PassmanError::IoError(IoErrorKind::InvalidInput))
        }
    }
}

impl CommandType {
    /// Read an argument vector as a command, exactly as [`parse_spec`]
    /// says.
    pub fn parse(args: &[String]) -> (r: Result<CommandType, PassmanError>)
        ensures
            r == parse_spec(args@),
    {
        if args.len() < 2 {
            return Err(PassmanError::IoError(IoErrorKind::InvalidInput));
        }
        let cmd: &str = args[1].as_str();
        if str_eq(cmd, "new") {
            if args.len() >= 3 {
                Ok(CommandType::New { service: args[2].clone() })
            } else {
                Err(PassmanError::IoError(IoErrorKind::InvalidInput))
            }
        } else if str_eq(cmd, "get") {
            let service = if args.len() >= 3 {
                Some(args[2].clone())
            } else {
                None
            };
            Ok(CommandType::Get { service })
        } else if str_eq(cmd, "list") || str_eq(cmd, "ls") {
            Ok(CommandType::List)
        } else if str_eq(cmd, "help") || str_eq(cmd, "--help") || str_eq(cmd, "-h") {
            Ok(CommandType::Help)
        } else {
            Err(PassmanError::IoError(IoErrorKind::InvalidInput))
        }
    }

    /// Whether executing this command needs the master passphrase: exactly
    /// the commands that touch an entry's ciphertext.
    pub fn requires_auth(&self) -> (r: bool)
        ensures
            r == (self is New || self is Get),
    {
        match self {
            CommandType::New { .. } => true,
            CommandType::Get { .. } => true,
            CommandType::List => false,
            CommandType::Help => false,
        }
    }
}

} // verus!
