//! Tests of the command model and the listing/password utilities.

use passman::commands::CommandType;
use passman::commands::PassmanSession;
use passman::error::IoErrorKind;
use passman::error::PassmanError;
use passman::utils::generate_random_password;
use passman::utils::select_service;
use passman::utils::sort_service_names;

fn args(parts: &[&str]) -> Vec<String> {
    parts.iter().map(|s| s.to_string()).collect()
}

#[test]
fn parse_new_with_service() {
    let cmd = CommandType::parse(&args(&["passman", "new", "github"])).unwrap();
    assert!(matches!(cmd, CommandType::New { service } if service == "github"));
}

#[test]
fn parse_new_without_service() {
    let r = CommandType::parse(&args(&["passman", "new"]));
    assert!(matches!(r, Err(PassmanError::IoError(IoErrorKind::InvalidInput))));
}

#[test]
fn parse_get_with_service() {
    let cmd = CommandType::parse(&args(&["passman", "get", "github"])).unwrap();
    assert!(matches!(cmd, CommandType::Get { service: Some(s) } if s == "github"));
}

#[test]
fn parse_get_without_service() {
    let cmd = CommandType::parse(&args(&["passman", "get"])).unwrap();
    assert!(matches!(cmd, CommandType::Get { service: None }));
}

#[test]
fn parse_list_and_alias() {
    assert!(matches!(
        CommandType::parse(&args(&["passman", "list"])).unwrap(),
        CommandType::List
    ));
    assert!(matches!(CommandType::parse(&args(&["passman", "ls"])).unwrap(), CommandType::List));
}

#[test]
fn parse_help_variants() {
    for h in ["help", "--help", "-h"] {
        assert!(matches!(
            CommandType::parse(&args(&["passman", h])).unwrap(),
            CommandType::Help
        ));
    }
}

#[test]
fn parse_unknown_command() {
    let r = CommandType::parse(&args(&["passman", "frobnicate"]));
    assert!(matches!(r, Err(PassmanError::IoError(IoErrorKind::InvalidInput))));
}

#[test]
fn parse_no_command() {
    let r = CommandType::parse(&args(&["passman"]));
    assert!(matches!(r, Err(PassmanError::IoError(IoErrorKind::InvalidInput))));
}

#[test]
fn requires_auth_per_command() {
    assert!(CommandType::New { service: "x".to_string() }.requires_auth());
    assert!(CommandType::Get { service: None }.requires_auth());
    assert!(!CommandType::List.requires_auth());
    assert!(!CommandType::Help.requires_auth());
}

#[test]
fn session_holds_passphrase() {
    let session = PassmanSession::new("hunter2".to_string()).unwrap();
    assert_eq!(session.storage.master_password, "hunter2");
    assert_eq!(session.storage.storage_path, ".passwords");
}

#[test]
fn service_file_path() {
    let session = PassmanSession::new("w".to_string()).unwrap();
    assert_eq!(session.storage.get_service_file_path("github"), ".passwords/github");
}

#[test]
fn random_password_length_and_charset() {
    const CHARSET: &str =
        "ABCDEFGHIJKLMNOPQRSTUVWXYZabcdefghijklmnopqrstuvwxyz0123456789!@#$%^&*()_+-=[]{}|;:,.<>?";
    let pw = generate_random_password(20);
    assert_eq!(pw.chars().count(), 20);
    for c in pw.chars() {
        assert!(CHARSET.contains(c), "unexpected character {:?}", c);
    }
    assert_eq!(generate_random_password(0), "");
}

#[test]
fn random_passwords_differ() {
    assert_ne!(generate_random_password(20), generate_random_password(20));
}

#[test]
fn sort_names_basic() {
    let sorted = sort_service_names(vec![
        "beta".to_string(),
        "alpha".to_string(),
        "gamma".to_string(),
        "alpha".to_string(),
    ]);
    assert_eq!(sorted, vec!["alpha", "alpha", "beta", "gamma"]);
}

#[test]
fn sort_names_empty() {
    assert_eq!(sort_service_names(Vec::new()), Vec::<String>::new());
}

#[test]
fn select_service_by_number() {
    let services = args(&["alpha", "beta", "gamma"]);
    assert_eq!(select_service(&services, "1"), Ok("alpha".to_string()));
    assert_eq!(select_service(&services, "3"), Ok("gamma".to_string()));
    assert_eq!(select_service(&services, "+2"), Ok("beta".to_string()));
    assert_eq!(select_service(&services, "003"), Ok("gamma".to_string()));
}

#[test]
fn select_service_invalid_input() {
    let invalid = Err(PassmanError::IoError(IoErrorKind::InvalidInput));
    let services = args(&["alpha", "beta", "gamma"]);
    assert_eq!(select_service(&services, "0"), invalid);
    assert_eq!(select_service(&services, "4"), invalid);
    assert_eq!(select_service(&services, ""), invalid);
    assert_eq!(select_service(&services, "+"), invalid);
    assert_eq!(select_service(&services, "two"), invalid);
    assert_eq!(select_service(&services, "1.5"), invalid);
    assert_eq!(select_service(&services, "-1"), invalid);
    assert_eq!(select_service(&services, "99999999999999999999999999"), invalid);
}

#[test]
fn sort_names_byte_order() {
    // Byte-wise order: capitals before lowercase, as `sort` on strings.
    let sorted = sort_service_names(vec!["a".to_string(), "Z".to_string(), "b".to_string()]);
    assert_eq!(sorted, vec!["Z", "a", "b"]);
}
