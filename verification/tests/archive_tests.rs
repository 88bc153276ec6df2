use passman::commands::archive::run;
use passman::commands::show;
use passman::config::Config;
use passman::crypto::crypto::Registry;
use passman::crypto::plain::PlainBackend;
use passman::errors::VaultError;
use passman::vault::{Node, Vault};

fn test_config() -> Config {
    Config {
        base_dir: "base".to_string(),
        prefix: "vault".to_string(),
        secret: "base/private.rage".to_string(),
        crypto_extension: "rage".to_string(),
        public_key_filename: "public.key".to_string(),
    }
}

#[test]
fn file_not_found() {
    let mut v = Vault::new();
    let cfg = test_config();
    let err = run(&mut v, &cfg, "foo", false).unwrap_err();
    assert_eq!(err, VaultError::NotFound { path: "vault/foo.rage".to_string() });
}

#[test]
fn dir_not_found_when_folder() {
    let mut v = Vault::new();
    let cfg = test_config();
    let err = run(&mut v, &cfg, "bar", true).unwrap_err();
    assert_eq!(err, VaultError::NotFound { path: "vault/bar".to_string() });
}

#[test]
fn not_a_directory_error() {
    let mut v = Vault::new();
    assert!(v.insert_node("entry", Node::File(vec![])));
    let cfg = test_config();
    let err = run(&mut v, &cfg, "entry", true).unwrap_err();
    assert_eq!(
        err,
        VaultError::TypeMismatch { path: "vault/entry".to_string(), directory_expected: true }
    );
}

#[test]
fn not_a_file_error() {
    let mut v = Vault::new();
    assert!(v.insert_node("foo.rage", Node::Dir));
    let cfg = test_config();
    let err = run(&mut v, &cfg, "foo", false).unwrap_err();
    assert_eq!(
        err,
        VaultError::TypeMismatch { path: "vault/foo.rage".to_string(), directory_expected: false }
    );
}

#[test]
fn rename_failure_errors_with_context() {
    // The dotted sibling already exists, so the rename is refused.
    let mut v = Vault::new();
    assert!(v.insert_node("foo.rage", Node::File(b"data".to_vec())));
    assert!(v.insert_node(".foo.rage", Node::File(vec![])));
    let cfg = test_config();
    let err = run(&mut v, &cfg, "foo", false).unwrap_err();
    assert_eq!(err, VaultError::IoFailure { path: "vault/foo.rage".to_string() });
    // Nothing moved.
    assert_eq!(v.lookup_node("foo.rage"), Some(&Node::File(b"data".to_vec())));
}

#[test]
fn already_archived_file_error() {
    let mut v = Vault::new();
    assert!(v.insert_node(".foo.rage", Node::File(vec![])));
    let cfg = test_config();
    let err = run(&mut v, &cfg, ".foo", false).unwrap_err();
    assert_eq!(err, VaultError::AlreadyArchived { directory: false });
}

#[test]
fn already_archived_directory_error() {
    let mut v = Vault::new();
    assert!(v.insert_node(".bar", Node::Dir));
    let cfg = test_config();
    let err = run(&mut v, &cfg, ".bar", true).unwrap_err();
    assert_eq!(err, VaultError::AlreadyArchived { directory: true });
}

#[test]
fn successful_file_archive() {
    let mut v = Vault::new();
    assert!(v.insert_node("foo.rage", Node::File(b"x".to_vec())));
    let cfg = test_config();
    let echoed = run(&mut v, &cfg, "foo", false).unwrap();
    assert_eq!(echoed, "foo".to_string());
    assert!(v.lookup_node("foo.rage").is_none());
    assert_eq!(v.lookup_node(".foo.rage"), Some(&Node::File(b"x".to_vec())));
}

#[test]
fn successful_directory_archive() {
    let mut v = Vault::new();
    assert!(v.insert_node("d1", Node::Dir));
    assert!(v.insert_node("d1/x.rage", Node::File(b"inner".to_vec())));
    let cfg = test_config();
    let echoed = run(&mut v, &cfg, "d1", true).unwrap();
    assert_eq!(echoed, "d1".to_string());
    assert!(v.lookup_node("d1").is_none());
    assert_eq!(v.lookup_node(".d1"), Some(&Node::Dir));
    // Entries under the directory moved along with it.
    assert_eq!(v.lookup_node(".d1/x.rage"), Some(&Node::File(b"inner".to_vec())));
}

#[test]
fn archive_then_rename_back_restores_entry() {
    let reg = Registry::new(PlainBackend, PlainBackend);
    let mut v = Vault::new();
    assert!(v.insert_node("keep.rage", Node::File(b"payload".to_vec())));
    let cfg = test_config();
    run(&mut v, &cfg, "keep", false).unwrap();
    assert!(v.lookup_node("keep.rage").is_none());
    // Renaming the dotted name back restores the original entry ...
    assert!(v.rename_tree(".keep.rage", "keep.rage"));
    assert_eq!(v.lookup_node("keep.rage"), Some(&Node::File(b"payload".to_vec())));
    // ... visible to show again.
    let out = show::run(&v, &cfg, &reg, "keep", None).unwrap();
    assert_eq!(out, b"payload".to_vec());
}
