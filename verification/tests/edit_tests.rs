use passman::commands::create::{set_edit_hook, EditOutcome};
use passman::commands::edit::{set_write_hook, EditSession};
use passman::commands::edit::run;
use passman::config::Config;
use passman::crypto::crypto::Registry;
use passman::crypto::plain::PlainBackend;
use passman::errors::{EditorFault, VaultError};
use passman::vault::{Node, Vault};

fn test_config() -> Config {
    Config {
        base_dir: "base".to_string(),
        prefix: "vault".to_string(),
        secret: "base/private.rage".to_string(),
        crypto_extension: "rage".to_string(),
        public_key_filename: "public.key".to_string(),
    }
}

fn reg() -> Registry<PlainBackend, PlainBackend> {
    Registry::new(PlainBackend, PlainBackend)
}

fn session(outcome: EditOutcome) -> EditSession {
    let mut s = EditSession::new();
    set_edit_hook(&mut s, outcome);
    s
}

#[test]
fn missing_file_errors() {
    let mut v = Vault::new();
    let cfg = test_config();
    let err = run(&mut v, &cfg, &reg(), "pub", "noentry", &session(EditOutcome::Content(b"x".to_vec())))
        .unwrap_err();
    assert_eq!(err, VaultError::NotFound { path: "vault/noentry.rage".to_string() });
}

#[test]
fn decrypt_failure_errors() {
    // A directory where the encrypted file should be cannot be decrypted.
    let mut v = Vault::new();
    assert!(v.insert_node("entry.rage", Node::Dir));
    let cfg = test_config();
    let err = run(&mut v, &cfg, &reg(), "pub", "entry", &session(EditOutcome::Content(b"x".to_vec())))
        .unwrap_err();
    assert!(matches!(err, VaultError::CryptoFailure { .. }));
}

#[test]
fn abort_on_empty_edit() {
    let mut v = Vault::new();
    assert!(v.insert_node("entry.rage", Node::File(b"before".to_vec())));
    let cfg = test_config();
    let err = run(&mut v, &cfg, &reg(), "pub", "entry", &session(EditOutcome::Content(b"".to_vec())))
        .unwrap_err();
    assert_eq!(err, VaultError::EditorFailure { fault: EditorFault::Empty });
    // The stored ciphertext is byte-for-byte unchanged.
    assert_eq!(v.lookup_node("entry.rage"), Some(&Node::File(b"before".to_vec())));
}

#[test]
fn editor_exit_error() {
    let mut v = Vault::new();
    assert!(v.insert_node("entry.rage", Node::File(b"orig".to_vec())));
    let cfg = test_config();
    let err = run(&mut v, &cfg, &reg(), "pub", "entry", &session(EditOutcome::ExitError)).unwrap_err();
    assert_eq!(err, VaultError::EditorFailure { fault: EditorFault::ExitError });
    assert_eq!(v.lookup_node("entry.rage"), Some(&Node::File(b"orig".to_vec())));
}

#[test]
fn success_and_reencrypts() {
    let mut v = Vault::new();
    assert!(v.insert_node("entry.rage", Node::File(b"orig".to_vec())));
    let cfg = test_config();
    run(&mut v, &cfg, &reg(), "pub", "entry", &session(EditOutcome::Content(b"updated\n".to_vec())))
        .unwrap();
    assert_eq!(v.lookup_node("entry.rage"), Some(&Node::File(b"updated".to_vec())));
}

#[test]
fn write_failure_errors() {
    let mut v = Vault::new();
    assert!(v.insert_node("e1.rage", Node::File(b"data".to_vec())));
    let cfg = test_config();
    let mut sess = session(EditOutcome::Content(b"x".to_vec()));
    set_write_hook(&mut sess, false);
    let err = run(&mut v, &cfg, &reg(), "pub", "e1", &sess).unwrap_err();
    assert!(matches!(err, VaultError::IoFailure { .. }));
    assert_eq!(v.lookup_node("e1.rage"), Some(&Node::File(b"data".to_vec())));
}
