use passman::commands::create::{run, validate_editor_output, EditOutcome};
use passman::commands::show;
use passman::config::Config;
use passman::crypto::crypto::Registry;
use passman::crypto::plain::PlainBackend;
use passman::errors::{EditorFault, VaultError};
use passman::vault::{Node, Vault};

fn test_config() -> Config {
    Config {
        base_dir: "base".to_string(),
        prefix: "vault".to_string(),
        secret: "base/private.rage".to_string(),
        crypto_extension: "rage".to_string(),
        public_key_filename: "public.key".to_string(),
    }
}

fn reg() -> Registry<PlainBackend, PlainBackend> {
    Registry::new(PlainBackend, PlainBackend)
}

#[test]
fn existing_file_errors() {
    let mut v = Vault::new();
    assert!(v.insert_node("mypw.rage", Node::File(vec![])));
    let cfg = test_config();
    let err = run(&mut v, &cfg, &reg(), "pubkey", "mypw", &EditOutcome::Content(b"x".to_vec()))
        .unwrap_err();
    assert_eq!(err, VaultError::AlreadyExists { path: "vault/mypw.rage".to_string() });
}

#[test]
fn cannot_create_parent_dir_errors() {
    let mut v = Vault::new();
    assert!(v.insert_node("parent", Node::File(vec![])));
    let cfg = test_config();
    let err = run(
        &mut v,
        &cfg,
        &reg(),
        "pubkey",
        "parent/mypw",
        &EditOutcome::Content(b"x".to_vec()),
    )
    .unwrap_err();
    assert_eq!(err, VaultError::IoFailure { path: "vault/parent".to_string() });
}

#[test]
fn edit_success_and_encrypts() {
    let mut v = Vault::new();
    let cfg = test_config();
    run(&mut v, &cfg, &reg(), "dummy", "newpw", &EditOutcome::Content(b"my secret".to_vec()))
        .unwrap();
    assert_eq!(v.lookup_node("newpw.rage"), Some(&Node::File(b"my secret".to_vec())));
}

#[test]
fn real_edit_empty_aborts() {
    let err = validate_editor_output(&EditOutcome::Content(b"".to_vec())).unwrap_err();
    assert_eq!(err, VaultError::EditorFailure { fault: EditorFault::Empty });
    // Whitespace-only output counts as empty too.
    let err = validate_editor_output(&EditOutcome::Content(b" \n\t".to_vec())).unwrap_err();
    assert_eq!(err, VaultError::EditorFailure { fault: EditorFault::Empty });
}

#[test]
fn real_edit_editor_failure() {
    let err = validate_editor_output(&EditOutcome::ExitError).unwrap_err();
    assert_eq!(err, VaultError::EditorFailure { fault: EditorFault::ExitError });
    let err = validate_editor_output(&EditOutcome::LaunchFailed).unwrap_err();
    assert_eq!(err, VaultError::EditorFailure { fault: EditorFault::LaunchFailed });
}

#[test]
fn real_edit_success_reads_tempfile() {
    let out = validate_editor_output(&EditOutcome::Content(b"magic\n".to_vec())).unwrap();
    assert_eq!(out, b"magic".to_vec());
}

#[test]
fn create_makes_parent_directories() {
    let mut v = Vault::new();
    let cfg = test_config();
    run(&mut v, &cfg, &reg(), "pub", "a/b/c", &EditOutcome::Content(b"deep".to_vec())).unwrap();
    assert_eq!(v.lookup_node("a"), Some(&Node::Dir));
    assert_eq!(v.lookup_node("a/b"), Some(&Node::Dir));
    assert_eq!(v.lookup_node("a/b/c.rage"), Some(&Node::File(b"deep".to_vec())));
}

#[test]
fn create_then_show_returns_plaintext() {
    let mut v = Vault::new();
    let cfg = test_config();
    run(&mut v, &cfg, &reg(), "pub", "site", &EditOutcome::Content(b"s3cr3t".to_vec())).unwrap();
    let out = show::run(&v, &cfg, &reg(), "site", None).unwrap();
    assert_eq!(out, b"s3cr3t".to_vec());
}

#[test]
fn create_collision_is_exactly_when_file_exists() {
    let mut v = Vault::new();
    let cfg = test_config();
    // No collision on a fresh vault.
    run(&mut v, &cfg, &reg(), "pub", "one", &EditOutcome::Content(b"x".to_vec())).unwrap();
    // And exactly a collision the second time.
    let err = run(&mut v, &cfg, &reg(), "pub", "one", &EditOutcome::Content(b"y".to_vec()))
        .unwrap_err();
    assert_eq!(err, VaultError::AlreadyExists { path: "vault/one.rage".to_string() });
    // The stored entry is untouched.
    assert_eq!(v.lookup_node("one.rage"), Some(&Node::File(b"x".to_vec())));
}
