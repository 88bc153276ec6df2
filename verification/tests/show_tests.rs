use passman::commands::create::{self, EditOutcome};
use passman::commands::show::run;
use passman::config::Config;
use passman::crypto::crypto::Registry;
use passman::crypto::plain::PlainBackend;
use passman::errors::VaultError;
use passman::vault::{Node, Vault};

fn test_config() -> Config {
    Config {
        base_dir: "base".to_string(),
        prefix: "vault".to_string(),
        secret: "base/private.rage".to_string(),
        crypto_extension: "rage".to_string(),
        public_key_filename: "public.key".to_string(),
    }
}

fn reg() -> Registry<PlainBackend, PlainBackend> {
    Registry::new(PlainBackend, PlainBackend)
}

fn three_line_vault() -> Vault {
    let mut v = Vault::new();
    assert!(v.insert_node("mypw.rage", Node::File(b"first line\nsecond line\nthird line".to_vec())));
    v
}

#[test]
fn missing_file_errors_gracefully() {
    let v = Vault::new();
    let cfg = test_config();
    let err = run(&v, &cfg, &reg(), "does_not_exist", None).unwrap_err();
    assert_eq!(err, VaultError::NotFound { path: "vault/does_not_exist.rage".to_string() });
}

#[test]
fn prints_entire_decrypted_contents_when_no_line_arg() {
    let v = three_line_vault();
    let cfg = test_config();
    let out = run(&v, &cfg, &reg(), "mypw", None).unwrap();
    assert_eq!(out, b"first line\nsecond line\nthird line".to_vec());
}

#[test]
fn selects_correct_line_if_requested() {
    let v = three_line_vault();
    let cfg = test_config();
    let out = run(&v, &cfg, &reg(), "mypw", Some(2)).unwrap();
    assert_eq!(out, b"second line".to_vec());
}

#[test]
fn error_if_line_out_of_range() {
    let v = three_line_vault();
    let cfg = test_config();
    let err = run(&v, &cfg, &reg(), "mypw", Some(10)).unwrap_err();
    assert_eq!(err, VaultError::LineOutOfRange { path: "mypw".to_string(), line: 10 });
}

#[test]
fn line_zero_shows_everything() {
    let v = three_line_vault();
    let cfg = test_config();
    let out = run(&v, &cfg, &reg(), "mypw", Some(0)).unwrap();
    assert_eq!(out, b"first line\nsecond line\nthird line".to_vec());
}

#[test]
fn carriage_returns_are_stripped_from_lines() {
    let mut v = Vault::new();
    assert!(v.insert_node("win.rage", Node::File(b"a\r\nb\r\n".to_vec())));
    let cfg = test_config();
    assert_eq!(run(&v, &cfg, &reg(), "win", Some(1)).unwrap(), b"a".to_vec());
    assert_eq!(run(&v, &cfg, &reg(), "win", Some(2)).unwrap(), b"b".to_vec());
}

#[test]
fn scenario_nested_entry_with_line_selection() {
    // Entry "mail/example.com", plaintext "p@ss\nline2", extension "rage".
    let mut v = Vault::new();
    let cfg = test_config();
    create::run(
        &mut v,
        &cfg,
        &reg(),
        "pub",
        "mail/example.com",
        &EditOutcome::Content(b"p@ss\nline2".to_vec()),
    )
    .unwrap();
    // The encrypted file sits at <vault>/mail/example.com.rage.
    assert!(matches!(v.lookup_node("mail/example.com.rage"), Some(&Node::File(_))));
    assert_eq!(cfg.entry_path("mail/example.com"), "vault/mail/example.com.rage".to_string());
    // Line 2 comes back exactly.
    assert_eq!(
        run(&v, &cfg, &reg(), "mail/example.com", Some(2)).unwrap(),
        b"line2".to_vec()
    );
    // Line 5 fails with an error naming the entry.
    let err = run(&v, &cfg, &reg(), "mail/example.com", Some(5)).unwrap_err();
    assert_eq!(
        err,
        VaultError::LineOutOfRange { path: "mail/example.com".to_string(), line: 5 }
    );
}
