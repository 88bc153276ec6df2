use passman::commands::remove::run;
use passman::config::Config;
use passman::errors::VaultError;
use passman::vault::{Node, Vault};

fn make_config() -> Config {
    Config {
        base_dir: "base".to_string(),
        prefix: "vault".to_string(),
        secret: "base/secret.key".to_string(),
        crypto_extension: "rage".to_string(),
        public_key_filename: "public.key".to_string(),
    }
}

#[test]
fn missing_entry_errors() {
    let mut v = Vault::new();
    let cfg = make_config();
    let err = run(&mut v, &cfg, "foo").unwrap_err();
    assert_eq!(err, VaultError::NotFound { path: "vault/foo.rage".to_string() });
}

#[test]
fn existing_entry_removed_successfully() {
    let mut v = Vault::new();
    assert!(v.insert_node("bar.rage", Node::File(b"x".to_vec())));
    let cfg = make_config();
    run(&mut v, &cfg, "bar").unwrap();
    assert!(v.lookup_node("bar.rage").is_none(), "file should have been deleted");
}

#[test]
fn removing_a_directory_fails() {
    let mut v = Vault::new();
    assert!(v.insert_node("d.rage", Node::Dir));
    let cfg = make_config();
    let err = run(&mut v, &cfg, "d").unwrap_err();
    assert!(matches!(err, VaultError::IoFailure { .. }));
    assert_eq!(v.lookup_node("d.rage"), Some(&Node::Dir));
}
