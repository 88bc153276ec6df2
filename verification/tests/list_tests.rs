use passman::commands::list::{run, ListOutcome};
use passman::config::Config;
use passman::errors::VaultError;
use passman::vault::{Node, Vault};

fn make_config(ext: &str) -> Config {
    Config {
        base_dir: "base".to_string(),
        prefix: "vault".to_string(),
        secret: "base/secret.key".to_string(),
        crypto_extension: ext.to_string(),
        public_key_filename: "public.key".to_string(),
    }
}

fn entries(r: Result<ListOutcome, VaultError>) -> Vec<String> {
    match r.unwrap() {
        ListOutcome::Entries(es) => es,
        ListOutcome::FileEcho(_) => panic!("expected a directory listing"),
    }
}

#[test]
fn missing_entry_returns_err() {
    let v = Vault::new();
    let cfg = make_config("rage");
    let err = run(&v, &cfg, Some("nope".to_string()), false).unwrap_err();
    assert_eq!(err, VaultError::NotFound { path: "nope".to_string() });
}

#[test]
fn file_entry_returns_ok() {
    let mut v = Vault::new();
    assert!(v.insert_node("foo.rage", Node::File(vec![])));
    let cfg = make_config("rage");
    let r = run(&v, &cfg, Some("foo".to_string()), false).unwrap();
    assert_eq!(r, ListOutcome::FileEcho("foo".to_string()));
}

#[test]
fn directory_entry_returns_ok() {
    let mut v = Vault::new();
    assert!(v.insert_node("subdir", Node::Dir));
    let cfg = make_config("rage");
    assert!(run(&v, &cfg, Some("subdir".to_string()), false).is_ok());
}

#[test]
fn extension_formatting_dot_and_no_dot() {
    let mut v = Vault::new();
    let cfg1 = make_config("age");
    let err1 = run(&v, &cfg1, Some("x".to_string()), false).unwrap_err();
    assert_eq!(err1, VaultError::NotFound { path: "x".to_string() });

    let cfg2 = make_config(".age");
    let err2 = run(&v, &cfg2, Some("x".to_string()), false).unwrap_err();
    assert_eq!(err2, VaultError::NotFound { path: "x".to_string() });

    assert!(v.insert_node("a.age", Node::File(vec![])));
    assert!(run(&v, &cfg2, Some("a".to_string()), false).is_ok());

    assert!(v.insert_node("b.age", Node::File(vec![])));
    assert!(run(&v, &cfg1, Some("b".to_string()), false).is_ok());
}

#[test]
fn list_root_ok() {
    let v = Vault::new();
    let cfg = make_config("rage");
    assert_eq!(entries(run(&v, &cfg, None, false)), Vec::<String>::new());
}

#[test]
fn show_all_includes_hidden() {
    let mut v = Vault::new();
    assert!(v.insert_node("v.rage", Node::File(vec![])));
    assert!(v.insert_node(".h.rage", Node::File(vec![])));
    let cfg = make_config("rage");
    assert_eq!(entries(run(&v, &cfg, None, false)), vec!["v.rage".to_string()]);
    assert_eq!(
        entries(run(&v, &cfg, None, true)),
        vec!["v.rage".to_string(), ".h.rage".to_string()]
    );
}

#[test]
fn list_never_includes_git_metadata() {
    let mut v = Vault::new();
    assert!(v.insert_node(".git", Node::Dir));
    assert!(v.insert_node(".git/config.rage", Node::File(vec![])));
    assert!(v.insert_node("a.rage", Node::File(vec![])));
    let cfg = make_config("rage");
    assert_eq!(entries(run(&v, &cfg, None, false)), vec!["a.rage".to_string()]);
    // Even with archived entries included, version-control metadata stays out.
    assert_eq!(entries(run(&v, &cfg, None, true)), vec!["a.rage".to_string()]);
}

#[test]
fn list_descends_only_below_named_directory() {
    let mut v = Vault::new();
    assert!(v.insert_node("top.rage", Node::File(vec![])));
    assert!(v.insert_node("sub", Node::Dir));
    assert!(v.insert_node("sub/inner.rage", Node::File(vec![])));
    assert!(v.insert_node("sub/.hidden.rage", Node::File(vec![])));
    let cfg = make_config("rage");
    assert_eq!(
        entries(run(&v, &cfg, Some("sub".to_string()), false)),
        vec!["sub/inner.rage".to_string()]
    );
    assert_eq!(
        entries(run(&v, &cfg, Some("sub".to_string()), true)),
        vec!["sub/inner.rage".to_string(), "sub/.hidden.rage".to_string()]
    );
}

#[test]
fn files_without_the_extension_are_not_listed() {
    let mut v = Vault::new();
    assert!(v.insert_node("note.txt", Node::File(vec![])));
    assert!(v.insert_node("pw.rage", Node::File(vec![])));
    let cfg = make_config("rage");
    assert_eq!(entries(run(&v, &cfg, None, false)), vec!["pw.rage".to_string()]);
}
