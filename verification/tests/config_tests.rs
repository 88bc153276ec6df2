use passman::config::{load_config, Config};
use passman::paths::{hidden_sibling, nth_line, split_str, strip_extension, trim_str};
use passman::utils::gather_config::extant_config;
use passman::utils::keygen::generate_keypair;

#[test]
fn entry_path_joins_prefix_name_and_extension() {
    let cfg = Config {
        base_dir: "b".to_string(),
        prefix: "b/vault".to_string(),
        secret: "b/private.rage".to_string(),
        crypto_extension: "rage".to_string(),
        public_key_filename: "public.key".to_string(),
    };
    assert_eq!(cfg.entry_path("mail/example.com"), "b/vault/mail/example.com.rage".to_string());
    assert_eq!(cfg.entry_rel("mail/example.com"), "mail/example.com.rage".to_string());
}

#[test]
fn load_config_prefers_explicit_directory() {
    let cfg = load_config(
        Some("/custom".to_string()),
        Some("/xdg".to_string()),
        Some("/home/u".to_string()),
        None,
        "rage".to_string(),
    );
    assert_eq!(cfg.base_dir, "/custom".to_string());
    assert_eq!(cfg.prefix, "/custom/vault".to_string());
    assert_eq!(cfg.secret, "/custom/private.rage".to_string());
    assert_eq!(cfg.public_key_filename, "public.key".to_string());
}

#[test]
fn load_config_falls_back_to_data_home_then_home() {
    let cfg = load_config(
        None,
        Some("/xdg".to_string()),
        Some("/home/u".to_string()),
        None,
        "age".to_string(),
    );
    assert_eq!(cfg.base_dir, "/xdg/passman".to_string());
    assert_eq!(cfg.secret, "/xdg/passman/private.age".to_string());

    let cfg = load_config(None, None, Some("/home/u".to_string()), None, "age".to_string());
    assert_eq!(cfg.base_dir, "/home/u/.local/share/passman".to_string());
}

#[test]
fn load_config_takes_public_key_override() {
    let cfg = load_config(
        Some("/d".to_string()),
        None,
        None,
        Some("recipient.txt".to_string()),
        "rage".to_string(),
    );
    assert_eq!(cfg.public_key_filename, "recipient.txt".to_string());
}

#[test]
fn keygen_plan_follows_identity_extension() {
    let p = generate_keypair("/d/private.age", "/d/public.key");
    assert_eq!(p.tool, "age-keygen".to_string());
    assert_eq!(p.gen_args, vec!["-o".to_string(), "/d/private.age".to_string()]);
    assert_eq!(p.pub_args, vec!["-y".to_string(), "/d/private.age".to_string()]);
    assert_eq!(p.public_path, "/d/public.key".to_string());

    let p = generate_keypair("/d/private.rage", "/d/public.key");
    assert_eq!(p.tool, "rage-keygen".to_string());
}

#[test]
fn config_dump_carries_everything_through() {
    let cfg = Config {
        base_dir: "b".to_string(),
        prefix: "b/vault".to_string(),
        secret: "b/private.rage".to_string(),
        crypto_extension: "rage".to_string(),
        public_key_filename: "public.key".to_string(),
    };
    let dump = extant_config(
        &cfg,
        vec![("EDITOR".to_string(), "vi".to_string())],
        vec![("git".to_string(), "/usr/bin/git".to_string())],
        Some("git@host:repo.git".to_string()),
    );
    assert_eq!(dump.base_dir, "b".to_string());
    assert_eq!(dump.crypto_extension, "rage".to_string());
    assert_eq!(dump.env, vec![("EDITOR".to_string(), "vi".to_string())]);
    assert_eq!(dump.git_remote_origin, Some("git@host:repo.git".to_string()));
}

#[test]
fn path_helpers_behave_like_a_path_library() {
    assert_eq!(hidden_sibling("a/b/c.rage"), "a/b/.c.rage".to_string());
    assert_eq!(hidden_sibling("c.rage"), ".c.rage".to_string());
    assert_eq!(strip_extension("a/b.rage"), "a/b".to_string());
    assert_eq!(strip_extension("a/b"), "a/b".to_string());
    assert_eq!(trim_str("  x y\n"), "x y".to_string());
    assert_eq!(split_str("a/b/c", '/'), vec!["a".to_string(), "b".to_string(), "c".to_string()]);
    assert_eq!(split_str("", '/'), Vec::<String>::new());
    assert_eq!(nth_line(b"one\ntwo\n", 1), Some(b"two".to_vec()));
    assert_eq!(nth_line(b"one\ntwo\n", 2), None);
}
