use passman::crypto::crypto::{
    decrypt, default_decrypt_backend, default_encrypt_backend, detect_backend, encrypt,
    set_decrypt_factory, set_encrypt_factory, BackendKind, BackendPolicy, Registry,
};
use passman::crypto::age::Age;
use passman::crypto::detect::{resolve_backend_answer, DetectError};
use passman::crypto::plain::PlainBackend;
use passman::crypto::rage::Rage;

fn reg() -> Registry<PlainBackend, PlainBackend> {
    Registry::new(PlainBackend, PlainBackend)
}

#[test]
fn encrypt_is_mockable() {
    let mut r = reg();
    set_encrypt_factory(&mut r, BackendPolicy::Fixed(BackendKind::Age));
    let c = encrypt(&r, "you", "foo.age", b"hello-test").unwrap();
    assert_eq!(c, b"hello-test".to_vec());
}

#[test]
fn decrypt_is_mockable() {
    let mut r = reg();
    set_decrypt_factory(&mut r, BackendPolicy::Fixed(BackendKind::Age));
    let out = decrypt(&r, "id", "foo.age", b"mocked").unwrap();
    assert_eq!(out, b"mocked".to_vec());
}

#[test]
fn default_backend_follows_extension() {
    assert_eq!(default_encrypt_backend("x/foo.age"), BackendKind::Age);
    assert_eq!(default_encrypt_backend("x/foo.rage"), BackendKind::Rage);
    assert_eq!(default_decrypt_backend("noext"), BackendKind::Rage);
    // A dotfile with no further dot has no extension at all.
    assert_eq!(default_encrypt_backend(".age"), BackendKind::Rage);
}

#[test]
fn detect_none_installed_fails() {
    assert_eq!(detect_backend(false, false, &vec![]), Err(DetectError::NoBackend));
}

#[test]
fn detect_single_tool_is_silent() {
    assert_eq!(detect_backend(true, false, &vec![]).unwrap(), "rage");
    assert_eq!(detect_backend(false, true, &vec![]).unwrap(), "age");
}

#[test]
fn detect_both_uses_first_deciding_answer() {
    let answers = vec!["what".to_string(), " AGE ".to_string(), "rage".to_string()];
    assert_eq!(detect_backend(true, true, &answers).unwrap(), "age");
    assert_eq!(
        detect_backend(true, true, &vec!["hm".to_string()]),
        Err(DetectError::NoChoice)
    );
}

#[test]
fn tool_descriptors_name_their_binaries() {
    assert_eq!(Age.extension(), "age");
    assert_eq!(Age.tool(), "age");
    assert_eq!(Age.keygen_tool(), "age-keygen");
    assert_eq!(Rage.extension(), "rage");
    assert_eq!(Rage.tool(), "rage");
    assert_eq!(Rage.keygen_tool(), "rage-keygen");
}

#[test]
fn answer_parsing_is_trimmed_and_case_insensitive() {
    assert_eq!(resolve_backend_answer(" Rage\n"), Some(BackendKind::Rage));
    assert_eq!(resolve_backend_answer("age"), Some(BackendKind::Age));
    assert_eq!(resolve_backend_answer("gpg"), None);
    assert_eq!(resolve_backend_answer(""), None);
}
