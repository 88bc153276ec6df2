use passman::commands::init::{
    run, set_confirm_hook, set_git_hook, set_input_hook, set_install_hook, set_keygen_hook,
    InitEnv, InitScript, RemoteBootstrapState,
};
use passman::utils::git_ops::GitOutcome;

fn fresh_env() -> InitEnv {
    InitEnv { secret_exists: false, public_exists: false, repo_exists: false }
}

fn base_script() -> InitScript {
    let mut s = InitScript::new();
    set_keygen_hook(&mut s, true);
    set_install_hook(&mut s, true);
    set_git_hook(&mut s, vec![]);
    s
}

fn ok_git(n: usize) -> Vec<GitOutcome> {
    vec![GitOutcome::Exit(true); n]
}

#[test]
fn skip_git_init_when_user_says_no() {
    let mut s = base_script();
    set_confirm_hook(&mut s, false, false, false);
    set_input_hook(&mut s, String::new());
    let t = run(fresh_env(), &s);
    assert!(t.git_calls.is_empty());
    assert!(t.outcome.is_ok());
}

#[test]
fn full_git_init_with_no_remote() {
    let mut s = base_script();
    set_confirm_hook(&mut s, false, true, false);
    set_input_hook(&mut s, String::new());
    set_git_hook(&mut s, ok_git(3));
    let t = run(fresh_env(), &s);
    let calls: Vec<Vec<String>> = t.git_calls.iter().map(|c| c.args()).collect();
    assert_eq!(calls[0], vec!["init".to_string()]);
    assert_eq!(calls[1], vec!["branch".to_string(), "-M".to_string(), "main".to_string()]);
    assert_eq!(
        calls[2],
        vec![
            "commit".to_string(),
            "--allow-empty".to_string(),
            "-m".to_string(),
            "Initial commit".to_string()
        ]
    );
    assert_eq!(calls.len(), 3);
}

#[test]
fn git_init_with_remote_and_push_success() {
    let mut s = base_script();
    set_confirm_hook(&mut s, false, true, false);
    set_input_hook(&mut s, "git@host:repo.git".to_string());
    set_git_hook(&mut s, ok_git(5));
    let t = run(fresh_env(), &s);
    let calls: Vec<Vec<String>> = t.git_calls.iter().map(|c| c.args()).collect();
    assert!(calls.iter().any(|a| {
        a == &vec![
            "remote".to_string(),
            "add".to_string(),
            "origin".to_string(),
            "git@host:repo.git".to_string(),
        ]
    }));
    assert!(calls.iter().any(|a| {
        a == &vec![
            "push".to_string(),
            "--set-upstream".to_string(),
            "origin".to_string(),
            "main".to_string(),
        ]
    }));
    assert_eq!(t.repo_state, RemoteBootstrapState::Pushed);
}

#[test]
fn git_init_push_fail_rebase_skipped() {
    let mut s = base_script();
    set_confirm_hook(&mut s, false, true, false);
    set_input_hook(&mut s, "URL".to_string());
    // The fourth invocation fails, later ones succeed.
    set_git_hook(
        &mut s,
        vec![
            GitOutcome::Exit(true),
            GitOutcome::Exit(true),
            GitOutcome::Exit(true),
            GitOutcome::Exit(false),
        ],
    );
    let t = run(fresh_env(), &s);
    let calls: Vec<Vec<String>> = t.git_calls.iter().map(|c| c.args()).collect();
    assert!(calls.iter().any(|a| a[0] == "push"));
    assert!(!calls.iter().any(|a| a[0] == "pull"));
}

#[test]
fn git_init_push_fail_rebase_and_retry_success() {
    let mut s = base_script();
    set_confirm_hook(&mut s, false, true, true);
    set_input_hook(&mut s, "URL".to_string());
    // The fifth invocation (the first push) fails; pull and retry succeed.
    set_git_hook(
        &mut s,
        vec![
            GitOutcome::Exit(true),
            GitOutcome::Exit(true),
            GitOutcome::Exit(true),
            GitOutcome::Exit(true),
            GitOutcome::Exit(false),
        ],
    );
    let t = run(fresh_env(), &s);
    let calls: Vec<Vec<String>> = t.git_calls.iter().map(|c| c.args()).collect();
    assert!(calls.iter().any(|a| a[0] == "pull"));
    assert!(calls.iter().filter(|a| a[0] == "push").count() >= 2);
    assert_eq!(t.repo_state, RemoteBootstrapState::PushedAfterRebase);
    assert!(t.outcome.is_ok());
}

#[test]
fn already_repo_skips_all() {
    let mut s = base_script();
    set_confirm_hook(&mut s, false, true, true);
    set_input_hook(&mut s, "URL".to_string());
    let env = InitEnv { secret_exists: false, public_exists: false, repo_exists: true };
    let t = run(env, &s);
    assert!(t.git_calls.is_empty());
    assert!(t.prompts.is_empty());
    assert!(t.outcome.is_ok());
    assert!(t.install_run);
}

#[test]
fn keygen_failure_is_a_hard_error() {
    let mut s = base_script();
    set_keygen_hook(&mut s, false);
    let t = run(fresh_env(), &s);
    assert!(t.outcome.is_err());
    assert!(!t.install_run);
}

#[test]
fn declined_overwrite_keeps_existing_keys() {
    let mut s = base_script();
    set_confirm_hook(&mut s, false, false, false);
    let env = InitEnv { secret_exists: true, public_exists: true, repo_exists: true };
    let t = run(env, &s);
    // The overwrite question fired, but keygen never ran.
    assert_eq!(t.prompts.len(), 1);
    assert!(!t.keygen_run);
    assert!(t.outcome.is_ok());
}

#[test]
fn install_failure_is_a_hard_error() {
    let mut s = base_script();
    set_confirm_hook(&mut s, false, false, false);
    set_install_hook(&mut s, false);
    let t = run(fresh_env(), &s);
    assert!(t.outcome.is_err());
}
