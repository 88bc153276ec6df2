use passman::commands::create::{self, EditOutcome};
use passman::config::Config;
use passman::crypto::crypto::Registry;
use passman::crypto::plain::PlainBackend;
use passman::utils::git_ops::{sync_plan, sync_vault, GitCmd, GitOutcome};
use passman::vault::Vault;

fn test_config() -> Config {
    Config {
        base_dir: "base".to_string(),
        prefix: "vault".to_string(),
        secret: "base/private.rage".to_string(),
        crypto_extension: "rage".to_string(),
        public_key_filename: "public.key".to_string(),
    }
}

#[test]
fn sync_plan_is_stage_commit_pull_push() {
    let plan = sync_plan();
    assert_eq!(
        plan,
        vec![GitCmd::AddAll, GitCmd::CommitSync, GitCmd::PullRebase, GitCmd::Push]
    );
    assert_eq!(plan[0].args(), vec!["add".to_string(), ".".to_string()]);
    assert_eq!(
        plan[1].args(),
        vec!["commit".to_string(), "-m".to_string(), "Sync vault".to_string()]
    );
    assert_eq!(plan[2].args(), vec!["pull".to_string(), "--rebase".to_string()]);
    assert_eq!(plan[3].args(), vec!["push".to_string()]);
}

#[test]
fn sync_records_each_step() {
    let r = sync_vault(&vec![
        GitOutcome::Exit(true),
        GitOutcome::Exit(false),
        GitOutcome::LaunchFailed,
        GitOutcome::Exit(true),
    ]);
    assert!(r.staged);
    assert!(!r.committed);
    assert!(!r.pulled);
    assert!(r.pushed);
}

#[test]
fn sync_with_failing_push_still_returns_an_outcome() {
    // Every combination of step failures yields an outcome, never an error.
    let r = sync_vault(&vec![
        GitOutcome::LaunchFailed,
        GitOutcome::LaunchFailed,
        GitOutcome::LaunchFailed,
        GitOutcome::LaunchFailed,
    ]);
    assert!(!r.staged && !r.committed && !r.pulled && !r.pushed);
}

#[test]
fn mutating_command_succeeds_even_when_push_fails() {
    // A create followed by a sync whose push step fails: the command's own
    // result stays a success; only the outcome records the failed push.
    let mut v = Vault::new();
    let cfg = test_config();
    let reg = Registry::new(PlainBackend, PlainBackend);
    let created = create::run(
        &mut v,
        &cfg,
        &reg,
        "pub",
        "site",
        &EditOutcome::Content(b"pw".to_vec()),
    );
    assert!(created.is_ok());
    let outcome = sync_vault(&vec![
        GitOutcome::Exit(true),
        GitOutcome::Exit(true),
        GitOutcome::Exit(true),
        GitOutcome::Exit(false),
    ]);
    assert!(!outcome.pushed);
    assert!(created.is_ok());
}
