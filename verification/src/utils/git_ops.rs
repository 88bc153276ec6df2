use vstd::prelude::*;

verus! {

/// How one version-control step went: the executable could not be launched,
/// or it exited with or without success.
#[derive(Clone, Copy, PartialEq, Eq, Structural, Debug)]
pub enum GitOutcome {
    LaunchFailed,
    Exit(bool),
}

/// One version-control invocation the library asks its caller to perform.
#[derive(Clone, Debug, PartialEq, Eq)]
pub enum GitCmd {
    /// `git init`
    Init,
    /// `git branch -M main`
    BranchMain,
    /// `git commit --allow-empty -m "Initial commit"`
    InitialCommit,
    /// `git remote add origin <url>`
    RemoteAdd(String),
    /// `git push --set-upstream origin main`
    PushUpstream,
    /// `git pull --rebase origin main`
    PullRebaseMain,
    /// `git add .`
    AddAll,
    /// `git commit -m "Sync vault"`
    CommitSync,
    /// `git pull --rebase`
    PullRebase,
    /// `git push`
    Push,
}

/// Spec-level command.
pub enum GitCmdSpec {
    Init,
    BranchMain,
    InitialCommit,
    RemoteAdd(Seq<char>),
    PushUpstream,
    PullRebaseMain,
    AddAll,
    CommitSync,
    PullRebase,
    Push,
}

impl View for GitCmd {
    type V = GitCmdSpec;

    open spec fn view(&self) -> GitCmdSpec {
        match self {
            GitCmd::Init => GitCmdSpec::Init,
            GitCmd::BranchMain => GitCmdSpec::BranchMain,
            GitCmd::InitialCommit => GitCmdSpec::InitialCommit,
            GitCmd::RemoteAdd(u) => GitCmdSpec::RemoteAdd(u@),
            GitCmd::PushUpstream => GitCmdSpec::PushUpstream,
            GitCmd::PullRebaseMain => GitCmdSpec::PullRebaseMain,
            GitCmd::AddAll => GitCmdSpec::AddAll,
            GitCmd::CommitSync => GitCmdSpec::CommitSync,
            GitCmd::PullRebase => GitCmdSpec::PullRebase,
            GitCmd::Push => GitCmdSpec::Push,
        }
    }
}

impl DeepView for GitCmd {
    type V = GitCmdSpec;

    open spec fn deep_view(&self) -> GitCmdSpec {
        self.view()
    }
}

/// The argument list each command passes to the version-control executable.
pub open spec fn args_spec(c: GitCmdSpec) -> Seq<Seq<char>> {
    match c {
        GitCmdSpec::Init => seq!["init"@],
        GitCmdSpec::BranchMain => seq!["branch"@, "-M"@, "main"@],
        GitCmdSpec::InitialCommit => seq!["commit"@, "--allow-empty"@, "-m"@, "Initial commit"@],
        GitCmdSpec::RemoteAdd(u) => seq!["remote"@, "add"@, "origin"@, u],
        GitCmdSpec::PushUpstream => seq!["push"@, "--set-upstream"@, "origin"@, "main"@],
        GitCmdSpec::PullRebaseMain => seq!["pull"@, "--rebase"@, "origin"@, "main"@],
        GitCmdSpec::AddAll => seq!["add"@, "."@],
        GitCmdSpec::CommitSync => seq!["commit"@, "-m"@, "Sync vault"@],
        GitCmdSpec::PullRebase => seq!["pull"@, "--rebase"@],
        GitCmdSpec::Push => seq!["push"@],
    }
}

impl GitCmd {
    /// The argument list to pass to the version-control executable.
    pub fn args(&self) -> (r: Vec<String>)
        ensures
            r.deep_view() == args_spec(self@),
    {
        let mut r: Vec<String> = Vec::new();
        match self {
            GitCmd::Init => {
                r.push(String::from_str("init"));
            },
            GitCmd::BranchMain => {
                r.push(String::from_str("branch"));
                r.push(String::from_str("-M"));
                r.push(String::from_str("main"));
            },
            GitCmd::InitialCommit => {
                r.push(String::from_str("commit"));
                r.push(String::from_str("--allow-empty"));
                r.push(String::from_str("-m"));
                r.push(String::from_str("Initial commit"));
            },
            GitCmd::RemoteAdd(u) => {
                r.push(String::from_str("remote"));
                r.push(String::from_str("add"));
                r.push(String::from_str("origin"));
                r.push(u.clone());
            },
            GitCmd::PushUpstream => {
                r.push(String::from_str("push"));
                r.push(String::from_str("--set-upstream"));
                r.push(String::from_str("origin"));
                r.push(String::from_str("main"));
            },
            GitCmd::PullRebaseMain => {
                r.push(String::from_str("pull"));
                r.push(String::from_str("--rebase"));
                r.push(String::from_str("origin"));
                r.push(String::from_str("main"));
            },
            GitCmd::AddAll => {
                r.push(String::from_str("add"));
                r.push(String::from_str("."));
            },
            GitCmd::CommitSync => {
                r.push(String::from_str("commit"));
                r.push(String::from_str("-m"));
                r.push(String::from_str("Sync vault"));
            },
            GitCmd::PullRebase => {
                r.push(String::from_str("pull"));
                r.push(String::from_str("--rebase"));
            },
            GitCmd::Push => {
                r.push(String::from_str("push"));
            },
        }
        proof {
            assert(r.deep_view() =~= args_spec(self@));
        }
        r
    }
}

/// The best-effort record of one sync pass; failed steps are recorded, never
/// raised.
#[derive(Clone, Copy, PartialEq, Eq, Structural, Debug)]
pub struct SyncOutcome {
    pub staged: bool,
    pub committed: bool,
    pub pulled: bool,
    pub pushed: bool,
}

/// Whether one step ran and succeeded.
pub open spec fn step_ok(o: GitOutcome) -> bool {
    o matches GitOutcome::Exit(true)
}

/// The step result at position `i`; a step that never reported counts as
/// having succeeded silently.
pub open spec fn outcome_at(rs: Seq<GitOutcome>, i: int) -> GitOutcome {
    if 0 <= i < rs.len() {
        rs[i]
    } else {
        GitOutcome::Exit(true)
    }
}

/// The four steps of a sync pass, in order: stage everything (deletions
/// included), commit, pull with rebase, push.
pub fn sync_plan() -> (r: Vec<GitCmd>)
    ensures
        r.deep_view() == seq![
            GitCmdSpec::AddAll,
            GitCmdSpec::CommitSync,
            GitCmdSpec::PullRebase,
            GitCmdSpec::Push,
        ],
{
    let mut r: Vec<GitCmd> = Vec::new();
    r.push(GitCmd::AddAll);
    r.push(GitCmd::CommitSync);
    r.push(GitCmd::PullRebase);
    r.push(GitCmd::Push);
    proof {
        assert(r.deep_view() =~= seq![
            GitCmdSpec::AddAll,
            GitCmdSpec::CommitSync,
            GitCmdSpec::PullRebase,
            GitCmdSpec::Push,
        ]);
    }
    r
}

/// Fold the step results of one sync pass into its outcome. This function is
/// total and returns an outcome for every combination of step results: a
/// failing stage, commit, pull or push is recorded and reported, never
/// surfaced as an error, so the mutating command that triggered the sync
/// always keeps its own result.
pub fn sync_vault(results: &Vec<GitOutcome>) -> (r: SyncOutcome)
    ensures
        r.staged == step_ok(outcome_at(results@, 0)),
        r.committed == step_ok(outcome_at(results@, 1)),
        r.pulled == step_ok(outcome_at(results@, 2)),
        r.pushed == step_ok(outcome_at(results@, 3)),
{
    SyncOutcome {
        staged: step_succeeded(results, 0),
        committed: step_succeeded(results, 1),
        pulled: step_succeeded(results, 2),
        pushed: step_succeeded(results, 3),
    }
}

fn step_succeeded(results: &Vec<GitOutcome>, i: usize) -> (r: bool)
    ensures
        r == step_ok(outcome_at(results@, i as int)),
{
    if i < results.len() {
        match results[i] {
            GitOutcome::Exit(true) => true,
            _ => false,
        }
    } else {
        true
    }
}

} // verus!
