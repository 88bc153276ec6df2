use vstd::prelude::*;
use crate::paths::{trim_chars, trim_str};
use crate::utils::git_ops::{GitCmd, GitCmdSpec, GitOutcome};

verus! {

/// What the filesystem shows when bootstrap starts.
#[derive(Clone, Copy, PartialEq, Eq, Structural, Debug)]
pub struct InitEnv {
    pub secret_exists: bool,
    pub public_exists: bool,
    pub repo_exists: bool,
}

/// The repository phase of bootstrap, from nothing to a pushed mirror.
#[derive(Clone, Copy, PartialEq, Eq, Structural, Debug)]
pub enum RemoteBootstrapState {
    NoRepo,
    RepoCreated,
    Committed,
    RemoteAttached,
    Pushed,
    PushRejected,
    Rebased,
    PushedAfterRebase,
}

/// The only hard failures of bootstrap: a failed key generation, a
/// version-control executable that would not launch, and a failed completion
/// install. A push or pull that merely exits non-zero is reported, not
/// raised.
#[derive(Clone, Copy, PartialEq, Eq, Structural, Debug)]
pub enum InitError {
    KeygenFailed,
    GitLaunchFailed,
    InstallFailed,
}

/// The interactive questions bootstrap can ask.
#[derive(Clone, Copy, PartialEq, Eq, Structural, Debug)]
pub enum InitPrompt {
    OverwriteKeys,
    InitRepo,
    RemoteUrl,
    RebaseRetry,
}

/// An answer or completion the driver feeds back into the machine.
pub enum BootstrapEvent {
    Confirmed(bool),
    UrlEntered(String),
    GitDone(GitOutcome),
    KeygenDone(bool),
    InstallDone(bool),
}

/// Spec-level event.
pub enum EventSpec {
    Confirmed(bool),
    UrlEntered(Seq<char>),
    GitDone(GitOutcome),
    KeygenDone(bool),
    InstallDone(bool),
}

impl View for BootstrapEvent {
    type V = EventSpec;

    open spec fn view(&self) -> EventSpec {
        match self {
            BootstrapEvent::Confirmed(b) => EventSpec::Confirmed(*b),
            BootstrapEvent::UrlEntered(u) => EventSpec::UrlEntered(u@),
            BootstrapEvent::GitDone(o) => EventSpec::GitDone(*o),
            BootstrapEvent::KeygenDone(b) => EventSpec::KeygenDone(*b),
            BootstrapEvent::InstallDone(b) => EventSpec::InstallDone(*b),
        }
    }
}

/// What the machine asks its driver to do next.
pub enum BootstrapAction {
    AskConfirmOverwrite,
    RunKeygen,
    AskConfirmInit,
    Git(GitCmd),
    AskRemoteUrl,
    AskConfirmRebase,
    RunInstall,
    Done(Result<(), InitError>),
}

/// Spec-level action.
pub enum ActionSpec {
    AskConfirmOverwrite,
    RunKeygen,
    AskConfirmInit,
    Git(GitCmdSpec),
    AskRemoteUrl,
    AskConfirmRebase,
    RunInstall,
    Done(Result<(), InitError>),
}

impl View for BootstrapAction {
    type V = ActionSpec;

    open spec fn view(&self) -> ActionSpec {
        match self {
            BootstrapAction::AskConfirmOverwrite => ActionSpec::AskConfirmOverwrite,
            BootstrapAction::RunKeygen => ActionSpec::RunKeygen,
            BootstrapAction::AskConfirmInit => ActionSpec::AskConfirmInit,
            BootstrapAction::Git(c) => ActionSpec::Git(c@),
            BootstrapAction::AskRemoteUrl => ActionSpec::AskRemoteUrl,
            BootstrapAction::AskConfirmRebase => ActionSpec::AskConfirmRebase,
            BootstrapAction::RunInstall => ActionSpec::RunInstall,
            BootstrapAction::Done(r) => ActionSpec::Done(*r),
        }
    }
}

/// Where the machine stands: what it waits for next.
pub enum BootstrapPhase {
    AwaitOverwrite,
    AwaitKeygen,
    AwaitInitConfirm,
    AwaitInit,
    AwaitBranch,
    AwaitCommit,
    AwaitRemoteUrl,
    AwaitRemoteAdd(String),
    AwaitPush,
    AwaitRebaseConfirm,
    AwaitPull,
    AwaitRetryPush,
    AwaitInstall,
    Finished(Result<(), InitError>),
}

/// Spec-level phase.
pub enum PhaseSpec {
    AwaitOverwrite,
    AwaitKeygen,
    AwaitInitConfirm,
    AwaitInit,
    AwaitBranch,
    AwaitCommit,
    AwaitRemoteUrl,
    AwaitRemoteAdd(Seq<char>),
    AwaitPush,
    AwaitRebaseConfirm,
    AwaitPull,
    AwaitRetryPush,
    AwaitInstall,
    Finished(Result<(), InitError>),
}

impl View for BootstrapPhase {
    type V = PhaseSpec;

    open spec fn view(&self) -> PhaseSpec {
        match self {
            BootstrapPhase::AwaitOverwrite => PhaseSpec::AwaitOverwrite,
            BootstrapPhase::AwaitKeygen => PhaseSpec::AwaitKeygen,
            BootstrapPhase::AwaitInitConfirm => PhaseSpec::AwaitInitConfirm,
            BootstrapPhase::AwaitInit => PhaseSpec::AwaitInit,
            BootstrapPhase::AwaitBranch => PhaseSpec::AwaitBranch,
            BootstrapPhase::AwaitCommit => PhaseSpec::AwaitCommit,
            BootstrapPhase::AwaitRemoteUrl => PhaseSpec::AwaitRemoteUrl,
            BootstrapPhase::AwaitRemoteAdd(u) => PhaseSpec::AwaitRemoteAdd(u@),
            BootstrapPhase::AwaitPush => PhaseSpec::AwaitPush,
            BootstrapPhase::AwaitRebaseConfirm => PhaseSpec::AwaitRebaseConfirm,
            BootstrapPhase::AwaitPull => PhaseSpec::AwaitPull,
            BootstrapPhase::AwaitRetryPush => PhaseSpec::AwaitRetryPush,
            BootstrapPhase::AwaitInstall => PhaseSpec::AwaitInstall,
            BootstrapPhase::Finished(r) => PhaseSpec::Finished(*r),
        }
    }
}

/// How far a phase still has to go; every transition strictly decreases it.
pub open spec fn rank(p: PhaseSpec) -> nat {
    match p {
        PhaseSpec::AwaitOverwrite => 14,
        PhaseSpec::AwaitKeygen => 13,
        PhaseSpec::AwaitInitConfirm => 12,
        PhaseSpec::AwaitInit => 11,
        PhaseSpec::AwaitBranch => 10,
        PhaseSpec::AwaitCommit => 9,
        PhaseSpec::AwaitRemoteUrl => 8,
        PhaseSpec::AwaitRemoteAdd(_) => 7,
        PhaseSpec::AwaitPush => 6,
        PhaseSpec::AwaitRebaseConfirm => 5,
        PhaseSpec::AwaitPull => 4,
        PhaseSpec::AwaitRetryPush => 3,
        PhaseSpec::AwaitInstall => 2,
        PhaseSpec::Finished(_) => 0,
    }
}

/// The whole machine at spec level.
pub struct MachineSpec {
    pub env: InitEnv,
    pub phase: PhaseSpec,
    pub repo_state: RemoteBootstrapState,
}

/// Where bootstrap starts: with a key-overwrite question when key files
/// exist, else straight at key generation.
pub open spec fn start_spec(env: InitEnv) -> MachineSpec {
    MachineSpec {
        env,
        phase: if env.secret_exists || env.public_exists {
            PhaseSpec::AwaitOverwrite
        } else {
            PhaseSpec::AwaitKeygen
        },
        repo_state: RemoteBootstrapState::NoRepo,
    }
}

/// After the key phase: an existing repository skips the whole repository
/// and remote phase; otherwise bootstrap asks whether to initialize one.
pub open spec fn repo_check(env: InitEnv) -> PhaseSpec {
    if env.repo_exists {
        PhaseSpec::AwaitInstall
    } else {
        PhaseSpec::AwaitInitConfirm
    }
}

/// What each waiting phase asks its driver for.
pub open spec fn action_of(p: PhaseSpec) -> ActionSpec {
    match p {
        PhaseSpec::AwaitOverwrite => ActionSpec::AskConfirmOverwrite,
        PhaseSpec::AwaitKeygen => ActionSpec::RunKeygen,
        PhaseSpec::AwaitInitConfirm => ActionSpec::AskConfirmInit,
        PhaseSpec::AwaitInit => ActionSpec::Git(GitCmdSpec::Init),
        PhaseSpec::AwaitBranch => ActionSpec::Git(GitCmdSpec::BranchMain),
        PhaseSpec::AwaitCommit => ActionSpec::Git(GitCmdSpec::InitialCommit),
        PhaseSpec::AwaitRemoteUrl => ActionSpec::AskRemoteUrl,
        PhaseSpec::AwaitRemoteAdd(u) => ActionSpec::Git(GitCmdSpec::RemoteAdd(u)),
        PhaseSpec::AwaitPush => ActionSpec::Git(GitCmdSpec::PushUpstream),
        PhaseSpec::AwaitRebaseConfirm => ActionSpec::AskConfirmRebase,
        PhaseSpec::AwaitPull => ActionSpec::Git(GitCmdSpec::PullRebaseMain),
        PhaseSpec::AwaitRetryPush => ActionSpec::Git(GitCmdSpec::PushUpstream),
        PhaseSpec::AwaitInstall => ActionSpec::RunInstall,
        PhaseSpec::Finished(r) => ActionSpec::Done(r),
    }
}

/// The transition table: one step of bootstrap. An event of the wrong kind
/// for the current phase changes nothing.
pub open spec fn step_spec(m: MachineSpec, ev: EventSpec) -> MachineSpec {
    let env = m.env;
    match m.phase {
        PhaseSpec::AwaitOverwrite => match ev {
            EventSpec::Confirmed(yes) => if yes {
                MachineSpec { phase: PhaseSpec::AwaitKeygen, ..m }
            } else {
                MachineSpec { phase: repo_check(env), ..m }
            },
            _ => m,
        },
        PhaseSpec::AwaitKeygen => match ev {
            EventSpec::KeygenDone(ok) => if ok {
                MachineSpec { phase: repo_check(env), ..m }
            } else {
                MachineSpec { phase: PhaseSpec::Finished(Err(InitError::KeygenFailed)), ..m }
            },
            _ => m,
        },
        PhaseSpec::AwaitInitConfirm => match ev {
            EventSpec::Confirmed(yes) => if yes {
                MachineSpec { phase: PhaseSpec::AwaitInit, ..m }
            } else {
                MachineSpec { phase: PhaseSpec::AwaitInstall, ..m }
            },
            _ => m,
        },
        PhaseSpec::AwaitInit => match ev {
            EventSpec::GitDone(o) => match o {
                GitOutcome::LaunchFailed => MachineSpec {
                    phase: PhaseSpec::Finished(Err(InitError::GitLaunchFailed)),
                    ..m
                },
                GitOutcome::Exit(_) => MachineSpec {
                    phase: PhaseSpec::AwaitBranch,
                    repo_state: RemoteBootstrapState::RepoCreated,
                    ..m
                },
            },
            _ => m,
        },
        PhaseSpec::AwaitBranch => match ev {
            // A failed branch rename is ignored.
            EventSpec::GitDone(_) => MachineSpec { phase: PhaseSpec::AwaitCommit, ..m },
            _ => m,
        },
        PhaseSpec::AwaitCommit => match ev {
            // A failed initial commit is ignored too.
            EventSpec::GitDone(_) => MachineSpec {
                phase: PhaseSpec::AwaitRemoteUrl,
                repo_state: RemoteBootstrapState::Committed,
                ..m
            },
            _ => m,
        },
        PhaseSpec::AwaitRemoteUrl => match ev {
            EventSpec::UrlEntered(u) => {
                let t = trim_chars(u);
                if t.len() == 0 {
                    MachineSpec { phase: PhaseSpec::AwaitInstall, ..m }
                } else {
                    MachineSpec { phase: PhaseSpec::AwaitRemoteAdd(t), ..m }
                }
            },
            _ => m,
        },
        PhaseSpec::AwaitRemoteAdd(_) => match ev {
            EventSpec::GitDone(o) => match o {
                GitOutcome::LaunchFailed => MachineSpec {
                    phase: PhaseSpec::Finished(Err(InitError::GitLaunchFailed)),
                    ..m
                },
                GitOutcome::Exit(_) => MachineSpec {
                    phase: PhaseSpec::AwaitPush,
                    repo_state: RemoteBootstrapState::RemoteAttached,
                    ..m
                },
            },
            _ => m,
        },
        PhaseSpec::AwaitPush => match ev {
            EventSpec::GitDone(o) => match o {
                GitOutcome::LaunchFailed => MachineSpec {
                    phase: PhaseSpec::Finished(Err(InitError::GitLaunchFailed)),
                    ..m
                },
                GitOutcome::Exit(true) => MachineSpec {
                    phase: PhaseSpec::AwaitInstall,
                    repo_state: RemoteBootstrapState::Pushed,
                    ..m
                },
                GitOutcome::Exit(false) => MachineSpec {
                    phase: PhaseSpec::AwaitRebaseConfirm,
                    repo_state: RemoteBootstrapState::PushRejected,
                    ..m
                },
            },
            _ => m,
        },
        PhaseSpec::AwaitRebaseConfirm => match ev {
            EventSpec::Confirmed(yes) => if yes {
                MachineSpec { phase: PhaseSpec::AwaitPull, ..m }
            } else {
                MachineSpec { phase: PhaseSpec::AwaitInstall, ..m }
            },
            _ => m,
        },
        PhaseSpec::AwaitPull => match ev {
            EventSpec::GitDone(o) => match o {
                GitOutcome::LaunchFailed => MachineSpec {
                    phase: PhaseSpec::Finished(Err(InitError::GitLaunchFailed)),
                    ..m
                },
                GitOutcome::Exit(true) => MachineSpec {
                    phase: PhaseSpec::AwaitRetryPush,
                    repo_state: RemoteBootstrapState::Rebased,
                    ..m
                },
                GitOutcome::Exit(false) => MachineSpec { phase: PhaseSpec::AwaitInstall, ..m },
            },
            _ => m,
        },
        PhaseSpec::AwaitRetryPush => match ev {
            EventSpec::GitDone(o) => match o {
                GitOutcome::LaunchFailed => MachineSpec {
                    phase: PhaseSpec::Finished(Err(InitError::GitLaunchFailed)),
                    ..m
                },
                GitOutcome::Exit(true) => MachineSpec {
                    phase: PhaseSpec::AwaitInstall,
                    repo_state: RemoteBootstrapState::PushedAfterRebase,
                    ..m
                },
                GitOutcome::Exit(false) => MachineSpec { phase: PhaseSpec::AwaitInstall, ..m },
            },
            _ => m,
        },
        PhaseSpec::AwaitInstall => match ev {
            EventSpec::InstallDone(ok) => if ok {
                MachineSpec { phase: PhaseSpec::Finished(Ok(())), ..m }
            } else {
                MachineSpec { phase: PhaseSpec::Finished(Err(InitError::InstallFailed)), ..m }
            },
            _ => m,
        },
        PhaseSpec::Finished(_) => m,
    }
}

/// The executable machine the interactive driver steps through.
pub struct Bootstrap {
    pub env: InitEnv,
    pub phase: BootstrapPhase,
    pub repo_state: RemoteBootstrapState,
}

impl View for Bootstrap {
    type V = MachineSpec;

    open spec fn view(&self) -> MachineSpec {
        MachineSpec { env: self.env, phase: self.phase@, repo_state: self.repo_state }
    }
}

impl Bootstrap {
    pub fn start(env: InitEnv) -> (m: Bootstrap)
        ensures
            m@ == start_spec(env),
    {
        Bootstrap {
            env,
            phase: if env.secret_exists || env.public_exists {
                BootstrapPhase::AwaitOverwrite
            } else {
                BootstrapPhase::AwaitKeygen
            },
            repo_state: RemoteBootstrapState::NoRepo,
        }
    }

    /// What to do next.
    pub fn action(&self) -> (a: BootstrapAction)
        ensures
            a@ == action_of(self@.phase),
    {
        match &self.phase {
            BootstrapPhase::AwaitOverwrite => BootstrapAction::AskConfirmOverwrite,
            BootstrapPhase::AwaitKeygen => BootstrapAction::RunKeygen,
            BootstrapPhase::AwaitInitConfirm => BootstrapAction::AskConfirmInit,
            BootstrapPhase::AwaitInit => BootstrapAction::Git(GitCmd::Init),
            BootstrapPhase::AwaitBranch => BootstrapAction::Git(GitCmd::BranchMain),
            BootstrapPhase::AwaitCommit => BootstrapAction::Git(GitCmd::InitialCommit),
            BootstrapPhase::AwaitRemoteUrl => BootstrapAction::AskRemoteUrl,
            BootstrapPhase::AwaitRemoteAdd(u) => BootstrapAction::Git(GitCmd::RemoteAdd(u.clone())),
            BootstrapPhase::AwaitPush => BootstrapAction::Git(GitCmd::PushUpstream),
            BootstrapPhase::AwaitRebaseConfirm => BootstrapAction::AskConfirmRebase,
            BootstrapPhase::AwaitPull => BootstrapAction::Git(GitCmd::PullRebaseMain),
            BootstrapPhase::AwaitRetryPush => BootstrapAction::Git(GitCmd::PushUpstream),
            BootstrapPhase::AwaitInstall => BootstrapAction::RunInstall,
            BootstrapPhase::Finished(r) => BootstrapAction::Done(*r),
        }
    }

    /// Feed one event into the machine.
    pub fn step(&mut self, ev: BootstrapEvent)
        ensures
            final(self)@ == step_spec(old(self)@, ev@),
    {
        let next = match (&self.phase, &ev) {
            (BootstrapPhase::AwaitOverwrite, BootstrapEvent::Confirmed(yes)) => if *yes {
                BootstrapPhase::AwaitKeygen
            } else {
                self.repo_check_phase()
            },
            (BootstrapPhase::AwaitKeygen, BootstrapEvent::KeygenDone(ok)) => if *ok {
                self.repo_check_phase()
            } else {
                BootstrapPhase::Finished(Err(InitError::KeygenFailed))
            },
            (BootstrapPhase::AwaitInitConfirm, BootstrapEvent::Confirmed(yes)) => if *yes {
                BootstrapPhase::AwaitInit
            } else {
                BootstrapPhase::AwaitInstall
            },
            (BootstrapPhase::AwaitInit, BootstrapEvent::GitDone(o)) => match o {
                GitOutcome::LaunchFailed => BootstrapPhase::Finished(
                    Err(InitError::GitLaunchFailed),
                ),
                GitOutcome::Exit(_) => {
                    self.repo_state = RemoteBootstrapState::RepoCreated;
                    BootstrapPhase::AwaitBranch
                },
            },
            (BootstrapPhase::AwaitBranch, BootstrapEvent::GitDone(_)) => BootstrapPhase::AwaitCommit,
            (BootstrapPhase::AwaitCommit, BootstrapEvent::GitDone(_)) => {
                self.repo_state = RemoteBootstrapState::Committed;
                BootstrapPhase::AwaitRemoteUrl
            },
            (BootstrapPhase::AwaitRemoteUrl, BootstrapEvent::UrlEntered(u)) => {
                let t = trim_str(u.as_str());
                if t.as_str().unicode_len() == 0 {
                    BootstrapPhase::AwaitInstall
                } else {
                    BootstrapPhase::AwaitRemoteAdd(t)
                }
            },
            (BootstrapPhase::AwaitRemoteAdd(_), BootstrapEvent::GitDone(o)) => match o {
                GitOutcome::LaunchFailed => BootstrapPhase::Finished(
                    Err(InitError::GitLaunchFailed),
                ),
                GitOutcome::Exit(_) => {
                    self.repo_state = RemoteBootstrapState::RemoteAttached;
                    BootstrapPhase::AwaitPush
                },
            },
            (BootstrapPhase::AwaitPush, BootstrapEvent::GitDone(o)) => match o {
                GitOutcome::LaunchFailed => BootstrapPhase::Finished(
                    Err(InitError::GitLaunchFailed),
                ),
                GitOutcome::Exit(true) => {
                    self.repo_state = RemoteBootstrapState::Pushed;
                    BootstrapPhase::AwaitInstall
                },
                GitOutcome::Exit(false) => {
                    self.repo_state = RemoteBootstrapState::PushRejected;
                    BootstrapPhase::AwaitRebaseConfirm
                },
            },
            (BootstrapPhase::AwaitRebaseConfirm, BootstrapEvent::Confirmed(yes)) => if *yes {
                BootstrapPhase::AwaitPull
            } else {
                BootstrapPhase::AwaitInstall
            },
            (BootstrapPhase::AwaitPull, BootstrapEvent::GitDone(o)) => match o {
                GitOutcome::LaunchFailed => BootstrapPhase::Finished(
                    Err(InitError::GitLaunchFailed),
                ),
                GitOutcome::Exit(true) => {
                    self.repo_state = RemoteBootstrapState::Rebased;
                    BootstrapPhase::AwaitRetryPush
                },
                GitOutcome::Exit(false) => BootstrapPhase::AwaitInstall,
            },
            (BootstrapPhase::AwaitRetryPush, BootstrapEvent::GitDone(o)) => match o {
                GitOutcome::LaunchFailed => BootstrapPhase::Finished(
                    Err(InitError::GitLaunchFailed),
                ),
                GitOutcome::Exit(true) => {
                    self.repo_state = RemoteBootstrapState::PushedAfterRebase;
                    BootstrapPhase::AwaitInstall
                },
                GitOutcome::Exit(false) => BootstrapPhase::AwaitInstall,
            },
            (BootstrapPhase::AwaitInstall, BootstrapEvent::InstallDone(ok)) => if *ok {
                BootstrapPhase::Finished(Ok(()))
            } else {
                BootstrapPhase::Finished(Err(InitError::InstallFailed))
            },
            _ => {
                return ;
            },
        };
        self.phase = next;
    }

    fn repo_check_phase(&self) -> (p: BootstrapPhase)
        ensures
            p@ == repo_check(self@.env),
    {
        if self.env.repo_exists {
            BootstrapPhase::AwaitInstall
        } else {
            BootstrapPhase::AwaitInitConfirm
        }
    }
}

// ---------------------------------------------------------------------------
// A whole bootstrap run against scripted collaborators.
// ---------------------------------------------------------------------------

/// The scripted answers and step results one bootstrap run consumes: the
/// explicit-configuration form of the injectable confirm / input / keygen /
/// install / version-control collaborators.
pub struct InitScript {
    pub confirm_overwrite: bool,
    pub confirm_init: bool,
    pub confirm_rebase: bool,
    pub remote_url: String,
    pub keygen_ok: bool,
    pub install_ok: bool,
    pub git: Vec<GitOutcome>,
}

/// Spec-level script.
pub struct InitScriptSpec {
    pub confirm_overwrite: bool,
    pub confirm_init: bool,
    pub confirm_rebase: bool,
    pub remote_url: Seq<char>,
    pub keygen_ok: bool,
    pub install_ok: bool,
    pub git: Seq<GitOutcome>,
}

impl View for InitScript {
    type V = InitScriptSpec;

    open spec fn view(&self) -> InitScriptSpec {
        InitScriptSpec {
            confirm_overwrite: self.confirm_overwrite,
            confirm_init: self.confirm_init,
            confirm_rebase: self.confirm_rebase,
            remote_url: self.remote_url@,
            keygen_ok: self.keygen_ok,
            install_ok: self.install_ok,
            git: self.git@,
        }
    }
}

impl InitScript {
    /// A script that answers every question with its default, enters no
    /// remote, and has every collaborator succeed.
    pub fn new() -> (s: InitScript)
        ensures
            s@.confirm_overwrite == false,
            s@.confirm_init == true,
            s@.confirm_rebase == true,
            s@.remote_url == Seq::<char>::empty(),
            s@.keygen_ok == true,
            s@.install_ok == true,
            s@.git == Seq::<GitOutcome>::empty(),
    {
        InitScript {
            confirm_overwrite: false,
            confirm_init: true,
            confirm_rebase: true,
            remote_url: String::new(),
            keygen_ok: true,
            install_ok: true,
            git: Vec::new(),
        }
    }
}

/// Script the three confirmation answers.
pub fn set_confirm_hook(s: &mut InitScript, overwrite: bool, init_repo: bool, rebase: bool)
    ensures
        final(s)@ == (InitScriptSpec {
            confirm_overwrite: overwrite,
            confirm_init: init_repo,
            confirm_rebase: rebase,
            ..old(s)@
        }),
{
    s.confirm_overwrite = overwrite;
    s.confirm_init = init_repo;
    s.confirm_rebase = rebase;
}

/// Script the remote-URL answer.
pub fn set_input_hook(s: &mut InitScript, url: String)
    ensures
        final(s)@ == (InitScriptSpec { remote_url: url@, ..old(s)@ }),
{
    s.remote_url = url;
}

/// Script the key generation result.
pub fn set_keygen_hook(s: &mut InitScript, ok: bool)
    ensures
        final(s)@ == (InitScriptSpec { keygen_ok: ok, ..old(s)@ }),
{
    s.keygen_ok = ok;
}

/// Script the completion-install result.
pub fn set_install_hook(s: &mut InitScript, ok: bool)
    ensures
        final(s)@ == (InitScriptSpec { install_ok: ok, ..old(s)@ }),
{
    s.install_ok = ok;
}

/// Script the version-control step results, in invocation order.
pub fn set_git_hook(s: &mut InitScript, outcomes: Vec<GitOutcome>)
    ensures
        final(s)@ == (InitScriptSpec { git: outcomes@, ..old(s)@ }),
{
    s.git = outcomes;
}

/// The scripted result of the `i`-th version-control invocation; past the
/// script every step counts as a silent success.
pub open spec fn git_at(s: InitScriptSpec, i: int) -> GitOutcome {
    if 0 <= i < s.git.len() {
        s.git[i]
    } else {
        GitOutcome::Exit(true)
    }
}

/// The event the script answers action `a` with, `ig` git results having
/// been consumed already.
pub open spec fn event_for(a: ActionSpec, s: InitScriptSpec, ig: int) -> EventSpec {
    match a {
        ActionSpec::AskConfirmOverwrite => EventSpec::Confirmed(s.confirm_overwrite),
        ActionSpec::AskConfirmInit => EventSpec::Confirmed(s.confirm_init),
        ActionSpec::AskConfirmRebase => EventSpec::Confirmed(s.confirm_rebase),
        ActionSpec::AskRemoteUrl => EventSpec::UrlEntered(s.remote_url),
        ActionSpec::RunKeygen => EventSpec::KeygenDone(s.keygen_ok),
        ActionSpec::RunInstall => EventSpec::InstallDone(s.install_ok),
        ActionSpec::Git(_) => EventSpec::GitDone(git_at(s, ig)),
        ActionSpec::Done(_) => EventSpec::Confirmed(false),
    }
}

/// The interactive question an action asks, if any.
pub open spec fn prompt_of(a: ActionSpec) -> Option<InitPrompt> {
    match a {
        ActionSpec::AskConfirmOverwrite => Some(InitPrompt::OverwriteKeys),
        ActionSpec::AskConfirmInit => Some(InitPrompt::InitRepo),
        ActionSpec::AskRemoteUrl => Some(InitPrompt::RemoteUrl),
        ActionSpec::AskConfirmRebase => Some(InitPrompt::RebaseRetry),
        _ => None,
    }
}

/// Everything one bootstrap run did, at spec level.
pub struct TraceSpec {
    pub prompts: Seq<InitPrompt>,
    pub git_calls: Seq<GitCmdSpec>,
    pub keygen_run: bool,
    pub install_run: bool,
    pub repo_state: RemoteBootstrapState,
    pub outcome: Result<(), InitError>,
}

/// The remainder of a scripted run from machine state `m`.
pub open spec fn run_from(
    m: MachineSpec,
    s: InitScriptSpec,
    ig: int,
    prompts: Seq<InitPrompt>,
    calls: Seq<GitCmdSpec>,
    keygen_run: bool,
    install_run: bool,
) -> TraceSpec
    decreases rank(m.phase),
{
    match m.phase {
        PhaseSpec::Finished(res) => TraceSpec {
            prompts,
            git_calls: calls,
            keygen_run,
            install_run,
            repo_state: m.repo_state,
            outcome: res,
        },
        _ => {
            let a = action_of(m.phase);
            let ev = event_for(a, s, ig);
            let ig2 = if a is Git {
                ig + 1
            } else {
                ig
            };
            let prompts2 = match prompt_of(a) {
                Some(p) => prompts.push(p),
                None => prompts,
            };
            let calls2 = match a {
                ActionSpec::Git(c) => calls.push(c),
                _ => calls,
            };
            let keygen2 = keygen_run || a is RunKeygen;
            let install2 = install_run || a is RunInstall;
            run_from(step_spec(m, ev), s, ig2, prompts2, calls2, keygen2, install2)
        },
    }
}

/// The whole scripted run.
pub open spec fn run_spec(env: InitEnv, s: InitScriptSpec) -> TraceSpec {
    run_from(
        start_spec(env),
        s,
        0,
        Seq::<InitPrompt>::empty(),
        Seq::<GitCmdSpec>::empty(),
        false,
        false,
    )
}

/// Everything one bootstrap run did.
pub struct InitTrace {
    pub prompts: Vec<InitPrompt>,
    pub git_calls: Vec<GitCmd>,
    pub keygen_run: bool,
    pub install_run: bool,
    pub repo_state: RemoteBootstrapState,
    pub outcome: Result<(), InitError>,
}

impl View for InitTrace {
    type V = TraceSpec;

    open spec fn view(&self) -> TraceSpec {
        TraceSpec {
            prompts: self.prompts@,
            git_calls: self.git_calls.deep_view(),
            keygen_run: self.keygen_run,
            install_run: self.install_run,
            repo_state: self.repo_state,
            outcome: self.outcome,
        }
    }
}

/// Run the whole bootstrap against the scripted collaborators: generate or
/// keep the keypair, initialize the repository and attach the remote when
/// asked to, retry a rejected push after a pull-with-rebase when confirmed,
/// and finish by installing completions.
#[verifier::loop_isolation(false)]
pub fn run(env: InitEnv, script: &InitScript) -> (t: InitTrace)
    ensures
        t@ == run_spec(env, script@),
{
    let mut m = Bootstrap::start(env);
    let mut prompts: Vec<InitPrompt> = Vec::new();
    let mut git_calls: Vec<GitCmd> = Vec::new();
    let mut keygen_run = false;
    let mut install_run = false;
    let mut ig: usize = 0;
    proof {
        assert(prompts@ =~= Seq::<InitPrompt>::empty());
        assert(git_calls.deep_view() =~= Seq::<GitCmdSpec>::empty());
    }
    loop
        invariant
            ig + rank(m@.phase) <= 14,
            run_spec(env, script@) == run_from(
                m@,
                script@,
                ig as int,
                prompts@,
                git_calls.deep_view(),
                keygen_run,
                install_run,
            ),
        decreases rank(m@.phase),
    {
        let ghost m0 = m@;
        let ghost pr0 = prompts@;
        let ghost ca0 = git_calls.deep_view();
        let ghost kg0 = keygen_run;
        let ghost in0 = install_run;
        let ghost ig0 = ig as int;
        let a = m.action();
        match a {
            BootstrapAction::Done(res) => {
                return InitTrace {
                    prompts,
                    git_calls,
                    keygen_run,
                    install_run,
                    repo_state: m.repo_state,
                    outcome: res,
                };
            },
            BootstrapAction::AskConfirmOverwrite => {
                prompts.push(InitPrompt::OverwriteKeys);
                m.step(BootstrapEvent::Confirmed(script.confirm_overwrite));
            },
            BootstrapAction::AskConfirmInit => {
                prompts.push(InitPrompt::InitRepo);
                m.step(BootstrapEvent::Confirmed(script.confirm_init));
            },
            BootstrapAction::AskConfirmRebase => {
                prompts.push(InitPrompt::RebaseRetry);
                m.step(BootstrapEvent::Confirmed(script.confirm_rebase));
            },
            BootstrapAction::AskRemoteUrl => {
                prompts.push(InitPrompt::RemoteUrl);
                m.step(BootstrapEvent::UrlEntered(script.remote_url.clone()));
            },
            BootstrapAction::RunKeygen => {
                keygen_run = true;
                m.step(BootstrapEvent::KeygenDone(script.keygen_ok));
            },
            BootstrapAction::RunInstall => {
                install_run = true;
                m.step(BootstrapEvent::InstallDone(script.install_ok));
            },
            BootstrapAction::Git(c) => {
                let o = if ig < script.git.len() {
                    script.git[ig]
                } else {
                    GitOutcome::Exit(true)
                };
                let ghost cv = c@;
                git_calls.push(c);
                ig = ig + 1;
                m.step(BootstrapEvent::GitDone(o));
                proof {
                    assert(git_calls.deep_view() =~= ca0.push(cv));
                }
            },
        }
        proof {
            assert(run_from(m0, script@, ig0, pr0, ca0, kg0, in0) == run_from(
                m@,
                script@,
                ig as int,
                prompts@,
                git_calls.deep_view(),
                keygen_run,
                install_run,
            ));
        }
    }
}

// ---------------------------------------------------------------------------
// Laws of the bootstrap controller.
// ---------------------------------------------------------------------------

/// Law: with a repository already in place and no key files to ask about,
/// bootstrap fires no interactive prompt and executes no version-control
/// command; key generation and the completion install still run.
pub proof fn lemma_bootstrap_skips_existing_repo(env: InitEnv, s: InitScriptSpec)
    requires
        !env.secret_exists,
        !env.public_exists,
        env.repo_exists,
    ensures
        run_spec(env, s).prompts == Seq::<InitPrompt>::empty(),
        run_spec(env, s).git_calls == Seq::<GitCmdSpec>::empty(),
        run_spec(env, s).keygen_run,
        s.keygen_ok ==> run_spec(env, s).install_run,
{
    reveal_with_fuel(run_from, 6);
}

/// Law: starting from nothing, with the repository initialization and the
/// rebase retry confirmed, a non-empty remote URL, and step results that
/// fail exactly the first push, bootstrap executes exactly this sequence:
/// init, branch rename, initial commit, remote add, push (rejected),
/// pull with rebase, push again — and ends pushed after rebase.
pub proof fn lemma_bootstrap_push_retry(env: InitEnv, s: InitScriptSpec)
    requires
        !env.secret_exists,
        !env.public_exists,
        !env.repo_exists,
        s.keygen_ok,
        s.install_ok,
        s.confirm_init,
        s.confirm_rebase,
        trim_chars(s.remote_url).len() > 0,
        git_at(s, 0) == GitOutcome::Exit(true),
        git_at(s, 1) == GitOutcome::Exit(true),
        git_at(s, 2) == GitOutcome::Exit(true),
        git_at(s, 3) == GitOutcome::Exit(true),
        git_at(s, 4) == GitOutcome::Exit(false),
        git_at(s, 5) == GitOutcome::Exit(true),
        git_at(s, 6) == GitOutcome::Exit(true),
    ensures
        run_spec(env, s).git_calls == seq![
            GitCmdSpec::Init,
            GitCmdSpec::BranchMain,
            GitCmdSpec::InitialCommit,
            GitCmdSpec::RemoteAdd(trim_chars(s.remote_url)),
            GitCmdSpec::PushUpstream,
            GitCmdSpec::PullRebaseMain,
            GitCmdSpec::PushUpstream,
        ],
        run_spec(env, s).repo_state == RemoteBootstrapState::PushedAfterRebase,
        run_spec(env, s).outcome == Ok::<(), InitError>(()),
{
    reveal_with_fuel(run_from, 15);
    assert(run_spec(env, s).git_calls =~= seq![
        GitCmdSpec::Init,
        GitCmdSpec::BranchMain,
        GitCmdSpec::InitialCommit,
        GitCmdSpec::RemoteAdd(trim_chars(s.remote_url)),
        GitCmdSpec::PushUpstream,
        GitCmdSpec::PullRebaseMain,
        GitCmdSpec::PushUpstream,
    ]);
}

} // verus!
