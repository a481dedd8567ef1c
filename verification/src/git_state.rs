use vstd::prelude::*;

use crate::error::string_context;
use crate::git::{GitError, GitRelativePathBuf};

verus! {

/// Where resolving a Git address ended: the directory that holds the address, or the
/// knowledge that the commit does not exist, not even on the remote.
#[derive(Debug)]
pub enum FinalResolved {
    Path(String),
    Absent,
}

/// The states of resolving a Git address to a directory of the store.
///
/// The local states only look at the store; the exclusive states (`CreateRepo`,
/// `CreateAddress`) change it, and may only be entered by a caller that is allowed to
/// mutate the store.
#[derive(Debug)]
pub enum GitState {
    Start {},
    RequestRepo {},
    RepoExists { store_repo_dir: String },
    RepoAbsent { store_repo_path: GitRelativePathBuf, store_repo_dir: String },
    RequestAddress { store_repo_dir: String },
    AddressAbsent { store_repo_dir: String },
    CreateRepo { store_repo_path: GitRelativePathBuf, store_repo_dir: String },
    CreateAddress { store_repo_dir: String },
    Resolved(FinalResolved),
}

/// Who handles a state: a local step, an exclusive step, or nobody (it is resolved).
#[derive(Debug, PartialEq, Eq, Structural)]
pub enum StateHandler {
    Local,
    Exclusive,
    Resolved,
}

/// The handler of a state.
pub open spec fn handler_of(s: GitState) -> StateHandler {
    match s {
        GitState::CreateRepo { .. } | GitState::CreateAddress { .. } => StateHandler::Exclusive,
        GitState::Resolved(_) => StateHandler::Resolved,
        _ => StateHandler::Local,
    }
}

/// How many steps a state is at most away from being resolved.
pub open spec fn rank(s: GitState) -> nat {
    match s {
        GitState::Start {} => 8,
        GitState::RequestRepo {} => 7,
        GitState::RepoAbsent { .. } => 6,
        GitState::CreateRepo { .. } => 5,
        GitState::RepoExists { .. } => 4,
        GitState::RequestAddress { .. } => 3,
        GitState::AddressAbsent { .. } => 2,
        GitState::CreateAddress { .. } => 1,
        GitState::Resolved(_) => 0,
    }
}

/// `Name { field: value }` as `{:?}` writes a variant with one text field.
pub open spec fn field_debug(name: Seq<char>, field: Seq<char>, value: Seq<char>) -> Seq<char> {
    name + " { "@ + field + ": "@ + str_debug(value) + " }"@
}

/// What `{:?}` writes for a state holding a stored repository's path and directory.
pub open spec fn path_dir_debug(name: Seq<char>, path: Seq<char>, dir: Seq<char>) -> Seq<char> {
    name + " { store_repo_path: GitRelativePathBuf("@ + str_debug(path) + "), store_repo_dir: "@
        + str_debug(dir) + " }"@
}

/// What `{:?}` writes for a state.
pub open spec fn state_debug(s: GitState) -> Seq<char> {
    match s {
        GitState::Start {} => "Start"@,
        GitState::RequestRepo {} => "RequestRepo"@,
        GitState::RepoExists { store_repo_dir } => field_debug(
            "RepoExists"@,
            "store_repo_dir"@,
            store_repo_dir@,
        ),
        GitState::RepoAbsent { store_repo_path, store_repo_dir } => path_dir_debug(
            "RepoAbsent"@,
            store_repo_path.0@,
            store_repo_dir@,
        ),
        GitState::RequestAddress { store_repo_dir } => field_debug(
            "RequestAddress"@,
            "store_repo_dir"@,
            store_repo_dir@,
        ),
        GitState::AddressAbsent { store_repo_dir } => field_debug(
            "AddressAbsent"@,
            "store_repo_dir"@,
            store_repo_dir@,
        ),
        GitState::CreateRepo { store_repo_path, store_repo_dir } => path_dir_debug(
            "CreateRepo"@,
            store_repo_path.0@,
            store_repo_dir@,
        ),
        GitState::CreateAddress { store_repo_dir } => field_debug(
            "CreateAddress"@,
            "store_repo_dir"@,
            store_repo_dir@,
        ),
        GitState::Resolved(FinalResolved::Path(p)) => "Resolved(Path("@ + str_debug(p@) + "))"@,
        GitState::Resolved(FinalResolved::Absent) => "Resolved(Absent)"@,
    }
}

impl GitState {
    pub fn handler(&self) -> (h: StateHandler)
        ensures
            h == handler_of(*self),
    {
        match self {
            GitState::CreateRepo { .. } | GitState::CreateAddress { .. } => StateHandler::Exclusive,
            GitState::Start { .. }
            | GitState::RequestRepo { .. }
            | GitState::RepoExists { .. }
            | GitState::RepoAbsent { .. }
            | GitState::RequestAddress { .. }
            | GitState::AddressAbsent { .. } => StateHandler::Local,
            GitState::Resolved(_) => StateHandler::Resolved,
        }
    }

    pub fn unwrap_resolved(self) -> (r: FinalResolved)
        requires
            self is Resolved,
        ensures
            self == GitState::Resolved(r),
    {
        match self {
            GitState::Resolved(resolved) => resolved,
            _ => {
                proof {
                    assert(false);
                }
                FinalResolved::Absent
            },
        }
    }

    /// What `{:?}` writes for the state.
    pub fn debug_text(&self) -> (t: String)
        ensures
            t@ == state_debug(*self),
    {
        match self {
            GitState::Start {} => String::from_str("Start"),
            GitState::RequestRepo {} => String::from_str("RequestRepo"),
            GitState::RepoExists { store_repo_dir } => field_debug_text(
                "RepoExists",
                "store_repo_dir",
                store_repo_dir.as_str(),
            ),
            GitState::RepoAbsent { store_repo_path, store_repo_dir } => path_dir_debug_text(
                "RepoAbsent",
                store_repo_path.0.as_str(),
                store_repo_dir.as_str(),
            ),
            GitState::RequestAddress { store_repo_dir } => field_debug_text(
                "RequestAddress",
                "store_repo_dir",
                store_repo_dir.as_str(),
            ),
            GitState::AddressAbsent { store_repo_dir } => field_debug_text(
                "AddressAbsent",
                "store_repo_dir",
                store_repo_dir.as_str(),
            ),
            GitState::CreateRepo { store_repo_path, store_repo_dir } => path_dir_debug_text(
                "CreateRepo",
                store_repo_path.0.as_str(),
                store_repo_dir.as_str(),
            ),
            GitState::CreateAddress { store_repo_dir } => field_debug_text(
                "CreateAddress",
                "store_repo_dir",
                store_repo_dir.as_str(),
            ),
            GitState::Resolved(FinalResolved::Path(p)) => {
                let mut t = String::from_str("Resolved(Path(");
                let d = debug_str(p.as_str());
                t.append(d.as_str());
                t.append("))");
                t
            },
            GitState::Resolved(FinalResolved::Absent) => String::from_str("Resolved(Absent)"),
        }
    }
}

fn field_debug_text(name: &str, field: &str, value: &str) -> (t: String)
    ensures
        t@ == field_debug(name@, field@, value@),
{
    let mut t = String::from_str(name);
    t.append(" { ");
    t.append(field);
    t.append(": ");
    let d = debug_str(value);
    t.append(d.as_str());
    t.append(" }");
    t
}

fn path_dir_debug_text(name: &str, path: &str, dir: &str) -> (t: String)
    ensures
        t@ == path_dir_debug(name@, path@, dir@),
{
    let mut t = String::from_str(name);
    t.append(" { store_repo_path: GitRelativePathBuf(");
    let p = debug_str(path);
    t.append(p.as_str());
    t.append("), store_repo_dir: ");
    let d = debug_str(dir);
    t.append(d.as_str());
    t.append(" }");
    t
}

/// What a local state needs to know about the store before it can move on.
#[derive(Debug, PartialEq, Eq, Structural)]
pub enum LocalQuestion {
    /// Nothing: the step is decided by the state alone.
    Nothing,
    /// Whether the directory of the repository exists in the store.
    RepoDir,
    /// Whether the directory of the address exists in the store.
    AddressDir,
}

/// The answer to a local question: for the repository, its directory (relative to the
/// store and joined to it) and whether it exists; for the address, the directory of the
/// subpath inside it and whether the address exists.
#[derive(Debug)]
pub enum LocalAnswer {
    Nothing,
    Repo { store_repo_path: GitRelativePathBuf, store_repo_dir: String, exists: bool },
    Address { target_dir_subpath: String, exists: bool },
}

/// The question a local state asks.
pub open spec fn question_of(s: GitState) -> LocalQuestion {
    match s {
        GitState::RequestRepo {} => LocalQuestion::RepoDir,
        GitState::RequestAddress { .. } => LocalQuestion::AddressDir,
        _ => LocalQuestion::Nothing,
    }
}

/// Whether an answer is one to the question that a state asks.
pub open spec fn answers(s: GitState, a: LocalAnswer) -> bool {
    match question_of(s) {
        LocalQuestion::Nothing => a is Nothing,
        LocalQuestion::RepoDir => a is Repo,
        LocalQuestion::AddressDir => a is Address,
    }
}

/// Whether an answer reports that something already exists (which, with integrity
/// verification asked for, would have to be verified).
pub open spec fn answer_exists(a: LocalAnswer) -> bool {
    match a {
        LocalAnswer::Nothing => false,
        LocalAnswer::Repo { exists, .. } => exists,
        LocalAnswer::Address { exists, .. } => exists,
    }
}

impl LocalAnswer {
    /// Whether the answer reports something that already exists.
    pub fn reports_existing(&self) -> (b: bool)
        ensures
            b == answer_exists(*self),
    {
        match self {
            LocalAnswer::Nothing => false,
            LocalAnswer::Repo { exists, .. } => *exists,
            LocalAnswer::Address { exists, .. } => *exists,
        }
    }
}

/// The state after a local step.
pub open spec fn local_next(s: GitState, a: LocalAnswer) -> GitState {
    match s {
        GitState::Start {} => GitState::RequestRepo {},
        GitState::RequestRepo {} => match a {
            LocalAnswer::Repo { store_repo_path, store_repo_dir, exists } => if exists {
                GitState::RepoExists { store_repo_dir }
            } else {
                GitState::RepoAbsent { store_repo_path, store_repo_dir }
            },
            _ => s,
        },
        GitState::RepoExists { store_repo_dir } => GitState::RequestAddress { store_repo_dir },
        GitState::RepoAbsent { store_repo_path, store_repo_dir } => GitState::CreateRepo {
            store_repo_path,
            store_repo_dir,
        },
        GitState::RequestAddress { store_repo_dir } => match a {
            LocalAnswer::Address { target_dir_subpath, exists } => if exists {
                GitState::Resolved(FinalResolved::Path(target_dir_subpath))
            } else {
                GitState::AddressAbsent { store_repo_dir }
            },
            _ => s,
        },
        GitState::AddressAbsent { store_repo_dir } => GitState::CreateAddress { store_repo_dir },
        _ => s,
    }
}

/// The question that a local state asks before it can take its step.
pub fn local_question(state: &GitState) -> (q: LocalQuestion)
    ensures
        q == question_of(*state),
{
    match state {
        GitState::RequestRepo {} => LocalQuestion::RepoDir,
        GitState::RequestAddress { .. } => LocalQuestion::AddressDir,
        _ => LocalQuestion::Nothing,
    }
}

/// One local step: from the start to asking for the repository; from the repository's
/// existence to asking for the address or to creating the repository; from the address's
/// existence to its directory or to creating it. Every step brings the state closer to
/// being resolved.
pub fn drive_local(git_state: GitState, answer: LocalAnswer, verify_integrity: bool) -> (next: GitState)
    requires
        handler_of(git_state) == StateHandler::Local,
        answers(git_state, answer),
        !(verify_integrity && answer_exists(answer)),
    ensures
        next == local_next(git_state, answer),
        rank(next) < rank(git_state),
{
    match git_state {
        GitState::Start {} => GitState::RequestRepo {},
        GitState::RequestRepo {} => match answer {
            LocalAnswer::Repo { store_repo_path, store_repo_dir, exists } => {
                if exists {
                    GitState::RepoExists { store_repo_dir }
                } else {
                    GitState::RepoAbsent { store_repo_path, store_repo_dir }
                }
            },
            _ => {
                proof {
                    assert(false);
                }
                GitState::RequestRepo {}
            },
        },
        GitState::RepoExists { store_repo_dir } => GitState::RequestAddress { store_repo_dir },
        GitState::RepoAbsent { store_repo_path, store_repo_dir } => GitState::CreateRepo {
            store_repo_path,
            store_repo_dir,
        },
        GitState::RequestAddress { store_repo_dir } => match answer {
            LocalAnswer::Address { target_dir_subpath, exists } => {
                if exists {
                    GitState::Resolved(FinalResolved::Path(target_dir_subpath))
                } else {
                    GitState::AddressAbsent { store_repo_dir }
                }
            },
            _ => {
                proof {
                    assert(false);
                }
                GitState::RequestAddress { store_repo_dir }
            },
        },
        GitState::AddressAbsent { store_repo_dir } => GitState::CreateAddress { store_repo_dir },
        _ => {
            proof {
                assert(false);
            }
            git_state
        },
    }
}

/// What an exclusive step achieved: the repository was cloned; the commit was checked out
/// into the address's directory (the directory of the subpath inside it); or the commit
/// exists nowhere, not even after a fetch.
#[derive(Debug)]
pub enum ExclusiveOutcome {
    RepoCloned,
    AddressCreated(String),
    CommitAbsent,
}

/// Whether an outcome is one of the exclusive step of a state.
pub open spec fn outcome_of(s: GitState, o: ExclusiveOutcome) -> bool {
    match s {
        GitState::CreateRepo { .. } => o is RepoCloned,
        GitState::CreateAddress { .. } => !(o is RepoCloned),
        _ => false,
    }
}

/// The state after an exclusive step.
pub open spec fn exclusive_next(s: GitState, o: ExclusiveOutcome) -> GitState {
    match s {
        GitState::CreateRepo { store_repo_dir, .. } => GitState::RepoExists { store_repo_dir },
        GitState::CreateAddress { .. } => match o {
            ExclusiveOutcome::AddressCreated(path) => GitState::Resolved(FinalResolved::Path(path)),
            _ => GitState::Resolved(FinalResolved::Absent),
        },
        _ => s,
    }
}

/// One exclusive step: a cloned repository exists; a created address resolves to its
/// directory, and a commit that exists nowhere resolves to `Absent`.
pub fn drive_exclusive(git_state: GitState, outcome: ExclusiveOutcome) -> (next: GitState)
    requires
        outcome_of(git_state, outcome),
    ensures
        next == exclusive_next(git_state, outcome),
        rank(next) < rank(git_state),
{
    match git_state {
        GitState::CreateRepo { store_repo_path, store_repo_dir } => GitState::RepoExists {
            store_repo_dir,
        },
        GitState::CreateAddress { store_repo_dir } => match outcome {
            ExclusiveOutcome::AddressCreated(path) => GitState::Resolved(FinalResolved::Path(path)),
            _ => GitState::Resolved(FinalResolved::Absent),
        },
        _ => {
            proof {
                assert(false);
            }
            git_state
        },
    }
}

/// What the resolving loop does next with a state.
#[derive(Debug)]
pub enum LoopStep {
    /// Take a local step.
    Local(GitState),
    /// Take an exclusive step.
    Exclusive(GitState),
    /// Stop: the state is resolved.
    Done(FinalResolved),
    /// Stop: the state needs an exclusive step that is not allowed.
    Refused(GitError),
}

/// The decision of the resolving loop: local states take a local step; exclusive states
/// take an exclusive step only where mutating the store is allowed, and are refused with
/// `NotAllowed` otherwise; a resolved state ends the loop.
pub fn loop_step(state: GitState, allow_exclusive: bool) -> (step: LoopStep)
    ensures
        match handler_of(state) {
            StateHandler::Local => step == LoopStep::Local(state),
            StateHandler::Exclusive => if allow_exclusive {
                step == LoopStep::Exclusive(state)
            } else {
                step matches LoopStep::Refused(GitError::NotAllowed(c)) && (*c.0)@
                    == "exclusive operation with current state "@ + state_debug(state)
                    + " not allowed"@
            },
            StateHandler::Resolved => state matches GitState::Resolved(r) && step == LoopStep::Done(
                r,
            ),
        },
{
    match state.handler() {
        StateHandler::Local => LoopStep::Local(state),
        StateHandler::Exclusive => {
            if !allow_exclusive {
                let mut message = String::from_str("exclusive operation with current state ");
                let text = state.debug_text();
                message.append(text.as_str());
                message.append(" not allowed");
                return LoopStep::Refused(GitError::NotAllowed(string_context(message)));
            }
            LoopStep::Exclusive(state)
        },
        StateHandler::Resolved => LoopStep::Done(state.unwrap_resolved()),
    }
}

/// The next move in checking that a commit exists before checking it out.
#[derive(Debug, PartialEq, Eq, Structural)]
pub enum CommitCheck {
    /// The commit is there.
    Present,
    /// The commit is not there yet: fetch and look again.
    Fetch,
    /// The commit is not there, not even after a fetch.
    Absent,
}

/// Whether a commit is present, must be fetched, or is absent, from whether it exists
/// and whether the repository was already fetched.
pub fn commit_check_step(exists: bool, fetched: bool) -> (c: CommitCheck)
    ensures
        exists ==> c == CommitCheck::Present,
        !exists && !fetched ==> c == CommitCheck::Fetch,
        !exists && fetched ==> c == CommitCheck::Absent,
{
    if exists {
        CommitCheck::Present
    } else if fetched {
        CommitCheck::Absent
    } else {
        CommitCheck::Fetch
    }
}

/// The metadata written next to a cloned repository.
pub fn repo_metadata(url: &str, subpath: &str) -> (m: String)
    ensures
        m@ == "url:"@ + url@ + "\nsubpath:"@ + subpath@,
{
    let mut m = String::from_str("url:");
    m.append(url);
    m.append("\nsubpath:");
    m.append(subpath);
    m
}

/// What `{:?}` writes for a string: the text in double quotes, with special characters
/// escaped.
pub uninterp spec fn str_debug(s: Seq<char>) -> Seq<char>;

/// `<str as Debug>::fmt`, through `format!("{:?}", ..)`: its result is named `str_debug`.
#[verifier::external_body]
fn debug_str(s: &str) -> (d: String)
    ensures
        d@ == str_debug(s@),
{
    format!("{:?}", s)
}

/// The metadata written into a created address: the commit, and the url and subpath as
/// `{:?}` writes them.
pub fn address_metadata(commit: &str, url: &str, subpath: &str) -> (m: String)
    ensures
        m@ == "commit:"@ + commit@ + "\nrepo:"@ + str_debug(url@) + "\npath:"@ + str_debug(subpath@),
{
    let mut m = String::from_str("commit:");
    m.append(commit);
    m.append("\nrepo:");
    let u = debug_str(url);
    m.append(u.as_str());
    m.append("\npath:");
    let p = debug_str(subpath);
    m.append(p.as_str());
    m
}

/// Options of resolving a Git address: whether stored files are verified (not
/// implemented), whether the store may be mutated (cloned into, fetched, checked out),
/// and the directory of the store.
pub struct GetOptions<'a> {
    pub verify_integrity: bool,
    pub mutate_store: bool,
    pub store_dir: &'a str,
}

impl<'a> GetOptions<'a> {
    pub fn new(store_dir: &'a str, mutate_store: bool, verify_integrity: bool) -> (o: Self)
        ensures
            o.store_dir == store_dir,
            o.mutate_store == mutate_store,
            o.verify_integrity == verify_integrity,
    {
        Self { store_dir, mutate_store, verify_integrity }
    }

    /// Options without integrity verification.
    pub fn with_store_dir_mutate(store_dir: &'a str, mutate_store: bool) -> (o: Self)
        ensures
            o.store_dir == store_dir,
            o.mutate_store == mutate_store,
            !o.verify_integrity,
    {
        Self { verify_integrity: false, mutate_store, store_dir }
    }
}

/// The driver that resolves an address in a single loop of local and exclusive steps.
pub struct SingleLoopDriver;

} // verus!
