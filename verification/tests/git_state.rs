use borink::git::GitError;
use borink::git::GitRelativePathBuf;
use borink::git_state::{
    address_metadata, commit_check_step, drive_exclusive, drive_local, local_question, loop_step,
    repo_metadata, CommitCheck, ExclusiveOutcome, FinalResolved, GetOptions, GitState,
    LocalAnswer, LocalQuestion, LoopStep, StateHandler,
};

fn repo_answer(exists: bool) -> LocalAnswer {
    LocalAnswer::Repo {
        store_repo_path: GitRelativePathBuf("0123abcd".to_owned()),
        store_repo_dir: "store/0123abcd".to_owned(),
        exists,
    }
}

fn address_answer(exists: bool) -> LocalAnswer {
    LocalAnswer::Address { target_dir_subpath: "store/c/addr/docs".to_owned(), exists }
}

#[test]
fn existing_address_resolves_locally() {
    let state = GitState::Start {};
    assert_eq!(local_question(&state), LocalQuestion::Nothing);
    let state = drive_local(state, LocalAnswer::Nothing, false);
    assert!(matches!(state, GitState::RequestRepo {}));
    assert_eq!(local_question(&state), LocalQuestion::RepoDir);
    let state = drive_local(state, repo_answer(true), false);
    assert!(matches!(&state, GitState::RepoExists { store_repo_dir } if store_repo_dir == "store/0123abcd"));
    let state = drive_local(state, LocalAnswer::Nothing, false);
    assert_eq!(local_question(&state), LocalQuestion::AddressDir);
    let state = drive_local(state, address_answer(true), false);
    match loop_step(state, false) {
        LoopStep::Done(FinalResolved::Path(p)) => assert_eq!(p, "store/c/addr/docs"),
        _ => panic!("an existing address resolves to its path"),
    }
}

#[test]
fn absent_repo_needs_exclusive_step() {
    let state = drive_local(GitState::RequestRepo {}, repo_answer(false), false);
    let state = drive_local(state, LocalAnswer::Nothing, false);
    assert!(matches!(state, GitState::CreateRepo { .. }));
    assert_eq!(state.handler(), StateHandler::Exclusive);
    match loop_step(state, false) {
        LoopStep::Refused(GitError::NotAllowed(c)) => {
            assert_eq!(
                *c.0,
                "exclusive operation with current state CreateRepo { store_repo_path: \
                 GitRelativePathBuf(\"0123abcd\"), store_repo_dir: \"store/0123abcd\" } not allowed"
            )
        },
        _ => panic!("a read-only store refuses to clone"),
    }
    let state = drive_local(GitState::RequestRepo {}, repo_answer(false), false);
    let state = drive_local(state, LocalAnswer::Nothing, false);
    let state = match loop_step(state, true) {
        LoopStep::Exclusive(s) => s,
        _ => panic!("a mutable store clones"),
    };
    let state = drive_exclusive(state, ExclusiveOutcome::RepoCloned);
    assert!(matches!(state, GitState::RepoExists { .. }));
}

#[test]
fn absent_address_is_created_or_absent() {
    let state = drive_local(GitState::RequestAddress { store_repo_dir: "r".to_owned() }, address_answer(false), false);
    assert!(matches!(state, GitState::AddressAbsent { .. }));
    let state = drive_local(state, LocalAnswer::Nothing, false);
    assert!(matches!(state, GitState::CreateAddress { .. }));
    let created = drive_exclusive(state, ExclusiveOutcome::AddressCreated("p".to_owned()));
    assert!(matches!(created.unwrap_resolved(), FinalResolved::Path(p) if p == "p"));
    let state = GitState::CreateAddress { store_repo_dir: "r".to_owned() };
    let absent = drive_exclusive(state, ExclusiveOutcome::CommitAbsent);
    assert!(matches!(absent.unwrap_resolved(), FinalResolved::Absent));
}

#[test]
fn commit_checks() {
    assert_eq!(commit_check_step(true, false), CommitCheck::Present);
    assert_eq!(commit_check_step(true, true), CommitCheck::Present);
    assert_eq!(commit_check_step(false, false), CommitCheck::Fetch);
    assert_eq!(commit_check_step(false, true), CommitCheck::Absent);
}

#[test]
fn metadata_texts() {
    assert_eq!(repo_metadata("https://x/r", "docs"), "url:https://x/r\nsubpath:docs");
    assert_eq!(
        address_metadata("abc", "https://x/r", "a\"b"),
        "commit:abc\nrepo:\"https://x/r\"\npath:\"a\\\"b\""
    );
}

#[test]
fn get_options() {
    let o = GetOptions::with_store_dir_mutate("./store", true);
    assert!(o.mutate_store && !o.verify_integrity);
    assert_eq!(o.store_dir, "./store");
    let o = GetOptions::new("s", false, true);
    assert!(!o.mutate_store && o.verify_integrity);
    assert_eq!(GitState::Start {}.debug_text(), "Start");
}

#[test]
fn state_debug_texts() {
    let states = vec![
        GitState::Start {},
        GitState::RequestRepo {},
        GitState::RepoExists { store_repo_dir: "a \"b\"".to_owned() },
        GitState::RepoAbsent {
            store_repo_path: GitRelativePathBuf("p".to_owned()),
            store_repo_dir: "d".to_owned(),
        },
        GitState::RequestAddress { store_repo_dir: "d".to_owned() },
        GitState::AddressAbsent { store_repo_dir: "d".to_owned() },
        GitState::CreateRepo {
            store_repo_path: GitRelativePathBuf("p".to_owned()),
            store_repo_dir: "d\n".to_owned(),
        },
        GitState::CreateAddress { store_repo_dir: "d".to_owned() },
        GitState::Resolved(FinalResolved::Path("x/y".to_owned())),
        GitState::Resolved(FinalResolved::Absent),
    ];
    for state in states {
        assert_eq!(state.debug_text(), format!("{:?}", state));
    }
}

#[test]
fn answers_report_existence() {
    assert!(!LocalAnswer::Nothing.reports_existing());
    assert!(repo_answer(true).reports_existing());
    assert!(!repo_answer(false).reports_existing());
    assert!(address_answer(true).reports_existing());
    assert!(!address_answer(false).reports_existing());
}
