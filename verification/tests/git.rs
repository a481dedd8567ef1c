use borink::git::{
    CommitHashBuf,
    is_hexadecimal, parse_url_name, process_subpath, store_address, store_repo_path, CommitHash,
    GitAddress, GitError, GitRelativePath, GitRepositoryUrl,
};
use borink::git_call::{
    clone_args, commit_exists_outcome, git_output, ls_remote_args, parse_ls_remote,
    sparse_checkout_args,
};
use borink::git_ref::{git_ref_key, memory_ref_store, GitRefStore};
use borink::process::ProcessError;
use borink::error::ErrorContext;

const COMMIT: &str = "0123456789abcdef0123456789abcdef01234567";

#[test]
fn hexadecimal_texts() {
    assert!(is_hexadecimal("09afAF"));
    assert!(is_hexadecimal(""));
    assert!(!is_hexadecimal("0x12"));
    assert!(!is_hexadecimal("g"));
}

#[test]
fn commit_hash_checks() {
    assert_eq!(CommitHash::try_from_str(COMMIT).unwrap().as_str(), COMMIT);
    let err = CommitHash::try_from_str("main").unwrap_err();
    assert_eq!(
        *err.0 .0,
        "main is not hexadecimal and not length 40, invalid commit hash"
    );
    assert!(CommitHash::try_from_str(&COMMIT[..39]).is_err());
    assert!(CommitHash::try_from_str(&format!("{}g", &COMMIT[..39])).is_err());
}

#[test]
fn invalid_commit_is_an_invalid_pattern() {
    let err: GitError = CommitHash::try_from_str("v1.0").unwrap_err().into();
    match err {
        GitError::InvalidPattern(c) => assert_eq!(
            *c.0,
            "v1.0 is not hexadecimal and not length 40, invalid commit hash"
        ),
        other => panic!("unexpected error {:?}", other),
    }
}

#[test]
fn url_names() {
    assert_eq!(parse_url_name("https://github.com/user/repo.git").unwrap(), "repo");
    assert_eq!(parse_url_name("https://github.com/user/repo/").unwrap(), "repo");
    assert_eq!(parse_url_name("a.b.c").unwrap(), "a");
    assert_eq!(parse_url_name("").unwrap(), "");
}

#[test]
fn store_paths_are_hex() {
    let url = GitRepositoryUrl("https://example.com/repo");
    let sub = GitRelativePath("docs");
    let p = store_repo_path(&url, &sub);
    assert_eq!(p.0.len(), 24);
    assert!(is_hexadecimal(&p.0));
    assert_eq!(store_repo_path(&url, &sub).0, p.0);
    assert_ne!(store_repo_path(&url, &GitRelativePath("other")).0, p.0);

    let address = GitAddress::new_unchecked("https://example.com/repo", "docs", COMMIT);
    let a = store_address(&address);
    assert_eq!(a.as_str().len(), 64);
    assert!(is_hexadecimal(a.as_str()));
    // The SHA-256 of the url "a", commit "b" and subpath "c", each of the first two after
    // its length as 8 little-endian bytes.
    let abc = GitAddress::new_unchecked("a", "c", "b");
    assert_eq!(
        store_address(&abc).as_str(),
        "7e52258662a960f2daec5d38d3547c91023528e7398abe99c0aa6710e61f854d"
    );
}

#[test]
fn store_addresses_keep_parts_apart() {
    let commit = "a".repeat(40);
    let first = GitAddress::new_unchecked("u", "a", &commit);
    let second = GitAddress::new_unchecked("ua", "", &commit);
    assert_ne!(store_address(&first).as_str(), store_address(&second).as_str());
    let again = GitAddress::new_unchecked("u", "a", &commit);
    assert_eq!(store_address(&first).as_str(), store_address(&again).as_str());
}

#[test]
fn subpaths_are_normalized() {
    assert_eq!(process_subpath("a/../b").unwrap().0, "b");
    assert_eq!(process_subpath("./a/b/").unwrap().0, "a/b");
    match process_subpath("../x") {
        Err(GitError::InvalidPath(c)) => assert_eq!(*c.0, "../x"),
        _ => panic!("a path that goes up must be refused"),
    }
}

#[test]
fn ls_remote_output_is_parsed_sorted_and_peeled() {
    let out = "ddd\trefs/remotes/origin/x\nccc\trefs/tags/v1^{}\nbbb\trefs/tags/v1\naaa\trefs/heads/main\n";
    let refs = parse_ls_remote(out).unwrap();
    let refs: Vec<(String, String)> = refs.into_iter().map(|(r, c)| (r, c.0)).collect();
    assert_eq!(
        refs,
        vec![
            ("refs/heads/main".to_owned(), "aaa".to_owned()),
            ("refs/tags/v1".to_owned(), "ccc".to_owned()),
        ]
    );
}

#[test]
fn tags_that_prefix_each_other_get_their_own_peeled_commits() {
    let out = "t1\trefs/tags/v1\nc1\trefs/tags/v1^{}\nt10\trefs/tags/v1.0\nc10\trefs/tags/v1.0^{}\n\
               t2\trefs/tags/v10\nc2\trefs/tags/v10^{}\nh\trefs/heads/main\n";
    let refs = parse_ls_remote(out).unwrap();
    let refs: Vec<(String, String)> = refs.into_iter().map(|(r, c)| (r, c.0)).collect();
    assert_eq!(
        refs,
        vec![
            ("refs/heads/main".to_owned(), "h".to_owned()),
            ("refs/tags/v1".to_owned(), "c1".to_owned()),
            ("refs/tags/v1.0".to_owned(), "c10".to_owned()),
            ("refs/tags/v10".to_owned(), "c2".to_owned()),
        ]
    );
    assert!(parse_ls_remote("").unwrap().is_empty());
    assert!(matches!(parse_ls_remote("abc\n"), Err(GitError::Failed(_))));
}

#[test]
fn ls_remote_empty_and_invalid() {
    assert!(parse_ls_remote("  \n").unwrap().is_empty());
    match parse_ls_remote("abc") {
        Err(GitError::Failed(c)) => assert_eq!(*c.0, "ls-remote returned invalid result: abc"),
        _ => panic!("a line without a ref is invalid"),
    }
    assert!(parse_ls_remote("a b c").is_err());
}

#[test]
fn git_arguments() {
    assert_eq!(
        clone_args("https://x/r", "dir"),
        vec!["clone", "--filter=tree:0", "--sparse", "--no-checkout", "https://x/r", "dir"]
    );
    assert_eq!(sparse_checkout_args(None), vec!["sparse-checkout", "disable"]);
    assert_eq!(sparse_checkout_args(Some("")), vec!["sparse-checkout", "disable"]);
    assert_eq!(
        sparse_checkout_args(Some("docs")),
        vec!["sparse-checkout", "set", "--cone", "--sparse-index", "--end-of-options", "docs"]
    );
    assert_eq!(ls_remote_args(None, None), vec!["ls-remote", "origin"]);
    assert_eq!(ls_remote_args(Some("up"), Some("v*")), vec!["ls-remote", "up", "v*"]);
}

#[test]
fn git_outcomes() {
    assert_eq!(git_output(Ok((true, "out".to_owned())), "op").unwrap(), "out");
    match git_output(Ok((false, "bad".to_owned())), "op") {
        Err(GitError::Failed(c)) => assert_eq!(*c.0, "bad"),
        _ => panic!("a failed run is a failure"),
    }
    let io = ProcessError::Decode(ErrorContext::new("x".to_owned()));
    match git_output(Err(io), "fetch") {
        Err(GitError::Process(c)) => assert_eq!(c.0 .0, "Git operation fetch failed."),
        _ => panic!("a run that could not start is a process error"),
    }
    assert!(commit_exists_outcome(Ok(String::new())).unwrap());
    assert!(!commit_exists_outcome(Err(GitError::Failed(ErrorContext::new(String::new())))).unwrap());
    assert!(commit_exists_outcome(Err(GitError::ParseURL(ErrorContext::new(String::new())))).is_err());
}

#[test]
fn ref_store_reads_back() {
    let mut store = memory_ref_store();
    assert!(GitRefStore::get(&store, "url", "main").unwrap().is_none());
    GitRefStore::insert(&mut store, "url", "main", CommitHash(COMMIT)).unwrap();
    assert_eq!(GitRefStore::get(&store, "url", "main").unwrap().unwrap().as_str(), COMMIT);
    assert!(GitRefStore::get(&store, "url", "dev").unwrap().is_none());
    assert!(GitRefStore::get(&store, "other", "main").unwrap().is_none());
    assert_eq!(git_ref_key("u", "r"), "borink-git-ref:u:r");
}

#[test]
fn try_out_papaya() {
    let mut db = borink::git_ref::ConcurrentMap::new();

    let repo = "some_repo";
    let git_ref = "my_ref";
    let commit = CommitHash::from_str_unchecked("my_hash");

    GitRefStore::insert(&mut db, repo, git_ref, commit).unwrap();

    println!("inserted!");

    let c = GitRefStore::get(&db, repo, git_ref).unwrap().unwrap();

    assert_eq!(commit.as_str(), c.as_str());
    assert!(GitRefStore::get(&db, repo, "other").unwrap().is_none());
}

#[test]
fn commit_hash_texts_are_kept() {
    let s = COMMIT.to_owned();
    let buf = CommitHashBuf::from_string_unchecked(s.clone());
    assert_eq!(buf.as_str(), s);
    assert_eq!(buf.as_bytes(), s.as_bytes());
    assert_eq!(buf.borrow().as_str(), s);
    assert_eq!(CommitHash::from_str_unchecked(&s).to_owned().as_str(), s);
}
