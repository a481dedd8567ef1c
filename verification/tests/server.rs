use borink::derive::{DerivedResponse, GitDeriveError};
use borink::error::ErrorContext;
use borink::git::CommitHash;
use borink::git_ref::{memory_ref_store, GitRefStore};
use borink::server::{
    derive_failure, derive_response_outcome, derive_target, equal_ignore_ascii_case,
    parse_headers, parse_url, pattern_from_url, plan_request, request_trusted, response_state,
    DefaultRequestSettings, EarlyResolve, HandleState, HeaderOptions, RequestInitSettings,
    RequestPlan, RequestSettings,
};

const COMMIT: &str = "0123456789abcdef0123456789abcdef01234567";
const OTHER: &str = "fedcba9876543210fedcba9876543210fedcba98";

fn redirect_of(r: Result<String, EarlyResolve>) -> String {
    match r {
        Err(EarlyResolve::Redirect(l)) => l,
        _ => panic!("expected a redirect"),
    }
}

#[test]
fn urls_without_sub_path() {
    assert_eq!(parse_url("/main", "main", None).unwrap(), "main");
    assert_eq!(redirect_of(parse_url("/", "main", None)), "/main");
    assert_eq!(redirect_of(parse_url("", "main", None)), "/main");
    assert_eq!(redirect_of(parse_url("/v1/extra", "main", None)), "/v1");
}

#[test]
fn urls_with_sub_path() {
    assert_eq!(parse_url("/docs/v2", "main", Some("docs")).unwrap(), "v2");
    assert_eq!(redirect_of(parse_url("/docs", "main", Some("docs"))), "/docs/main");
    assert_eq!(redirect_of(parse_url("/docs/", "main", Some("docs"))), "/docs/main");
    assert_eq!(redirect_of(parse_url("/docs/v2/x", "main", Some("docs"))), "/docs/v2");
    assert_eq!(redirect_of(parse_url("/docs/v2/", "main", Some("docs"))), "/docs/main");
    assert_eq!(redirect_of(parse_url("/docs//x", "main", Some("docs"))), "/docs/");
    assert!(matches!(parse_url("/other/v2", "main", Some("docs")), Err(EarlyResolve::NotFound)));
    assert!(matches!(pattern_from_url("/other", "main", Some("docs")), HandleState::NotFound));
    assert!(matches!(pattern_from_url("/v3", "main", None), HandleState::Pattern(p) if p == "v3"));
}

#[test]
fn redirects_lead_to_patterns() {
    for url in ["/", "/a/b/c", "", "/x/"] {
        let location = redirect_of(parse_url(url, "main", None));
        assert!(parse_url(&location, "main", None).is_ok());
    }
    for url in ["/docs", "/docs/", "/docs/a/b"] {
        let location = redirect_of(parse_url(url, "main", Some("docs")));
        assert!(parse_url(&location, "main", Some("docs")).is_ok());
    }
}

#[test]
fn header_options() {
    let headers = [
        ("Typst-Serve-Key", "k1"),
        ("typst-serve-reload", "true"),
        ("TYPST-SERVE-PATTERN-VALUE", COMMIT),
        ("other", "x"),
    ];
    let o = parse_headers(&headers);
    assert_eq!(o.key, Some("k1"));
    assert_eq!(o.pattern_value, Some(COMMIT));
    assert!(o.reload);
    let o = parse_headers(&[("typst-serve-reload", "yes")]);
    assert!(!o.reload && o.key.is_none() && o.pattern_value.is_none());
    assert!(equal_ignore_ascii_case("AbC", "aBc"));
    assert!(!equal_ignore_ascii_case("abc", "abd"));
    assert!(!equal_ignore_ascii_case("abc", "abcd"));
}

#[test]
fn trust() {
    assert!(request_trusted(None, None));
    assert!(request_trusted(Some("x"), None));
    assert!(request_trusted(Some("k"), Some("k")));
    assert!(!request_trusted(Some("x"), Some("k")));
    assert!(!request_trusted(None, Some("k")));
}

#[test]
fn request_plans() {
    let trusted = HeaderOptions { key: Some("k"), pattern_value: Some(COMMIT), reload: true };
    match plan_request("/main", &trusted, Some("k"), "main", None) {
        RequestPlan::Derive { pattern, insert, use_cache } => {
            assert_eq!(pattern, "main");
            assert_eq!(insert.as_deref(), Some(COMMIT));
            assert!(!use_cache);
        },
        _ => panic!("a trusted request derives"),
    }
    match plan_request("/main", &trusted, Some("other"), "main", None) {
        RequestPlan::Derive { insert, use_cache, .. } => {
            assert!(insert.is_none());
            assert!(use_cache);
        },
        _ => panic!("an untrusted request derives without storing"),
    }
    let bad = HeaderOptions { key: None, pattern_value: Some("nothex"), reload: false };
    match plan_request("/main", &bad, None, "main", None) {
        RequestPlan::Answer(HandleState::BadRequest(m)) => assert_eq!(
            m,
            "header value nothex is not a valid full commit hash, must be hexadecimal and length 40!"
        ),
        _ => panic!("a bad pattern value is a bad request"),
    }
    let none = HeaderOptions::default();
    assert!(matches!(
        plan_request("/", &none, None, "main", None),
        RequestPlan::Answer(HandleState::Redirect(l)) if l == "/main"
    ));
}

#[test]
fn derive_targets() {
    let mut store = memory_ref_store();
    GitRefStore::insert(&mut store, "repo", "main", CommitHash(COMMIT)).unwrap();
    let t = derive_target(&store, "repo", "main").unwrap().unwrap();
    assert_eq!(t.commit.as_str(), COMMIT);
    assert!(t.allow_exclusive);
    let t = derive_target(&store, "repo", OTHER).unwrap().unwrap();
    assert_eq!(t.commit.as_str(), OTHER);
    assert!(!t.allow_exclusive);
    assert!(derive_target(&store, "repo", "dev").unwrap().is_none());
}

fn response() -> DerivedResponse {
    DerivedResponse { headers: vec![("a".to_owned(), "b".to_owned())], bytes: vec![1, 2] }
}

#[test]
fn derive_outcomes() {
    assert!(derive_response_outcome(Ok(response())).unwrap().is_some());
    let absent = GitDeriveError::Absent(ErrorContext::new("address is absent".to_owned()));
    assert!(derive_response_outcome(Err(absent)).unwrap().is_none());
    assert!(matches!(response_state(None), HandleState::NotFound));
    assert!(matches!(response_state(Some(response())), HandleState::Response(r) if r.bytes == vec![1, 2]));
    let absent = GitDeriveError::Absent(ErrorContext::new("gone".to_owned()));
    assert!(matches!(derive_failure(absent), Ok(EarlyResolve::BadRequest(m)) if m == "gone"));
    assert_eq!(EarlyResolve::NotFound.status_code(), 404);
    assert_eq!(EarlyResolve::BadRequest(String::new()).status_code(), 400);
    assert_eq!(EarlyResolve::Redirect(String::new()).status_code(), 303);
}

fn init() -> RequestInitSettings<'static> {
    RequestInitSettings {
        repo_url: "repo",
        git_subpath: "docs",
        plugin_name: "plugin",
        default_path: "main",
        subpath: None,
        trust_key: Some("secret"),
    }
}

#[test]
fn request_settings_resolve_commits() {
    let init = init();
    let mut store = memory_ref_store();

    let mut settings = DefaultRequestSettings::new(&init);
    let r = settings.prepare("GET", vec![], &format!("/{}", COMMIT), &mut store).unwrap();
    assert!(r.is_ok());
    assert!(!settings.mutate_store());
    let address = settings.address().unwrap();
    assert_eq!(address.commit_hash.as_str(), COMMIT);
    assert_eq!(address.subpath.as_str(), "docs");

    let mut settings = DefaultRequestSettings::new(&init);
    let r = settings.prepare("GET", vec![], "/main", &mut store).unwrap();
    assert!(matches!(r, Err(EarlyResolve::BadRequest(m)) if m == "Unknown pattern that is not a commit!"));

    let mut settings = DefaultRequestSettings::new(&init);
    let headers = vec![("borink-git-serve-key", "secret"), ("borink-git-pattern-value", OTHER)];
    let r = settings.prepare("GET", headers, "/main", &mut store).unwrap();
    assert!(r.is_ok());
    assert!(settings.mutate_store());
    assert_eq!(GitRefStore::get(&store, "repo", "main").unwrap().unwrap().as_str(), OTHER);

    let mut settings = DefaultRequestSettings::new(&init);
    let r = settings.prepare("GET", vec![("borink-git-no-cache", "1")], "/main", &mut store).unwrap();
    assert!(r.is_ok());
    assert!(settings.mutate_store());
    assert!(!settings.use_cache());
    assert_eq!(settings.address().unwrap().commit_hash.as_str(), OTHER);

    let mut settings = DefaultRequestSettings::new(&init);
    let r = settings.prepare("POST", vec![], "/main", &mut store).unwrap();
    assert!(matches!(r, Err(EarlyResolve::BadRequest(m)) if m == "Invalid method."));
}

#[test]
fn untrusted_pattern_value_is_not_stored() {
    let init = init();
    let mut store = memory_ref_store();
    let mut settings = DefaultRequestSettings::new(&init);
    let headers = vec![("borink-git-serve-key", "wrong"), ("borink-git-pattern-value", OTHER)];
    let r = settings.prepare("GET", headers, "/main", &mut store).unwrap();
    assert!(r.is_err());
    assert!(GitRefStore::get(&store, "repo", "main").unwrap().is_none());
}

#[test]
fn invalid_pattern_value_changes_nothing() {
    let init = init();
    let mut store = memory_ref_store();
    GitRefStore::insert(&mut store, "repo", "main", CommitHash(COMMIT)).unwrap();
    let mut settings = DefaultRequestSettings::new(&init);
    let headers = vec![("borink-git-serve-key", "secret"), ("borink-git-pattern-value", "v1.0")];
    let r = settings.prepare("GET", headers, "/main", &mut store).unwrap();
    assert!(matches!(
        r,
        Err(EarlyResolve::BadRequest(m)) if m == "Provided pattern value is not a valid commit hash!"
    ));
    assert!(!settings.mutate_store());
    assert!(settings.address().is_err());
    assert_eq!(GitRefStore::get(&store, "repo", "main").unwrap().unwrap().as_str(), COMMIT);
}
