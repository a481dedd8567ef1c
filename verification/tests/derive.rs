use borink::derive::{
    cache_key, derived_resource_at, derived_resource_lookup, git_resource_outcome,
    memory_response_cache, pdf_response, typst_outcome, CacheLookup, DeriveError, DerivedResponse,
    GitDeriveError, GitPathResolver, PluginRegistry, ResourceDeriver, ResponseCache,
    ServerSettingsView,
};
use borink::git::{store_address, GitAddress, GitError};
use borink::git_state::FinalResolved;
use borink::error::ErrorContext;

const COMMIT: &str = "0123456789abcdef0123456789abcdef01234567";

struct Echo;

impl ResourceDeriver for Echo {
    fn derive(&self, path: &str) -> Result<DerivedResponse, DeriveError> {
        if path.is_empty() {
            return Err(DeriveError::from_plugin("no path"));
        }
        Ok(DerivedResponse { headers: vec![], bytes: path.as_bytes().to_vec() })
    }
}

#[test]
fn cache_keys() {
    let address = GitAddress::new_unchecked("a", "c", "b");
    let store = store_address(&address);
    assert_eq!(
        cache_key("ctx", &store),
        format!("borink-cache:ctx:{}", store.as_str())
    );
}

#[test]
fn derivation_is_cached() {
    let address = GitAddress::new_unchecked("repo", "docs", COMMIT);
    let mut cache = memory_response_cache();
    assert!(matches!(derived_resource_lookup(&address, "plugin", true, &cache), Ok(CacheLookup::Miss)));
    let response = derived_resource_at(&address, "plugin", "some/path", &mut cache, &Echo).unwrap();
    assert_eq!(response.bytes, b"some/path".to_vec());
    match derived_resource_lookup(&address, "plugin", true, &cache) {
        Ok(CacheLookup::Hit(r)) => assert_eq!(r.bytes, b"some/path".to_vec()),
        _ => panic!("a derived response is cached"),
    }
    assert!(matches!(derived_resource_lookup(&address, "plugin", false, &cache), Ok(CacheLookup::Miss)));
    assert!(matches!(derived_resource_lookup(&address, "other", true, &cache), Ok(CacheLookup::Miss)));
    let store = store_address(&address);
    assert!(ResponseCache::get(&cache, "plugin", &store).unwrap().is_some());
    match derived_resource_at(&address, "plugin2", "", &mut cache, &Echo) {
        Err(GitDeriveError::Derive(DeriveError::PluginError(c))) => assert_eq!(*c.0, "no path"),
        _ => panic!("a failed derivation is passed on"),
    }
    assert!(ResponseCache::get(&cache, "plugin2", &store).unwrap().is_none());
}

/// A resolver that counts its calls and resolves every address to one directory.
struct CountingResolver {
    calls: usize,
}

impl GitPathResolver for CountingResolver {
    fn resolve(
        &mut self,
        _settings: &ServerSettingsView,
        _mutate_store: bool,
        _address: &GitAddress,
    ) -> Result<FinalResolved, GitError> {
        self.calls += 1;
        Ok(FinalResolved::Path("resolved/dir".to_owned()))
    }
}

#[test]
fn deriving_twice_gives_the_cached_response() {
    let mut registry = PluginRegistry::<Echo>::new();
    registry.register("echo", Echo);
    let settings = ServerSettingsView { store_dir: "./store", verify_integrity: false };
    let address = GitAddress::new_unchecked("repo", "docs", COMMIT);
    let mut cache = memory_response_cache();
    let mut resolver = CountingResolver { calls: 0 };

    let first = registry
        .derive_with("echo", &settings, &address, true, false, &mut cache, &mut resolver)
        .unwrap();
    assert_eq!(first.bytes, b"resolved/dir".to_vec());
    assert_eq!(resolver.calls, 1);

    let second = registry
        .derive_with("echo", &settings, &address, true, false, &mut cache, &mut resolver)
        .unwrap();
    assert_eq!(second.bytes, first.bytes);
    assert_eq!(second.headers, first.headers);
    assert_eq!(resolver.calls, 1);

    // Without the cache the files are derived again.
    registry
        .derive_with("echo", &settings, &address, false, false, &mut cache, &mut resolver)
        .unwrap();
    assert_eq!(resolver.calls, 2);

    match registry.derive_with("none", &settings, &address, true, false, &mut cache, &mut resolver) {
        Err(GitDeriveError::Derive(DeriveError::PluginNotFound(c))) => assert_eq!(*c.0, "none"),
        _ => panic!("an unknown plugin is reported"),
    }
}

#[test]
fn plugins_are_found_by_name() {
    let mut registry = PluginRegistry::<Echo>::new();
    assert!(matches!(
        registry.plugin("echo"),
        Err(GitDeriveError::Derive(DeriveError::PluginNotFound(c))) if *c.0 == "echo"
    ));
    registry.register("echo", Echo);
    assert!(registry.plugin("echo").is_ok());
}

#[test]
fn git_resource_outcomes() {
    assert_eq!(git_resource_outcome(Ok(FinalResolved::Path("p".to_owned()))).unwrap(), "p");
    match git_resource_outcome(Ok(FinalResolved::Absent)) {
        Err(GitDeriveError::Absent(c)) => assert_eq!(*c.0, "address is absent"),
        _ => panic!("an absent address is absent"),
    }
    let err = GitError::Failed(ErrorContext::new(String::new()));
    assert!(matches!(git_resource_outcome(Err(err)), Err(GitDeriveError::Git(_))));
}

#[test]
fn typst_outcomes() {
    assert_eq!(typst_outcome(Ok((true, vec![1, 2]))).unwrap(), vec![1, 2]);
    match typst_outcome(Ok((false, b"error: oops \n".to_vec()))) {
        Err(DeriveError::PluginError(c)) => assert_eq!(*c.0, "Failed to compile Typst! error: oops"),
        _ => panic!("a failed compile is a plugin error"),
    }
    match typst_outcome(Ok((false, vec![0xff]))) {
        Err(DeriveError::PluginError(c)) => assert_eq!(
            *c.0,
            "Failed to compile Typst! could not decode stderr as utf-8 string"
        ),
        _ => panic!("undecodable output is reported"),
    }
    match typst_outcome(Err("no such program".to_owned())) {
        Err(DeriveError::PluginError(c)) => assert_eq!(*c.0, "Failed to compile Typst! no such program"),
        _ => panic!("a compiler that cannot run is reported"),
    }
    let r = pdf_response(vec![9]);
    assert_eq!(r.headers, vec![("Content-Type".to_owned(), "application/pdf".to_owned())]);
    assert_eq!(r.bytes, vec![9]);
}
