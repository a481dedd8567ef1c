use vstd::prelude::*;
use vstd::hash_map::StringHashMap;

use crate::git::{CommitHash, CommitHashBuf};

verus! {

/// The store key of a Git ref of a repository: `borink-git-ref:<url>:<ref>`.
pub open spec fn git_ref_key_of(repo_url: Seq<char>, git_ref: Seq<char>) -> Seq<char> {
    "borink-git-ref:"@ + repo_url + ":"@ + git_ref
}

/// The store key of a Git ref of a repository.
pub fn git_ref_key(repo_url: &str, git_ref: &str) -> (k: String)
    ensures
        k@ == git_ref_key_of(repo_url@, git_ref@),
{
    let mut k = String::from_str("borink-git-ref:");
    k.append(repo_url);
    k.append(":");
    k.append(git_ref);
    k
}

/// A store that translates Git refs (branches, tags, versions) of repositories to the
/// commit hashes they stand for.
pub trait GitRefStore {
    type Error;

    /// The stored translations, by key.
    open spec fn ref_map(&self) -> Map<Seq<char>, Seq<char>> {
        Map::empty()
    }

    /// Whether the store keeps its translations as a map does; stores that do not say so
    /// are promised nothing.
    open spec fn obeys_ref_store() -> bool {
        false
    }

    /// The commit hash stored for the ref, if any.
    fn get(&self, repo_url: &str, git_ref: &str) -> (r: Result<Option<CommitHashBuf>, Self::Error>)
        ensures
            Self::obeys_ref_store() ==> (r matches Ok(o) && match o {
                Some(c) => self.ref_map().contains_key(git_ref_key_of(repo_url@, git_ref@))
                    && c.0@ == self.ref_map()[git_ref_key_of(repo_url@, git_ref@)],
                None => !self.ref_map().contains_key(git_ref_key_of(repo_url@, git_ref@)),
            }),
    ;

    /// Stores the commit hash for the ref.
    fn insert(&mut self, repo_url: &str, git_ref: &str, commit_hash: CommitHash) -> (r: Result<(), Self::Error>)
        ensures
            Self::obeys_ref_store() ==> (r is Ok && final(self).ref_map() == old(self).ref_map().insert(
                git_ref_key_of(repo_url@, git_ref@),
                commit_hash.0@,
            )),
    ;
}

/// The view of a map of commit hashes as texts.
pub open spec fn commit_texts(m: Map<Seq<char>, CommitHashBuf>) -> Map<Seq<char>, Seq<char>> {
    Map::new(|k: Seq<char>| m.contains_key(k), |k: Seq<char>| m[k].0@)
}

impl GitRefStore for StringHashMap<CommitHashBuf> {
    type Error = std::convert::Infallible;

    open spec fn ref_map(&self) -> Map<Seq<char>, Seq<char>> {
        commit_texts(self@)
    }

    open spec fn obeys_ref_store() -> bool {
        true
    }

    fn get(&self, repo_url: &str, git_ref: &str) -> (r: Result<Option<CommitHashBuf>, Self::Error>) {
        let key = git_ref_key(repo_url, git_ref);
        match StringHashMap::get(self, key.as_str()) {
            Some(c) => Ok(Some(CommitHashBuf(c.0.clone()))),
            None => Ok(None),
        }
    }

    fn insert(&mut self, repo_url: &str, git_ref: &str, commit_hash: CommitHash) -> (r: Result<(), Self::Error>) {
        let key = git_ref_key(repo_url, git_ref);
        let ghost old_map = self@;
        StringHashMap::insert(self, key, commit_hash.to_owned());
        proof {
            assert(commit_texts(self@) =~= commit_texts(old_map).insert(
                git_ref_key_of(repo_url@, git_ref@),
                commit_hash.0@,
            ));
        }
        Ok(())
    }
}

/// An empty ref store held in memory.
pub fn memory_ref_store() -> (m: StringHashMap<CommitHashBuf>)
    ensures
        m.ref_map() == Map::<Seq<char>, Seq<char>>::empty(),
{
    let m = StringHashMap::new();
    proof {
        assert(commit_texts(m@) =~= Map::<Seq<char>, Seq<char>>::empty());
    }
    m
}

/// The concurrent hash map of `papaya`.
#[verifier::external_type_specification]
#[verifier::external_body]
#[verifier::reject_recursive_types(K)]
#[verifier::reject_recursive_types(V)]
#[verifier::reject_recursive_types(S)]
pub struct ExPapayaHashMap<K, V, S>(papaya::HashMap<K, V, S>);

/// A `papaya` map from keys to commit hashes.
pub type CommitMap = papaya::HashMap<String, CommitHashBuf>;

/// The commits a `papaya` map holds, by key.
pub uninterp spec fn papaya_commits(m: CommitMap) -> Map<Seq<char>, Seq<char>>;

/// Calls `papaya::HashMap::new`. Claims: the map is empty.
#[verifier::external_body]
fn papaya_new() -> (m: CommitMap)
    ensures
        papaya_commits(m) =~= Map::empty(),
{
    papaya::HashMap::new()
}

/// Calls `insert` on the pinned map. Claims: the key now holds the commit, and no other
/// key changes.
#[verifier::external_body]
fn papaya_insert(m: &mut CommitMap, key: String, value: CommitHashBuf)
    ensures
        papaya_commits(*final(m)) == papaya_commits(*old(m)).insert(key@, value.0@),
{
    m.pin().insert(key, value);
}

/// Calls `get` on the pinned map and copies the commit. Claims: the commit the key holds,
/// or `None` when it holds none.
#[verifier::external_body]
fn papaya_get(m: &CommitMap, key: &str) -> (r: Option<CommitHashBuf>)
    ensures
        r is Some <==> papaya_commits(*m).contains_key(key@),
        r matches Some(c) ==> c.0@ == papaya_commits(*m)[key@],
{
    match m.pin().get(key) {
        Some(c) => Some(CommitHashBuf(c.0.clone())),
        None => None,
    }
}

/// A ref store in a concurrent hash map.
pub struct ConcurrentMap {
    inner: CommitMap,
}

impl ConcurrentMap {
    pub fn new() -> (m: Self)
        ensures
            m.ref_map() == Map::<Seq<char>, Seq<char>>::empty(),
    {
        Self { inner: papaya_new() }
    }
}

impl GitRefStore for ConcurrentMap {
    type Error = std::convert::Infallible;

    closed spec fn ref_map(&self) -> Map<Seq<char>, Seq<char>> {
        papaya_commits(self.inner)
    }

    open spec fn obeys_ref_store() -> bool {
        true
    }

    fn get(&self, repo_url: &str, git_ref: &str) -> (r: Result<Option<CommitHashBuf>, Self::Error>) {
        let key = git_ref_key(repo_url, git_ref);
        Ok(papaya_get(&self.inner, key.as_str()))
    }

    fn insert(&mut self, repo_url: &str, git_ref: &str, commit_hash: CommitHash) -> (r: Result<(), Self::Error>) {
        let key = git_ref_key(repo_url, git_ref);
        papaya_insert(&mut self.inner, key, commit_hash.to_owned());
        Ok(())
    }
}

} // verus!
