use vstd::prelude::*;

use crate::derive::{DerivedResponse, GitDeriveError};
use crate::git::{all_hex, is_full_commit, is_hexadecimal, CommitHash, CommitHashBuf, GitAddress};
use crate::git_ref::{git_ref_key_of, GitRefStore};
use crate::text::{parts_view, split_chars, split_on, str_chars, str_equal, string_of};

verus! {

/// A request answered before any derivation.
#[derive(Debug)]
pub enum EarlyResolve {
    NotFound,
    BadRequest(String),
    Redirect(String),
}

impl EarlyResolve {
    pub fn redirect(location: String) -> (e: Self)
        ensures
            e matches EarlyResolve::Redirect(l) && l@ == location@,
    {
        Self::Redirect(location)
    }
}

/// How a request url is routed: to a pattern (kind 0), not found (kind 1) or a redirect
/// (kind 2), with the pattern or the redirect location.
pub open spec fn url_route(url: Seq<char>, default_pattern: Seq<char>, sub_path: Option<Seq<char>>) -> (int, Seq<char>) {
    let parts = split_on(url, '/');
    match sub_path {
        Some(sp) => if parts.len() < 2 || parts[1] != sp {
            (1, Seq::empty())
        } else if parts.len() == 2 || (parts.len() == 3 && parts[2].len() == 0) || (parts.len()
            > 3 && parts[3].len() == 0) {
            (2, "/"@ + sp + "/"@ + default_pattern)
        } else if parts.len() > 3 {
            (2, "/"@ + sp + "/"@ + parts[2])
        } else {
            (0, parts[2])
        },
        None => if parts.len() < 2 || parts[1].len() == 0 {
            (2, "/"@ + default_pattern)
        } else if parts.len() > 2 {
            (2, "/"@ + parts[1])
        } else {
            (0, parts[1])
        },
    }
}

/// Whether an early answer is the given route.
pub open spec fn early_is_route(e: EarlyResolve, route: (int, Seq<char>)) -> bool {
    match e {
        EarlyResolve::NotFound => route.0 == 1,
        EarlyResolve::Redirect(l) => route.0 == 2 && l@ == route.1,
        EarlyResolve::BadRequest(_) => false,
    }
}

/// Routes a request url. With a sub path the expected form is `/<sub_path>/<pattern>`,
/// otherwise `/<pattern>`; a missing pattern redirects to the default one and extra
/// segments redirect to the pattern alone. With a sub path and extra segments, an empty
/// fourth segment (as in `/<sub_path>/<pattern>/`) redirects to the default pattern.
pub fn parse_url(url: &str, default_pattern: &str, sub_path: Option<&str>) -> (r: Result<String, EarlyResolve>)
    ensures
        ({
            let route = url_route(
                url@,
                default_pattern@,
                match sub_path {
                    Some(s) => Some(s@),
                    None => None,
                },
            );
            match r {
                Ok(p) => route.0 == 0 && p@ == route.1,
                Err(e) => early_is_route(e, route),
            }
        }),
{
    let chars = str_chars(url);
    let parts = split_chars(&chars, '/');
    let n = parts.len();
    proof {
        crate::text::lemma_split_on_nonempty(url@, '/');
    }
    match sub_path {
        Some(sub_path) => {
            let matches_sub = n >= 2 && crate::text::chars_equal(&parts[1], sub_path);
            if !matches_sub {
                return Err(EarlyResolve::NotFound);
            }
            if n == 2 || (n == 3 && parts[2].len() == 0) || (n > 3 && parts[3].len() == 0) {
                let mut location = String::from_str("/");
                location.append(sub_path);
                location.append("/");
                location.append(default_pattern);
                return Err(EarlyResolve::redirect(location));
            }
            if n > 3 {
                let mut location = String::from_str("/");
                location.append(sub_path);
                location.append("/");
                let seg = string_of(&parts[2]);
                location.append(seg.as_str());
                return Err(EarlyResolve::redirect(location));
            }
            Ok(string_of(&parts[2]))
        },
        None => {
            if n < 2 || parts[1].len() == 0 {
                let mut location = String::from_str("/");
                location.append(default_pattern);
                return Err(EarlyResolve::redirect(location));
            }
            if n > 2 {
                let mut location = String::from_str("/");
                let seg = string_of(&parts[1]);
                location.append(seg.as_str());
                return Err(EarlyResolve::redirect(location));
            }
            Ok(string_of(&parts[1]))
        },
    }
}

/// Where the handling of a request stands.
pub enum HandleState {
    Pattern(String),
    NotFound,
    BadRequest(String),
    Redirect(String),
    Response(DerivedResponse),
}

impl HandleState {
    pub fn redirect(location: String) -> (s: Self)
        ensures
            s matches HandleState::Redirect(l) && l@ == location@,
    {
        HandleState::Redirect(location)
    }

    /// Whether the state is a finished answer.
    pub fn resolved(&self) -> (b: bool)
        ensures
            b == !(self is Pattern),
    {
        match self {
            HandleState::Pattern(_) => false,
            _ => true,
        }
    }

    pub fn unwrap_pattern(&self) -> (p: &str)
        requires
            self is Pattern,
        ensures
            self matches HandleState::Pattern(q) && p@ == q@,
    {
        match self {
            HandleState::Pattern(pattern) => pattern.as_str(),
            _ => "",
        }
    }
}

/// Routes a request url into a handle state; see [`parse_url`].
pub fn pattern_from_url(url: &str, default_pattern: &str, sub_path: Option<&str>) -> (s: HandleState)
    ensures
        ({
            let route = url_route(
                url@,
                default_pattern@,
                match sub_path {
                    Some(s) => Some(s@),
                    None => None,
                },
            );
            match s {
                HandleState::Pattern(p) => route.0 == 0 && p@ == route.1,
                HandleState::NotFound => route.0 == 1,
                HandleState::Redirect(l) => route.0 == 2 && l@ == route.1,
                _ => false,
            }
        }),
{
    match parse_url(url, default_pattern, sub_path) {
        Ok(p) => HandleState::Pattern(p),
        Err(EarlyResolve::NotFound) => HandleState::NotFound,
        Err(EarlyResolve::Redirect(l)) => HandleState::Redirect(l),
        Err(EarlyResolve::BadRequest(m)) => HandleState::BadRequest(m),
    }
}


/// What the server is set up with.
pub struct ServerConfig<'a> {
    pub hostname: &'a str,
    pub port: u16,
}

/// What each request starts from.
pub struct RequestInitSettings<'a> {
    pub repo_url: &'a str,
    pub git_subpath: &'a str,
    pub plugin_name: &'a str,
    pub default_path: &'a str,
    pub subpath: Option<&'a str>,
    pub trust_key: Option<&'a str>,
}

/// The settings of one request as it is handled: what it started from, what its headers
/// and url said and the commit it resolved to.
pub struct DefaultRequestSettings<'a> {
    pub repo_url: &'a str,
    pub git_subpath: &'a str,
    pub plugin_name: &'a str,
    pub default_path: &'a str,
    pub subpath: Option<&'a str>,
    pub trust_key: Option<&'a str>,
    pub use_cache: bool,
    pub mutate_store: bool,
    pub insert_pattern: Option<String>,
    pub commit: Option<CommitHashBuf>,
    pub pattern: Option<String>,
    pub trusted: bool,
}

/// The text of an optional string slice.
pub open spec fn opt_str(o: Option<&str>) -> Option<Seq<char>> {
    match o {
        Some(s) => Some(s@),
        None => None,
    }
}

/// The text of an optional string.
pub open spec fn opt_string(o: Option<String>) -> Option<Seq<char>> {
    match o {
        Some(s) => Some(s@),
        None => None,
    }
}

/// The texts of a list of header pairs.
pub open spec fn header_pairs(h: Seq<(&str, &str)>) -> Seq<(Seq<char>, Seq<char>)> {
    h.map_values(|p: (&str, &str)| (p.0@, p.1@))
}

/// What a list of headers sets, starting from `(trusted, use_cache, insert_pattern)`:
/// the key header decides trust (any key when no trust key is set), the no-cache header
/// with `1` or `true` turns the cache off, the pattern value header gives a commit to
/// store; later headers win.
pub open spec fn apply_headers(
    start: (bool, bool, Option<Seq<char>>),
    trust_key: Option<Seq<char>>,
    headers: Seq<(Seq<char>, Seq<char>)>,
) -> (bool, bool, Option<Seq<char>>)
    decreases headers.len(),
{
    if headers.len() == 0 {
        start
    } else {
        let prev = apply_headers(start, trust_key, headers.drop_last());
        let key = headers.last().0;
        let value = headers.last().1;
        if key == "borink-git-serve-key"@ {
            (
                match trust_key {
                    Some(t) => t == value,
                    None => true,
                },
                prev.1,
                prev.2,
            )
        } else if key == "borink-git-no-cache"@ {
            if value == "1"@ || value == "true"@ {
                (prev.0, false, prev.2)
            } else {
                prev
            }
        } else if key == "borink-git-pattern-value"@ {
            (prev.0, prev.1, Some(value))
        } else {
            prev
        }
    }
}

/// What resolving a pattern against a ref store gives: the message of a bad request (if
/// any), the commit set (`None`: left as it was), whether the store may be changed
/// (`None`: left as it was), and the stored refs afterwards. A trusted request with a
/// pattern value stores that value for the pattern when it is a full commit hash; else a
/// stored commit for the pattern is used; else the pattern must itself be a full commit.
pub open spec fn ref_resolution(
    repo_url: Seq<char>,
    pattern: Seq<char>,
    trusted: bool,
    insert_pattern: Option<Seq<char>>,
    refs: Map<Seq<char>, Seq<char>>,
) -> (Option<Seq<char>>, Option<Seq<char>>, Option<bool>, Map<Seq<char>, Seq<char>>) {
    let key = git_ref_key_of(repo_url, pattern);
    if insert_pattern is Some && trusted {
        let value = insert_pattern->0;
        if is_full_commit(value) {
            (None, Some(value), Some(true), refs.insert(key, value))
        } else {
            (Some("Provided pattern value is not a valid commit hash!"@), None, None, refs)
        }
    } else if refs.contains_key(key) {
        (None, Some(refs[key]), Some(true), refs)
    } else if is_full_commit(pattern) {
        (None, Some(pattern), Some(false), refs)
    } else {
        (Some("Unknown pattern that is not a commit!"@), None, Some(false), refs)
    }
}

/// Whether a handling result, commit and store flag are what a resolution gives, from
/// the commit and flag before.
pub open spec fn resolution_applied(
    o: (Option<Seq<char>>, Option<Seq<char>>, Option<bool>, Map<Seq<char>, Seq<char>>),
    r: Result<(), EarlyResolve>,
    old_commit: Option<CommitHashBuf>,
    new_commit: Option<CommitHashBuf>,
    old_mutate: bool,
    new_mutate: bool,
) -> bool {
    &&& match o.0 {
        Some(msg) => r matches Err(EarlyResolve::BadRequest(m)) && m@ == msg,
        None => r is Ok,
    }
    &&& match o.1 {
        Some(c) => new_commit matches Some(n) && n.0@ == c,
        None => new_commit == old_commit,
    }
    &&& match o.2 {
        Some(b) => new_mutate == b,
        None => new_mutate == old_mutate,
    }
}

/// Reading headers leaves the cache in use exactly when it was in use and no header
/// `borink-git-no-cache` carries `1` or `true`.
pub proof fn lemma_no_cache_read(
    start: (bool, bool, Option<Seq<char>>),
    trust_key: Option<Seq<char>>,
    hs: Seq<(Seq<char>, Seq<char>)>,
)
    ensures
        apply_headers(start, trust_key, hs).1 <==> (start.1 && !exists|i: int|
            0 <= i < hs.len() && (#[trigger] hs[i]).0 == "borink-git-no-cache"@ && (hs[i].1 == "1"@
                || hs[i].1 == "true"@)),
    decreases hs.len(),
{
    reveal_strlit("borink-git-no-cache");
    reveal_strlit("borink-git-serve-key");
    if hs.len() > 0 {
        let d = hs.drop_last();
        let last = hs.last();
        lemma_no_cache_read(start, trust_key, d);
        assert(hs[hs.len() - 1] == last);
        if last.0 == "borink-git-serve-key"@ {
            assert(last.0[11] != "borink-git-no-cache"@[11]);
        }
        if exists|i: int|
            0 <= i < d.len() && (#[trigger] d[i]).0 == "borink-git-no-cache"@ && (d[i].1 == "1"@
                || d[i].1 == "true"@) {
            let i = choose|i: int|
                0 <= i < d.len() && (#[trigger] d[i]).0 == "borink-git-no-cache"@ && (d[i].1 == "1"@
                    || d[i].1 == "true"@);
            assert(hs[i] == d[i]);
        }
        if exists|i: int|
            0 <= i < hs.len() && (#[trigger] hs[i]).0 == "borink-git-no-cache"@ && (hs[i].1 == "1"@
                || hs[i].1 == "true"@) {
            let i = choose|i: int|
                0 <= i < hs.len() && (#[trigger] hs[i]).0 == "borink-git-no-cache"@ && (hs[i].1
                    == "1"@ || hs[i].1 == "true"@);
            if i < d.len() {
                assert(d[i] == hs[i]);
            }
        }
    }
}

/// The message for a method other than GET.
pub open spec fn invalid_method_message() -> Seq<char> {
    "Invalid method."@
}

/// The steps by which the handling of a request reads its url, method and headers and
/// resolves the commit to serve.
pub trait RequestSettings: Sized {
    fn base(&self) -> Self;

    fn address(&self) -> Result<GitAddress<'_>, EarlyResolve>;

    fn plugin_name(&self) -> &str;

    fn use_cache(&self) -> bool;

    fn mutate_store(&self) -> bool;

    fn read_url(&mut self, url: &str) -> Result<(), EarlyResolve>;

    fn use_git_ref_store<R: GitRefStore>(&mut self, ref_store: &mut R) -> Result<Result<(), EarlyResolve>, R::Error>;

    fn read_method_headers(&mut self, method: &str, headers: Vec<(&str, &str)>) -> Result<(), EarlyResolve>;
}

impl<'a> DefaultRequestSettings<'a> {
    pub fn new(settings: &'a RequestInitSettings) -> (s: Self)
        ensures
            s.repo_url == settings.repo_url,
            s.git_subpath == settings.git_subpath,
            s.plugin_name == settings.plugin_name,
            s.default_path == settings.default_path,
            s.subpath == settings.subpath,
            s.trust_key == settings.trust_key,
            s.use_cache,
            !s.mutate_store,
            s.insert_pattern is None,
            s.commit is None,
            s.pattern is None,
            !s.trusted,
    {
        Self {
            repo_url: settings.repo_url,
            git_subpath: settings.git_subpath,
            plugin_name: settings.plugin_name,
            default_path: settings.default_path,
            subpath: settings.subpath,
            trust_key: settings.trust_key,
            use_cache: true,
            mutate_store: false,
            insert_pattern: None,
            commit: None,
            pattern: None,
            trusted: false,
        }
    }

}

impl<'a> RequestSettings for DefaultRequestSettings<'a> {
    /// A fresh copy of these settings.
    fn base(&self) -> (s: Self)
        ensures
            s.repo_url == self.repo_url,
            s.git_subpath == self.git_subpath,
            s.plugin_name == self.plugin_name,
            s.default_path == self.default_path,
            s.subpath == self.subpath,
            s.trust_key == self.trust_key,
            s.use_cache == self.use_cache,
            s.mutate_store == self.mutate_store,
            opt_string(s.insert_pattern) == opt_string(self.insert_pattern),
            s.commit.is_some() == self.commit.is_some(),
            s.commit matches Some(c) ==> (self.commit matches Some(d) && c.0@ == d.0@),
            opt_string(s.pattern) == opt_string(self.pattern),
            s.trusted == self.trusted,
    {
        let insert_pattern = match &self.insert_pattern {
            Some(p) => Some(p.clone()),
            None => None,
        };
        let commit = match &self.commit {
            Some(c) => Some(CommitHashBuf(c.0.clone())),
            None => None,
        };
        let pattern = match &self.pattern {
            Some(p) => Some(p.clone()),
            None => None,
        };
        Self {
            repo_url: self.repo_url,
            git_subpath: self.git_subpath,
            plugin_name: self.plugin_name,
            default_path: self.default_path,
            subpath: self.subpath,
            trust_key: self.trust_key,
            use_cache: self.use_cache,
            mutate_store: self.mutate_store,
            insert_pattern,
            commit,
            pattern,
            trusted: self.trusted,
        }
    }

    /// The address the request resolved to, or a bad request when no commit was found.
    fn address(&self) -> (r: Result<GitAddress<'_>, EarlyResolve>)
        ensures
            self.commit is None ==> (r matches Err(EarlyResolve::BadRequest(m)) && m@
                == "No commit could be found for provided pattern"@),
            self.commit matches Some(c) ==> (r matches Ok(a) && a.repository_url.0 == self.repo_url
                && a.subpath.0 == self.git_subpath && a.commit_hash.0@ == c.0@),
    {
        match &self.commit {
            Some(commit) => Ok(GitAddress::new_unchecked(self.repo_url, self.git_subpath, commit.as_str())),
            None => Err(EarlyResolve::BadRequest(String::from_str("No commit could be found for provided pattern"))),
        }
    }

    fn plugin_name(&self) -> (s: &str)
        ensures
            s == self.plugin_name,
    {
        self.plugin_name
    }

    fn use_cache(&self) -> (b: bool)
        ensures
            b == self.use_cache,
    {
        self.use_cache
    }

    fn mutate_store(&self) -> (b: bool)
        ensures
            b == self.mutate_store,
    {
        self.mutate_store
    }

    /// Reads the pattern from the request url.
    fn read_url(&mut self, url: &str) -> (r: Result<(), EarlyResolve>)
        ensures
            ({
                let route = url_route(url@, old(self).default_path@, opt_str(old(self).subpath));
                &&& r is Ok <==> route.0 == 0
                &&& r is Ok ==> opt_string(final(self).pattern) == Some(route.1)
                &&& r matches Err(e) ==> early_is_route(e, route) && opt_string(final(self).pattern)
                    == opt_string(old(self).pattern)
            }),
            final(self).repo_url == old(self).repo_url,
            final(self).git_subpath == old(self).git_subpath,
            final(self).plugin_name == old(self).plugin_name,
            final(self).default_path == old(self).default_path,
            final(self).subpath == old(self).subpath,
            final(self).trust_key == old(self).trust_key,
            final(self).use_cache == old(self).use_cache,
            final(self).mutate_store == old(self).mutate_store,
            opt_string(final(self).insert_pattern) == opt_string(old(self).insert_pattern),
            final(self).commit == old(self).commit,
            final(self).trusted == old(self).trusted,
    {
        let pattern = match parse_url(url, self.default_path, self.subpath) {
            Ok(p) => p,
            Err(e) => return Err(e),
        };
        self.pattern = Some(pattern);
        Ok(())
    }

    /// Reads the method (only GET is served) and the headers that decide trust, caching
    /// and a commit to store.
    fn read_method_headers(&mut self, method: &str, headers: Vec<(&str, &str)>) -> (r: Result<(), EarlyResolve>)
        ensures
            r is Ok <==> method@ == "GET"@,
            r matches Err(e) ==> (e matches EarlyResolve::BadRequest(m) && m@ == invalid_method_message()),
            r is Ok ==> (final(self).trusted, final(self).use_cache, opt_string(
                final(self).insert_pattern,
            )) == apply_headers(
                (old(self).trusted, old(self).use_cache, opt_string(old(self).insert_pattern)),
                opt_str(old(self).trust_key),
                header_pairs(headers@),
            ),
            r is Err ==> final(self).trusted == old(self).trusted && final(self).use_cache == old(
                self,
            ).use_cache && opt_string(final(self).insert_pattern) == opt_string(
                old(self).insert_pattern,
            ),
            r is Ok ==> (final(self).use_cache <==> (old(self).use_cache && !exists|i: int|
                0 <= i < headers@.len() && (#[trigger] headers@[i]).0@ == "borink-git-no-cache"@ && (
                headers@[i].1@ == "1"@ || headers@[i].1@ == "true"@))),
            final(self).repo_url == old(self).repo_url,
            final(self).git_subpath == old(self).git_subpath,
            final(self).plugin_name == old(self).plugin_name,
            final(self).default_path == old(self).default_path,
            final(self).subpath == old(self).subpath,
            final(self).trust_key == old(self).trust_key,
            final(self).mutate_store == old(self).mutate_store,
            final(self).commit == old(self).commit,
            opt_string(final(self).pattern) == opt_string(old(self).pattern),
    {
        if !str_equal(method, "GET") {
            return Err(EarlyResolve::BadRequest(String::from_str("Invalid method.")));
        }
        let ghost start = (self.trusted, self.use_cache, opt_string(self.insert_pattern));
        let mut i: usize = 0;
        proof {
            assert(header_pairs(headers@).take(0) =~= Seq::<(Seq<char>, Seq<char>)>::empty());
        }
        while i < headers.len()
            invariant
                i <= headers@.len(),
                (self.trusted, self.use_cache, opt_string(self.insert_pattern)) == apply_headers(
                    start,
                    opt_str(self.trust_key),
                    header_pairs(headers@).take(i as int),
                ),
                self.repo_url == old(self).repo_url,
                self.git_subpath == old(self).git_subpath,
                self.plugin_name == old(self).plugin_name,
                self.default_path == old(self).default_path,
                self.subpath == old(self).subpath,
                self.trust_key == old(self).trust_key,
                self.mutate_store == old(self).mutate_store,
                self.commit == old(self).commit,
                opt_string(self.pattern) == opt_string(old(self).pattern),
            decreases headers@.len() - i,
        {
            let (key, value) = headers[i];
            proof {
                let hs = header_pairs(headers@).take(i + 1);
                assert(hs.drop_last() =~= header_pairs(headers@).take(i as int));
                assert(hs.last() == (key@, value@));
            }
            if str_equal(key, "borink-git-serve-key") {
                let trusted = match self.trust_key {
                    Some(trust_key) => str_equal(trust_key, value),
                    None => true,
                };
                self.trusted = trusted;
            } else if str_equal(key, "borink-git-no-cache") {
                if str_equal(value, "1") || str_equal(value, "true") {
                    self.use_cache = false;
                }
            } else if str_equal(key, "borink-git-pattern-value") {
                self.insert_pattern = Some(String::from_str(value));
            }
            i = i + 1;
        }
        proof {
            let hp = header_pairs(headers@);
            assert(hp.take(headers@.len() as int) =~= hp);
            lemma_no_cache_read(start, opt_str(self.trust_key), hp);
            if exists|i: int|
                0 <= i < hp.len() && (#[trigger] hp[i]).0 == "borink-git-no-cache"@ && (hp[i].1 == "1"@
                    || hp[i].1 == "true"@) {
                let i = choose|i: int|
                    0 <= i < hp.len() && (#[trigger] hp[i]).0 == "borink-git-no-cache"@ && (hp[i].1
                        == "1"@ || hp[i].1 == "true"@);
                assert(hp[i] == (headers@[i].0@, headers@[i].1@));
            }
            if exists|i: int|
                0 <= i < headers@.len() && (#[trigger] headers@[i]).0@ == "borink-git-no-cache"@ && (
                headers@[i].1@ == "1"@ || headers@[i].1@ == "true"@) {
                let i = choose|i: int|
                    0 <= i < headers@.len() && (#[trigger] headers@[i]).0@ == "borink-git-no-cache"@
                        && (headers@[i].1@ == "1"@ || headers@[i].1@ == "true"@);
                assert(hp[i] == (headers@[i].0@, headers@[i].1@));
            }
        }
        Ok(())
    }

    /// Resolves the pattern read from the url to a commit. A trusted request with a
    /// pattern value stores that commit for the pattern and may change the store; a stored
    /// commit for the pattern may change the store; otherwise the pattern itself must be
    /// a full commit hash, and the store is left alone. Errors of the ref store come out in
    /// the outer `Err`.
    fn use_git_ref_store<R: GitRefStore>(&mut self, ref_store: &mut R) -> (r: Result<Result<(), EarlyResolve>, R::Error>)
        ensures
            final(self).repo_url == old(self).repo_url,
            final(self).git_subpath == old(self).git_subpath,
            final(self).plugin_name == old(self).plugin_name,
            final(self).default_path == old(self).default_path,
            final(self).subpath == old(self).subpath,
            final(self).trust_key == old(self).trust_key,
            final(self).use_cache == old(self).use_cache,
            final(self).trusted == old(self).trusted,
            opt_string(final(self).insert_pattern) == opt_string(old(self).insert_pattern),
            opt_string(final(self).pattern) == opt_string(old(self).pattern),
            old(self).pattern is None ==> (r matches Ok(Ok(())) && final(self).commit == old(self).commit
                && final(self).mutate_store == old(self).mutate_store && *final(ref_store) == *old(ref_store)),
            R::obeys_ref_store() && old(self).pattern is Some ==> ({
                let o = ref_resolution(
                    old(self).repo_url@,
                    old(self).pattern->0@,
                    old(self).trusted,
                    opt_string(old(self).insert_pattern),
                    old(ref_store).ref_map(),
                );
                &&& r matches Ok(x) && resolution_applied(
                    o,
                    x,
                    old(self).commit,
                    final(self).commit,
                    old(self).mutate_store,
                    final(self).mutate_store,
                )
                &&& final(ref_store).ref_map() == o.3
            }),
            !(old(self).trusted && old(self).insert_pattern is Some && is_full_commit(
                opt_string(old(self).insert_pattern)->0,
            )) ==> *final(ref_store) == *old(ref_store),
    {
        let pattern = match &self.pattern {
            Some(p) => p.clone(),
            None => return Ok(Ok(())),
        };
        if self.trusted && self.insert_pattern.is_some() {
            let insert_pattern = match &self.insert_pattern {
                Some(p) => p.clone(),
                None => String::new(),
            };
            let hex = is_hexadecimal(insert_pattern.as_str());
            if hex {
                proof {
                    crate::git::lemma_hex_bytes_len(insert_pattern@);
                }
            }
            if !hex || insert_pattern.as_str().as_bytes().len() != 40 {
                return Ok(Err(EarlyResolve::BadRequest(String::from_str("Provided pattern value is not a valid commit hash!"))));
            }
            let commit_hash = CommitHashBuf::from_string_unchecked(insert_pattern);
            match ref_store.insert(self.repo_url, pattern.as_str(), commit_hash.borrow()) {
                Ok(()) => {},
                Err(e) => return Err(e),
            }
            self.mutate_store = true;
            self.commit = Some(commit_hash);
        } else {
            let stored = match ref_store.get(self.repo_url, pattern.as_str()) {
                Ok(s) => s,
                Err(e) => return Err(e),
            };
            match stored {
                Some(stored) => {
                    self.mutate_store = true;
                    self.commit = Some(stored);
                },
                None => {
                    self.mutate_store = false;
                    let hex = is_hexadecimal(pattern.as_str());
                    if hex {
                        proof {
                            crate::git::lemma_hex_bytes_len(pattern@);
                        }
                    }
                    if !hex || pattern.as_str().as_bytes().len() != 40 {
                        return Ok(Err(EarlyResolve::BadRequest(String::from_str("Unknown pattern that is not a commit!"))));
                    }
                    self.commit = Some(CommitHashBuf::from_string_unchecked(pattern));
                },
            }
        }
        Ok(Ok(()))
    }

}

impl<'a> DefaultRequestSettings<'a> {
    /// Reads method and headers, then the url, then resolves the commit: the first early
    /// answer stops the handling.
    pub fn prepare<R: GitRefStore>(&mut self, method: &str, headers: Vec<(&str, &str)>, url: &str, ref_store: &mut R) -> (r: Result<Result<(), EarlyResolve>, R::Error>)
        ensures
            method@ != "GET"@ ==> (r matches Ok(Err(EarlyResolve::BadRequest(m))) && m@
                == invalid_method_message() && *final(ref_store) == *old(ref_store)),
            method@ == "GET"@ && url_route(url@, old(self).default_path@, opt_str(old(self).subpath)).0
                != 0 ==> (r matches Ok(Err(e)) && early_is_route(
                e,
                url_route(url@, old(self).default_path@, opt_str(old(self).subpath)),
            ) && *final(ref_store) == *old(ref_store)),
            method@ == "GET"@ && url_route(url@, old(self).default_path@, opt_str(old(self).subpath)).0
                == 0 && R::obeys_ref_store() ==> ({
                let route = url_route(url@, old(self).default_path@, opt_str(old(self).subpath));
                let h = apply_headers(
                    (old(self).trusted, old(self).use_cache, opt_string(old(self).insert_pattern)),
                    opt_str(old(self).trust_key),
                    header_pairs(headers@),
                );
                let o = ref_resolution(old(self).repo_url@, route.1, h.0, h.2, old(ref_store).ref_map());
                &&& r matches Ok(x) && resolution_applied(
                    o,
                    x,
                    old(self).commit,
                    final(self).commit,
                    old(self).mutate_store,
                    final(self).mutate_store,
                )
                &&& final(ref_store).ref_map() == o.3
                &&& (final(self).trusted, final(self).use_cache, opt_string(final(self).insert_pattern))
                    == h
                &&& opt_string(final(self).pattern) == Some(route.1)
            }),
            r matches Ok(Ok(())) ==> final(self).commit is Some,
            final(self).repo_url == old(self).repo_url,
            final(self).git_subpath == old(self).git_subpath,
            final(self).plugin_name == old(self).plugin_name,
            final(self).default_path == old(self).default_path,
            final(self).subpath == old(self).subpath,
            final(self).trust_key == old(self).trust_key,
    {
        match self.read_method_headers(method, headers) {
            Ok(()) => {},
            Err(e) => return Ok(Err(e)),
        }
        match self.read_url(url) {
            Ok(()) => {},
            Err(e) => return Ok(Err(e)),
        }
        let r = self.use_git_ref_store(ref_store);
        match r {
            Ok(Ok(())) => {
                if self.commit.is_none() {
                    return Ok(Err(EarlyResolve::BadRequest(String::from_str("No commit could be found for provided pattern"))));
                }
                Ok(Ok(()))
            },
            other => other,
        }
    }
}

} // verus!

verus! {

/// The header that carries the key of a trusted client.
pub const KEY_HEADER_NAME: &'static str = "typst-serve-key";

/// The header that carries a commit to store for the requested pattern.
pub const PATTERN_VALUE_HEADER_NAME: &'static str = "typst-serve-pattern-value";

/// The header that asks to derive afresh instead of using the cache.
pub const RELOAD_HEADER_NAME: &'static str = "typst-serve-reload";

/// The code of a character with ASCII upper case letters made lower case.
pub open spec fn ascii_lower(c: char) -> u32 {
    if 'A' <= c && c <= 'Z' {
        ((c as u32) + 32) as u32
    } else {
        c as u32
    }
}

/// Whether two texts are equal up to the case of ASCII letters
/// (what `str::eq_ignore_ascii_case` tells).
pub open spec fn eq_ignore_ascii_case(a: Seq<char>, b: Seq<char>) -> bool {
    a.len() == b.len() && forall|i: int| 0 <= i < a.len() ==> ascii_lower(#[trigger] a[i]) == ascii_lower(b[i])
}

fn lower_char(c: char) -> (l: u32)
    ensures
        l == ascii_lower(c),
{
    if 'A' <= c && c <= 'Z' {
        (c as u32) + 32
    } else {
        c as u32
    }
}

/// Whether `a` and `b` are equal up to the case of ASCII letters.
pub fn equal_ignore_ascii_case(a: &str, b: &str) -> (eq: bool)
    ensures
        eq == eq_ignore_ascii_case(a@, b@),
{
    let ac = str_chars(a);
    let bc = str_chars(b);
    if ac.len() != bc.len() {
        return false;
    }
    let mut i: usize = 0;
    while i < ac.len()
        invariant
            ac@ == a@,
            bc@ == b@,
            ac@.len() == bc@.len(),
            i <= ac@.len(),
            forall|k: int| 0 <= k < i ==> ascii_lower(#[trigger] a@[k]) == ascii_lower(b@[k]),
        decreases ac@.len() - i,
    {
        if lower_char(ac[i]) != lower_char(bc[i]) {
            return false;
        }
        i = i + 1;
    }
    true
}

/// What the headers of a request ask for: the client's key, a commit to store for the
/// pattern, and whether to derive afresh.
pub struct HeaderOptions<'a> {
    pub key: Option<&'a str>,
    pub pattern_value: Option<&'a str>,
    pub reload: bool,
}

impl<'a> Default for HeaderOptions<'a> {
    fn default() -> (o: Self)
        ensures
            o.key is None,
            o.pattern_value is None,
            !o.reload,
    {
        HeaderOptions { key: None, pattern_value: None, reload: false }
    }
}

/// What a list of headers sets, starting from `(key, pattern_value, reload)`: header
/// names are compared without regard to ASCII case; the reload header turns reloading on
/// with `1` or `true`; later headers win.
pub open spec fn header_options_of(
    start: (Option<Seq<char>>, Option<Seq<char>>, bool),
    headers: Seq<(Seq<char>, Seq<char>)>,
) -> (Option<Seq<char>>, Option<Seq<char>>, bool)
    decreases headers.len(),
{
    if headers.len() == 0 {
        start
    } else {
        let prev = header_options_of(start, headers.drop_last());
        let field = headers.last().0;
        let value = headers.last().1;
        if eq_ignore_ascii_case(KEY_HEADER_NAME@, field) {
            (Some(value), prev.1, prev.2)
        } else if eq_ignore_ascii_case(RELOAD_HEADER_NAME@, field) {
            if value == "1"@ || value == "true"@ {
                (prev.0, prev.1, true)
            } else {
                prev
            }
        } else if eq_ignore_ascii_case(PATTERN_VALUE_HEADER_NAME@, field) {
            (prev.0, Some(value), prev.2)
        } else {
            prev
        }
    }
}

/// Reading headers turns reloading on exactly when it was on already or some header
/// whose name is `typst-serve-reload` up to ASCII case carries `1` or `true`.
pub proof fn lemma_reload_read(start: (Option<Seq<char>>, Option<Seq<char>>, bool), hs: Seq<(Seq<char>, Seq<char>)>)
    ensures
        header_options_of(start, hs).2 <==> (start.2 || exists|i: int|
            0 <= i < hs.len() && eq_ignore_ascii_case("typst-serve-reload"@, (#[trigger] hs[i]).0) && (
            hs[i].1 == "1"@ || hs[i].1 == "true"@)),
    decreases hs.len(),
{
    reveal_strlit("typst-serve-reload");
    reveal_strlit("typst-serve-key");
    reveal_strlit("typst-serve-pattern-value");
    assert(RELOAD_HEADER_NAME@ == "typst-serve-reload"@);
    assert(KEY_HEADER_NAME@ == "typst-serve-key"@);
    if hs.len() > 0 {
        let d = hs.drop_last();
        let last = hs.last();
        lemma_reload_read(start, d);
        assert(hs[hs.len() - 1] == last);
        if exists|i: int|
            0 <= i < d.len() && eq_ignore_ascii_case("typst-serve-reload"@, (#[trigger] d[i]).0) && (
            d[i].1 == "1"@ || d[i].1 == "true"@) {
            let i = choose|i: int|
                0 <= i < d.len() && eq_ignore_ascii_case("typst-serve-reload"@, (#[trigger] d[i]).0) && (
                d[i].1 == "1"@ || d[i].1 == "true"@);
            assert(hs[i] == d[i]);
        }
        if exists|i: int|
            0 <= i < hs.len() && eq_ignore_ascii_case("typst-serve-reload"@, (#[trigger] hs[i]).0) && (
            hs[i].1 == "1"@ || hs[i].1 == "true"@) {
            let i = choose|i: int|
                0 <= i < hs.len() && eq_ignore_ascii_case("typst-serve-reload"@, (#[trigger] hs[i]).0)
                    && (hs[i].1 == "1"@ || hs[i].1 == "true"@);
            if i < d.len() {
                assert(d[i] == hs[i]);
            }
        }
    }
}

/// The options that a request's headers (name, value) set.
pub fn parse_headers<'a>(headers: &[(&'a str, &'a str)]) -> (options: HeaderOptions<'a>)
    ensures
        (opt_str(options.key), opt_str(options.pattern_value), options.reload) == header_options_of(
            (None, None, false),
            header_pairs(headers@),
        ),
        options.reload <==> exists|i: int|
            0 <= i < headers@.len() && eq_ignore_ascii_case(
                "typst-serve-reload"@,
                (#[trigger] headers@[i]).0@,
            ) && (headers@[i].1@ == "1"@ || headers@[i].1@ == "true"@),
{
    let mut options: HeaderOptions<'a> = HeaderOptions::default();
    let mut i: usize = 0;
    proof {
        assert(header_pairs(headers@).take(0) =~= Seq::<(Seq<char>, Seq<char>)>::empty());
    }
    while i < headers.len()
        invariant
            i <= headers@.len(),
            (opt_str(options.key), opt_str(options.pattern_value), options.reload)
                == header_options_of((None, None, false), header_pairs(headers@).take(i as int)),
        decreases headers@.len() - i,
    {
        let (field, value) = headers[i];
        proof {
            assert(header_pairs(headers@).take(i + 1).drop_last() =~= header_pairs(headers@).take(
                i as int,
            ));
            assert(header_pairs(headers@).take(i + 1).last() == (field@, value@));
        }
        if equal_ignore_ascii_case(KEY_HEADER_NAME, field) {
            options.key = Some(value);
        } else if equal_ignore_ascii_case(RELOAD_HEADER_NAME, field) {
            if str_equal(value, "1") || str_equal(value, "true") {
                options.reload = true;
            }
        } else if equal_ignore_ascii_case(PATTERN_VALUE_HEADER_NAME, field) {
            options.pattern_value = Some(value);
        }
        i = i + 1;
    }
    proof {
        let hp = header_pairs(headers@);
        assert(hp.take(headers@.len() as int) =~= hp);
        lemma_reload_read((None, None, false), hp);
        if exists|i: int|
            0 <= i < hp.len() && eq_ignore_ascii_case("typst-serve-reload"@, (#[trigger] hp[i]).0) && (
            hp[i].1 == "1"@ || hp[i].1 == "true"@) {
            let i = choose|i: int|
                0 <= i < hp.len() && eq_ignore_ascii_case("typst-serve-reload"@, (#[trigger] hp[i]).0)
                    && (hp[i].1 == "1"@ || hp[i].1 == "true"@);
            assert(hp[i] == (headers@[i].0@, headers@[i].1@));
        }
        if exists|i: int|
            0 <= i < headers@.len() && eq_ignore_ascii_case(
                "typst-serve-reload"@,
                (#[trigger] headers@[i]).0@,
            ) && (headers@[i].1@ == "1"@ || headers@[i].1@ == "true"@) {
            let i = choose|i: int|
                0 <= i < headers@.len() && eq_ignore_ascii_case(
                    "typst-serve-reload"@,
                    (#[trigger] headers@[i]).0@,
                ) && (headers@[i].1@ == "1"@ || headers@[i].1@ == "true"@);
            assert(hp[i] == (headers@[i].0@, headers@[i].1@));
        }
    }
    options
}

/// Whether a request is trusted: always when no trust key is set, otherwise only when it
/// carries that key.
pub open spec fn is_trusted(key: Option<Seq<char>>, trust_key: Option<Seq<char>>) -> bool {
    match trust_key {
        None => true,
        Some(t) => key == Some(t),
    }
}

pub fn request_trusted(key: Option<&str>, trust_key: Option<&str>) -> (trusted: bool)
    ensures
        trusted == is_trusted(opt_str(key), opt_str(trust_key)),
{
    match trust_key {
        None => true,
        Some(t) => match key {
            Some(k) => str_equal(k, t),
            None => false,
        },
    }
}

/// What to do with a request before the ref store and the plugins are consulted.
pub enum RequestPlan {
    /// Answer at once.
    Answer(HandleState),
    /// Derive the resource for `pattern`, after storing `insert` for it in the ref store
    /// where one is given.
    Derive { pattern: String, insert: Option<String>, use_cache: bool },
}

/// The message for a pattern value that is not a full commit hash.
pub open spec fn invalid_pattern_value_message(value: Seq<char>) -> Seq<char> {
    "header value "@ + value + " is not a valid full commit hash, must be hexadecimal and length 40!"@
}

/// The plan for a request: the url's route answers at once unless it names a pattern; a
/// pattern value that is not a full commit hash is a bad request; otherwise the pattern
/// is derived, the pattern value stored for it only when the request is trusted, and the
/// cache skipped only when a trusted request asks to reload.
pub fn plan_request(
    url: &str,
    header_options: &HeaderOptions,
    trust_key: Option<&str>,
    default_pattern: &str,
    sub_path: Option<&str>,
) -> (plan: RequestPlan)
    ensures
        ({
            let route = url_route(url@, default_pattern@, opt_str(sub_path));
            let trusted = is_trusted(opt_str(header_options.key), opt_str(trust_key));
            if route.0 == 1 {
                plan matches RequestPlan::Answer(HandleState::NotFound)
            } else if route.0 == 2 {
                plan matches RequestPlan::Answer(HandleState::Redirect(l)) && l@ == route.1
            } else if header_options.pattern_value is Some && !is_full_commit(
                header_options.pattern_value->0@,
            ) {
                plan matches RequestPlan::Answer(HandleState::BadRequest(m)) && m@
                    == invalid_pattern_value_message(header_options.pattern_value->0@)
            } else {
                plan matches RequestPlan::Derive { pattern, insert, use_cache } && pattern@
                    == route.1 && opt_string(insert) == (if trusted {
                    opt_str(header_options.pattern_value)
                } else {
                    None
                }) && use_cache == (!header_options.reload || !trusted)
            }
        }),
{
    let trusted = request_trusted(header_options.key, trust_key);
    let state = pattern_from_url(url, default_pattern, sub_path);
    let pattern = match state {
        HandleState::Pattern(pattern) => pattern,
        state => return RequestPlan::Answer(state),
    };
    let mut insert: Option<String> = None;
    match header_options.pattern_value {
        Some(pattern_value) => {
            let hex = is_hexadecimal(pattern_value);
            if hex {
                proof {
                    crate::git::lemma_hex_bytes_len(pattern_value@);
                }
            }
            if !hex || pattern_value.as_bytes().len() != 40 {
                let mut message = String::from_str("header value ");
                message.append(pattern_value);
                message.append(" is not a valid full commit hash, must be hexadecimal and length 40!");
                return RequestPlan::Answer(HandleState::BadRequest(message));
            }
            if trusted {
                insert = Some(String::from_str(pattern_value));
            }
        },
        None => {},
    }
    let use_cache = !header_options.reload || !trusted;
    RequestPlan::Derive { pattern, insert, use_cache }
}

/// The commit a pattern stands for, and whether the store may be changed to derive at
/// it.
pub struct DeriveTarget {
    pub commit: CommitHashBuf,
    pub allow_exclusive: bool,
}

/// Where a ref or commit hash leads: a commit stored for it in the ref store (which only
/// trusted requests fill) may change the store; a full commit hash is used as is but may
/// not change the store; anything else leads nowhere.
pub fn derive_target<R: GitRefStore>(ref_store: &R, repo_url: &str, git_ref_or_hash: &str) -> (r: Result<Option<DeriveTarget>, R::Error>)
    ensures
        R::obeys_ref_store() ==> (r matches Ok(o) && ({
            let key = git_ref_key_of(repo_url@, git_ref_or_hash@);
            if ref_store.ref_map().contains_key(key) {
                o matches Some(t) && t.commit.0@ == ref_store.ref_map()[key] && t.allow_exclusive
            } else if is_full_commit(git_ref_or_hash@) {
                o matches Some(t) && t.commit.0@ == git_ref_or_hash@ && !t.allow_exclusive
            } else {
                o is None
            }
        })),
{
    let stored = match ref_store.get(repo_url, git_ref_or_hash) {
        Ok(s) => s,
        Err(e) => return Err(e),
    };
    match stored {
        Some(commit) => Ok(Some(DeriveTarget { commit, allow_exclusive: true })),
        None => match CommitHash::try_from_str(git_ref_or_hash) {
            Ok(checked) => Ok(
                Some(
                    DeriveTarget {
                        commit: CommitHashBuf::from_string_unchecked(String::from_str(checked.as_str())),
                        allow_exclusive: false,
                    },
                ),
            ),
            Err(_) => Ok(None),
        },
    }
}

/// The response of a derivation, where an absent address means there is none.
pub fn derive_response_outcome(result: Result<DerivedResponse, GitDeriveError>) -> (r: Result<Option<DerivedResponse>, GitDeriveError>)
    ensures
        match result {
            Ok(resp) => r == Ok::<Option<DerivedResponse>, GitDeriveError>(Some(resp)),
            Err(GitDeriveError::Absent(_)) => r == Ok::<Option<DerivedResponse>, GitDeriveError>(None),
            Err(e) => r == Err::<Option<DerivedResponse>, GitDeriveError>(e),
        },
{
    match result {
        Ok(resp) => Ok(Some(resp)),
        Err(GitDeriveError::Absent(_)) => Ok(None),
        Err(e) => Err(e),
    }
}

/// The handle state of a derived response, or not found where there is none.
pub fn response_state(response: Option<DerivedResponse>) -> (s: HandleState)
    ensures
        match response {
            Some(resp) => s == HandleState::Response(resp),
            None => s is NotFound,
        },
{
    match response {
        Some(resp) => HandleState::Response(resp),
        None => HandleState::NotFound,
    }
}

/// An early answer for a failed derivation: an absent address is a bad request with the
/// absence's message; other errors are passed on.
pub fn derive_failure(e: GitDeriveError) -> (r: Result<EarlyResolve, GitDeriveError>)
    ensures
        match e {
            GitDeriveError::Absent(c) => r matches Ok(EarlyResolve::BadRequest(m)) && m@ == (*c.0)@,
            _ => r == Err::<EarlyResolve, GitDeriveError>(e),
        },
{
    match e {
        GitDeriveError::Absent(c) => Ok(EarlyResolve::BadRequest(*c.0)),
        e => Err(e),
    }
}

impl EarlyResolve {
    /// The HTTP status of the answer: 404 for not found, 400 for a bad request, 303 for a
    /// redirect.
    pub fn status_code(&self) -> (code: u16)
        ensures
            code == match self {
                EarlyResolve::NotFound => 404u16,
                EarlyResolve::BadRequest(_) => 400u16,
                EarlyResolve::Redirect(_) => 303u16,
            },
    {
        match self {
            EarlyResolve::NotFound => 404,
            EarlyResolve::BadRequest(_) => 400,
            EarlyResolve::Redirect(_) => 303,
        }
    }
}

} // verus!
