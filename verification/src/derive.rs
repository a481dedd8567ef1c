use vstd::prelude::*;
use vstd::hash_map::StringHashMap;
use vstd::std_specs::convert::{FromSpecImpl, IntoSpec};

use std::collections::HashMap;
use std::convert::Infallible;

use crate::error::{str_context, ErrorContext, StringContext};
use crate::git::{GitAddress, GitError, StoreAddress};
use crate::git_state::FinalResolved;
use crate::process::process_out;
use crate::text::trimmed_end;
use crate::kv::KvError;

verus! {

/// Errors of a plugin that derives a resource.
#[derive(Debug)]
pub enum DeriveError {
    PluginError(StringContext),
    PluginNotFound(StringContext),
}

impl DeriveError {
    pub fn from_plugin<S: Into<String>>(err_message: S) -> (e: Self)
        ensures
            e matches DeriveError::PluginError(c) && (S::obeys_into_spec() ==> *c.0
                == err_message.into_spec()),
    {
        let str_ctx: String = err_message.into();
        Self::PluginError(ErrorContext::new(str_ctx))
    }
}

/// Errors of a response cache.
#[derive(Debug)]
#[non_exhaustive]
pub enum CacheErrorKind {
    KvCache(KvError),
    Other(StringContext),
}

impl From<Infallible> for CacheErrorKind {
    fn from(value: Infallible) -> (r: Self) {
        CacheErrorKind::Other(str_context("error should not occur!"))
    }
}

impl FromSpecImpl<Infallible> for CacheErrorKind {
    open spec fn obeys_from_spec() -> bool {
        false
    }

    open spec fn from_spec(v: Infallible) -> Self {
        vstd::pervasive::arbitrary()
    }
}

impl From<KvError> for CacheErrorKind {
    fn from(value: KvError) -> (r: Self) {
        CacheErrorKind::KvCache(value)
    }
}

impl FromSpecImpl<KvError> for CacheErrorKind {
    open spec fn obeys_from_spec() -> bool {
        true
    }

    open spec fn from_spec(v: KvError) -> Self {
        CacheErrorKind::KvCache(v)
    }
}

/// Errors of deriving a resource from a Git address.
#[derive(Debug)]
pub enum GitDeriveError {
    Git(GitError),
    Absent(StringContext),
    Derive(DeriveError),
    CacheError(CacheErrorKind),
}

/// Where the Git store lives and whether stored files are verified.
pub struct ServerSettingsView<'a> {
    pub store_dir: &'a str,
    pub verify_integrity: bool,
}

/// A derived resource: response headers and body.
#[derive(Clone)]
pub struct DerivedResponse {
    pub headers: Vec<(String, String)>,
    pub bytes: Vec<u8>,
}

/// The texts of a list of headers.
pub open spec fn headers_view(h: Seq<(String, String)>) -> Seq<(Seq<char>, Seq<char>)> {
    h.map_values(|p: (String, String)| (p.0@, p.1@))
}

/// A derived response as plain values.
pub open spec fn response_view(r: DerivedResponse) -> (Seq<(Seq<char>, Seq<char>)>, Seq<u8>) {
    (headers_view(r.headers@), r.bytes@)
}

/// A copy of a derived response.
pub fn copy_response(r: &DerivedResponse) -> (c: DerivedResponse)
    ensures
        response_view(c) == response_view(*r),
{
    let mut headers: Vec<(String, String)> = Vec::new();
    let mut i: usize = 0;
    while i < r.headers.len()
        invariant
            i <= r.headers@.len(),
            headers_view(headers@) == headers_view(r.headers@).take(i as int),
        decreases r.headers@.len() - i,
    {
        let k = r.headers[i].0.clone();
        let v = r.headers[i].1.clone();
        let ghost before = headers@;
        headers.push((k, v));
        proof {
            assert(headers@ == before.push((k, v)));
            assert(k@ == r.headers@[i as int].0@ && v@ == r.headers@[i as int].1@);
            assert(headers_view(headers@) =~= headers_view(before).push((k@, v@)));
            assert(headers_view(r.headers@)[i as int] == (k@, v@));
            assert(headers_view(r.headers@).take(i + 1) =~= headers_view(r.headers@).take(
                i as int,
            ).push(headers_view(r.headers@)[i as int]));
            assert(headers_view(headers@) =~= headers_view(r.headers@).take(i + 1));
        }
        i = i + 1;
    }
    proof {
        assert(headers_view(r.headers@).take(r.headers@.len() as int) =~= headers_view(r.headers@));
    }
    let bytes = crate::bytes::copy_range(r.bytes.as_slice(), 0, r.bytes.len());
    proof {
        assert(r.bytes@.subrange(0, r.bytes@.len() as int) =~= r.bytes@);
    }
    DerivedResponse { headers, bytes }
}

/// The cache key of a derivation context and store address:
/// `borink-cache:<context>:<address>`.
pub open spec fn cache_key_of(derive_ctx: Seq<char>, address: Seq<char>) -> Seq<char> {
    "borink-cache:"@ + derive_ctx + ":"@ + address
}

pub fn cache_key(derive_ctx: &str, address: &StoreAddress) -> (k: String)
    ensures
        k@ == cache_key_of(derive_ctx@, address.0@),
{
    let mut k = String::from_str("borink-cache:");
    k.append(derive_ctx);
    k.append(":");
    k.append(address.as_str());
    k
}

/// A cache of derived responses, by derivation context and store address.
pub trait ResponseCache {
    type Error: Into<CacheErrorKind>;

    /// The cached responses, by cache key.
    open spec fn cached(&self) -> Map<Seq<char>, (Seq<(Seq<char>, Seq<char>)>, Seq<u8>)> {
        Map::empty()
    }

    /// Whether the cache keeps responses as a map does; caches that do not say so are
    /// promised nothing.
    open spec fn obeys_cache() -> bool {
        false
    }

    fn get(&self, derive_ctx: &str, address: &StoreAddress) -> (r: Result<Option<DerivedResponse>, Self::Error>)
        ensures
            Self::obeys_cache() ==> (r matches Ok(o) && match o {
                Some(resp) => self.cached().contains_key(cache_key_of(derive_ctx@, address.0@))
                    && response_view(resp) == self.cached()[cache_key_of(derive_ctx@, address.0@)],
                None => !self.cached().contains_key(cache_key_of(derive_ctx@, address.0@)),
            }),
    ;

    fn insert(&mut self, derive_ctx: &str, address: &StoreAddress, response: DerivedResponse) -> (r: Result<(), Self::Error>)
        ensures
            Self::obeys_cache() ==> (r is Ok && final(self).cached() == old(self).cached().insert(
                cache_key_of(derive_ctx@, address.0@),
                response_view(response),
            )),
    ;
}

/// The responses of a map, as plain values.
pub open spec fn responses_view(m: Map<Seq<char>, DerivedResponse>) -> Map<Seq<char>, (Seq<(Seq<char>, Seq<char>)>, Seq<u8>)> {
    Map::new(|k: Seq<char>| m.contains_key(k), |k: Seq<char>| response_view(m[k]))
}

impl ResponseCache for StringHashMap<DerivedResponse> {
    type Error = Infallible;

    open spec fn cached(&self) -> Map<Seq<char>, (Seq<(Seq<char>, Seq<char>)>, Seq<u8>)> {
        responses_view(self@)
    }

    open spec fn obeys_cache() -> bool {
        true
    }

    fn get(&self, derive_ctx: &str, address: &StoreAddress) -> (r: Result<Option<DerivedResponse>, Self::Error>) {
        let key = cache_key(derive_ctx, address);
        match StringHashMap::get(self, key.as_str()) {
            Some(resp) => Ok(Some(copy_response(resp))),
            None => Ok(None),
        }
    }

    fn insert(&mut self, derive_ctx: &str, address: &StoreAddress, response: DerivedResponse) -> (r: Result<(), Self::Error>) {
        let key = cache_key(derive_ctx, address);
        let ghost old_map = self@;
        let ghost view = response_view(response);
        StringHashMap::insert(self, key, response);
        proof {
            assert(responses_view(self@) =~= responses_view(old_map).insert(
                cache_key_of(derive_ctx@, address.0@),
                view,
            ));
        }
        Ok(())
    }
}

/// An empty map from store addresses to responses.
pub fn response_cache_map() -> (m: HashMap<StoreAddress, DerivedResponse>)
    ensures
        m@ == Map::<StoreAddress, DerivedResponse>::empty(),
{
    HashMap::new()
}

/// An empty response cache held in memory.
pub fn memory_response_cache() -> (m: StringHashMap<DerivedResponse>)
    ensures
        m.cached() == Map::<Seq<char>, (Seq<(Seq<char>, Seq<char>)>, Seq<u8>)>::empty(),
{
    let m = StringHashMap::new();
    proof {
        assert(responses_view(m@) =~= Map::<Seq<char>, (Seq<(Seq<char>, Seq<char>)>, Seq<u8>)>::empty());
    }
    m
}

/// Derives a response from the files of a checked-out path.
pub trait ResourceDeriver {
    /// Whether `r` is what deriving from the files at `path` may give. A plugin that does
    /// not say more promises nothing more.
    open spec fn derives(&self, path: Seq<char>, r: Result<DerivedResponse, DeriveError>) -> bool {
        true
    }

    fn derive(&self, path: &str) -> (r: Result<DerivedResponse, DeriveError>)
        ensures
            self.derives(path@, r),
    ;
}

/// Resolves a Git address to the directory of its files in the store, changing the
/// store only where `mutate_store` allows.
pub trait GitPathResolver: Sized {
    /// Whether `r` is what resolving the Git address (`url`, `commit`, `subpath`) in the
    /// store at `store_dir` may give, where changing the store is allowed or not. A
    /// resolver that does not say more promises nothing more.
    open spec fn resolves(
        &self,
        store_dir: Seq<char>,
        mutate_store: bool,
        url: Seq<char>,
        commit: Seq<char>,
        subpath: Seq<char>,
        r: Result<FinalResolved, GitError>,
    ) -> bool {
        true
    }

    /// Whether `after` holds the store as `before` held it. A resolver that does not say
    /// more promises nothing more.
    open spec fn same_store(before: Self, after: Self) -> bool {
        true
    }

    /// Resolves the address; where changing the store is not allowed, the store is left
    /// as it was.
    fn resolve(&mut self, settings: &ServerSettingsView, mutate_store: bool, address: &GitAddress) -> (r: Result<FinalResolved, GitError>)
        ensures
            old(self).resolves(
                settings.store_dir@,
                mutate_store,
                address.repository_url.0@,
                address.commit_hash.0@,
                address.subpath.0@,
                r,
            ),
            !mutate_store ==> Self::same_store(*old(self), *final(self)),
    ;
}

/// What a derivation leaves, given the cached responses before and after, the cache key
/// of its plugin and address, whether the cache is used, and the response it gave
/// (`None` for an error): with the cache in use, a cached response is given as it is and
/// the cache is left alone; a response given is then cached under the key; an error
/// leaves the cache alone.
pub open spec fn derive_post(
    cached_before: Map<Seq<char>, (Seq<(Seq<char>, Seq<char>)>, Seq<u8>)>,
    cached_after: Map<Seq<char>, (Seq<(Seq<char>, Seq<char>)>, Seq<u8>)>,
    key: Seq<char>,
    use_cache: bool,
    result: Option<(Seq<(Seq<char>, Seq<char>)>, Seq<u8>)>,
) -> bool {
    &&& use_cache && cached_before.contains_key(key) ==> result == Some(cached_before[key])
        && cached_after == cached_before
    &&& result matches Some(v) ==> cached_after.contains_key(key) && cached_after[key] == v
    &&& result is None ==> cached_after == cached_before
}

/// What a derivation does after it has looked in the cache.
pub enum CacheLookup {
    /// The cached response, to be returned as is.
    Hit(DerivedResponse),
    /// No usable cached response: resolve the Git path and derive.
    Miss,
}

/// The cache step of deriving a resource: when the cache is in use and holds a response
/// for the context and address, that response; otherwise a miss.
pub fn derived_resource_lookup<C: ResponseCache>(
    address: &GitAddress,
    derive_ctx: &str,
    use_cache: bool,
    response_cache: &C,
) -> (r: Result<CacheLookup, GitDeriveError>)
    ensures
        !use_cache ==> r matches Ok(CacheLookup::Miss),
        r is Err ==> r matches Err(GitDeriveError::CacheError(_)),
        use_cache && C::obeys_cache() ==> ({
            let key = cache_key_of(
                derive_ctx@,
                crate::git::store_address_of(
                    address.repository_url.0@,
                    address.commit_hash.0@,
                    address.subpath.0@,
                ),
            );
            match r {
                Ok(CacheLookup::Hit(resp)) => response_cache.cached().contains_key(key)
                    && response_view(resp) == response_cache.cached()[key],
                Ok(CacheLookup::Miss) => !response_cache.cached().contains_key(key),
                Err(_) => false,
            }
        }),
{
    if !use_cache {
        return Ok(CacheLookup::Miss);
    }
    let store_address = crate::git::store_address(address);
    match response_cache.get(derive_ctx, &store_address) {
        Ok(Some(result)) => Ok(CacheLookup::Hit(result)),
        Ok(None) => Ok(CacheLookup::Miss),
        Err(e) => Err(GitDeriveError::CacheError(e.into())),
    }
}

/// The derive step of deriving a resource, once the Git path is resolved: runs the
/// deriver on the path and caches what it returns under the context and address.
pub fn derived_resource_at<C: ResponseCache, D: ResourceDeriver>(
    address: &GitAddress,
    derive_ctx: &str,
    path: &str,
    response_cache: &mut C,
    deriver: &D,
) -> (r: Result<DerivedResponse, GitDeriveError>)
    ensures
        C::obeys_cache() ==> match r {
            Ok(resp) => final(response_cache).cached() == old(response_cache).cached().insert(
                cache_key_of(
                    derive_ctx@,
                    crate::git::store_address_of(
                        address.repository_url.0@,
                        address.commit_hash.0@,
                        address.subpath.0@,
                    ),
                ),
                response_view(resp),
            ),
            Err(e) => e is Derive && final(response_cache).cached() == old(
                response_cache,
            ).cached(),
        },
        r matches Ok(resp) ==> deriver.derives(path@, Ok(resp)),
        r matches Err(GitDeriveError::Derive(e)) ==> deriver.derives(path@, Err(e)),
        r is Err ==> (r matches Err(GitDeriveError::Derive(_)) || r matches Err(
            GitDeriveError::CacheError(_),
        )),
{
    let store_address = crate::git::store_address(address);
    let response = match deriver.derive(path) {
        Ok(resp) => resp,
        Err(e) => return Err(GitDeriveError::Derive(e)),
    };
    let stored = copy_response(&response);
    match response_cache.insert(derive_ctx, &store_address, stored) {
        Ok(()) => Ok(response),
        Err(e) => Err(GitDeriveError::CacheError(e.into())),
    }
}

} // verus!

verus! {

/// The directory of a resolved Git address: an absent address is an `Absent` error and
/// Git errors are passed on.
pub fn git_resource_outcome(resolved: Result<FinalResolved, GitError>) -> (r: Result<String, GitDeriveError>)
    ensures
        match resolved {
            Ok(FinalResolved::Path(p)) => r matches Ok(q) && q == p,
            Ok(FinalResolved::Absent) => r matches Err(GitDeriveError::Absent(c)) && (*c.0)@
                == "address is absent"@,
            Err(e) => r == Err::<String, GitDeriveError>(GitDeriveError::Git(e)),
        },
{
    match resolved {
        Ok(FinalResolved::Path(path)) => Ok(path),
        Ok(FinalResolved::Absent) => Err(GitDeriveError::Absent(str_context("address is absent"))),
        Err(e) => Err(GitDeriveError::Git(e)),
    }
}

/// Plugins that derive resources, registered by name.
#[verifier::reject_recursive_types(D)]
pub struct PluginRegistry<D> {
    storage: StringHashMap<D>,
}

impl<D: ResourceDeriver> PluginRegistry<D> {
    /// The registered plugins, by name.
    pub closed spec fn plugins(&self) -> Map<Seq<char>, D> {
        self.storage@
    }

    /// A registry without plugins.
    pub fn new() -> (r: Self)
        ensures
            r.plugins() == Map::<Seq<char>, D>::empty(),
    {
        PluginRegistry { storage: StringHashMap::new() }
    }

    /// Registers a plugin under a name, replacing one registered under it before.
    pub fn register(&mut self, name: &str, deriver: D)
        ensures
            final(self).plugins() == old(self).plugins().insert(name@, deriver),
    {
        self.storage.insert(String::from_str(name), deriver);
    }

    /// Derives a resource with the named plugin: from the cache where it is in use and
    /// holds a response for the plugin and address, else from the files of the address
    /// (resolved by `resolver`), caching the result. An unknown plugin is `PluginNotFound`.
    pub fn derive_with<C: ResponseCache, P: GitPathResolver>(
        &self,
        plugin_name: &str,
        settings: &ServerSettingsView,
        address: &GitAddress,
        use_cache: bool,
        mutate_store: bool,
        response_cache: &mut C,
        resolver: &mut P,
    ) -> (r: Result<DerivedResponse, GitDeriveError>)
        ensures
            !self.plugins().contains_key(plugin_name@) ==> (r matches Err(
                GitDeriveError::Derive(DeriveError::PluginNotFound(c)),
            ) && (*c.0)@ == plugin_name@ && *final(response_cache) == *old(response_cache)),
            C::obeys_cache() && self.plugins().contains_key(plugin_name@) ==> derive_post(
                old(response_cache).cached(),
                final(response_cache).cached(),
                cache_key_of(
                    plugin_name@,
                    crate::git::store_address_of(
                        address.repository_url.0@,
                        address.commit_hash.0@,
                        address.subpath.0@,
                    ),
                ),
                use_cache,
                match r {
                    Ok(resp) => Some(response_view(resp)),
                    Err(_) => None,
                },
            ),
            C::obeys_cache() ==> !(r matches Err(GitDeriveError::CacheError(_))),
            !self.plugins().contains_key(plugin_name@) ==> *final(resolver) == *old(resolver),
            C::obeys_cache() && use_cache && old(response_cache).cached().contains_key(
                cache_key_of(
                    plugin_name@,
                    crate::git::store_address_of(
                        address.repository_url.0@,
                        address.commit_hash.0@,
                        address.subpath.0@,
                    ),
                ),
            ) ==> *final(resolver) == *old(resolver),
            !mutate_store ==> (*final(resolver) == *old(resolver) || P::same_store(
                *old(resolver),
                *final(resolver),
            )),
            self.plugins().contains_key(plugin_name@) ==> (r matches Ok(resp) ==> (*final(resolver)
                == *old(resolver) || exists|p: String|
                old(resolver).resolves(
                    settings.store_dir@,
                    mutate_store,
                    address.repository_url.0@,
                    address.commit_hash.0@,
                    address.subpath.0@,
                    Ok(FinalResolved::Path(p)),
                ) && self.plugins()[plugin_name@].derives(p@, Ok(resp)))),
            C::obeys_cache() && self.plugins().contains_key(plugin_name@) && !(use_cache && old(
                response_cache,
            ).cached().contains_key(
                cache_key_of(
                    plugin_name@,
                    crate::git::store_address_of(
                        address.repository_url.0@,
                        address.commit_hash.0@,
                        address.subpath.0@,
                    ),
                ),
            )) ==> (r matches Ok(resp) ==> exists|p: String|
                old(resolver).resolves(
                    settings.store_dir@,
                    mutate_store,
                    address.repository_url.0@,
                    address.commit_hash.0@,
                    address.subpath.0@,
                    Ok(FinalResolved::Path(p)),
                ) && self.plugins()[plugin_name@].derives(p@, Ok(resp))),
            self.plugins().contains_key(plugin_name@) ==> (r matches Err(GitDeriveError::Derive(e))
                ==> exists|p: Seq<char>| self.plugins()[plugin_name@].derives(p, Err(e))),
            r matches Err(GitDeriveError::Absent(_)) ==> old(resolver).resolves(
                settings.store_dir@,
                mutate_store,
                address.repository_url.0@,
                address.commit_hash.0@,
                address.subpath.0@,
                Ok(FinalResolved::Absent),
            ),
            r matches Err(GitDeriveError::Git(e)) ==> old(resolver).resolves(
                settings.store_dir@,
                mutate_store,
                address.repository_url.0@,
                address.commit_hash.0@,
                address.subpath.0@,
                Err(e),
            ),
    {
        let deriver = match self.plugin(plugin_name) {
            Ok(d) => d,
            Err(e) => return Err(e),
        };
        match derived_resource_lookup(address, plugin_name, use_cache, &*response_cache) {
            Ok(CacheLookup::Hit(resp)) => return Ok(resp),
            Ok(CacheLookup::Miss) => {},
            Err(e) => return Err(e),
        }
        let resolved = resolver.resolve(settings, mutate_store, address);
        let ghost resolved_view = resolved;
        let path = match git_resource_outcome(resolved) {
            Ok(p) => p,
            Err(e) => return Err(e),
        };
        let r = derived_resource_at(address, plugin_name, path.as_str(), response_cache, deriver);
        proof {
            assert(resolved_view == Ok::<FinalResolved, GitError>(FinalResolved::Path(path)));
        }
        r
    }

    /// The plugin registered under a name; `PluginNotFound` with the name when there is
    /// none.
    pub fn plugin(&self, plugin_name: &str) -> (r: Result<&D, GitDeriveError>)
        ensures
            self.plugins().contains_key(plugin_name@) ==> (r matches Ok(d) && *d
                == self.plugins()[plugin_name@]),
            !self.plugins().contains_key(plugin_name@) ==> (r matches Err(
                GitDeriveError::Derive(DeriveError::PluginNotFound(c)),
            ) && (*c.0)@ == plugin_name@),
    {
        match self.storage.get(plugin_name) {
            Some(function) => Ok(function),
            None => Err(GitDeriveError::Derive(DeriveError::PluginNotFound(str_context(plugin_name)))),
        }
    }
}

/// The input file of the Typst plugin, relative to the checked-out path.
pub const TYPST_MAIN_FILE: &'static str = "main.typ";

/// The name the Typst plugin is registered under.
pub const TYPST_PLUGIN_NAME: &'static str = "compile_typst_main";

/// What compiling a Typst document gave: the PDF on success; a plugin error with the
/// output read as text (or a note that it is not UTF-8) when the compiler failed; a
/// plugin error with the message of the error when it could not be run.
pub fn typst_outcome(result: Result<(bool, Vec<u8>), String>) -> (r: Result<Vec<u8>, DeriveError>)
    ensures
        match result {
            Ok((true, out)) => r matches Ok(pdf) && pdf@ == out@,
            Ok((false, out)) => r matches Err(DeriveError::PluginError(c)) && (*c.0)@
                == "Failed to compile Typst! "@ + (if vstd::utf8::valid_utf8(out@) {
                trimmed_end(vstd::utf8::decode_utf8(out@))
            } else {
                "could not decode stderr as utf-8 string"@
            }),
            Err(message) => r matches Err(DeriveError::PluginError(c)) && (*c.0)@
                == "Failed to compile Typst! "@ + message@,
        },
{
    match result {
        Ok((success, out)) => {
            if success {
                Ok(out)
            } else {
                let additional_err = match process_out(out, "err") {
                    Ok(err) => err,
                    Err(_) => String::from_str("could not decode stderr as utf-8 string"),
                };
                let mut message = String::from_str("Failed to compile Typst! ");
                message.append(additional_err.as_str());
                Err(DeriveError::PluginError(ErrorContext::new(message)))
            }
        },
        Err(e) => {
            let mut message = String::from_str("Failed to compile Typst! ");
            message.append(e.as_str());
            Err(DeriveError::PluginError(ErrorContext::new(message)))
        },
    }
}

/// The response of a compiled Typst document: the PDF with its content type.
pub fn pdf_response(out: Vec<u8>) -> (r: DerivedResponse)
    ensures
        headers_view(r.headers@) == seq![("Content-Type"@, "application/pdf"@)],
        r.bytes@ == out@,
{
    let mut headers: Vec<(String, String)> = Vec::new();
    headers.push((String::from_str("Content-Type"), String::from_str("application/pdf")));
    proof {
        assert(headers_view(headers@) =~= seq![("Content-Type"@, "application/pdf"@)]);
    }
    DerivedResponse { headers, bytes: out }
}

/// The metadata prefix of a cached response.
pub const RESPONSE_PREFIX: [u8; 3] = [0x42, 0x44, 0x52];

/// The MessagePack bytes of a list of header pairs.
pub uninterp spec fn msgpack_of_headers(headers: Seq<(Seq<char>, Seq<char>)>) -> Seq<u8>;

/// The header pairs MessagePack bytes hold, or `None` when they hold none.
pub uninterp spec fn headers_of_msgpack(bytes: Seq<u8>) -> Option<Seq<(Seq<char>, Seq<char>)>>;

/// Calls `rmp_serde::to_vec` on the header pairs. Claims: the bytes are the named
/// encoding. (Encoding a vector of string pairs into a vector cannot fail: the writer does
/// not fail and the lengths are known.)
#[verifier::external_body]
fn encode_headers(headers: &Vec<(String, String)>) -> (bytes: Vec<u8>)
    ensures
        bytes@ == msgpack_of_headers(headers_view(headers@)),
{
    rmp_serde::to_vec(headers).expect("encoding string pairs does not fail")
}

/// Calls `rmp_serde::decode::from_slice` for a vector of string pairs. Claims: the result
/// is the named decoding.
#[verifier::external_body]
fn decode_headers(bytes: &[u8]) -> (headers: Option<Vec<(String, String)>>)
    ensures
        match headers_of_msgpack(bytes@) {
            Some(h) => headers matches Some(v) && headers_view(v@) == h,
            None => headers is None,
        },
{
    rmp_serde::decode::from_slice(bytes).ok()
}

/// The metadata a cached response is stored with: the response prefix, no search bytes,
/// and the MessagePack of its headers.
pub fn write_response_meta(headers: &Vec<(String, String)>) -> (meta: Vec<u8>)
    ensures
        meta@ == crate::kv::metadata_layout(
            RESPONSE_PREFIX@,
            Seq::empty(),
            msgpack_of_headers(headers_view(headers@)),
        ),
{
    let buf = encode_headers(headers);
    let empty: [u8; 0] = [];
    proof {
        assert(empty@ =~= Seq::<u8>::empty());
    }
    crate::kv::join_prefix_with_meta(&RESPONSE_PREFIX, empty.as_slice(), Some(buf.as_slice()))
}

/// The headers a cached response's metadata holds; `None` when the metadata is not laid
/// out as metadata or its bytes are not MessagePack of header pairs.
pub fn read_response_meta(meta: &[u8]) -> (headers: Option<Vec<(String, String)>>)
    ensures
        headers matches Some(h) ==> meta@.len() >= 5 && meta@.len() >= 5
            + crate::kv::stored_search_len(meta@) && headers_of_msgpack(
            meta@.skip(5 + crate::kv::stored_search_len(meta@)),
        ) == Some(headers_view(h@)),
        headers is None ==> !(meta@.len() >= 5 && meta@.len() >= 5 + crate::kv::stored_search_len(
            meta@,
        )) || headers_of_msgpack(meta@.skip(5 + crate::kv::stored_search_len(meta@))) is None,
{
    match crate::kv::read_meta(meta) {
        Ok(parts) => decode_headers(parts.meta_bytes.as_slice()),
        Err(_) => None,
    }
}

} // verus!
