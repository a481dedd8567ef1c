use vstd::prelude::*;
use vstd::std_specs::convert::FromSpecImpl;
use vstd::string::StringSliceAdditionalSpecFns;

use crate::auth::spec_bytes_of;
use crate::bytes::{append_bytes, le_bytes_u64, lemma_le_bytes_u64_injective, u64_to_le};
use crate::crypto::{sha256, sha256_digest};
use crate::error::{string_context, str_context, ContextSource, StringContext};
use crate::process::ProcessError;
use crate::text::{
    hex_digit, hex_lower, lemma_hex_lower_index, lemma_hex_lower_len, str_chars, string_of, to_hex,
};

verus! {

/// Whether `c` is an ASCII hexadecimal digit.
pub open spec fn is_hex_char(c: char) -> bool {
    ('0' <= c && c <= '9') || ('a' <= c && c <= 'f') || ('A' <= c && c <= 'F')
}

/// Whether every character of `s` is an ASCII hexadecimal digit.
pub open spec fn all_hex(s: Seq<char>) -> bool {
    forall|i: int| 0 <= i < s.len() ==> is_hex_char(#[trigger] s[i])
}

pub fn is_hexadecimal(s: &str) -> (b: bool)
    ensures
        b == all_hex(s@),
{
    let chars = str_chars(s);
    let mut i: usize = 0;
    while i < chars.len()
        invariant
            i <= chars@.len(),
            chars@ == s@,
            forall|j: int| 0 <= j < i ==> is_hex_char(#[trigger] chars@[j]),
        decreases chars@.len() - i,
    {
        let c = chars[i];
        if !(('0' <= c && c <= '9') || ('a' <= c && c <= 'f') || ('A' <= c && c <= 'F')) {
            return false;
        }
        i = i + 1;
    }
    true
}

/// Whether `s` is a full commit hash: 40 hexadecimal digits.
pub open spec fn is_full_commit(s: Seq<char>) -> bool {
    all_hex(s) && s.len() == 40
}

/// Hex digits are one byte each, so an all-hex text has as many bytes as characters.
pub proof fn lemma_hex_bytes_len(s: Seq<char>)
    requires
        all_hex(s),
    ensures
        vstd::utf8::encode_utf8(s).len() == s.len(),
{
    assert(vstd::utf8::is_ascii_chars(s)) by {
        assert forall|i: int| 0 <= i < s.len() implies (#[trigger] s[i]) as u32 <= 127 by {
            assert(is_hex_char(s[i]));
        }
    }
    vstd::utf8::is_ascii_chars_encode_utf8(s);
}

/// Errors of the Git layer.
#[derive(Debug)]
pub enum GitError {
    NotAllowed(StringContext),
    Failed(StringContext),
    Process(ContextSource<ProcessError>),
    IO(ContextSource<std::io::Error>),
    ParseURL(StringContext),
    InvalidPattern(StringContext),
    InvalidPath(StringContext),
}

/// A repository url.
#[derive(Clone, Debug)]
pub struct GitRepositoryUrl<'a>(pub &'a str);

impl<'a> GitRepositoryUrl<'a> {
    pub fn as_str(&self) -> (s: &str)
        ensures
            s == self.0,
    {
        self.0
    }
}

/// A path inside a repository, relative and without `..` components.
#[derive(Clone, Debug)]
pub struct GitRelativePath<'a>(pub &'a str);

impl<'a> GitRelativePath<'a> {
    pub fn as_str(&self) -> (s: &str)
        ensures
            s == self.0,
    {
        self.0
    }
}

/// An owned path inside a repository, relative and without `..` components.
#[derive(Debug)]
pub struct GitRelativePathBuf(pub String);

impl GitRelativePathBuf {
    pub fn as_ref(&self) -> (p: GitRelativePath<'_>)
        ensures
            p.0@ == self.0@,
    {
        GitRelativePath(self.0.as_str())
    }
}

/// A commit sha together with the Git ref that points to it.
#[derive(Debug)]
pub struct ShaRef {
    pub sha: String,
    pub git_ref: String,
}

/// An owned commit hash: meant to hold the 40 hex digits of a full SHA-1.
#[derive(Clone, Debug)]
pub struct CommitHashBuf(pub String);

impl CommitHashBuf {
    pub fn as_bytes(&self) -> (b: &[u8])
        ensures
            b@ == spec_bytes_of(self.0@),
    {
        self.0.as_str().as_bytes()
    }

    pub fn as_str(&self) -> (s: &str)
        ensures
            s@ == self.0@,
    {
        self.0.as_str()
    }

    pub fn from_string_unchecked(commit_str: String) -> (c: Self)
        ensures
            c.0@ == commit_str@,
    {
        Self(commit_str)
    }

    pub fn borrow(&self) -> (c: CommitHash<'_>)
        ensures
            c.0@ == self.0@,
    {
        CommitHash(self.0.as_str())
    }
}

/// A borrowed commit hash.
#[derive(Clone, Copy, Debug)]
pub struct CommitHash<'a>(pub &'a str);

/// The text given is not a full commit hash.
#[derive(Debug)]
pub struct InvalidCommitHash(pub StringContext);

impl From<InvalidCommitHash> for GitError {
    fn from(value: InvalidCommitHash) -> (r: Self) {
        GitError::InvalidPattern(value.0)
    }
}

impl FromSpecImpl<InvalidCommitHash> for GitError {
    open spec fn obeys_from_spec() -> bool {
        true
    }

    open spec fn from_spec(v: InvalidCommitHash) -> Self {
        GitError::InvalidPattern(v.0)
    }
}

/// The message for a text that is not a full commit hash.
pub open spec fn invalid_commit_message(s: Seq<char>) -> Seq<char> {
    s + " is not hexadecimal and not length 40, invalid commit hash"@
}

impl<'a> CommitHash<'a> {
    pub fn from_str_unchecked(commit_str: &'a str) -> (c: Self)
        ensures
            c.0 == commit_str,
    {
        CommitHash(commit_str)
    }

    pub fn try_from_str(s: &'a str) -> (r: Result<Self, InvalidCommitHash>)
        ensures
            r is Ok <==> is_full_commit(s@),
            r matches Ok(c) ==> c.0 == s,
            r matches Err(e) ==> (*e.0.0)@ == invalid_commit_message(s@),
    {
        let hex = is_hexadecimal(s);
        if hex {
            proof {
                lemma_hex_bytes_len(s@);
            }
        }
        if !hex || s.as_bytes().len() != 40 {
            let mut message = String::from_str(s);
            message.append(" is not hexadecimal and not length 40, invalid commit hash");
            return Err(InvalidCommitHash(string_context(message)));
        }
        Ok(Self::from_str_unchecked(s))
    }

    pub fn as_bytes(&self) -> (b: &[u8])
        ensures
            b@ == self.0.spec_bytes(),
    {
        self.0.as_bytes()
    }

    pub fn as_str(&self) -> (s: &str)
        ensures
            s == self.0,
    {
        self.0
    }

    pub fn to_owned(&self) -> (c: CommitHashBuf)
        ensures
            c.0@ == self.0@,
    {
        CommitHashBuf(String::from_str(self.0))
    }
}

/// A repository, a path inside it and a commit: what a checked-out directory is made of.
#[derive(Debug)]
pub struct GitAddress<'a> {
    pub repository_url: GitRepositoryUrl<'a>,
    pub subpath: GitRelativePath<'a>,
    pub commit_hash: CommitHash<'a>,
}

impl<'a> GitAddress<'a> {
    pub fn new_unchecked(url: &'a str, subpath: &'a str, commit_hash: &'a str) -> (a: GitAddress<'a>)
        ensures
            a.repository_url.0 == url,
            a.subpath.0 == subpath,
            a.commit_hash.0 == commit_hash,
    {
        GitAddress {
            repository_url: GitRepositoryUrl(url),
            subpath: GitRelativePath(subpath),
            commit_hash: CommitHash::from_str_unchecked(commit_hash),
        }
    }
}

/// Every character of a lower-case hex text is a hex digit.
pub proof fn lemma_hex_lower_all_hex(bytes: Seq<u8>)
    ensures
        all_hex(hex_lower(bytes)),
    decreases bytes.len(),
{
    if bytes.len() > 0 {
        lemma_hex_lower_all_hex(bytes.drop_last());
        let prev = hex_lower(bytes.drop_last());
        let hi = bytes.last() / 16;
        let lo = bytes.last() % 16;
        assert(is_hex_char(hex_digit(hi)));
        assert(is_hex_char(hex_digit(lo)));
        assert forall|i: int| 0 <= i < hex_lower(bytes).len() implies is_hex_char(
            #[trigger] hex_lower(bytes)[i],
        ) by {
            if i < prev.len() {
                assert(hex_lower(bytes)[i] == prev[i]);
            }
        }
    }
}

/// The text of the lower-case hex SHA-256 digest of the concatenated UTF-8 bytes.
pub open spec fn hex_digest(data: Seq<u8>) -> Seq<char> {
    hex_lower(sha256(data))
}

/// A single string that uniquely represents a [`GitAddress`]: the hex SHA-256 of its
/// url, commit and subpath.
#[derive(Clone, Debug, PartialEq, Eq, Hash)]
pub struct StoreAddress(pub String);

impl StoreAddress {
    pub fn as_str(&self) -> (s: &str)
        ensures
            s@ == self.0@,
    {
        self.0.as_str()
    }

    pub fn as_bytes(&self) -> (b: &[u8])
        ensures
            b@ == spec_bytes_of(self.0@),
    {
        self.0.as_str().as_bytes()
    }
}

/// The bytes a Git address is hashed from: the url's byte length (8 bytes, little
/// endian) and bytes, the commit's byte length and bytes, then the subpath's bytes. The
/// lengths keep the three parts apart, so that no two addresses share these bytes.
pub open spec fn address_encoding(url: Seq<char>, commit: Seq<char>, subpath: Seq<char>) -> Seq<u8> {
    let u = spec_bytes_of(url);
    let c = spec_bytes_of(commit);
    le_bytes_u64(u.len() as u64) + u + le_bytes_u64(c.len() as u64) + c + spec_bytes_of(subpath)
}

/// The store address of a Git address: the SHA-256 of its encoding, in lower-case hex.
pub open spec fn store_address_of(url: Seq<char>, commit: Seq<char>, subpath: Seq<char>) -> Seq<char> {
    hex_digest(address_encoding(url, commit, subpath))
}

/// Different Git addresses (whose url and commit are shorter than 2^64 bytes) are
/// encoded as different bytes.
pub proof fn lemma_address_encoding_injective(
    u1: Seq<char>,
    c1: Seq<char>,
    s1: Seq<char>,
    u2: Seq<char>,
    c2: Seq<char>,
    s2: Seq<char>,
)
    requires
        spec_bytes_of(u1).len() <= u64::MAX,
        spec_bytes_of(c1).len() <= u64::MAX,
        spec_bytes_of(u2).len() <= u64::MAX,
        spec_bytes_of(c2).len() <= u64::MAX,
        address_encoding(u1, c1, s1) == address_encoding(u2, c2, s2),
    ensures
        u1 == u2,
        c1 == c2,
        s1 == s2,
{
    let e = address_encoding(u1, c1, s1);
    let a1 = spec_bytes_of(u1);
    let a2 = spec_bytes_of(u2);
    let b1 = spec_bytes_of(c1);
    let b2 = spec_bytes_of(c2);
    let l1 = le_bytes_u64(a1.len() as u64);
    let l2 = le_bytes_u64(a2.len() as u64);
    assert(e.subrange(0, 8) =~= l1);
    assert(address_encoding(u2, c2, s2).subrange(0, 8) =~= l2);
    lemma_le_bytes_u64_injective(a1.len() as u64, a2.len() as u64);
    let n = a1.len() as int;
    assert(e.subrange(8, 8 + n) =~= a1);
    assert(address_encoding(u2, c2, s2).subrange(8, 8 + n) =~= a2);
    let m1 = le_bytes_u64(b1.len() as u64);
    let m2 = le_bytes_u64(b2.len() as u64);
    assert(e.subrange(8 + n, 16 + n) =~= m1);
    assert(address_encoding(u2, c2, s2).subrange(8 + n, 16 + n) =~= m2);
    lemma_le_bytes_u64_injective(b1.len() as u64, b2.len() as u64);
    let k = b1.len() as int;
    assert(e.subrange(16 + n, 16 + n + k) =~= b1);
    assert(address_encoding(u2, c2, s2).subrange(16 + n, 16 + n + k) =~= b2);
    assert(e.subrange(16 + n + k, e.len() as int) =~= spec_bytes_of(s1));
    assert(address_encoding(u2, c2, s2).subrange(16 + n + k, e.len() as int) =~= spec_bytes_of(s2));
    vstd::utf8::encode_utf8_decode_utf8(u1);
    vstd::utf8::encode_utf8_decode_utf8(u2);
    vstd::utf8::encode_utf8_decode_utf8(c1);
    vstd::utf8::encode_utf8_decode_utf8(c2);
    vstd::utf8::encode_utf8_decode_utf8(s1);
    vstd::utf8::encode_utf8_decode_utf8(s2);
}

pub fn store_address(address: &GitAddress) -> (s: StoreAddress)
    ensures
        s.0@ == store_address_of(
            address.repository_url.0@,
            address.commit_hash.0@,
            address.subpath.0@,
        ),
        s.0@.len() == 64,
        all_hex(s.0@),
        forall|i: int|
            0 <= i < 64 ==> #[trigger] s.0@[i] == hex_digit(
                if i % 2 == 0 {
                    sha256(
                        address_encoding(
                            address.repository_url.0@,
                            address.commit_hash.0@,
                            address.subpath.0@,
                        ),
                    )[i / 2] / 16
                } else {
                    sha256(
                        address_encoding(
                            address.repository_url.0@,
                            address.commit_hash.0@,
                            address.subpath.0@,
                        ),
                    )[i / 2] % 16
                },
            ),
{
    let url = address.repository_url.0.as_bytes();
    let commit = address.commit_hash.0.as_bytes();
    let mut data: Vec<u8> = Vec::new();
    let url_len = u64_to_le(url.len() as u64);
    append_bytes(&mut data, url_len.as_slice());
    append_bytes(&mut data, url);
    let commit_len = u64_to_le(commit.len() as u64);
    append_bytes(&mut data, commit_len.as_slice());
    append_bytes(&mut data, commit);
    append_bytes(&mut data, address.subpath.0.as_bytes());
    proof {
        assert(data@ =~= address_encoding(
            address.repository_url.0@,
            address.commit_hash.0@,
            address.subpath.0@,
        ));
    }
    let digest = sha256_digest(data.as_slice());
    proof {
        lemma_hex_lower_len(digest@);
        lemma_hex_lower_all_hex(digest@);
        assert forall|i: int| 0 <= i < 64 implies #[trigger] hex_lower(digest@)[i] == hex_digit(
            if i % 2 == 0 {
                digest@[i / 2] / 16
            } else {
                digest@[i / 2] % 16
            },
        ) by {
            lemma_hex_lower_index(digest@, i);
        }
    }
    StoreAddress(to_hex(digest.as_slice()))
}

/// The directory name a repository and subpath are stored under: the first 24 hex digits
/// of the SHA-256 of the url and subpath.
pub open spec fn store_repo_path_of(url: Seq<char>, subpath: Seq<char>) -> Seq<char> {
    hex_digest(spec_bytes_of(url) + spec_bytes_of(subpath)).take(24)
}

pub fn store_repo_path(repo_url: &GitRepositoryUrl, subpath: &GitRelativePath) -> (p: GitRelativePathBuf)
    ensures
        p.0@ == store_repo_path_of(repo_url.0@, subpath.0@),
        p.0@.len() == 24,
        all_hex(p.0@),
        forall|i: int|
            0 <= i < 24 ==> #[trigger] p.0@[i] == hex_digit(
                if i % 2 == 0 {
                    sha256(spec_bytes_of(repo_url.0@) + spec_bytes_of(subpath.0@))[i / 2] / 16
                } else {
                    sha256(spec_bytes_of(repo_url.0@) + spec_bytes_of(subpath.0@))[i / 2] % 16
                },
            ),
{
    let mut data: Vec<u8> = Vec::new();
    append_bytes(&mut data, repo_url.0.as_bytes());
    append_bytes(&mut data, subpath.0.as_bytes());
    let digest = sha256_digest(data.as_slice());
    let hex = to_hex(digest.as_slice());
    let chars = str_chars(hex.as_str());
    proof {
        lemma_hex_lower_len(sha256(data@));
        lemma_hex_lower_all_hex(sha256(data@));
    }
    let mut short: Vec<char> = Vec::new();
    let mut i: usize = 0;
    while i < 24
        invariant
            i <= 24,
            chars@.len() >= 24,
            short@ == chars@.take(i as int),
        decreases 24 - i,
    {
        short.push(chars[i]);
        proof {
            assert(chars@.take(i + 1) =~= chars@.take(i as int).push(chars@[i as int]));
        }
        i = i + 1;
    }
    proof {
        let b = spec_bytes_of(repo_url.0@) + spec_bytes_of(subpath.0@);
        assert(data@ == b);
        assert forall|i: int| 0 <= i < 24 implies #[trigger] chars@.take(24)[i] == hex_digit(
            if i % 2 == 0 {
                sha256(b)[i / 2] / 16
            } else {
                sha256(b)[i / 2] % 16
            },
        ) by {
            lemma_hex_lower_index(sha256(b), i);
        }
    }
    GitRelativePathBuf(string_of(&short))
}


/// The text after the last `c`, or all of it when there is none.
pub open spec fn after_last(s: Seq<char>, c: char) -> Seq<char>
    decreases s.len(),
{
    if s.len() == 0 {
        s
    } else if s.last() == c {
        Seq::empty()
    } else {
        after_last(s.drop_last(), c).push(s.last())
    }
}

/// The text before the first `c`, or all of it when there is none.
pub open spec fn before_first(s: Seq<char>, c: char) -> Seq<char>
    decreases s.len(),
{
    if s.len() == 0 {
        s
    } else if s[0] == c {
        Seq::empty()
    } else {
        seq![s[0]] + before_first(s.drop_first(), c)
    }
}

/// The text without one trailing `/`.
pub open spec fn strip_slash(s: Seq<char>) -> Seq<char> {
    if s.len() > 0 && s.last() == '/' {
        s.drop_last()
    } else {
        s
    }
}

/// The name of a repository url: its last path segment up to the first `.`.
pub open spec fn url_name(url: Seq<char>) -> Seq<char> {
    before_first(after_last(strip_slash(url), '/'), '.')
}

/// Returns a name for a Git url: the last path segment without what follows its first
/// `.` (so `https://host/group/repo.git` gives `repo`).
pub fn parse_url_name(url: &str) -> (r: Result<String, GitError>)
    ensures
        r matches Ok(name) && name@ == url_name(url@),
{
    let chars = str_chars(url);
    let n = chars.len();
    let end = if n > 0 && chars[n - 1] == '/' {
        n - 1
    } else {
        n
    };
    let ghost stripped = strip_slash(url@);
    proof {
        assert(stripped =~= chars@.take(end as int));
    }
    let mut start = end;
    proof {
        assert(chars@.subrange(end as int, end as int) =~= Seq::<char>::empty());
        assert(chars@.take(end as int) =~= chars@.take(end as int));
    }
    while start > 0 && chars[start - 1] != '/'
        invariant
            start <= end <= n,
            n == chars@.len(),
            stripped == chars@.take(end as int),
            after_last(stripped, '/') == after_last(chars@.take(start as int), '/') + chars@.subrange(
                start as int,
                end as int,
            ),
        decreases start,
    {
        proof {
            let t = chars@.take(start as int);
            assert(t.drop_last() =~= chars@.take(start - 1));
            assert(chars@.subrange(start - 1, end as int) =~= seq![t.last()] + chars@.subrange(
                start as int,
                end as int,
            ));
            assert(after_last(t, '/') == after_last(t.drop_last(), '/').push(t.last()));
            assert(after_last(t.drop_last(), '/').push(t.last()) + chars@.subrange(
                start as int,
                end as int,
            ) =~= after_last(t.drop_last(), '/') + chars@.subrange(start - 1, end as int));
        }
        start = start - 1;
    }
    proof {
        assert(after_last(chars@.take(start as int), '/') =~= Seq::<char>::empty());
        assert(after_last(stripped, '/') =~= chars@.subrange(start as int, end as int));
    }
    let ghost last = chars@.subrange(start as int, end as int);
    let mut stop = start;
    proof {
        assert(last.skip(0) =~= last);
    }
    while stop < end && chars[stop] != '.'
        invariant
            start <= stop <= end <= n,
            n == chars@.len(),
            last == chars@.subrange(start as int, end as int),
            before_first(last, '.') == chars@.subrange(start as int, stop as int) + before_first(
                last.skip(stop - start),
                '.',
            ),
        decreases end - stop,
    {
        proof {
            let t = last.skip(stop - start);
            assert(t[0] == chars@[stop as int]);
            assert(t.drop_first() =~= last.skip(stop + 1 - start));
            assert(chars@.subrange(start as int, stop + 1) =~= chars@.subrange(
                start as int,
                stop as int,
            ).push(chars@[stop as int]));
            assert(chars@.subrange(start as int, stop as int) + (seq![t[0]] + before_first(
                t.drop_first(),
                '.',
            )) =~= chars@.subrange(start as int, stop + 1) + before_first(t.drop_first(), '.'));
        }
        stop = stop + 1;
    }
    proof {
        let t = last.skip(stop - start);
        if stop < end {
            assert(t[0] == '.');
        } else {
            assert(t =~= Seq::<char>::empty());
        }
        assert(before_first(t, '.') =~= Seq::<char>::empty());
        assert(before_first(last, '.') =~= chars@.subrange(start as int, stop as int));
    }
    let mut name: Vec<char> = Vec::new();
    let mut i = start;
    while i < stop
        invariant
            start <= i <= stop <= n,
            n == chars@.len(),
            name@ == chars@.subrange(start as int, i as int),
        decreases stop - i,
    {
        name.push(chars[i]);
        proof {
            assert(chars@.subrange(start as int, i + 1) =~= chars@.subrange(start as int, i as int).push(
                chars@[i as int],
            ));
        }
        i = i + 1;
    }
    Ok(string_of(&name))
}

/// The last `n` characters of `input`.
pub fn str_last_n(input: &str, n: usize) -> (s: String)
    requires
        1 <= n <= input@.len(),
    ensures
        s@ == input@.subrange(input@.len() - n, input@.len() as int),
{
    let chars = str_chars(input);
    let len = chars.len();
    let first = len - n;
    let mut out: Vec<char> = Vec::new();
    let mut i = first;
    while i < len
        invariant
            first <= i <= len,
            len == chars@.len(),
            first == len - n,
            chars@ == input@,
            out@ == chars@.subrange(first as int, i as int),
        decreases len - i,
    {
        out.push(chars[i]);
        proof {
            assert(chars@.subrange(first as int, i + 1) =~= chars@.subrange(first as int, i as int).push(
                chars@[i as int],
            ));
        }
        i = i + 1;
    }
    string_of(&out)
}

/// The path `relative_path::RelativePath::normalize` makes of `s`: `.` components removed
/// and `..` components resolved where they can be.
pub uninterp spec fn relative_path_normalize(s: Seq<char>) -> Seq<char>;

/// For each component `relative_path::RelativePath::components` yields for `s`, whether
/// it is a parent (`..`) component.
pub uninterp spec fn relative_path_parent_flags(s: Seq<char>) -> Seq<bool>;

/// Whether one of the components of `s` is a parent (`..`) component.
pub open spec fn relative_path_has_parent(s: Seq<char>) -> bool {
    exists|i: int| 0 <= i < relative_path_parent_flags(s).len() && #[trigger] relative_path_parent_flags(s)[i]
}

/// Calls `RelativePath::new(s).normalize()` and takes the string. Claims: the result is
/// the named normal form of `s`.
#[verifier::external_body]
fn normalize_relative(s: &str) -> (n: String)
    ensures
        n@ == relative_path_normalize(s@),
{
    relative_path::RelativePath::new(s).normalize().into_string()
}

/// Calls `RelativePath::new(s).components()` and tells of each component whether it is
/// `Component::ParentDir`. Claims: the flags are the named ones.
#[verifier::external_body]
fn parent_flags(s: &str) -> (flags: Vec<bool>)
    ensures
        flags@ == relative_path_parent_flags(s@),
{
    relative_path::RelativePath::new(s).components().map(|c| c == relative_path::Component::ParentDir).collect()
}

/// Whether one of the components of `s` is a parent (`..`) component.
fn has_parent_component(s: &str) -> (b: bool)
    ensures
        b == relative_path_has_parent(s@),
{
    let flags = parent_flags(s);
    let mut i: usize = 0;
    while i < flags.len()
        invariant
            flags@ == relative_path_parent_flags(s@),
            i <= flags@.len(),
            forall|j: int| 0 <= j < i ==> !flags@[j],
        decreases flags@.len() - i,
    {
        if flags[i] {
            return true;
        }
        i = i + 1;
    }
    false
}

/// Normalizes a path inside a repository; refuses one whose normal form still goes up
/// with `..`.
pub fn process_subpath(subpath: &str) -> (r: Result<GitRelativePathBuf, GitError>)
    ensures
        r is Ok <==> !relative_path_has_parent(relative_path_normalize(subpath@)),
        r matches Ok(p) ==> p.0@ == relative_path_normalize(subpath@),
        r matches Err(e) ==> (e matches GitError::InvalidPath(c) && (*c.0)@
            == relative_path_normalize(subpath@)),
{
    let normalized = normalize_relative(subpath);
    let contains_parent = has_parent_component(normalized.as_str());
    if contains_parent {
        return Err(GitError::InvalidPath(str_context(normalized.as_str())));
    }
    Ok(GitRelativePathBuf(normalized))
}

} // verus!
