use vstd::prelude::*;

use crate::git::CommitHashBuf;
use crate::git_call::{chars_start_with, ends_with, starts_with};
use crate::text::{str_chars, string_of};

verus! {

/// The header that carries the commit for a ref.
pub const PATTERN_VALUE_HEADER: &'static str = "borink-git-pattern-value";

/// The header that carries the client's key.
pub const CLIENT_KEY_HEADER: &'static str = "borink-git-derive-key";

/// One request that tells a server the commit of a ref: its url and headers.
pub struct SyncRequest {
    pub url: String,
    pub headers: Vec<(String, String)>,
}

/// The texts of a list of headers.
pub open spec fn header_texts(h: Seq<(String, String)>) -> Seq<(Seq<char>, Seq<char>)> {
    h.map_values(|p: (String, String)| (p.0@, p.1@))
}

/// The request for a ref: `<base_url>/<ref>`, with the commit in the pattern value header
/// and the key (when given) in the key header.
pub fn sync_request(base_url: &str, git_ref: &str, commit: &str, key: Option<&str>) -> (r: SyncRequest)
    ensures
        r.url@ == base_url@ + "/"@ + git_ref@,
        header_texts(r.headers@) == (match key {
            Some(k) => seq![(PATTERN_VALUE_HEADER@, commit@), (CLIENT_KEY_HEADER@, k@)],
            None => seq![(PATTERN_VALUE_HEADER@, commit@)],
        }),
{
    let mut url = String::from_str(base_url);
    url.append("/");
    url.append(git_ref);
    let mut headers: Vec<(String, String)> = Vec::new();
    headers.push((String::from_str(PATTERN_VALUE_HEADER), String::from_str(commit)));
    match key {
        Some(k) => {
            headers.push((String::from_str(CLIENT_KEY_HEADER), String::from_str(k)));
            proof {
                assert(header_texts(headers@) =~= seq![
                    (PATTERN_VALUE_HEADER@, commit@),
                    (CLIENT_KEY_HEADER@, k@),
                ]);
            }
        },
        None => {
            proof {
                assert(header_texts(headers@) =~= seq![(PATTERN_VALUE_HEADER@, commit@)]);
            }
        },
    }
    SyncRequest { url, headers }
}

/// The second name a ref is synced under: for a ref under `refs/tags/` or `refs/heads/`,
/// what precedes that same text at its end, where it ends with it.
pub open spec fn ref_alias(git_ref: Seq<char>) -> Option<Seq<char>> {
    let marker = if starts_with(git_ref, "refs/tags/"@) {
        Some("refs/tags/"@)
    } else if starts_with(git_ref, "refs/heads/"@) {
        Some("refs/heads/"@)
    } else {
        None
    };
    match marker {
        Some(m) => if ends_with(git_ref, m) {
            Some(git_ref.take(git_ref.len() - m.len()))
        } else {
            None
        },
        None => None,
    }
}

fn chars_end_with(s: &Vec<char>, p: &Vec<char>) -> (b: bool)
    ensures
        b == ends_with(s@, p@),
{
    if p.len() > s.len() {
        return false;
    }
    let n = s.len();
    let off = n - p.len();
    let mut i: usize = 0;
    while i < p.len()
        invariant
            n == s@.len(),
            i <= p@.len() <= s@.len(),
            off == s@.len() - p@.len(),
            forall|k: int| 0 <= k < i ==> s@[off + k] == p@[k],
        decreases p@.len() - i,
    {
        if s[off + i] != p[i] {
            proof {
                assert(s@.skip(off as int)[i as int] != p@[i as int]);
            }
            return false;
        }
        i = i + 1;
    }
    proof {
        assert(s@.skip(off as int) =~= p@);
    }
    true
}

/// The second name a ref is synced under, if any; see [`ref_alias`].
pub fn alias_of_ref(git_ref: &str) -> (r: Option<String>)
    ensures
        match ref_alias(git_ref@) {
            Some(a) => r matches Some(s) && s@ == a,
            None => r is None,
        },
{
    let chars = str_chars(git_ref);
    let tags = str_chars("refs/tags/");
    let heads = str_chars("refs/heads/");
    let marker = if chars_start_with(&chars, &tags) {
        tags
    } else if chars_start_with(&chars, &heads) {
        heads
    } else {
        return None;
    };
    if !chars_end_with(&chars, &marker) {
        return None;
    }
    let keep = chars.len() - marker.len();
    let mut out: Vec<char> = Vec::new();
    let mut i: usize = 0;
    while i < keep
        invariant
            keep <= chars@.len(),
            i <= keep,
            out@ == chars@.take(i as int),
        decreases keep - i,
    {
        out.push(chars[i]);
        proof {
            assert(chars@.take(i + 1) =~= chars@.take(i as int).push(chars@[i as int]));
        }
        i = i + 1;
    }
    Some(string_of(&out))
}

/// A request as plain values: its url and header texts.
pub open spec fn request_view(r: SyncRequest) -> (Seq<char>, Seq<(Seq<char>, Seq<char>)>) {
    (r.url@, header_texts(r.headers@))
}

/// The url and headers of the request for a ref.
pub open spec fn request_of(base_url: Seq<char>, git_ref: Seq<char>, commit: Seq<char>, key: Option<Seq<char>>) -> (Seq<char>, Seq<(Seq<char>, Seq<char>)>) {
    (
        base_url + "/"@ + git_ref,
        match key {
            Some(k) => seq![(PATTERN_VALUE_HEADER@, commit), (CLIENT_KEY_HEADER@, k)],
            None => seq![(PATTERN_VALUE_HEADER@, commit)],
        },
    )
}

/// The requests that sync refs and their commits, in order: for each ref, one under its
/// full name, then one under its alias where it has one.
pub open spec fn sync_plan_of(base_url: Seq<char>, commits: Seq<(Seq<char>, Seq<char>)>, key: Option<Seq<char>>) -> Seq<(Seq<char>, Seq<(Seq<char>, Seq<char>)>)>
    decreases commits.len(),
{
    if commits.len() == 0 {
        Seq::empty()
    } else {
        let (git_ref, commit) = commits.last();
        let before = sync_plan_of(base_url, commits.drop_last(), key).push(
            request_of(base_url, git_ref, commit, key),
        );
        match ref_alias(git_ref) {
            Some(alias) => before.push(request_of(base_url, alias, commit, key)),
            None => before,
        }
    }
}

/// The texts of refs and their commits.
pub open spec fn commit_pairs(v: Seq<(String, CommitHashBuf)>) -> Seq<(Seq<char>, Seq<char>)> {
    v.map_values(|p: (String, CommitHashBuf)| (p.0@, p.1.0@))
}

/// The requests of a plan as plain values.
pub open spec fn plan_view(v: Seq<SyncRequest>) -> Seq<(Seq<char>, Seq<(Seq<char>, Seq<char>)>)> {
    v.map_values(|r: SyncRequest| request_view(r))
}

/// The requests that sync a list of refs and their commits; see [`sync_plan_of`].
pub fn sync_plan(base_url: &str, commits: &Vec<(String, CommitHashBuf)>, key: Option<&str>) -> (plan: Vec<SyncRequest>)
    ensures
        plan_view(plan@) == sync_plan_of(
            base_url@,
            commit_pairs(commits@),
            match key {
                Some(k) => Some(k@),
                None => None,
            },
        ),
{
    let ghost k = match key {
        Some(k) => Some(k@),
        None => None,
    };
    let ghost all = commit_pairs(commits@);
    let mut plan: Vec<SyncRequest> = Vec::new();
    let mut i: usize = 0;
    proof {
        assert(all.take(0) =~= Seq::<(Seq<char>, Seq<char>)>::empty());
        assert(plan_view(plan@) =~= Seq::<(Seq<char>, Seq<(Seq<char>, Seq<char>)>)>::empty());
    }
    while i < commits.len()
        invariant
            i <= commits@.len(),
            all == commit_pairs(commits@),
            k == (match key {
                Some(k) => Some(k@),
                None => None::<Seq<char>>,
            }),
            plan_view(plan@) == sync_plan_of(base_url@, all.take(i as int), k),
        decreases commits@.len() - i,
    {
        let git_ref = commits[i].0.as_str();
        let commit = commits[i].1.as_str();
        proof {
            assert(all.take(i + 1).drop_last() =~= all.take(i as int));
            assert(all.take(i + 1).last() == (git_ref@, commit@));
        }
        let ghost before = plan_view(plan@);
        let first = sync_request(base_url, git_ref, commit, key);
        let ghost first_view = request_view(first);
        plan.push(first);
        proof {
            assert(plan_view(plan@) =~= before.push(first_view));
        }
        match alias_of_ref(git_ref) {
            Some(alias) => {
                let ghost mid = plan_view(plan@);
                let second = sync_request(base_url, alias.as_str(), commit, key);
                let ghost second_view = request_view(second);
                plan.push(second);
                proof {
                    assert(plan_view(plan@) =~= mid.push(second_view));
                }
            },
            None => {},
        }
        i = i + 1;
    }
    proof {
        assert(all.take(commits@.len() as int) =~= all);
    }
    plan
}

} // verus!
