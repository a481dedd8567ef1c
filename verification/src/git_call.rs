use vstd::prelude::*;

use crate::error::{string_context, ContextSource};
use crate::git::{CommitHashBuf, GitError};
use crate::process::ProcessError;
use crate::text::{
    is_unicode_whitespace, is_whitespace, parts_view, split_chars, split_on, str_chars, string_of,
    trim_end_chars, trimmed_end, trimmed_start,
};

verus! {

/// The Git arguments of a partial, sparse clone of `repository` into `directory`: a
/// treeless clone (`--filter=tree:0`) in sparse mode that checks nothing out.
pub fn clone_args(repository: &str, directory: &str) -> (args: Vec<String>)
    ensures
        args@.len() == 6,
        args@[0]@ == "clone"@,
        args@[1]@ == "--filter=tree:0"@,
        args@[2]@ == "--sparse"@,
        args@[3]@ == "--no-checkout"@,
        args@[4]@ == repository@,
        args@[5]@ == directory@,
{
    let mut args: Vec<String> = Vec::new();
    args.push(String::from_str("clone"));
    args.push(String::from_str("--filter=tree:0"));
    args.push(String::from_str("--sparse"));
    args.push(String::from_str("--no-checkout"));
    args.push(String::from_str(repository));
    args.push(String::from_str(directory));
    args
}

/// The Git arguments of the sparse checkout after a clone: only `subpath` (in cone mode,
/// with a sparse index) when one is given and not empty, else everything.
pub fn sparse_checkout_args(subpath: Option<&str>) -> (args: Vec<String>)
    ensures
        match subpath {
            Some(s) if s@.len() > 0 => args@.len() == 6 && args@[0]@ == "sparse-checkout"@
                && args@[1]@ == "set"@ && args@[2]@ == "--cone"@ && args@[3]@
                == "--sparse-index"@ && args@[4]@ == "--end-of-options"@ && args@[5]@ == s@,
            _ => args@.len() == 2 && args@[0]@ == "sparse-checkout"@ && args@[1]@ == "disable"@,
        },
{
    let mut args: Vec<String> = Vec::new();
    args.push(String::from_str("sparse-checkout"));
    match subpath {
        Some(s) => {
            if !s.is_empty() {
                args.push(String::from_str("set"));
                args.push(String::from_str("--cone"));
                args.push(String::from_str("--sparse-index"));
                args.push(String::from_str("--end-of-options"));
                args.push(String::from_str(s));
                return args;
            }
        },
        None => {},
    }
    args.push(String::from_str("disable"));
    args
}

/// The Git arguments of `ls-remote` for a remote (`origin` when none is given) and an
/// optional pattern.
pub fn ls_remote_args(remote: Option<&str>, pattern: Option<&str>) -> (args: Vec<String>)
    ensures
        args@.len() == (if pattern is Some { 3int } else { 2int }),
        args@[0]@ == "ls-remote"@,
        args@[1]@ == match remote {
            Some(r) => r@,
            None => "origin"@,
        },
        pattern matches Some(p) ==> args@[2]@ == p@,
{
    let mut args: Vec<String> = Vec::new();
    args.push(String::from_str("ls-remote"));
    match remote {
        Some(r) => args.push(String::from_str(r)),
        None => args.push(String::from_str("origin")),
    }
    match pattern {
        Some(p) => args.push(String::from_str(p)),
        None => {},
    }
    args
}

/// What running Git gave: its output when it exited successfully, a `Failed` error with
/// its output when it did not, and a `Process` error naming the operation when it could
/// not be run.
pub fn git_output(result: Result<(bool, String), ProcessError>, op_name: &str) -> (r: Result<String, GitError>)
    ensures
        match result {
            Ok((true, out)) => r matches Ok(s) && s@ == out@,
            Ok((false, out)) => r matches Err(GitError::Failed(c)) && (*c.0)@ == out@,
            Err(_) => r matches Err(GitError::Process(c)) && (*c.0).0@ == "Git operation "@ + op_name@
                + " failed."@,
        },
{
    match result {
        Ok((success, out)) => {
            if success {
                Ok(out)
            } else {
                Err(GitError::Failed(string_context(out)))
            }
        },
        Err(err) => {
            let mut message = String::from_str("Git operation ");
            message.append(op_name);
            message.append(" failed.");
            Err(GitError::Process(ContextSource(Box::new((message, err)))))
        },
    }
}

/// Whether a commit exists, from the result of `git cat-file -e`: success means it does,
/// a failed run means it does not, other errors are passed on.
pub fn commit_exists_outcome(result: Result<String, GitError>) -> (r: Result<bool, GitError>)
    ensures
        match result {
            Ok(_) => r == Ok::<bool, GitError>(true),
            Err(GitError::Failed(_)) => r == Ok::<bool, GitError>(false),
            Err(_) => r is Err,
        },
{
    match result {
        Ok(_) => Ok(true),
        Err(GitError::Failed(_)) => Ok(false),
        Err(e) => Err(e),
    }
}

} // verus!

verus! {

/// The text without leading and trailing whitespace (what `str::trim` gives).
pub open spec fn trimmed(s: Seq<char>) -> Seq<char> {
    trimmed_start(trimmed_end(s))
}

/// The pieces of `s` between whitespace characters, empty ones included.
pub open spec fn ws_split(s: Seq<char>) -> Seq<Seq<char>>
    decreases s.len(),
{
    if s.len() == 0 {
        seq![Seq::empty()]
    } else {
        let parts = ws_split(s.drop_last());
        if is_unicode_whitespace(s.last()) {
            parts.push(Seq::empty())
        } else {
            parts.update(parts.len() - 1, parts.last().push(s.last()))
        }
    }
}

/// The non-empty pieces, in order.
pub open spec fn non_empty(parts: Seq<Seq<char>>) -> Seq<Seq<char>>
    decreases parts.len(),
{
    if parts.len() == 0 {
        parts
    } else if parts.last().len() > 0 {
        non_empty(parts.drop_last()).push(parts.last())
    } else {
        non_empty(parts.drop_last())
    }
}

/// The whitespace-separated words of `s` (what `str::split_whitespace` yields).
pub open spec fn words(s: Seq<char>) -> Seq<Seq<char>> {
    non_empty(ws_split(s))
}

/// The lines of the trimmed output, none when it is empty.
pub open spec fn output_lines(out: Seq<char>) -> Seq<Seq<char>> {
    if trimmed(out).len() == 0 {
        Seq::empty()
    } else {
        split_on(trimmed(out), '\n')
    }
}

/// Each line read as a commit and a ref, or `None` when a line is not two words.
pub open spec fn parse_sha_refs(lines: Seq<Seq<char>>) -> Option<Seq<(Seq<char>, Seq<char>)>>
    decreases lines.len(),
{
    if lines.len() == 0 {
        Some(Seq::empty())
    } else {
        match parse_sha_refs(lines.drop_last()) {
            Some(prev) => {
                let w = words(lines.last());
                if w.len() == 2 {
                    Some(prev.push((w[0], w[1])))
                } else {
                    None
                }
            },
            None => None,
        }
    }
}

/// Whether `pat` occurs in `s`.
pub open spec fn contains_sub(s: Seq<char>, pat: Seq<char>) -> bool {
    exists|i: int| 0 <= i && i + pat.len() <= s.len() && #[trigger] s.subrange(i, i + pat.len()) == pat
}

/// The sha-ref pairs whose ref does not mention `refs/remotes`, in order.
pub open spec fn drop_remote_refs(refs: Seq<(Seq<char>, Seq<char>)>) -> Seq<(Seq<char>, Seq<char>)>
    decreases refs.len(),
{
    if refs.len() == 0 {
        refs
    } else if contains_sub(refs.last().1, "refs/remotes"@) {
        drop_remote_refs(refs.drop_last())
    } else {
        drop_remote_refs(refs.drop_last()).push(refs.last())
    }
}

/// Lexicographic order of texts by character.
pub open spec fn text_le(a: Seq<char>, b: Seq<char>) -> bool
    decreases a.len(),
{
    if a.len() == 0 {
        true
    } else if b.len() == 0 {
        false
    } else if a[0] != b[0] {
        (a[0] as u32) < (b[0] as u32)
    } else {
        text_le(a.drop_first(), b.drop_first())
    }
}

/// `x` inserted into `sorted` after every pair whose ref is not greater than its own.
pub open spec fn insert_by_ref(sorted: Seq<(Seq<char>, Seq<char>)>, x: (Seq<char>, Seq<char>)) -> Seq<(Seq<char>, Seq<char>)>
    decreases sorted.len(),
{
    if sorted.len() == 0 {
        seq![x]
    } else if text_le(sorted.last().1, x.1) {
        sorted.push(x)
    } else {
        insert_by_ref(sorted.drop_last(), x).push(sorted.last())
    }
}

/// The pairs sorted by ref, pairs with equal refs kept in their order.
pub open spec fn sort_by_ref(refs: Seq<(Seq<char>, Seq<char>)>) -> Seq<(Seq<char>, Seq<char>)>
    decreases refs.len(),
{
    if refs.len() == 0 {
        refs
    } else {
        insert_by_ref(sort_by_ref(refs.drop_last()), refs.last())
    }
}

/// Whether `s` starts with `p`.
pub open spec fn starts_with(s: Seq<char>, p: Seq<char>) -> bool {
    p.len() <= s.len() && s.take(p.len() as int) == p
}

/// Whether `s` ends with `p`.
pub open spec fn ends_with(s: Seq<char>, p: Seq<char>) -> bool {
    p.len() <= s.len() && s.skip(s.len() - p.len()) == p
}

/// The pairs whose ref is not a peeled tag (does not end with `^{}`), in order.
pub open spec fn drop_peeled_refs(refs: Seq<(Seq<char>, Seq<char>)>) -> Seq<(Seq<char>, Seq<char>)>
    decreases refs.len(),
{
    if refs.len() == 0 {
        refs
    } else if ends_with(refs.last().1, "^{}"@) {
        drop_peeled_refs(refs.drop_last())
    } else {
        drop_peeled_refs(refs.drop_last()).push(refs.last())
    }
}

/// The sha of the first pair whose ref is `name^{}` (the commit an annotated tag points
/// to), or `own` when there is none.
pub open spec fn peeled_sha(refs: Seq<(Seq<char>, Seq<char>)>, name: Seq<char>, own: Seq<char>) -> Seq<char>
    decreases refs.len(),
{
    if refs.len() == 0 {
        own
    } else if refs[0].1 == name + "^{}"@ {
        refs[0].0
    } else {
        peeled_sha(refs.drop_first(), name, own)
    }
}

/// Each (sha, ref) of `bases` as (ref, sha), the sha being that of the ref's peeled form
/// in `refs` where there is one.
pub open spec fn with_peeled(bases: Seq<(Seq<char>, Seq<char>)>, refs: Seq<(Seq<char>, Seq<char>)>) -> Seq<(Seq<char>, Seq<char>)> {
    Seq::new(bases.len(), |i: int| (bases[i].1, peeled_sha(refs, bases[i].1, bases[i].0)))
}

/// The sha-ref pairs that `git ls-remote` output lists, without remote-tracking refs.
pub open spec fn listed_refs(out: Seq<char>) -> Seq<(Seq<char>, Seq<char>)> {
    drop_remote_refs(parse_sha_refs(output_lines(out))->0)
}

/// What `git ls-remote` output stands for: each listed ref that is not a peeled form
/// with its commit, sorted by ref, without remote-tracking refs; an annotated tag gets
/// the commit of its peeled form (`<ref>^{}`); or `None` when a line is not a commit and
/// a ref.
pub open spec fn ls_remote_refs(out: Seq<char>) -> Option<Seq<(Seq<char>, Seq<char>)>> {
    match parse_sha_refs(output_lines(out)) {
        Some(refs) => {
            let local = drop_remote_refs(refs);
            Some(with_peeled(sort_by_ref(drop_peeled_refs(local)), local))
        },
        None => None,
    }
}

/// The texts of a list of ref-commit pairs.
pub open spec fn ref_commits_view(v: Seq<(String, CommitHashBuf)>) -> Seq<(Seq<char>, Seq<char>)> {
    v.map_values(|p: (String, CommitHashBuf)| (p.0@, p.1.0@))
}

/// The texts of a list of character-vector pairs.
pub open spec fn pairs_view(v: Seq<(Vec<char>, Vec<char>)>) -> Seq<(Seq<char>, Seq<char>)> {
    v.map_values(|p: (Vec<char>, Vec<char>)| (p.0@, p.1@))
}

fn trim_start_chars(chars: &Vec<char>) -> (r: Vec<char>)
    ensures
        r@ == trimmed_start(chars@),
{
    let mut k: usize = 0;
    proof {
        assert(chars@.skip(0) =~= chars@);
    }
    while k < chars.len() && is_whitespace(chars[k])
        invariant
            k <= chars@.len(),
            trimmed_start(chars@) == trimmed_start(chars@.skip(k as int)),
        decreases chars@.len() - k,
    {
        proof {
            assert(chars@.skip(k as int).drop_first() =~= chars@.skip(k + 1));
        }
        k = k + 1;
    }
    let mut r: Vec<char> = Vec::new();
    let mut i = k;
    while i < chars.len()
        invariant
            k <= i <= chars@.len(),
            r@ == chars@.subrange(k as int, i as int),
        decreases chars@.len() - i,
    {
        r.push(chars[i]);
        proof {
            assert(chars@.subrange(k as int, i + 1) =~= chars@.subrange(k as int, i as int).push(
                chars@[i as int],
            ));
        }
        i = i + 1;
    }
    proof {
        assert(chars@.skip(k as int) =~= chars@.subrange(k as int, chars@.len() as int));
        assert(trimmed_start(chars@.skip(k as int)) == chars@.skip(k as int));
    }
    r
}

proof fn lemma_ws_split_nonempty(s: Seq<char>)
    ensures
        ws_split(s).len() >= 1,
    decreases s.len(),
{
    if s.len() > 0 {
        lemma_ws_split_nonempty(s.drop_last());
    }
}

/// The whitespace-separated words of the characters.
fn split_words(s: &Vec<char>) -> (w: Vec<Vec<char>>)
    ensures
        parts_view(w@) == words(s@),
{
    let mut parts: Vec<Vec<char>> = Vec::new();
    let mut cur: Vec<char> = Vec::new();
    let mut i: usize = 0;
    proof {
        assert(s@.take(0) =~= Seq::<char>::empty());
        assert(parts_view(parts@).push(cur@) =~= seq![Seq::<char>::empty()]);
    }
    while i < s.len()
        invariant
            i <= s@.len(),
            ws_split(s@.take(i as int)) == parts_view(parts@).push(cur@),
        decreases s@.len() - i,
    {
        let x = s[i];
        proof {
            assert(s@.take(i + 1).drop_last() =~= s@.take(i as int));
            assert(s@.take(i + 1).last() == x);
            lemma_ws_split_nonempty(s@.take(i as int));
        }
        if is_whitespace(x) {
            let ghost before = parts_view(parts@);
            let done = cur;
            parts.push(done);
            cur = Vec::new();
            proof {
                assert(parts_view(parts@) =~= before.push(done@));
                assert(parts_view(parts@).push(cur@) =~= ws_split(s@.take(i + 1)));
            }
        } else {
            let ghost before = cur@;
            cur.push(x);
            proof {
                assert(parts_view(parts@).push(cur@) =~= parts_view(parts@).push(before).update(
                    parts_view(parts@).len() as int,
                    before.push(x),
                ));
            }
        }
        i = i + 1;
    }
    proof {
        assert(s@.take(s@.len() as int) =~= s@);
    }
    let ghost before = parts_view(parts@);
    let last = cur;
    parts.push(last);
    proof {
        assert(parts_view(parts@) =~= before.push(last@));
    }
    let mut w: Vec<Vec<char>> = Vec::new();
    let mut j: usize = 0;
    proof {
        assert(parts_view(parts@).take(0) =~= Seq::<Seq<char>>::empty());
    }
    while j < parts.len()
        invariant
            j <= parts@.len(),
            parts_view(w@) == non_empty(parts_view(parts@).take(j as int)),
        decreases parts@.len() - j,
    {
        proof {
            assert(parts_view(parts@).take(j + 1).drop_last() =~= parts_view(parts@).take(j as int));
        }
        if parts[j].len() > 0 {
            let ghost before_w = parts_view(w@);
            let p = copy_chars(&parts[j]);
            w.push(p);
            proof {
                assert(parts_view(w@) =~= before_w.push(p@));
            }
        }
        j = j + 1;
    }
    proof {
        assert(parts_view(parts@).take(parts@.len() as int) =~= parts_view(parts@));
    }
    w
}

/// A copy of the characters.
fn copy_chars(s: &Vec<char>) -> (c: Vec<char>)
    ensures
        c@ == s@,
{
    let mut c: Vec<char> = Vec::new();
    let mut i: usize = 0;
    while i < s.len()
        invariant
            i <= s@.len(),
            c@ == s@.take(i as int),
        decreases s@.len() - i,
    {
        c.push(s[i]);
        proof {
            assert(s@.take(i + 1) =~= s@.take(i as int).push(s@[i as int]));
        }
        i = i + 1;
    }
    proof {
        assert(s@.take(s@.len() as int) =~= s@);
    }
    c
}

/// Whether `pat` occurs in `s`.
fn chars_contain(s: &Vec<char>, pat: &Vec<char>) -> (b: bool)
    ensures
        b == contains_sub(s@, pat@),
{
    if pat.len() > s.len() {
        proof {
            assert forall|i: int| 0 <= i && i + pat@.len() <= s@.len() implies #[trigger] s@.subrange(
                i,
                i + pat@.len(),
            ) != pat@ by {}
        }
        return false;
    }
    let n = s.len();
    let last = n - pat.len();
    let mut i: usize = 0;
    loop
        invariant
            n == s@.len(),
            last == s@.len() - pat@.len(),
            i <= last,
            forall|k: int| 0 <= k < i ==> #[trigger] s@.subrange(k, k + pat@.len()) != pat@,
        decreases last - i,
    {
        let mut j: usize = 0;
        while j < pat.len()
            invariant
                n == s@.len(),
                j <= pat@.len(),
                i <= last,
                last == s@.len() - pat@.len(),
                forall|m: int| 0 <= m < j ==> s@[i + m] == pat@[m],
            ensures
                j <= pat@.len(),
                forall|m: int| 0 <= m < j ==> s@[i + m] == pat@[m],
                j < pat@.len() ==> s@[i + j] != pat@[j as int],
            decreases pat@.len() - j,
        {
            let at = i + j;
            if s[at] != pat[j] {
                break;
            }
            j = j + 1;
        }
        if j == pat.len() {
            proof {
                assert(s@.subrange(i as int, i + pat@.len()) =~= pat@);
            }
            return true;
        }
        proof {
            assert(s@.subrange(i as int, i + pat@.len())[j as int] != pat@[j as int]);
        }
        if i == last {
            proof {
                assert forall|k: int| 0 <= k && k + pat@.len() <= s@.len() implies #[trigger] s@.subrange(
                    k,
                    k + pat@.len(),
                ) != pat@ by {
                    assert(k <= i);
                }
            }
            return false;
        }
        i = i + 1;
    }
}

/// Whether `a` is not after `b` in character order.
fn chars_le(a: &Vec<char>, b: &Vec<char>) -> (le: bool)
    ensures
        le == text_le(a@, b@),
{
    let mut i: usize = 0;
    proof {
        assert(a@.skip(0) =~= a@);
        assert(b@.skip(0) =~= b@);
    }
    while i < a.len() && i < b.len() && a[i] == b[i]
        invariant
            i <= a@.len(),
            i <= b@.len(),
            text_le(a@, b@) == text_le(a@.skip(i as int), b@.skip(i as int)),
        decreases a@.len() - i,
    {
        proof {
            assert(a@.skip(i as int).drop_first() =~= a@.skip(i + 1));
            assert(b@.skip(i as int).drop_first() =~= b@.skip(i + 1));
        }
        i = i + 1;
    }
    if i == a.len() {
        return true;
    }
    if i == b.len() {
        return false;
    }
    (a[i] as u32) < (b[i] as u32)
}

/// Whether `s` starts with `p`.
pub(crate) fn chars_start_with(s: &Vec<char>, p: &Vec<char>) -> (b: bool)
    ensures
        b == starts_with(s@, p@),
{
    if p.len() > s.len() {
        return false;
    }
    let mut i: usize = 0;
    while i < p.len()
        invariant
            i <= p@.len() <= s@.len(),
            forall|k: int| 0 <= k < i ==> s@[k] == p@[k],
        decreases p@.len() - i,
    {
        if s[i] != p[i] {
            proof {
                assert(s@.take(p@.len() as int)[i as int] != p@[i as int]);
            }
            return false;
        }
        i = i + 1;
    }
    proof {
        assert(s@.take(p@.len() as int) =~= p@);
    }
    true
}

/// Whether `s` ends with `^{}`.
fn ends_with_peel(s: &Vec<char>) -> (b: bool)
    ensures
        b == ends_with(s@, "^{}"@),
{
    proof {
        reveal_strlit("^{}");
    }
    let n = s.len();
    if n < 3 {
        return false;
    }
    let b = s[n - 3] == '^' && s[n - 2] == '{' && s[n - 1] == '}';
    proof {
        if b {
            assert(s@.skip(n - 3) =~= "^{}"@);
        } else {
            assert(s@.skip(n - 3)[0] != '^' || s@.skip(n - 3)[1] != '{' || s@.skip(n - 3)[2] != '}');
        }
    }
    b
}

proof fn lemma_parse_none_extends(lines: Seq<Seq<char>>, k: int, n: int)
    requires
        0 <= k <= n <= lines.len(),
        parse_sha_refs(lines.take(k)) is None,
    ensures
        parse_sha_refs(lines.take(n)) is None,
    decreases n - k,
{
    if n > k {
        lemma_parse_none_extends(lines, k, n - 1);
        assert(lines.take(n).drop_last() =~= lines.take(n - 1));
    }
}

proof fn lemma_insert_by_ref_at(
    s: Seq<(Seq<char>, Seq<char>)>,
    x: (Seq<char>, Seq<char>),
    p: int,
)
    requires
        0 <= p <= s.len(),
        p > 0 ==> text_le(s[p - 1].1, x.1),
        forall|q: int| p <= q < s.len() ==> !text_le(#[trigger] s[q].1, x.1),
    ensures
        insert_by_ref(s, x) == s.take(p).push(x) + s.skip(p),
    decreases s.len(),
{
    if s.len() == 0 {
        assert(s.take(p).push(x) + s.skip(p) =~= seq![x]);
    } else if p == s.len() {
        assert(s.take(p).push(x) + s.skip(p) =~= s.push(x));
    } else {
        let t = s.drop_last();
        assert(!text_le(s[s.len() - 1].1, x.1));
        assert forall|q: int| p <= q < t.len() implies !text_le(#[trigger] t[q].1, x.1) by {
            assert(t[q] == s[q]);
        }
        lemma_insert_by_ref_at(t, x, p);
        assert(t.take(p).push(x) + t.skip(p) + seq![s.last()] =~= s.take(p).push(x) + s.skip(p));
    }
}

/// A copy of a pair of character vectors.
fn copy_pair(p: &(Vec<char>, Vec<char>)) -> (c: (Vec<char>, Vec<char>))
    ensures
        c.0@ == p.0@,
        c.1@ == p.1@,
{
    (copy_chars(&p.0), copy_chars(&p.1))
}

/// Each line of the output read as a (commit, ref) pair; `None` when a line is not
/// exactly two words.
fn read_sha_refs(lines: &Vec<Vec<char>>) -> (r: Option<Vec<(Vec<char>, Vec<char>)>>)
    ensures
        match parse_sha_refs(parts_view(lines@)) {
            Some(refs) => r matches Some(v) && pairs_view(v@) == refs,
            None => r is None,
        },
{
    let ghost ls = parts_view(lines@);
    let mut acc: Vec<(Vec<char>, Vec<char>)> = Vec::new();
    let mut k: usize = 0;
    proof {
        assert(ls.take(0) =~= Seq::<Seq<char>>::empty());
        assert(pairs_view(acc@) =~= Seq::<(Seq<char>, Seq<char>)>::empty());
    }
    while k < lines.len()
        invariant
            ls == parts_view(lines@),
            k <= lines@.len(),
            parse_sha_refs(ls.take(k as int)) == Some(pairs_view(acc@)),
        decreases lines@.len() - k,
    {
        let w = split_words(&lines[k]);
        proof {
            assert(ls.take(k + 1).drop_last() =~= ls.take(k as int));
            assert(ls.take(k + 1).last() == lines@[k as int]@);
        }
        if w.len() != 2 {
            proof {
                lemma_parse_none_extends(ls, k + 1, ls.len() as int);
                assert(ls.take(ls.len() as int) =~= ls);
            }
            return None;
        }
        let ghost before = pairs_view(acc@);
        let sha = copy_chars(&w[0]);
        let git_ref = copy_chars(&w[1]);
        proof {
            assert(parts_view(w@)[0] == w@[0]@);
            assert(parts_view(w@)[1] == w@[1]@);
        }
        acc.push((sha, git_ref));
        proof {
            assert(pairs_view(acc@) =~= before.push((sha@, git_ref@)));
        }
        k = k + 1;
    }
    proof {
        assert(ls.take(lines@.len() as int) =~= ls);
    }
    Some(acc)
}

/// The pairs whose ref does not mention `refs/remotes`.
fn retain_local_refs(refs: &Vec<(Vec<char>, Vec<char>)>) -> (r: Vec<(Vec<char>, Vec<char>)>)
    ensures
        pairs_view(r@) == drop_remote_refs(pairs_view(refs@)),
{
    let remotes = str_chars("refs/remotes");
    let ghost all = pairs_view(refs@);
    let mut r: Vec<(Vec<char>, Vec<char>)> = Vec::new();
    let mut k: usize = 0;
    proof {
        assert(all.take(0) =~= Seq::<(Seq<char>, Seq<char>)>::empty());
        assert(pairs_view(r@) =~= Seq::<(Seq<char>, Seq<char>)>::empty());
    }
    while k < refs.len()
        invariant
            all == pairs_view(refs@),
            remotes@ == "refs/remotes"@,
            k <= refs@.len(),
            pairs_view(r@) == drop_remote_refs(all.take(k as int)),
        decreases refs@.len() - k,
    {
        proof {
            assert(all.take(k + 1).drop_last() =~= all.take(k as int));
            assert(all.take(k + 1).last() == (refs@[k as int].0@, refs@[k as int].1@));
        }
        if !chars_contain(&refs[k].1, &remotes) {
            let ghost before = pairs_view(r@);
            let c = copy_pair(&refs[k]);
            r.push(c);
            proof {
                assert(pairs_view(r@) =~= before.push((c.0@, c.1@)));
            }
        }
        k = k + 1;
    }
    proof {
        assert(all.take(refs@.len() as int) =~= all);
    }
    r
}

/// The pairs sorted by ref, pairs with equal refs kept in their order.
fn sort_refs(refs: &Vec<(Vec<char>, Vec<char>)>) -> (r: Vec<(Vec<char>, Vec<char>)>)
    ensures
        pairs_view(r@) == sort_by_ref(pairs_view(refs@)),
{
    let ghost all = pairs_view(refs@);
    let mut sorted: Vec<(Vec<char>, Vec<char>)> = Vec::new();
    let mut k: usize = 0;
    proof {
        assert(all.take(0) =~= Seq::<(Seq<char>, Seq<char>)>::empty());
        assert(pairs_view(sorted@) =~= Seq::<(Seq<char>, Seq<char>)>::empty());
    }
    while k < refs.len()
        invariant
            all == pairs_view(refs@),
            k <= refs@.len(),
            sorted@.len() == k,
            pairs_view(sorted@) == sort_by_ref(all.take(k as int)),
        decreases refs@.len() - k,
    {
        let ghost sv = pairs_view(sorted@);
        let ghost x = (refs@[k as int].0@, refs@[k as int].1@);
        proof {
            assert(all.take(k + 1).drop_last() =~= all.take(k as int));
            assert(all.take(k + 1).last() == x);
        }
        let mut p: usize = sorted.len();
        while p > 0 && !chars_le(&sorted[p - 1].1, &refs[k].1)
            invariant
                p <= sorted@.len(),
                sv == pairs_view(sorted@),
                x == (refs@[k as int].0@, refs@[k as int].1@),
                k < refs@.len(),
                forall|q: int| p <= q < sv.len() ==> !text_le(#[trigger] sv[q].1, x.1),
            decreases p,
        {
            proof {
                assert(sv[p - 1] == (sorted@[p - 1].0@, sorted@[p - 1].1@));
            }
            p = p - 1;
        }
        proof {
            if p > 0 {
                assert(sv[p - 1] == (sorted@[p - 1].0@, sorted@[p - 1].1@));
            }
            lemma_insert_by_ref_at(sv, x, p as int);
        }
        let c = copy_pair(&refs[k]);
        sorted.insert(p, c);
        proof {
            assert(pairs_view(sorted@) =~= sv.take(p as int).push(x) + sv.skip(p as int));
        }
        k = k + 1;
    }
    proof {
        assert(all.take(refs@.len() as int) =~= all);
    }
    sorted
}

/// The pairs whose ref is not a peeled form (`...^{}`).
fn retain_base_refs(refs: &Vec<(Vec<char>, Vec<char>)>) -> (r: Vec<(Vec<char>, Vec<char>)>)
    ensures
        pairs_view(r@) == drop_peeled_refs(pairs_view(refs@)),
{
    let ghost all = pairs_view(refs@);
    let mut r: Vec<(Vec<char>, Vec<char>)> = Vec::new();
    let mut k: usize = 0;
    proof {
        assert(all.take(0) =~= Seq::<(Seq<char>, Seq<char>)>::empty());
        assert(pairs_view(r@) =~= Seq::<(Seq<char>, Seq<char>)>::empty());
    }
    while k < refs.len()
        invariant
            all == pairs_view(refs@),
            k <= refs@.len(),
            pairs_view(r@) == drop_peeled_refs(all.take(k as int)),
        decreases refs@.len() - k,
    {
        proof {
            assert(all.take(k + 1).drop_last() =~= all.take(k as int));
            assert(all.take(k + 1).last() == (refs@[k as int].0@, refs@[k as int].1@));
        }
        if !ends_with_peel(&refs[k].1) {
            let ghost before = pairs_view(r@);
            let c = copy_pair(&refs[k]);
            r.push(c);
            proof {
                assert(pairs_view(r@) =~= before.push((c.0@, c.1@)));
            }
        }
        k = k + 1;
    }
    proof {
        assert(all.take(refs@.len() as int) =~= all);
    }
    r
}

/// Whether `r` is `name` followed by `^{}`.
fn is_peel_of(r: &Vec<char>, name: &Vec<char>) -> (b: bool)
    ensures
        b == (r@ == name@ + "^{}"@),
{
    proof {
        reveal_strlit("^{}");
    }
    if r.len() < 3 || r.len() - 3 != name.len() {
        proof {
            if r@ == name@ + "^{}"@ {
                assert((name@ + "^{}"@).len() == name@.len() + 3);
            }
        }
        return false;
    }
    let b = chars_start_with(r, name) && ends_with_peel(r);
    proof {
        if b {
            assert(r@ =~= r@.take(name@.len() as int) + r@.skip(r@.len() - 3));
        } else if r@ == name@ + "^{}"@ {
            assert(r@.take(name@.len() as int) =~= name@);
            assert(r@.skip(r@.len() - 3) =~= "^{}"@);
        }
    }
    b
}

/// The sha of the first pair whose ref is `name^{}`, or `own` when there is none.
fn find_peeled_sha(refs: &Vec<(Vec<char>, Vec<char>)>, name: &Vec<char>, own: &Vec<char>) -> (sha: Vec<char>)
    ensures
        sha@ == peeled_sha(pairs_view(refs@), name@, own@),
{
    let ghost all = pairs_view(refs@);
    let mut k: usize = 0;
    proof {
        assert(all.skip(0) =~= all);
    }
    while k < refs.len()
        invariant
            all == pairs_view(refs@),
            k <= refs@.len(),
            peeled_sha(all.skip(k as int), name@, own@) == peeled_sha(all, name@, own@),
        decreases refs@.len() - k,
    {
        proof {
            assert(all.skip(k as int)[0] == (refs@[k as int].0@, refs@[k as int].1@));
            assert(all.skip(k as int).drop_first() =~= all.skip(k + 1));
        }
        if is_peel_of(&refs[k].1, name) {
            return copy_chars(&refs[k].0);
        }
        k = k + 1;
    }
    proof {
        assert(all.skip(refs@.len() as int) =~= Seq::<(Seq<char>, Seq<char>)>::empty());
    }
    copy_chars(own)
}

/// The refs of sorted pairs, each with the sha of its peeled form in `listed` where there
/// is one.
fn resolve_peeled_refs(sorted: &Vec<(Vec<char>, Vec<char>)>, listed: &Vec<(Vec<char>, Vec<char>)>) -> (r: Vec<(String, CommitHashBuf)>)
    ensures
        ref_commits_view(r@) == with_peeled(pairs_view(sorted@), pairs_view(listed@)),
{
    let ghost bases = pairs_view(sorted@);
    let ghost refs = pairs_view(listed@);
    let mut out: Vec<(String, CommitHashBuf)> = Vec::new();
    let mut k: usize = 0;
    while k < sorted.len()
        invariant
            bases == pairs_view(sorted@),
            refs == pairs_view(listed@),
            k <= sorted@.len(),
            ref_commits_view(out@) =~= with_peeled(bases, refs).take(k as int),
        decreases sorted@.len() - k,
    {
        let sha = find_peeled_sha(listed, &sorted[k].1, &sorted[k].0);
        let ghost before = ref_commits_view(out@);
        let git_ref = string_of(&sorted[k].1);
        out.push((git_ref, CommitHashBuf::from_string_unchecked(string_of(&sha))));
        proof {
            assert(ref_commits_view(out@) =~= before.push((sorted@[k as int].1@, sha@)));
            assert(with_peeled(bases, refs).take(k + 1) =~= with_peeled(bases, refs).take(
                k as int,
            ).push(with_peeled(bases, refs)[k as int]));
        }
        k = k + 1;
    }
    proof {
        assert(with_peeled(bases, refs).take(sorted@.len() as int) =~= with_peeled(bases, refs));
    }
    out
}

/// Reads the output of `git ls-remote` (a commit, whitespace and a ref on each line) into
/// the refs with their commits, sorted by ref. Remote-tracking refs (`refs/remotes`) are
/// left out, and the peeled form of an annotated tag (`<ref>^{}`, wherever it is listed)
/// is not returned but gives its ref the commit it points to. A line
/// that is not a commit and a ref makes the whole output invalid.
pub fn parse_ls_remote(out: &str) -> (r: Result<Vec<(String, CommitHashBuf)>, GitError>)
    ensures
        match ls_remote_refs(out@) {
            Some(refs) => r matches Ok(v) && ref_commits_view(v@) == refs,
            None => r matches Err(GitError::Failed(c)) && (*c.0)@
                == "ls-remote returned invalid result: "@ + out@,
        },
{
    let chars = str_chars(out);
    let end_trimmed = trim_end_chars(&chars);
    let trimmed_chars = trim_start_chars(&end_trimmed);
    let lines: Vec<Vec<char>> = if trimmed_chars.len() == 0 {
        Vec::new()
    } else {
        split_chars(&trimmed_chars, '\n')
    };
    proof {
        if trimmed_chars@.len() == 0 {
            assert(parts_view(lines@) =~= Seq::<Seq<char>>::empty());
        }
        assert(parts_view(lines@) == output_lines(out@));
    }
    match read_sha_refs(&lines) {
        None => {
            let mut message = String::from_str("ls-remote returned invalid result: ");
            message.append(out);
            Err(GitError::Failed(string_context(message)))
        },
        Some(refs) => {
            let local = retain_local_refs(&refs);
            let bases = retain_base_refs(&local);
            let sorted = sort_refs(&bases);
            Ok(resolve_peeled_refs(&sorted, &local))
        },
    }
}

} // verus!
