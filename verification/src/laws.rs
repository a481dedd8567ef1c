use vstd::prelude::*;

use crate::bytes::{le_bytes_u128, le_bytes_u16, lemma_le_bytes_u128_injective};
use crate::crypto::{cipher_part, nonce_part, open_with_keys, sealed, sha256, ENCRYPT_ADD};
use crate::derive::{cache_key_of, derive_post};
use crate::git_call::{
    contains_sub, drop_peeled_refs, drop_remote_refs, ends_with, insert_by_ref, listed_refs,
    ls_remote_refs, output_lines, parse_sha_refs, peeled_sha, sort_by_ref, text_le, with_peeled,
};
use crate::auth::spec_bytes_of;
use crate::git::{
    address_encoding, lemma_address_encoding_injective, store_address_of, store_repo_path_of,
    GitRelativePathBuf,
};
use crate::git_ref::git_ref_key_of;
use crate::git_state::{
    answers, exclusive_next, handler_of, local_next, question_of, rank, ExclusiveOutcome,
    FinalResolved, GitState, LocalAnswer, LocalQuestion, StateHandler,
};
use crate::kv::{all_max, metadata_layout, prefix_range_end, stored_search_len};
use crate::login::finish_accepted;
use crate::server::{
    apply_headers, eq_ignore_ascii_case, header_options_of, lemma_no_cache_read, lemma_reload_read,
    url_route,
};
use crate::session::session_associated;
use crate::text::{
    hex_digit, lemma_hex_lower_index, lemma_hex_lower_len, lemma_split_on_nonempty, split_on,
};

verus! {

/// Decrypting what was encrypted gives the data back: an encryption (of any data, with
/// any associated data) is long enough to be decrypted, and the list of keys whose first
/// key encrypted it opens it to that data again.
pub proof fn law_decrypt_inverts_encrypt(
    keys: Seq<Seq<u8>>,
    aad: Seq<u8>,
    data: Seq<u8>,
    encrypted: Seq<u8>,
)
    requires
        keys.len() > 0,
        sealed(keys[0], aad, data, encrypted),
    ensures
        encrypted.len() >= ENCRYPT_ADD,
        open_with_keys(keys, nonce_part(encrypted), aad, cipher_part(encrypted)) == Some(data),
{
}

/// A session decrypts to the session id it was encrypted with, for the user and the
/// validity period it was bound to: the decryption succeeds, and the id read from it is
/// that id.
pub proof fn law_session_round_trip(
    key: Seq<u8>,
    user_id: Seq<u8>,
    authenticated: u64,
    expires: u64,
    session_id: u128,
    session: Seq<u8>,
    read_id: u128,
)
    requires
        sealed(
            key,
            session_associated(user_id, authenticated, expires),
            le_bytes_u128(session_id),
            session,
        ),
    ensures
        open_with_keys(
            seq![key],
            nonce_part(session),
            session_associated(user_id, authenticated, expires),
            cipher_part(session),
        ) == Some(le_bytes_u128(session_id)),
        le_bytes_u128(read_id) == le_bytes_u128(session_id).take(16) ==> read_id == session_id,
{
    assert(le_bytes_u128(session_id).take(16) =~= le_bytes_u128(session_id));
    if le_bytes_u128(read_id) == le_bytes_u128(session_id).take(16) {
        lemma_le_bytes_u128_injective(read_id, session_id);
    }
}

/// Metadata reads back as it was written: the metadata laid out from a prefix, search
/// bytes (at most 64 kB) and other bytes is long enough, its stored search length is that
/// of the search bytes, and splitting it gives the three parts back.
pub proof fn law_metadata_round_trip(prefix: Seq<u8>, search_bytes: Seq<u8>, meta_bytes: Seq<u8>)
    requires
        prefix.len() == 3,
        search_bytes.len() <= u16::MAX,
    ensures
        ({
            let meta = metadata_layout(prefix, search_bytes, meta_bytes);
            &&& meta.len() >= 5
            &&& stored_search_len(meta) == search_bytes.len()
            &&& meta.take(3) == prefix
            &&& meta.subrange(5, 5 + stored_search_len(meta)) == search_bytes
            &&& meta.skip(5 + stored_search_len(meta)) == meta_bytes
        }),
{
    let meta = metadata_layout(prefix, search_bytes, meta_bytes);
    let n = search_bytes.len() as u16;
    assert((n & 0xffu16) as u8 as int + 256 * ((n >> 8u16) as u8 as int) == n as int)
        by (bit_vector);
    assert(meta[3] == le_bytes_u16(n)[0]);
    assert(meta[4] == le_bytes_u16(n)[1]);
    assert(meta.take(3) =~= prefix);
    assert(meta.subrange(5, 5 + search_bytes.len() as int) =~= search_bytes);
    assert(meta.skip(5 + search_bytes.len() as int) =~= meta_bytes);
}

/// Byte string `a` sorts before `b`: it is a proper prefix of `b`, or at the first
/// position where they differ its byte is smaller.
pub open spec fn lex_before(a: Seq<u8>, b: Seq<u8>) -> bool {
    exists|i: int|
        0 <= i < b.len() && i <= a.len() && #[trigger] a.take(i) == b.take(i) && (i == a.len()
            || a[i] < b[i])
}

proof fn lemma_range_end_len(start: Seq<u8>)
    requires
        !all_max(start),
    ensures
        prefix_range_end(start).len() == start.len(),
    decreases start.len(),
{
    if start.len() > 0 && start.last() == 255 {
        assert(!all_max(start.drop_last())) by {
            let i = choose|i: int| 0 <= i < start.len() && start[i] != 255;
            assert(start.drop_last()[i] == start[i]);
        }
        lemma_range_end_len(start.drop_last());
    }
}

/// The end of the range of keys with a prefix comes after every key with that prefix
/// (the prefix itself included), where the prefix is not all 255 bytes.
pub proof fn law_prefix_range_bounds(start: Seq<u8>, key: Seq<u8>)
    requires
        !all_max(start),
        start.len() <= key.len(),
        key.take(start.len() as int) == start,
    ensures
        lex_before(key, prefix_range_end(start)),
    decreases start.len(),
{
    let end = prefix_range_end(start);
    let n = start.len() as int;
    if start.last() < 255 {
        let i = n - 1;
        assert(key.take(i) =~= start.take(i));
        assert(end.take(i) =~= start.take(i));
        assert(key[i] == start[i]);
        assert(key.take(i) == end.take(i));
    } else {
        let s = start.drop_last();
        assert(!all_max(s)) by {
            let j = choose|j: int| 0 <= j < start.len() && start[j] != 255;
            assert(s[j] == start[j]);
        }
        assert(key.take(s.len() as int) =~= s) by {
            assert forall|j: int| 0 <= j < s.len() implies key.take(s.len() as int)[j] == s[j] by {
                assert(key.take(n)[j] == start[j]);
            }
        }
        law_prefix_range_bounds(s, key);
        lemma_range_end_len(s);
        let e = prefix_range_end(s);
        assert(end == e.push(0u8));
        let i = choose|i: int|
            0 <= i < e.len() && i <= key.len() && #[trigger] key.take(i) == e.take(i) && (i
                == key.len() || key[i] < e[i]);
        assert(end.take(i) =~= e.take(i));
        assert(end[i] == e[i]);
        assert(key.take(i) == end.take(i));
    }
}

/// A ref read back after it was stored gives the stored commit, and the commits of all
/// other keys are unchanged.
pub proof fn law_ref_store_reads_back(
    before: Map<Seq<char>, Seq<char>>,
    after: Map<Seq<char>, Seq<char>>,
    repo_url: Seq<char>,
    git_ref: Seq<char>,
    commit: Seq<char>,
    other: Seq<char>,
)
    requires
        after == before.insert(git_ref_key_of(repo_url, git_ref), commit),
        other != git_ref_key_of(repo_url, git_ref),
    ensures
        after.contains_key(git_ref_key_of(repo_url, git_ref)),
        after[git_ref_key_of(repo_url, git_ref)] == commit,
        after.contains_key(other) == before.contains_key(other),
        before.contains_key(other) ==> after[other] == before[other],
{
}

/// A store address stands for one Git address: different Git addresses (of urls and
/// commits shorter than 2^64 bytes, as every text in memory is) are hashed from different
/// bytes, so that their store addresses differ unless SHA-256 collides; and the same
/// address always gives the same store address.
pub proof fn law_store_address_unique(
    u1: Seq<char>,
    c1: Seq<char>,
    s1: Seq<char>,
    u2: Seq<char>,
    c2: Seq<char>,
    s2: Seq<char>,
)
    requires
        spec_bytes_of(u1).len() <= u64::MAX,
        spec_bytes_of(c1).len() <= u64::MAX,
        spec_bytes_of(u2).len() <= u64::MAX,
        spec_bytes_of(c2).len() <= u64::MAX,
    ensures
        (u1, c1, s1) != (u2, c2, s2) ==> address_encoding(u1, c1, s1) != address_encoding(u2, c2, s2),
        (u1, c1, s1) == (u2, c2, s2) ==> store_address_of(u1, c1, s1) == store_address_of(u2, c2, s2),
{
    if address_encoding(u1, c1, s1) == address_encoding(u2, c2, s2) {
        lemma_address_encoding_injective(u1, c1, s1, u2, c2, s2);
    }
}

/// A derivation for the same Git address and context gives the cached response: once a
/// response was stored under the key of a context and an address (as a derivation
/// stores it), the key of that context and address holds that response (so a lookup with
/// the cache in use hits it), and the responses under all other keys are unchanged.
pub proof fn law_cache_reads_back<R>(
    before: Map<Seq<char>, R>,
    after: Map<Seq<char>, R>,
    derive_ctx: Seq<char>,
    repository_url: Seq<char>,
    commit_hash: Seq<char>,
    subpath: Seq<char>,
    response: R,
    other: Seq<char>,
)
    requires
        after == before.insert(
            cache_key_of(derive_ctx, store_address_of(repository_url, commit_hash, subpath)),
            response,
        ),
        other != cache_key_of(derive_ctx, store_address_of(repository_url, commit_hash, subpath)),
    ensures
        after.contains_key(
            cache_key_of(derive_ctx, store_address_of(repository_url, commit_hash, subpath)),
        ),
        after[cache_key_of(derive_ctx, store_address_of(repository_url, commit_hash, subpath))]
            == response,
        after.contains_key(other) == before.contains_key(other),
        before.contains_key(other) ==> after[other] == before[other],
{
}

/// Deriving twice gives the cached response: after a derivation with a plugin for an
/// address gave a response, a second derivation with the same plugin and address and
/// the cache in use gives that same response (bytes and headers) and leaves the cache as
/// it was.
pub proof fn law_derivation_is_cached(
    cached0: Map<Seq<char>, (Seq<(Seq<char>, Seq<char>)>, Seq<u8>)>,
    cached1: Map<Seq<char>, (Seq<(Seq<char>, Seq<char>)>, Seq<u8>)>,
    cached2: Map<Seq<char>, (Seq<(Seq<char>, Seq<char>)>, Seq<u8>)>,
    key: Seq<char>,
    first_use_cache: bool,
    first: (Seq<(Seq<char>, Seq<char>)>, Seq<u8>),
    second: Option<(Seq<(Seq<char>, Seq<char>)>, Seq<u8>)>,
)
    requires
        derive_post(cached0, cached1, key, first_use_cache, Some(first)),
        derive_post(cached1, cached2, key, true, second),
    ensures
        second == Some(first),
        cached2 == cached1,
{
}

/// Whether `s` holds no `c`.
pub open spec fn free_of(s: Seq<char>, c: char) -> bool {
    forall|i: int| 0 <= i < s.len() ==> s[i] != c
}

proof fn lemma_split_pieces_free(s: Seq<char>, c: char)
    ensures
        forall|i: int| 0 <= i < split_on(s, c).len() ==> free_of(#[trigger] split_on(s, c)[i], c),
    decreases s.len(),
{
    lemma_split_on_nonempty(s, c);
    if s.len() > 0 {
        lemma_split_pieces_free(s.drop_last(), c);
        lemma_split_on_nonempty(s.drop_last(), c);
        let parts = split_on(s.drop_last(), c);
        if s.last() != c {
            assert forall|i: int| 0 <= i < split_on(s, c).len() implies free_of(
                #[trigger] split_on(s, c)[i],
                c,
            ) by {
                if i == parts.len() - 1 {
                    assert(free_of(parts[i], c));
                    assert(split_on(s, c)[i] == parts[i].push(s.last()));
                } else {
                    assert(split_on(s, c)[i] == parts[i]);
                }
            }
        } else {
            assert forall|i: int| 0 <= i < split_on(s, c).len() implies free_of(
                #[trigger] split_on(s, c)[i],
                c,
            ) by {
                if i < parts.len() {
                    assert(split_on(s, c)[i] == parts[i]);
                }
            }
        }
    }
}

proof fn lemma_split_append_free(s: Seq<char>, x: Seq<char>, c: char)
    requires
        free_of(x, c),
    ensures
        split_on(s + x, c) == split_on(s, c).update(
            split_on(s, c).len() - 1,
            split_on(s, c).last() + x,
        ),
    decreases x.len(),
{
    lemma_split_on_nonempty(s, c);
    if x.len() == 0 {
        assert(s + x =~= s);
        assert(split_on(s, c).last() + x =~= split_on(s, c).last());
        assert(split_on(s, c).update(split_on(s, c).len() - 1, split_on(s, c).last() + x)
            =~= split_on(s, c));
    } else {
        let y = x.drop_last();
        assert(free_of(y, c));
        lemma_split_append_free(s, y, c);
        assert((s + x).drop_last() =~= s + y);
        assert((s + x).last() == x.last());
        assert(x[x.len() - 1] != c);
        let parts = split_on(s + y, c);
        assert(parts.len() == split_on(s, c).len());
        assert(parts.last() == split_on(s, c).last() + y);
        assert(split_on(s + x, c) == parts.update(parts.len() - 1, parts.last().push(x.last())));
        assert(split_on(s, c).last() + y + seq![x.last()] =~= split_on(s, c).last() + x);
        assert(parts.last().push(x.last()) =~= split_on(s, c).last() + x);
        assert(split_on(s + x, c) =~= split_on(s, c).update(
            split_on(s, c).len() - 1,
            split_on(s, c).last() + x,
        ));
    }
}

proof fn lemma_split_push_sep(s: Seq<char>, c: char)
    ensures
        split_on(s.push(c), c) == split_on(s, c).push(Seq::empty()),
{
    assert(s.push(c).drop_last() =~= s);
}

proof fn lemma_split_slash_one(x: Seq<char>)
    requires
        free_of(x, '/'),
    ensures
        split_on("/"@ + x, '/') == seq![Seq::<char>::empty(), x],
{
    reveal_strlit("/");
    let e = Seq::<char>::empty();
    assert(e.push('/') =~= "/"@);
    lemma_split_push_sep(e, '/');
    assert(split_on(e, '/') =~= seq![e]);
    lemma_split_append_free("/"@, x, '/');
    assert(e + x =~= x);
    assert(split_on("/"@ + x, '/') =~= seq![e, x]);
}

proof fn lemma_split_slash_two(x: Seq<char>, y: Seq<char>)
    requires
        free_of(x, '/'),
        free_of(y, '/'),
    ensures
        split_on("/"@ + x + "/"@ + y, '/') == seq![Seq::<char>::empty(), x, y],
{
    reveal_strlit("/");
    let e = Seq::<char>::empty();
    lemma_split_slash_one(x);
    assert(("/"@ + x).push('/') =~= "/"@ + x + "/"@);
    lemma_split_push_sep("/"@ + x, '/');
    lemma_split_append_free("/"@ + x + "/"@, y, '/');
    assert(e + y =~= y);
    assert(split_on("/"@ + x + "/"@ + y, '/') =~= seq![e, x, y]);
}

/// Following a redirect of the router leads to a pattern: where the default pattern is
/// a non-empty text without `/` and the sub path (if any) has no `/`, the location of
/// every redirect routes to a pattern. (A url under the sub path with an empty third and
/// a non-empty fourth segment, such as `/<sub_path>//x`, redirects to `/<sub_path>/`,
/// which redirects once more.)
pub proof fn law_redirect_leads_to_pattern(
    url: Seq<char>,
    default_pattern: Seq<char>,
    sub_path: Option<Seq<char>>,
)
    requires
        default_pattern.len() > 0,
        free_of(default_pattern, '/'),
        sub_path matches Some(sp) ==> free_of(sp, '/'),
        url_route(url, default_pattern, sub_path).0 == 2,
        sub_path is Some && split_on(url, '/').len() > 3 ==> split_on(url, '/')[2].len() > 0,
    ensures
        url_route(url_route(url, default_pattern, sub_path).1, default_pattern, sub_path).0 == 0,
{
    let parts = split_on(url, '/');
    lemma_split_pieces_free(url, '/');
    match sub_path {
        Some(sp) => {
            if parts.len() == 2 || (parts.len() == 3 && parts[2].len() == 0) || (parts.len() > 3
                && parts[3].len() == 0) {
                lemma_split_slash_two(sp, default_pattern);
            } else {
                assert(free_of(parts[2], '/'));
                lemma_split_slash_two(sp, parts[2]);
            }
        },
        None => {
            if parts.len() < 2 || parts[1].len() == 0 {
                lemma_split_slash_one(default_pattern);
            } else {
                assert(free_of(parts[1], '/'));
                lemma_split_slash_one(parts[1]);
            }
        },
    }
}

/// A one-time login number serves one session: a finish that opened the login state
/// for a number marks the number used, and no later finish with that number is
/// accepted, whatever else it sends.
pub proof fn law_login_numbers_single_use(
    used_before: Set<u64>,
    eph_id: u64,
    later_message: Seq<u8>,
    later_secret: Seq<u8>,
    later_opened: Seq<u8>,
)
    ensures
        used_before.insert(eph_id).contains(eph_id),
        !finish_accepted(used_before.insert(eph_id), eph_id, later_message, later_secret, later_opened),
{
}

/// Pairs sorted by their second text (the ref, in the pairs read from `ls-remote`).
pub open spec fn sorted_by_second(s: Seq<(Seq<char>, Seq<char>)>) -> bool {
    forall|i: int, j: int| 0 <= i < j < s.len() ==> text_le(#[trigger] s[i].1, #[trigger] s[j].1)
}

/// Pairs sorted by their first text (the ref, in the pairs `ls_remote` returns).
pub open spec fn sorted_by_first(s: Seq<(Seq<char>, Seq<char>)>) -> bool {
    forall|i: int, j: int| 0 <= i < j < s.len() ==> text_le(#[trigger] s[i].0, #[trigger] s[j].0)
}

proof fn lemma_text_le_reflexive(a: Seq<char>)
    ensures
        text_le(a, a),
    decreases a.len(),
{
    if a.len() > 0 {
        lemma_text_le_reflexive(a.drop_first());
    }
}

proof fn lemma_text_le_total(a: Seq<char>, b: Seq<char>)
    ensures
        text_le(a, b) || text_le(b, a),
    decreases a.len(),
{
    if a.len() > 0 && b.len() > 0 {
        if a[0] == b[0] {
            lemma_text_le_total(a.drop_first(), b.drop_first());
        } else {
            vstd::utf8::char_u32_cast(a[0], a[0] as u32);
            vstd::utf8::char_u32_cast(b[0], b[0] as u32);
        }
    }
}

proof fn lemma_text_le_transitive(a: Seq<char>, b: Seq<char>, c: Seq<char>)
    requires
        text_le(a, b),
        text_le(b, c),
    ensures
        text_le(a, c),
    decreases a.len(),
{
    if a.len() > 0 && b.len() > 0 && c.len() > 0 && a[0] == b[0] && b[0] == c[0] {
        lemma_text_le_transitive(a.drop_first(), b.drop_first(), c.drop_first());
    }
}

proof fn lemma_insert_bounded(
    s: Seq<(Seq<char>, Seq<char>)>,
    x: (Seq<char>, Seq<char>),
    bound: Seq<char>,
)
    requires
        forall|k: int| 0 <= k < s.len() ==> text_le(#[trigger] s[k].1, bound),
        text_le(x.1, bound),
    ensures
        forall|k: int|
            0 <= k < insert_by_ref(s, x).len() ==> text_le(#[trigger] insert_by_ref(s, x)[k].1, bound),
    decreases s.len(),
{
    if s.len() > 0 && !text_le(s.last().1, x.1) {
        let t = s.drop_last();
        assert forall|k: int| 0 <= k < t.len() implies text_le(#[trigger] t[k].1, bound) by {
            assert(t[k] == s[k]);
        }
        lemma_insert_bounded(t, x, bound);
        let r = insert_by_ref(t, x);
        assert forall|k: int| 0 <= k < r.push(s.last()).len() implies text_le(
            #[trigger] r.push(s.last())[k].1,
            bound,
        ) by {
            if k < r.len() {
                assert(r.push(s.last())[k] == r[k]);
            } else {
                assert(s.last() == s[s.len() - 1]);
            }
        }
    } else if s.len() > 0 {
        assert forall|k: int| 0 <= k < s.push(x).len() implies text_le(
            #[trigger] s.push(x)[k].1,
            bound,
        ) by {
            if k < s.len() {
                assert(s.push(x)[k] == s[k]);
            }
        }
    }
}

proof fn lemma_insert_sorted(s: Seq<(Seq<char>, Seq<char>)>, x: (Seq<char>, Seq<char>))
    requires
        sorted_by_second(s),
    ensures
        sorted_by_second(insert_by_ref(s, x)),
        insert_by_ref(s, x).len() == s.len() + 1,
    decreases s.len(),
{
    if s.len() == 0 {
    } else if text_le(s.last().1, x.1) {
        assert forall|i: int, j: int| 0 <= i < j < s.push(x).len() implies text_le(
            #[trigger] s.push(x)[i].1,
            #[trigger] s.push(x)[j].1,
        ) by {
            if j < s.len() {
                assert(s.push(x)[i] == s[i]);
                assert(s.push(x)[j] == s[j]);
            } else {
                assert(s.push(x)[i] == s[i]);
                if i < s.len() - 1 {
                    assert(text_le(s[i].1, s[s.len() - 1].1));
                    lemma_text_le_transitive(s[i].1, s[s.len() - 1].1, x.1);
                }
            }
        }
    } else {
        let t = s.drop_last();
        let last = s.last();
        assert(sorted_by_second(t)) by {
            assert forall|i: int, j: int| 0 <= i < j < t.len() implies text_le(
                #[trigger] t[i].1,
                #[trigger] t[j].1,
            ) by {
                assert(t[i] == s[i] && t[j] == s[j]);
            }
        }
        lemma_insert_sorted(t, x);
        lemma_text_le_total(last.1, x.1);
        assert forall|k: int| 0 <= k < t.len() implies text_le(#[trigger] t[k].1, last.1) by {
            assert(t[k] == s[k]);
            assert(s[s.len() - 1] == last);
        }
        lemma_insert_bounded(t, x, last.1);
        let r = insert_by_ref(t, x);
        assert forall|i: int, j: int| 0 <= i < j < r.push(last).len() implies text_le(
            #[trigger] r.push(last)[i].1,
            #[trigger] r.push(last)[j].1,
        ) by {
            assert(r.push(last)[i] == r[i]);
            if j < r.len() {
                assert(r.push(last)[j] == r[j]);
            }
        }
    }
}

proof fn lemma_sort_sorted(refs: Seq<(Seq<char>, Seq<char>)>)
    ensures
        sorted_by_second(sort_by_ref(refs)),
        sort_by_ref(refs).len() == refs.len(),
    decreases refs.len(),
{
    if refs.len() > 0 {
        lemma_sort_sorted(refs.drop_last());
        lemma_insert_sorted(sort_by_ref(refs.drop_last()), refs.last());
    }
}

proof fn lemma_push_contains<A>(s: Seq<A>, a: A, y: A)
    ensures
        s.push(a).contains(y) <==> (s.contains(y) || y == a),
{
    if s.contains(y) {
        let k = choose|k: int| 0 <= k < s.len() && s[k] == y;
        assert(s.push(a)[k] == y);
    }
    if y == a {
        assert(s.push(a)[s.len() as int] == a);
    }
    if s.push(a).contains(y) {
        let k = choose|k: int| 0 <= k < s.push(a).len() && s.push(a)[k] == y;
        if k < s.len() {
            assert(s[k] == y);
        }
    }
}

proof fn lemma_drop_last_push<A>(s: Seq<A>)
    requires
        s.len() > 0,
    ensures
        s.drop_last().push(s.last()) == s,
{
    assert(s.drop_last().push(s.last()) =~= s);
}

proof fn lemma_insert_members(sorted: Seq<(Seq<char>, Seq<char>)>, x: (Seq<char>, Seq<char>), y: (Seq<char>, Seq<char>))
    ensures
        insert_by_ref(sorted, x).contains(y) <==> (sorted.contains(y) || y == x),
    decreases sorted.len(),
{
    if sorted.len() == 0 {
        assert(seq![x] == Seq::<(Seq<char>, Seq<char>)>::empty().push(x));
        lemma_push_contains(Seq::<(Seq<char>, Seq<char>)>::empty(), x, y);
    } else if text_le(sorted.last().1, x.1) {
        lemma_push_contains(sorted, x, y);
    } else {
        lemma_insert_members(sorted.drop_last(), x, y);
        lemma_push_contains(insert_by_ref(sorted.drop_last(), x), sorted.last(), y);
        lemma_drop_last_push(sorted);
        lemma_push_contains(sorted.drop_last(), sorted.last(), y);
    }
}

proof fn lemma_sort_members(refs: Seq<(Seq<char>, Seq<char>)>, y: (Seq<char>, Seq<char>))
    ensures
        sort_by_ref(refs).contains(y) <==> refs.contains(y),
    decreases refs.len(),
{
    if refs.len() > 0 {
        lemma_sort_members(refs.drop_last(), y);
        lemma_insert_members(sort_by_ref(refs.drop_last()), refs.last(), y);
        lemma_drop_last_push(refs);
        lemma_push_contains(refs.drop_last(), refs.last(), y);
    }
}

proof fn lemma_drop_peeled_members(refs: Seq<(Seq<char>, Seq<char>)>, y: (Seq<char>, Seq<char>))
    ensures
        drop_peeled_refs(refs).contains(y) <==> (refs.contains(y) && !ends_with(y.1, "^{}"@)),
    decreases refs.len(),
{
    if refs.len() > 0 {
        lemma_drop_peeled_members(refs.drop_last(), y);
        lemma_drop_last_push(refs);
        lemma_push_contains(refs.drop_last(), refs.last(), y);
        lemma_push_contains(drop_peeled_refs(refs.drop_last()), refs.last(), y);
    }
}

proof fn lemma_drop_remote_members(refs: Seq<(Seq<char>, Seq<char>)>, y: (Seq<char>, Seq<char>))
    ensures
        drop_remote_refs(refs).contains(y) <==> (refs.contains(y) && !contains_sub(y.1, "refs/remotes"@)),
    decreases refs.len(),
{
    if refs.len() > 0 {
        lemma_drop_remote_members(refs.drop_last(), y);
        lemma_drop_last_push(refs);
        lemma_push_contains(refs.drop_last(), refs.last(), y);
        lemma_push_contains(drop_remote_refs(refs.drop_last()), refs.last(), y);
    }
}

proof fn lemma_peeled_sha(refs: Seq<(Seq<char>, Seq<char>)>, name: Seq<char>, own: Seq<char>)
    ensures
        (exists|j: int| 0 <= j < refs.len() && #[trigger] refs[j].1 == name + "^{}"@) ==> (exists|j: int|
            0 <= j < refs.len() && #[trigger] refs[j].1 == name + "^{}"@ && peeled_sha(refs, name, own)
                == refs[j].0),
        !(exists|j: int| 0 <= j < refs.len() && #[trigger] refs[j].1 == name + "^{}"@) ==> peeled_sha(
            refs,
            name,
            own,
        ) == own,
    decreases refs.len(),
{
    if refs.len() > 0 {
        let t = refs.drop_first();
        lemma_peeled_sha(t, name, own);
        if refs[0].1 != name + "^{}"@ {
            if exists|j: int| 0 <= j < refs.len() && #[trigger] refs[j].1 == name + "^{}"@ {
                let j = choose|j: int| 0 <= j < refs.len() && #[trigger] refs[j].1 == name + "^{}"@;
                assert(t[j - 1] == refs[j]);
                let k = choose|k: int| 0 <= k < t.len() && #[trigger] t[k].1 == name + "^{}"@ && peeled_sha(t, name, own) == t[k].0;
                assert(refs[k + 1] == t[k]);
            } else {
                assert forall|k: int| 0 <= k < t.len() implies #[trigger] t[k].1 != name + "^{}"@ by {
                    assert(refs[k + 1] == t[k]);
                }
            }
        }
    }
}

/// What `ls_remote` returns is sorted by ref, as it promises.
pub proof fn law_ls_remote_sorted(out: Seq<char>)
    requires
        ls_remote_refs(out) is Some,
    ensures
        sorted_by_first(ls_remote_refs(out)->0),
{
    let local = drop_remote_refs(parse_sha_refs(output_lines(out))->0);
    let sorted = sort_by_ref(drop_peeled_refs(local));
    lemma_sort_sorted(drop_peeled_refs(local));
    let v = with_peeled(sorted, local);
    assert forall|i: int, j: int| 0 <= i < j < v.len() implies text_le(#[trigger] v[i].0, #[trigger] v[j].0) by {
        assert(v[i].0 == sorted[i].1 && v[j].0 == sorted[j].1);
    }
}

/// Whether a listed pair has the ref `name`.
pub open spec fn ref_listed(listed: Seq<(Seq<char>, Seq<char>)>, name: Seq<char>) -> bool {
    exists|j: int| 0 <= j < listed.len() && #[trigger] listed[j].1 == name
}

/// Whether the peeled form `name^{}` is listed.
pub open spec fn peel_listed(listed: Seq<(Seq<char>, Seq<char>)>, name: Seq<char>) -> bool {
    exists|k: int| 0 <= k < listed.len() && #[trigger] listed[k].1 == name + "^{}"@
}

/// Whether the peeled form `name^{}` is listed with `sha`.
pub open spec fn peel_listed_with(listed: Seq<(Seq<char>, Seq<char>)>, name: Seq<char>, sha: Seq<char>) -> bool {
    exists|k: int| 0 <= k < listed.len() && #[trigger] listed[k].1 == name + "^{}"@ && listed[k].0 == sha
}

/// What `ls_remote` returns holds the listed refs and nothing else: no remote-tracking
/// ref and no peeled form (`^{}`) is returned; every other listed ref is returned; each
/// returned ref is listed, and comes with the sha of a `<ref>^{}` line where there is one
/// (the commit an annotated tag points to), else with a sha it is listed with.
pub proof fn law_ls_remote_peeled(out: Seq<char>)
    requires
        ls_remote_refs(out) is Some,
    ensures
        ({
            let listed = listed_refs(out);
            let v = ls_remote_refs(out)->0;
            &&& forall|i: int| 0 <= i < v.len() ==> !ends_with(#[trigger] v[i].0, "^{}"@)
                && !contains_sub(v[i].0, "refs/remotes"@)
            &&& forall|j: int| 0 <= j < listed.len() && !ends_with(#[trigger] listed[j].1, "^{}"@)
                ==> exists|i: int| 0 <= i < v.len() && #[trigger] v[i].0 == listed[j].1
            &&& forall|i: int| 0 <= i < v.len() ==> ref_listed(listed, #[trigger] v[i].0)
            &&& forall|i: int| 0 <= i < v.len() && peel_listed(listed, #[trigger] v[i].0) ==> peel_listed_with(
                listed,
                v[i].0,
                v[i].1,
            )
            &&& forall|i: int| 0 <= i < v.len() && !peel_listed(listed, #[trigger] v[i].0) ==> listed.contains(
                (v[i].1, v[i].0),
            )
        }),
{
    let refs = parse_sha_refs(output_lines(out))->0;
    let local = drop_remote_refs(refs);
    let bases = drop_peeled_refs(local);
    let sorted = sort_by_ref(bases);
    lemma_sort_sorted(bases);
    let v = with_peeled(sorted, local);
    assert forall|i: int| 0 <= i < v.len() implies !ends_with(#[trigger] v[i].0, "^{}"@) && !contains_sub(
        v[i].0,
        "refs/remotes"@,
    ) && ref_listed(local, v[i].0) && (peel_listed(local, v[i].0) ==> peel_listed_with(local, v[i].0, v[i].1))
        && (!peel_listed(local, v[i].0) ==> local.contains((v[i].1, v[i].0))) by {
        assert(sorted.contains(sorted[i]));
        lemma_sort_members(bases, sorted[i]);
        lemma_drop_peeled_members(local, sorted[i]);
        lemma_drop_remote_members(refs, sorted[i]);
        let j = choose|j: int| 0 <= j < local.len() && local[j] == sorted[i];
        assert(local[j].1 == v[i].0);
        lemma_peeled_sha(local, sorted[i].1, sorted[i].0);
    }
    assert forall|j: int| 0 <= j < local.len() && !ends_with(#[trigger] local[j].1, "^{}"@) implies exists|i: int|
        0 <= i < v.len() && #[trigger] v[i].0 == local[j].1 by {
        assert(local.contains(local[j]));
        lemma_drop_peeled_members(local, local[j]);
        lemma_sort_members(bases, local[j]);
        let i = choose|i: int| 0 <= i < sorted.len() && sorted[i] == local[j];
        assert(v[i].0 == local[j].1);
    }
    assert(listed_refs(out) == local);
    assert(ls_remote_refs(out)->0 == v);
    assert forall|i: int| 0 <= i < v.len() implies !ends_with(#[trigger] v[i].0, "^{}"@)
        && !contains_sub(v[i].0, "refs/remotes"@) by {}
    assert forall|i: int| 0 <= i < v.len() implies ref_listed(local, #[trigger] v[i].0) by {}
    assert forall|i: int| 0 <= i < v.len() && peel_listed(local, #[trigger] v[i].0) implies peel_listed_with(
        local,
        v[i].0,
        v[i].1,
    ) by {}
    assert forall|i: int| 0 <= i < v.len() && !peel_listed(local, #[trigger] v[i].0) implies local.contains(
        (v[i].1, v[i].0),
    ) by {}
}

/// A reload header asks to reload: after any headers, a header whose name is
/// `typst-serve-reload` up to ASCII case with the value `1` or `true` leaves reloading on.
pub proof fn law_reload_header_asks_reload(
    start: (Option<Seq<char>>, Option<Seq<char>>, bool),
    hs: Seq<(Seq<char>, Seq<char>)>,
    name: Seq<char>,
    value: Seq<char>,
)
    requires
        eq_ignore_ascii_case("typst-serve-reload"@, name),
        value == "1"@ || value == "true"@,
    ensures
        header_options_of(start, hs.push((name, value))).2,
{
    let all = hs.push((name, value));
    lemma_reload_read(start, all);
    assert(all[hs.len() as int] == (name, value));
}

/// Headers ask to reload only through the reload header: starting with reloading off,
/// reloading is on after the headers exactly when one of them is named
/// `typst-serve-reload` up to ASCII case and carries `1` or `true`.
pub proof fn law_reload_only_by_reload_header(
    key: Option<Seq<char>>,
    pattern_value: Option<Seq<char>>,
    hs: Seq<(Seq<char>, Seq<char>)>,
)
    ensures
        header_options_of((key, pattern_value, false), hs).2 <==> exists|i: int|
            0 <= i < hs.len() && eq_ignore_ascii_case("typst-serve-reload"@, (#[trigger] hs[i]).0) && (
            hs[i].1 == "1"@ || hs[i].1 == "true"@),
{
    lemma_reload_read((key, pattern_value, false), hs);
}

/// The no-cache header turns the cache off: after any headers, a header
/// `borink-git-no-cache` with the value `1` or `true` leaves the cache off.
pub proof fn law_no_cache_header_turns_cache_off(
    start: (bool, bool, Option<Seq<char>>),
    trust_key: Option<Seq<char>>,
    hs: Seq<(Seq<char>, Seq<char>)>,
    value: Seq<char>,
)
    requires
        value == "1"@ || value == "true"@,
    ensures
        !apply_headers(start, trust_key, hs.push(("borink-git-no-cache"@, value))).1,
{
    let all = hs.push(("borink-git-no-cache"@, value));
    lemma_no_cache_read(start, trust_key, all);
    assert(all[hs.len() as int] == ("borink-git-no-cache"@, value));
}

/// Only the no-cache header turns the cache off: the cache stays in use after the
/// headers exactly when it was in use and no header `borink-git-no-cache` carries `1` or
/// `true`.
pub proof fn law_cache_off_only_by_no_cache_header(
    start: (bool, bool, Option<Seq<char>>),
    trust_key: Option<Seq<char>>,
    hs: Seq<(Seq<char>, Seq<char>)>,
)
    ensures
        apply_headers(start, trust_key, hs).1 <==> (start.1 && !exists|i: int|
            0 <= i < hs.len() && (#[trigger] hs[i]).0 == "borink-git-no-cache"@ && (hs[i].1 == "1"@
                || hs[i].1 == "true"@)),
{
    lemma_no_cache_read(start, trust_key, hs);
}

/// The directory a repository and subpath are stored under is the first 24 lower-case
/// hex digits of the SHA-256 of the url's and subpath's bytes: digit `i` is nibble `i`
/// of the 32-byte digest (high nibble of a byte first).
pub proof fn law_store_repo_path_is_digest_prefix(url: Seq<char>, subpath: Seq<char>)
    ensures
        sha256(spec_bytes_of(url) + spec_bytes_of(subpath)).len() == 32 ==> {
            &&& store_repo_path_of(url, subpath).len() == 24
            &&& forall|i: int|
                0 <= i < 24 ==> #[trigger] store_repo_path_of(url, subpath)[i] == hex_digit(
                    if i % 2 == 0 {
                        sha256(spec_bytes_of(url) + spec_bytes_of(subpath))[i / 2] / 16
                    } else {
                        sha256(spec_bytes_of(url) + spec_bytes_of(subpath))[i / 2] % 16
                    },
                )
        },
{
    let d = sha256(spec_bytes_of(url) + spec_bytes_of(subpath));
    lemma_hex_lower_len(d);
    if d.len() == 32 {
        assert forall|i: int| 0 <= i < 24 implies #[trigger] store_repo_path_of(url, subpath)[i]
            == hex_digit(
            if i % 2 == 0 {
                d[i / 2] / 16
            } else {
                d[i / 2] % 16
            },
        ) by {
            lemma_hex_lower_index(d, i);
        }
    }
}

/// A store address is the 64 lower-case hex digits of the SHA-256 of the address's
/// encoding: digit `i` is nibble `i` of the 32-byte digest (high nibble of a byte first).
pub proof fn law_store_address_is_digest(url: Seq<char>, commit: Seq<char>, subpath: Seq<char>)
    ensures
        sha256(address_encoding(url, commit, subpath)).len() == 32 ==> {
            &&& store_address_of(url, commit, subpath).len() == 64
            &&& forall|i: int|
                0 <= i < 64 ==> #[trigger] store_address_of(url, commit, subpath)[i] == hex_digit(
                    if i % 2 == 0 {
                        sha256(address_encoding(url, commit, subpath))[i / 2] / 16
                    } else {
                        sha256(address_encoding(url, commit, subpath))[i / 2] % 16
                    },
                )
        },
{
    let d = sha256(address_encoding(url, commit, subpath));
    lemma_hex_lower_len(d);
    if d.len() == 32 {
        assert forall|i: int| 0 <= i < 64 implies #[trigger] store_address_of(url, commit, subpath)[i]
            == hex_digit(
            if i % 2 == 0 {
                d[i / 2] / 16
            } else {
                d[i / 2] % 16
            },
        ) by {
            lemma_hex_lower_index(d, i);
        }
    }
}

/// Resolving an address that is already in the store is idempotent and local: from the
/// start, once the repository and the address are found, four local steps (each asking
/// the question its state asks) resolve it to the address's directory, without an
/// exclusive step, so also where the store may not be changed.
pub proof fn law_stored_address_resolves_locally(
    store_repo_path: GitRelativePathBuf,
    store_repo_dir: String,
    target_dir_subpath: String,
)
    ensures
        ({
            let s0 = GitState::Start {};
            let s1 = local_next(s0, LocalAnswer::Nothing);
            let repo = LocalAnswer::Repo { store_repo_path, store_repo_dir, exists: true };
            let s2 = local_next(s1, repo);
            let s3 = local_next(s2, LocalAnswer::Nothing);
            let address = LocalAnswer::Address { target_dir_subpath, exists: true };
            let s4 = local_next(s3, address);
            &&& handler_of(s0) == StateHandler::Local && answers(s0, LocalAnswer::Nothing)
            &&& handler_of(s1) == StateHandler::Local && answers(s1, repo)
            &&& handler_of(s2) == StateHandler::Local && answers(s2, LocalAnswer::Nothing)
            &&& handler_of(s3) == StateHandler::Local && answers(s3, address)
            &&& s4 == GitState::Resolved(FinalResolved::Path(target_dir_subpath))
        }),
{
}

/// Resolving an address again after it was created gives the same directory with no Git
/// work: where an exclusive step created the address in directory `path` (the store
/// reporting that directory for the address), a later resolution in which the store
/// reports the repository and that directory as present takes only local steps, each
/// asking only whether a directory exists, and resolves to `path` again; so it needs no
/// permission to change the store either.
pub proof fn law_resolving_again_is_local(
    store_repo_dir: String,
    store_repo_path: GitRelativePathBuf,
    repo_dir_again: String,
    path: String,
    path_again: String,
)
    requires
        path_again@ == path@,
    ensures
        ({
            let created = exclusive_next(
                GitState::CreateAddress { store_repo_dir },
                ExclusiveOutcome::AddressCreated(path),
            );
            let s0 = GitState::Start {};
            let s1 = local_next(s0, LocalAnswer::Nothing);
            let repo = LocalAnswer::Repo {
                store_repo_path,
                store_repo_dir: repo_dir_again,
                exists: true,
            };
            let s2 = local_next(s1, repo);
            let s3 = local_next(s2, LocalAnswer::Nothing);
            let address = LocalAnswer::Address { target_dir_subpath: path_again, exists: true };
            let s4 = local_next(s3, address);
            &&& created matches GitState::Resolved(FinalResolved::Path(p)) && p@ == path@
            &&& handler_of(s0) == StateHandler::Local && question_of(s0) == LocalQuestion::Nothing
            &&& handler_of(s1) == StateHandler::Local && question_of(s1) == LocalQuestion::RepoDir
                && answers(s1, repo)
            &&& handler_of(s2) == StateHandler::Local && question_of(s2) == LocalQuestion::Nothing
            &&& handler_of(s3) == StateHandler::Local && question_of(s3) == LocalQuestion::AddressDir
                && answers(s3, address)
            &&& s4 matches GitState::Resolved(FinalResolved::Path(q)) && q@ == path@
        }),
{
}

/// Every step of resolving brings the state closer to being resolved, so resolving takes
/// at most eight steps: no state ranks higher than the start.
pub proof fn law_resolving_is_bounded(s: GitState)
    ensures
        rank(s) <= rank(GitState::Start {}),
        rank(s) == 0 <==> handler_of(s) == StateHandler::Resolved,
{
}

} // verus!
