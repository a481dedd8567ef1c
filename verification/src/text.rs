use vstd::prelude::*;

verus! {

/// The lower-case hexadecimal digit for a value below 16.
pub open spec fn hex_digit(v: u8) -> char {
    if v < 10 {
        ((48 + v) as u8) as char
    } else {
        ((87 + v) as u8) as char
    }
}

/// Two lower-case hexadecimal digits per byte, high nibble first.
pub open spec fn hex_lower(bytes: Seq<u8>) -> Seq<char>
    decreases bytes.len(),
{
    if bytes.len() == 0 {
        Seq::empty()
    } else {
        hex_lower(bytes.drop_last()).push(hex_digit(bytes.last() / 16)).push(
            hex_digit(bytes.last() % 16),
        )
    }
}

pub proof fn lemma_hex_lower_len(bytes: Seq<u8>)
    ensures
        hex_lower(bytes).len() == 2 * bytes.len(),
    decreases bytes.len(),
{
    if bytes.len() > 0 {
        lemma_hex_lower_len(bytes.drop_last());
    }
}

/// Digit `i` of the hexadecimal text of `bytes` is the hex digit of nibble `i`: the high
/// nibble of byte `i / 2` for even `i`, its low nibble for odd `i`.
pub proof fn lemma_hex_lower_index(bytes: Seq<u8>, i: int)
    requires
        0 <= i < 2 * bytes.len(),
    ensures
        hex_lower(bytes)[i] == hex_digit(
            if i % 2 == 0 {
                bytes[i / 2] / 16
            } else {
                bytes[i / 2] % 16
            },
        ),
    decreases bytes.len(),
{
    let d = bytes.drop_last();
    lemma_hex_lower_len(d);
    let h = hex_lower(d);
    if i < 2 * d.len() {
        lemma_hex_lower_index(d, i);
        assert(hex_lower(bytes) == h.push(hex_digit(bytes.last() / 16)).push(hex_digit(bytes.last() % 16)));
        assert(d[i / 2] == bytes[i / 2]);
    } else {
        assert(i / 2 == bytes.len() - 1);
    }
}

/// Appends one character to a string.
#[verifier::external_body]
pub(crate) fn push_char(s: &mut String, c: char)
    ensures
        final(s)@ == old(s)@.push(c),
{
    s.push(c);
}

fn hex_char(v: u8) -> (c: char)
    requires
        v < 16,
    ensures
        c == hex_digit(v),
{
    if v < 10 {
        (48 + v) as char
    } else {
        (87 + v) as char
    }
}

/// Lower-case hexadecimal text of the bytes, two digits per byte.
pub fn to_hex(bytes: &[u8]) -> (s: String)
    ensures
        s@ == hex_lower(bytes@),
{
    let mut s = String::new();
    let mut i: usize = 0;
    while i < bytes.len()
        invariant
            i <= bytes@.len(),
            s@ == hex_lower(bytes@.take(i as int)),
        decreases bytes@.len() - i,
    {
        let b = bytes[i];
        push_char(&mut s, hex_char(b / 16));
        push_char(&mut s, hex_char(b % 16));
        proof {
            assert(bytes@.take(i + 1).drop_last() =~= bytes@.take(i as int));
        }
        i = i + 1;
    }
    proof {
        assert(bytes@.take(bytes@.len() as int) =~= bytes@);
    }
    s
}

/// The characters of a string slice, collected.
pub fn str_chars(s: &str) -> (v: Vec<char>)
    ensures
        v@ == s@,
{
    let mut v: Vec<char> = Vec::new();
    for c in it: s.chars()
        invariant
            v@ == it.seq().take(it.index() as int),
    {
        v.push(c);
    }
    v
}

/// A string holding exactly the given characters.
pub fn string_of(chars: &Vec<char>) -> (s: String)
    ensures
        s@ == chars@,
{
    let mut s = String::new();
    let mut i: usize = 0;
    while i < chars.len()
        invariant
            i <= chars@.len(),
            s@ == chars@.take(i as int),
        decreases chars@.len() - i,
    {
        push_char(&mut s, chars[i]);
        proof {
            assert(chars@.take(i + 1) =~= chars@.take(i as int).push(chars@[i as int]));
        }
        i = i + 1;
    }
    proof {
        assert(chars@.take(chars@.len() as int) =~= chars@);
    }
    s
}

} // verus!

verus! {

/// Whether `c` has the Unicode White_Space property (what `char::is_whitespace` tests).
pub open spec fn is_unicode_whitespace(c: char) -> bool {
    let u = c as u32;
    (0x9 <= u <= 0xd) || u == 0x20 || u == 0x85 || u == 0xa0 || u == 0x1680 || (0x2000 <= u
        <= 0x200a) || u == 0x2028 || u == 0x2029 || u == 0x202f || u == 0x205f || u == 0x3000
}

pub fn is_whitespace(c: char) -> (b: bool)
    ensures
        b == is_unicode_whitespace(c),
{
    let u = c as u32;
    (0x9 <= u && u <= 0xd) || u == 0x20 || u == 0x85 || u == 0xa0 || u == 0x1680 || (0x2000 <= u
        && u <= 0x200a) || u == 0x2028 || u == 0x2029 || u == 0x202f || u == 0x205f || u == 0x3000
}

/// The text without its trailing whitespace.
pub open spec fn trimmed_end(s: Seq<char>) -> Seq<char>
    decreases s.len(),
{
    if s.len() > 0 && is_unicode_whitespace(s.last()) {
        trimmed_end(s.drop_last())
    } else {
        s
    }
}

/// The text without its leading whitespace.
pub open spec fn trimmed_start(s: Seq<char>) -> Seq<char>
    decreases s.len(),
{
    if s.len() > 0 && is_unicode_whitespace(s[0]) {
        trimmed_start(s.drop_first())
    } else {
        s
    }
}

pub fn trim_end_chars(chars: &Vec<char>) -> (r: Vec<char>)
    ensures
        r@ == trimmed_end(chars@),
{
    let mut n = chars.len();
    proof {
        assert(chars@.take(n as int) =~= chars@);
    }
    while n > 0 && is_whitespace(chars[n - 1])
        invariant
            n <= chars@.len(),
            trimmed_end(chars@) == trimmed_end(chars@.take(n as int)),
        decreases n,
    {
        proof {
            assert(chars@.take(n as int).drop_last() =~= chars@.take(n - 1));
        }
        n = n - 1;
    }
    let mut r: Vec<char> = Vec::new();
    let mut i: usize = 0;
    while i < n
        invariant
            i <= n <= chars@.len(),
            r@ == chars@.take(i as int),
        decreases n - i,
    {
        r.push(chars[i]);
        proof {
            assert(chars@.take(i + 1) =~= chars@.take(i as int).push(chars@[i as int]));
        }
        i = i + 1;
    }
    r
}

} // verus!

verus! {

/// The pieces of `s` between the occurrences of `c` (what `str::split` yields).
pub open spec fn split_on(s: Seq<char>, c: char) -> Seq<Seq<char>>
    decreases s.len(),
{
    if s.len() == 0 {
        seq![Seq::empty()]
    } else {
        let parts = split_on(s.drop_last(), c);
        if s.last() == c {
            parts.push(Seq::empty())
        } else {
            parts.update(parts.len() - 1, parts.last().push(s.last()))
        }
    }
}

pub proof fn lemma_split_on_nonempty(s: Seq<char>, c: char)
    ensures
        split_on(s, c).len() >= 1,
    decreases s.len(),
{
    if s.len() > 0 {
        lemma_split_on_nonempty(s.drop_last(), c);
    }
}

/// The texts held by a sequence of character vectors.
pub open spec fn parts_view(v: Seq<Vec<char>>) -> Seq<Seq<char>> {
    v.map_values(|p: Vec<char>| p@)
}

/// Splits the characters at every `c`.
pub fn split_chars(s: &Vec<char>, c: char) -> (parts: Vec<Vec<char>>)
    ensures
        parts_view(parts@) == split_on(s@, c),
{
    let mut parts: Vec<Vec<char>> = Vec::new();
    let mut cur: Vec<char> = Vec::new();
    let mut i: usize = 0;
    proof {
        assert(s@.take(0) =~= Seq::<char>::empty());
        assert(parts_view(parts@).push(cur@) =~= seq![Seq::<char>::empty()]);
    }
    while i < s.len()
        invariant
            i <= s@.len(),
            split_on(s@.take(i as int), c) == parts_view(parts@).push(cur@),
        decreases s@.len() - i,
    {
        let x = s[i];
        proof {
            assert(s@.take(i + 1).drop_last() =~= s@.take(i as int));
            assert(s@.take(i + 1).last() == x);
            lemma_split_on_nonempty(s@.take(i as int), c);
        }
        if x == c {
            let ghost before = parts_view(parts@);
            let done = cur;
            parts.push(done);
            cur = Vec::new();
            proof {
                assert(parts_view(parts@) =~= before.push(done@));
                assert(parts_view(parts@).push(cur@) =~= split_on(s@.take(i + 1), c));
            }
        } else {
            let ghost before = cur@;
            cur.push(x);
            proof {
                assert(parts_view(parts@).push(cur@) =~= parts_view(parts@).push(before).update(
                    parts_view(parts@).len() as int,
                    before.push(x),
                ));
            }
        }
        i = i + 1;
    }
    proof {
        assert(s@.take(s@.len() as int) =~= s@);
    }
    let ghost before = parts_view(parts@);
    let last = cur;
    parts.push(last);
    proof {
        assert(parts_view(parts@) =~= before.push(last@));
    }
    parts
}

/// Whether two character vectors hold the same characters.
pub fn chars_equal(a: &Vec<char>, b: &str) -> (eq: bool)
    ensures
        eq == (a@ == b@),
{
    let bc = str_chars(b);
    if a.len() != bc.len() {
        return false;
    }
    let mut i: usize = 0;
    while i < a.len()
        invariant
            i <= a@.len(),
            a@.len() == bc@.len(),
            bc@ == b@,
            a@.take(i as int) == bc@.take(i as int),
        decreases a@.len() - i,
    {
        if a[i] != bc[i] {
            return false;
        }
        proof {
            assert(a@.take(i + 1) =~= a@.take(i as int).push(a@[i as int]));
            assert(bc@.take(i + 1) =~= bc@.take(i as int).push(bc@[i as int]));
        }
        i = i + 1;
    }
    proof {
        assert(a@ =~= a@.take(a@.len() as int));
        assert(bc@ =~= bc@.take(bc@.len() as int));
    }
    true
}

/// Whether two string slices hold the same text.
pub fn str_equal(a: &str, b: &str) -> (eq: bool)
    ensures
        eq == (a@ == b@),
{
    let ac = str_chars(a);
    chars_equal(&ac, b)
}

} // verus!
