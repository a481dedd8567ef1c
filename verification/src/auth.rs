use vstd::prelude::*;

use vstd::string::StringSliceAdditionalSpecFns;

use crate::bytes::copy_range;
use crate::compactset::{AtomicBitSet, AtomicSmallBitSet, CompactSet};
use crate::text::{hex_lower, push_char, to_hex};

verus! {

/// The longest user id, in bytes, plus the byte that holds its length.
pub const USER_ID_LEN: usize = 256;

/// Length of a serialized password file.
pub const PASSWORD_FILE_LEN: usize = 192;

/// The UTF-8 encoding of two texts one after the other is the two encodings one after
/// the other.
pub proof fn lemma_encode_append(a: Seq<char>, b: Seq<char>)
    ensures
        spec_bytes_of(a + b) == spec_bytes_of(a) + spec_bytes_of(b),
    decreases a.len(),
{
    if a.len() == 0 {
        assert(a + b =~= b);
        assert(spec_bytes_of(a) =~= Seq::<u8>::empty());
        assert(spec_bytes_of(a) + spec_bytes_of(b) =~= spec_bytes_of(b));
    } else {
        lemma_encode_append(a.drop_first(), b);
        assert((a + b).drop_first() =~= a.drop_first() + b);
        assert((a + b)[0] == a[0]);
        assert(spec_bytes_of(a + b) =~= spec_bytes_of(a) + spec_bytes_of(b));
    }
}

/// The number of bytes of a character in UTF-8.
fn utf8_width(c: char) -> (w: usize)
    ensures
        w == spec_bytes_of(seq![c]).len(),
        1 <= w <= 4,
{
    proof {
        vstd::utf8::char_is_scalar(c);
        assert(seq![c].drop_first() =~= Seq::<char>::empty());
        assert(seq![c][0] == c);
        assert(vstd::utf8::encode_utf8(Seq::<char>::empty()) =~= Seq::<u8>::empty());
        assert(spec_bytes_of(seq![c]) =~= vstd::utf8::encode_scalar(c as u32) + Seq::<u8>::empty());
        assert(spec_bytes_of(seq![c]) =~= vstd::utf8::encode_scalar(c as u32));
    }
    let u = c as u32;
    if u < 0x80 {
        1
    } else if u < 0x800 {
        2
    } else if u < 0x10000 {
        3
    } else {
        4
    }
}

/// A text of at most 255 bytes, kept as a 256-byte array the way a fixed string of 256
/// bytes stores it: its length in the first byte, then its bytes, then zeros.
pub struct Str256 {
    text: String,
}

impl View for Str256 {
    type V = Seq<char>;

    closed spec fn view(&self) -> Seq<char> {
        self.text@
    }
}

impl Str256 {
    /// The UTF-8 bytes of the text.
    pub open spec fn bytes(&self) -> Seq<u8> {
        spec_bytes_of(self@)
    }

    #[verifier::type_invariant]
    closed spec fn fits(&self) -> bool {
        self.bytes().len() <= 255
    }

    /// The text `s`, cut to the longest prefix of whole characters that fits in 255 bytes
    /// (all of `s` where it fits).
    pub fn make(s: &str) -> (r: Self)
        ensures
            r@ == s@.take(r@.len() as int),
            r.bytes().len() <= 255,
            r@.len() < s@.len() ==> spec_bytes_of(s@.take(r@.len() as int + 1)).len() > 255,
            s.spec_bytes().len() <= 255 ==> r@ == s@ && r.bytes() == s.spec_bytes(),
    {
        let chars = crate::text::str_chars(s);
        let mut text = String::new();
        let mut used: usize = 0;
        let mut k: usize = 0;
        let mut full = false;
        proof {
            assert(s@.take(0) =~= Seq::<char>::empty());
        }
        while k < chars.len() && !full
            invariant
                chars@ == s@,
                k <= chars@.len(),
                text@ == s@.take(k as int),
                used == spec_bytes_of(text@).len(),
                used <= 255,
                full ==> k < chars@.len() && spec_bytes_of(s@.take(k + 1)).len() > 255,
            decreases chars@.len() - k + (if full { 0int } else { 1int }),
        {
            let c = chars[k];
            let w = utf8_width(c);
            proof {
                assert(s@.take(k + 1) =~= s@.take(k as int) + seq![c]);
                lemma_encode_append(s@.take(k as int), seq![c]);
            }
            if used + w > 255 {
                full = true;
            } else {
                push_char(&mut text, c);
                used = used + w;
                k = k + 1;
            }
        }
        proof {
            if !full {
                assert(s@.take(k as int) =~= s@);
            }
            if full {
                assert(s@ =~= s@.take(k + 1) + s@.skip(k + 1));
                lemma_encode_append(s@.take(k + 1), s@.skip(k + 1));
            }
        }
        Str256 { text }
    }

    /// The text `s`, or `None` when it does not fit in 255 bytes.
    pub fn try_make(s: &str) -> (r: Option<Self>)
        ensures
            r is Some <==> s.spec_bytes().len() <= 255,
            r matches Some(t) ==> t@ == s@ && t.bytes() == s.spec_bytes(),
    {
        if s.as_bytes().len() <= 255 {
            Some(Self::make(s))
        } else {
            None
        }
    }

    pub fn as_str(&self) -> (s: &str)
        ensures
            s@ == self@,
            s.spec_bytes() == self.bytes(),
    {
        self.text.as_str()
    }

    pub fn len(&self) -> (n: usize)
        ensures
            n == self.bytes().len(),
            n <= 255,
    {
        proof {
            use_type_invariant(self);
        }
        self.text.as_str().len()
    }
}

/// UTF-8 bytes of a character sequence.
pub open spec fn spec_bytes_of(s: Seq<char>) -> Seq<u8> {
    vstd::utf8::encode_utf8(s)
}

/// The 256-byte array of a text of at most 255 bytes: its length, its bytes, zeros.
pub open spec fn fixed_array(bytes: Seq<u8>) -> Seq<u8> {
    seq![bytes.len() as u8] + bytes + Seq::new((255 - bytes.len()) as nat, |i: int| 0u8)
}

/// A fixed string seen as the array that stores it.
pub trait FixStrIntoArray {
    /// The stored array.
    spec fn stored(&self) -> Seq<u8>;

    fn as_array(&self) -> (a: [u8; 256])
        ensures
            a@ == self.stored(),
    ;
}

impl FixStrIntoArray for Str256 {
    open spec fn stored(&self) -> Seq<u8> {
        fixed_array(self.bytes())
    }

    fn as_array(&self) -> (a: [u8; 256]) {
        proof {
            use_type_invariant(self);
        }
        let bytes = self.as_str().as_bytes();
        let n = bytes.len();
        let mut a = [0u8; 256];
        a[0] = n as u8;
        let mut i: usize = 0;
        while i < n
            invariant
                i <= n,
                n == bytes@.len(),
                n <= 255,
                a@.len() == 256,
                a@[0] == n as u8,
                forall|j: int| 1 <= j <= i ==> a@[j] == bytes@[j - 1],
                forall|j: int| i < j < 256 ==> a@[j] == 0u8,
            decreases n - i,
        {
            a[i + 1] = bytes[i];
            i = i + 1;
        }
        assert(a@ =~= fixed_array(self.bytes()));
        a
    }
}

/// Per-user login state: a counter that hands out one-time numbers and the set of
/// numbers that have been used.
pub struct UserState {
    counter: u64,
    seen: AtomicSmallBitSet,
}

impl UserState {
    /// The next number the counter hands out.
    pub closed spec fn counter_value(&self) -> u64 {
        self.counter
    }

    /// The numbers used so far.
    pub closed spec fn used(&self) -> Set<u64> {
        self.seen.members()
    }

    pub fn new() -> (s: Self)
        ensures
            s.counter_value() == 0,
            s.used() == Set::<u64>::empty(),
    {
        Self { counter: 0, seen: AtomicSmallBitSet::new() }
    }

    /// Hands out the current number and advances the counter (wrapping around).
    pub fn next(&mut self) -> (n: u64)
        ensures
            n == old(self).counter_value(),
            final(self).counter_value() == (if n == u64::MAX { 0 } else { n + 1 }),
            final(self).used() == old(self).used(),
    {
        let n = self.counter;
        self.counter = self.counter.wrapping_add(1);
        n
    }

    /// Marks `num` as used and reports whether it had been used before.
    pub fn seen(&mut self, num: u64) -> (was_used: bool)
        requires
            num <= 2047,
        ensures
            was_used == old(self).used().contains(num),
            final(self).used() == old(self).used().insert(num),
            final(self).counter_value() == old(self).counter_value(),
    {
        CompactSet::exists_or_add(&mut self.seen, num)
    }

    /// Starts over: the counter at zero, no number used.
    pub fn reset(&mut self)
        ensures
            final(self).counter_value() == 0,
            final(self).used() == Set::<u64>::empty(),
    {
        self.counter = 0;
        self.seen.reset();
    }
}

/// A user: id, login state, serialized OPAQUE password file and free metadata.
pub struct User {
    pub user_id: Str256,
    pub state: UserState,
    pub password_file: [u8; PASSWORD_FILE_LEN],
    pub metadata: [u8; 172],
}

/// One past the index of the last non-zero byte, and at least 1.
pub open spec fn first_zero(bytes: Seq<u8>) -> int
    decreases bytes.len(),
{
    if bytes.len() == 0 {
        1
    } else if bytes.last() != 0 {
        bytes.len() as int
    } else {
        first_zero(bytes.drop_last())
    }
}

/// How a password file is shown: all bytes up to the trailing zeros in hex when there are
/// at most 16, else the first 16 and the last up-to-16 of them, joined by `..`.
pub open spec fn password_file_summary(pw: Seq<u8>) -> Seq<char> {
    let fz = first_zero(pw);
    if fz <= 16 {
        hex_lower(pw.subrange(0, fz))
    } else {
        let end_start = if fz - 16 > 16 { fz - 16 } else { 16 };
        hex_lower(pw.subrange(0, 16)) + ".."@ + hex_lower(pw.subrange(end_start, fz))
    }
}

proof fn lemma_first_zero_bounds(bytes: Seq<u8>)
    ensures
        1 <= first_zero(bytes),
        bytes.len() > 0 ==> first_zero(bytes) <= bytes.len(),
    decreases bytes.len(),
{
    if bytes.len() > 0 {
        lemma_first_zero_bounds(bytes.drop_last());
    }
}

/// One past the index of the last non-zero byte of `bytes`, at least 1.
fn find_first_zero(bytes: &[u8]) -> (fz: usize)
    requires
        bytes@.len() > 0,
    ensures
        fz == first_zero(bytes@),
{
    let mut i = bytes.len();
    proof {
        assert(bytes@.take(i as int) =~= bytes@);
    }
    while i > 0
        invariant
            i <= bytes@.len(),
            first_zero(bytes@) == first_zero(bytes@.take(i as int)),
        decreases i,
    {
        if bytes[i - 1] != 0 {
            return i;
        }
        proof {
            assert(bytes@.take(i as int).drop_last() =~= bytes@.take(i - 1));
        }
        i = i - 1;
    }
    1
}

impl User {
    /// A text that identifies the user without showing all of the password file:
    /// `User{id=<id>;pw_file=<summary>}`.
    pub fn debug_string(&self) -> (s: String)
        ensures
            s@ == "User{id="@ + self.user_id@ + ";pw_file="@ + password_file_summary(
                self.password_file@,
            ) + "}"@,
    {
        let pw = self.password_file.as_slice();
        let fz = find_first_zero(pw);
        proof {
            assert(pw@ =~= self.password_file@.take(192));
            lemma_first_zero_bounds(self.password_file@);
        }
        let mut s = String::from_str("User{id=");
        s.append(self.user_id.as_str());
        s.append(";pw_file=");
        if fz <= 16 {
            let hex = to_hex(copy_range(pw, 0, fz).as_slice());
            s.append(hex.as_str());
        } else {
            let end_start = if fz - 16 > 16 {
                fz - 16
            } else {
                16
            };
            let head = to_hex(copy_range(pw, 0, 16).as_slice());
            let tail = to_hex(copy_range(pw, end_start, fz).as_slice());
            s.append(head.as_str());
            s.append("..");
            s.append(tail.as_str());
        }
        s.append("}");
        s
    }
}

} // verus!
