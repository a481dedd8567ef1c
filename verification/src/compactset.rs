use vstd::prelude::*;

verus! {

/// Whether bit `n` of the word `w` is set.
pub open spec fn word_has(w: u64, n: u64) -> bool {
    n < 64 && (w >> n) & 1u64 == 1u64
}

/// The numbers below 64 whose bit is set in `w`.
pub open spec fn word_members(w: u64) -> Set<u64> {
    Set::new(|n: u64| word_has(w, n))
}

proof fn lemma_word_or(w: u64, n: u64)
    requires
        n < 64,
    ensures
        forall|m: u64| word_has(w | (1u64 << n), m) <==> (word_has(w, m) || m == n),
        ((w & (1u64 << n)) > 0) == word_has(w, n),
{
    assert forall|m: u64| word_has(w | (1u64 << n), m) <==> (word_has(w, m) || m == n) by {
        if m < 64 {
            assert(((w | (1u64 << n)) >> m) & 1u64 == 1u64 <==> (((w >> m) & 1u64 == 1u64) || m
                == n)) by (bit_vector)
                requires
                    n < 64,
                    m < 64,
            ;
        }
    }
    assert(((w & (1u64 << n)) > 0) == ((w >> n) & 1u64 == 1u64)) by (bit_vector)
        requires
            n < 64,
    ;
}

proof fn lemma_word_zero()
    ensures
        word_members(0u64) =~= Set::<u64>::empty(),
{
    assert forall|m: u64| !word_has(0u64, m) by {
        assert((0u64 >> m) & 1u64 == 0u64) by (bit_vector);
    }
}

/// A set of the numbers 0 to 63, one bit each.
#[derive(Clone, Copy)]
struct AtomicU64BitSet(u64);

impl AtomicU64BitSet {
    spec fn members(&self) -> Set<u64> {
        word_members(self.0)
    }

    fn new() -> (s: Self)
        ensures
            s.members() == Set::<u64>::empty(),
    {
        proof {
            lemma_word_zero();
        }
        Self(0)
    }

    /// Marks `n` as seen and reports whether it had been seen before.
    fn test_and_set(&mut self, n: u64) -> (seen: bool)
        requires
            n < 64,
        ensures
            seen == old(self).members().contains(n),
            final(self).members() == old(self).members().insert(n),
    {
        let one_at_bit_index = 1u64 << n;
        let old_value = self.0;
        self.0 = old_value | one_at_bit_index;
        proof {
            lemma_word_or(old_value, n);
            assert(final(self).members() =~= old(self).members().insert(n));
        }
        (old_value & one_at_bit_index) > 0
    }
}

/// A set of numbers that answers, for a number, whether it was added before, and adds it.
pub trait CompactSet {
    /// The numbers added so far.
    spec fn contents(&self) -> Set<u64>;

    /// Whether `num` can be asked about.
    spec fn accepts(&self, num: u64) -> bool;

    fn exists_or_add(&mut self, num: u64) -> (seen: bool)
        requires
            old(self).accepts(num),
        ensures
            seen == old(self).contents().contains(num),
            final(self).contents() == old(self).contents().insert(num),
            forall|m: u64| final(self).accepts(m) == old(self).accepts(m),
    ;
}


/// A set of numbers up to a limit, in which a number can be added, asked about and
/// the whole set emptied.
pub trait AtomicBitSet: Sized {
    /// The numbers added since creation or the last reset.
    spec fn members(&self) -> Set<u64>;

    /// The largest number the set can hold.
    spec fn limit(&self) -> u64;

    /// The set's internal invariant.
    spec fn wf(&self) -> bool;

    /// Whether storage for `n` is in place, so that `n` can be asked about.
    spec fn covers(&self, n: u64) -> bool;

    fn new() -> (s: Self)
        ensures
            s.wf(),
            s.members() == Set::<u64>::empty(),
    ;

    fn max_n(&self) -> (m: u64)
        ensures
            m == self.limit(),
    ;

    fn create_up_to(&mut self, n: u64)
        requires
            old(self).wf(),
            n <= old(self).limit(),
        ensures
            final(self).wf(),
            final(self).members() == old(self).members(),
            final(self).limit() == old(self).limit(),
            final(self).covers(n),
            forall|m: u64| old(self).covers(m) ==> final(self).covers(m),
    ;

    fn exists_or_add(&mut self, n: u64) -> (seen: bool)
        requires
            old(self).wf(),
            old(self).covers(n),
        ensures
            final(self).wf(),
            seen == old(self).members().contains(n),
            final(self).members() == old(self).members().insert(n),
            final(self).limit() == old(self).limit(),
            forall|m: u64| final(self).covers(m) == old(self).covers(m),
    ;

    fn reset(&mut self)
        requires
            old(self).wf(),
        ensures
            final(self).wf(),
            final(self).members() == Set::<u64>::empty(),
            final(self).limit() == old(self).limit(),
            forall|m: u64| final(self).covers(m) == old(self).covers(m),
    ;
}

impl AtomicBitSet for AtomicU64BitSet {
    closed spec fn members(&self) -> Set<u64> {
        word_members(self.0)
    }

    open spec fn limit(&self) -> u64 {
        63
    }

    open spec fn wf(&self) -> bool {
        true
    }

    open spec fn covers(&self, n: u64) -> bool {
        n < 64
    }

    fn new() -> (s: Self) {
        AtomicU64BitSet::new()
    }

    fn max_n(&self) -> (m: u64) {
        63
    }

    fn create_up_to(&mut self, n: u64) {
    }

    fn exists_or_add(&mut self, n: u64) -> (seen: bool) {
        self.test_and_set(n)
    }

    fn reset(&mut self) {
        proof {
            lemma_word_zero();
        }
        self.0 = 0;
    }
}

/// Number of words in the small set.
const SMALL_SIZE: usize = 32;

/// A set of the numbers 0 to 2047, held in 32 words of 64 bits (roughly 256 bytes).
pub struct AtomicSmallBitSet {
    atoms: [AtomicU64BitSet; SMALL_SIZE],
}

impl AtomicBitSet for AtomicSmallBitSet {
    closed spec fn members(&self) -> Set<u64> {
        Set::new(|n: u64| n < 2048 && word_has(self.atoms@[(n / 64) as int].0, n % 64))
    }

    open spec fn limit(&self) -> u64 {
        2047
    }

    open spec fn wf(&self) -> bool {
        true
    }

    open spec fn covers(&self, n: u64) -> bool {
        n <= 2047
    }

    fn new() -> (s: Self) {
        let mut s = Self { atoms: [AtomicU64BitSet(0); SMALL_SIZE] };
        s.reset();
        s
    }

    fn max_n(&self) -> (m: u64) {
        ((SMALL_SIZE as u64) * 64) - 1
    }

    fn create_up_to(&mut self, n: u64) {
    }

    fn exists_or_add(&mut self, n: u64) -> (seen: bool) {
        let atom_index = n / 64;
        let index_in_atom = n - (atom_index * 64);
        let mut atom = self.atoms[atom_index as usize];
        let seen = atom.test_and_set(index_in_atom);
        self.atoms[atom_index as usize] = atom;
        proof {
            assert(index_in_atom == n % 64);
            assert forall|m: u64| #[trigger] final(self).members().contains(m) <==> (old(self).members().contains(m) || m == n) by {
                if m < 2048 && m / 64 == atom_index {
                    assert(m % 64 < 64);
                    assert(atom.members().contains(m % 64) <==> (old(self).atoms@[atom_index as int].members().contains(m % 64) || m % 64 == index_in_atom));
                }
            }
            assert(final(self).members() =~= old(self).members().insert(n));
        }
        seen
    }

    fn reset(&mut self) {
        let mut i: usize = 0;
        while i < SMALL_SIZE
            invariant
                i <= SMALL_SIZE,
                forall|j: int| 0 <= j < i ==> (#[trigger] self.atoms@[j]).0 == 0u64,
            decreases SMALL_SIZE - i,
        {
            self.atoms[i] = AtomicU64BitSet(0);
            i = i + 1;
        }
        proof {
            assert forall|n: u64| !final(self).members().contains(n) by {
                assert((0u64 >> (n % 64)) & 1u64 == 0u64) by (bit_vector);
            }
            assert(final(self).members() =~= Set::<u64>::empty());
        }
    }
}

/// A vector of `boxcar`, which can grow while it is read.
#[verifier::external_type_specification]
#[verifier::external_body]
#[verifier::reject_recursive_types(T)]
pub struct ExBoxcarVec<T>(boxcar::Vec<T>);

/// The words a `boxcar` vector holds, in order.
pub uninterp spec fn boxcar_words(v: boxcar::Vec<u64>) -> Seq<u64>;

/// The longest a vector of words grows here: far below the capacity at which `boxcar`
/// panics (about `isize::MAX` elements).
pub open spec fn boxcar_bound() -> int {
    usize::MAX as int / 4
}

/// Calls `boxcar::Vec::new`. Claims: the vector is empty.
#[verifier::external_body]
fn boxcar_new() -> (v: boxcar::Vec<u64>)
    ensures
        boxcar_words(v) == Seq::<u64>::empty(),
{
    boxcar::Vec::new()
}

/// Calls `boxcar::Vec::count`. Claims: it is the number of words (no push runs at the
/// same time: the vector is borrowed).
#[verifier::external_body]
fn boxcar_count(v: &boxcar::Vec<u64>) -> (n: usize)
    ensures
        n == boxcar_words(*v).len(),
{
    v.count()
}

/// Calls `boxcar::Vec::get` and copies the word. Claims: the word at `index`, or `None`
/// past the end.
#[verifier::external_body]
fn boxcar_get(v: &boxcar::Vec<u64>, index: usize) -> (w: Option<u64>)
    ensures
        index < boxcar_words(*v).len() ==> w == Some(boxcar_words(*v)[index as int]),
        index >= boxcar_words(*v).len() ==> w is None,
{
    v.get(index).copied()
}

/// Calls `boxcar::Vec::push`. Claims: the word is appended, at the index returned.
#[verifier::external_body]
fn boxcar_push(v: &mut boxcar::Vec<u64>, w: u64) -> (index: usize)
    requires
        boxcar_words(*old(v)).len() < boxcar_bound(),
    ensures
        boxcar_words(*final(v)) == boxcar_words(*old(v)).push(w),
        index == boxcar_words(*old(v)).len(),
{
    v.push(w)
}

/// Calls `boxcar::Vec::get_mut` and writes the word. Claims: the word at `index` is
/// replaced and nothing else changes.
#[verifier::external_body]
fn boxcar_set(v: &mut boxcar::Vec<u64>, index: usize, w: u64)
    requires
        index < boxcar_words(*old(v)).len(),
    ensures
        boxcar_words(*final(v)) == boxcar_words(*old(v)).update(index as int, w),
{
    if let Some(slot) = v.get_mut(index) {
        *slot = w;
    }
}

/// The bucket and the bit in it of a number of 64 or more.
fn further_indexes(n: u64) -> (r: (usize, u64))
    requires
        64 <= n,
        (n - 64) / 64 <= usize::MAX,
    ensures
        r.0 == (n - 64) / 64,
        r.1 == (n - 64) % 64,
{
    let n_further = n - 64;
    let atom_index = (n_further / 64) as usize;
    let index_in_bucket = n_further - (atom_index as u64) * 64;
    (atom_index, index_in_bucket)
}

/// The largest number the dynamic set holds: every `u64` where `usize` has 64 bits.
pub open spec fn dynamic_limit() -> u64 {
    if usize::MAX as int >= u64::MAX as int {
        u64::MAX
    } else {
        (64 * (usize::MAX as int / 4) + 63) as u64
    }
}

/// A set of numbers that starts with one word for 0 to 63 and grows a word of 64 numbers
/// at a time, as far as it is asked to.
pub struct AtomicDynamicBitSet {
    initial: AtomicU64BitSet,
    further: Option<boxcar::Vec<u64>>,
}

/// Whether the word for `n` (64 or more) is in `words` and has its bit set.
pub open spec fn further_has(words: Seq<u64>, n: u64) -> bool {
    64 <= n && (n - 64) / 64 < words.len() && word_has(words[(n - 64) / 64], ((n - 64) % 64) as u64)
}

impl AtomicDynamicBitSet {
    /// The words after the initial one.
    pub closed spec fn further_words(&self) -> Seq<u64> {
        match self.further {
            Some(v) => boxcar_words(v),
            None => Seq::empty(),
        }
    }
}

impl AtomicBitSet for AtomicDynamicBitSet {
    closed spec fn members(&self) -> Set<u64> {
        Set::new(|n: u64| if n < 64 { word_has(self.initial.0, n) } else { further_has(self.further_words(), n) })
    }

    open spec fn limit(&self) -> u64 {
        dynamic_limit()
    }

    closed spec fn wf(&self) -> bool {
        self.further_words().len() <= (dynamic_limit() as int - 64) / 64 + 1
    }

    closed spec fn covers(&self, n: u64) -> bool {
        n < 64 || (n - 64) / 64 < self.further_words().len()
    }

    fn new() -> (s: Self)
        ensures
            forall|n: u64| s.covers(n) <==> n < 64,
    {
        let s = Self { initial: AtomicU64BitSet::new(), further: None };
        proof {
            assert(s.further_words() =~= Seq::<u64>::empty());
            assert(s.members() =~= Set::<u64>::empty());
        }
        s
    }

    fn max_n(&self) -> (m: u64) {
        if usize::MAX as u64 == u64::MAX {
            u64::MAX
        } else {
            64 * ((usize::MAX / 4) as u64) + 63
        }
    }

    fn create_up_to(&mut self, n: u64) {
        if n < 64 {
            return;
        }
        let (atom_index, _) = further_indexes(n);
        proof {
            assert(atom_index as int <= (dynamic_limit() as int - 64) / 64);
            assert(atom_index < boxcar_bound());
        }
        let mut further = match self.further.take() {
            Some(v) => v,
            None => boxcar_new(),
        };
        let ghost start = boxcar_words(further);
        proof {
            assert(start == old(self).further_words());
        }
        while boxcar_count(&further) <= atom_index
            invariant
                boxcar_words(further).len() <= (dynamic_limit() as int - 64) / 64 + 1,
                atom_index as int <= (dynamic_limit() as int - 64) / 64,
                atom_index < boxcar_bound(),
                boxcar_words(further).len() >= start.len(),
                forall|i: int| 0 <= i < start.len() ==> boxcar_words(further)[i] == start[i],
                forall|i: int| start.len() <= i < boxcar_words(further).len() ==> boxcar_words(further)[i] == 0u64,
            decreases atom_index + 1 - boxcar_words(further).len(),
        {
            let ghost before = boxcar_words(further);
            boxcar_push(&mut further, 0);
            proof {
                assert forall|i: int| 0 <= i < start.len() implies boxcar_words(further)[i] == start[i] by {
                    assert(boxcar_words(further)[i] == before[i]);
                }
            }
        }
        self.further = Some(further);
        proof {
            let words = self.further_words();
            assert(words.len() > atom_index);
            assert forall|m: u64| #[trigger] final(self).members().contains(m) == old(self).members().contains(m) by {
                if m >= 64 && (m - 64) / 64 < words.len() && (m - 64) / 64 >= start.len() {
                    assert(words[(m - 64) / 64] == 0u64);
                    assert((0u64 >> ((m - 64) % 64) as u64) & 1u64 == 0u64) by (bit_vector);
                }
                if m >= 64 && (m - 64) / 64 < start.len() {
                    assert(words[(m - 64) / 64] == start[(m - 64) / 64]);
                }
            }
            assert(final(self).members() =~= old(self).members());
        }
    }

    fn exists_or_add(&mut self, n: u64) -> (seen: bool) {
        if n < 64 {
            let seen = self.initial.test_and_set(n);
            proof {
                assert(final(self).further_words() == old(self).further_words());
                assert forall|m: u64| #[trigger] final(self).members().contains(m) == (old(self).members().contains(m) || m == n) by {
                    if m < 64 {
                        assert(final(self).initial.members().contains(m) == (old(self).initial.members().contains(m) || m == n));
                    }
                }
                assert(final(self).members() =~= old(self).members().insert(n));
            }
            return seen;
        }
        let (atom_index, index_in_bucket) = further_indexes(n);
        let mut further = self.further.take().unwrap();
        let ghost start = boxcar_words(further);
        proof {
            assert(start == old(self).further_words());
        }
        let word = boxcar_get(&further, atom_index).unwrap();
        let mut bucket = AtomicU64BitSet(word);
        let seen = bucket.test_and_set(index_in_bucket);
        boxcar_set(&mut further, atom_index, bucket.0);
        self.further = Some(further);
        proof {
            let words = self.further_words();
            assert(words == start.update(atom_index as int, bucket.0));
            assert forall|m: u64| #[trigger] final(self).members().contains(m) == (old(self).members().contains(m) || m == n) by {
                if m >= 64 && (m - 64) / 64 == atom_index {
                    assert(((m - 64) % 64) < 64);
                    assert(bucket.members().contains(((m - 64) % 64) as u64) == (word_members(word).contains(((m - 64) % 64) as u64) || ((m - 64) % 64) as u64 == index_in_bucket));
                    if ((m - 64) % 64) as u64 == index_in_bucket {
                        assert(m == n);
                    }
                }
            }
            assert(final(self).members() =~= old(self).members().insert(n));
        }
        seen
    }

    fn reset(&mut self) {
        self.initial = AtomicU64BitSet::new();
        let mut further = match self.further.take() {
            Some(v) => v,
            None => {
                proof {
                    assert(final(self).members() =~= Set::<u64>::empty());
                }
                return;
            },
        };
        let count = boxcar_count(&further);
        let ghost len = boxcar_words(further).len();
        let mut i: usize = 0;
        while i < count
            invariant
                count == len,
                boxcar_words(further).len() == len,
                i <= count,
                forall|j: int| 0 <= j < i ==> boxcar_words(further)[j] == 0u64,
            decreases count - i,
        {
            boxcar_set(&mut further, i, 0);
            i = i + 1;
        }
        self.further = Some(further);
        proof {
            assert forall|m: u64| !final(self).members().contains(m) by {
                if m < 64 {
                    assert(!final(self).initial.members().contains(m));
                } else if (m - 64) / 64 < len {
                    let b = ((m - 64) % 64) as u64;
                    assert(boxcar_words(further)[(m - 64) / 64] == 0u64);
                    assert((0u64 >> b) & 1u64 == 0u64) by (bit_vector);
                }
            }
            assert(final(self).members() =~= Set::<u64>::empty());
        }
    }
}

impl<T: AtomicBitSet> CompactSet for T {
    open spec fn contents(&self) -> Set<u64> {
        self.members()
    }

    open spec fn accepts(&self, num: u64) -> bool {
        self.wf() && num <= self.limit()
    }

    fn exists_or_add(&mut self, num: u64) -> (seen: bool) {
        self.create_up_to(num);
        AtomicBitSet::exists_or_add(self, num)
    }
}

} // verus!
