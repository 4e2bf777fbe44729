use crate::bit_set::BitSet;
use vstd::prelude::*;

verus! {

/// The number of bits in one word of the backing storage.
const NUM_BITS: usize = usize::BITS as usize;

/// The number of words that bit positions can address: every position lies
/// in a word whose index is below this.
pub open spec fn addressable_words() -> int {
    usize::MAX as int / usize::BITS as int + 1
}

/// Whether `bit` is set in `words`: the word that holds it exists and has the
/// bit at the position's offset set.
pub open spec fn bit_in_words(words: Seq<usize>, bit: usize) -> bool {
    let pos = bit as int / usize::BITS as int;
    let shift = (bit as int % usize::BITS as int) as usize;
    pos < words.len() && (words[pos] & (1usize << shift)) != 0
}

/// The number of ones among the lowest `n` bits of `w`.
pub open spec fn ones_below(w: usize, n: nat) -> nat
    decreases n,
{
    if n == 0 {
        0
    } else {
        ones_below(w, (n - 1) as nat) + if (w & (1usize << ((n - 1) as usize))) != 0 {
            1nat
        } else {
            0nat
        }
    }
}

/// The number of ones in the first `n` words of `words`.
pub open spec fn ones_in_words(words: Seq<usize>, n: nat) -> nat
    decreases n,
{
    if n == 0 || n > words.len() {
        0
    } else {
        ones_in_words(words, (n - 1) as nat) + ones_below(words[n - 1], usize::BITS as nat)
    }
}

/// `usize::count_ones` returns the number of ones in the binary
/// representation of its argument, that is among its `usize::BITS` bits.
pub assume_specification[ usize::count_ones ](w: usize) -> (ones: u32)
    ensures
        ones == ones_below(w, usize::BITS as nat),
;

proof fn lemma_arch()
    ensures
        (usize::BITS == 32 && usize::MAX == 0xffff_ffff) || (usize::BITS == 64 && usize::MAX
            == 0xffff_ffff_ffff_ffff),
        NUM_BITS == usize::BITS,
{
}

proof fn lemma_bit_ops(w: usize, i: usize, j: usize)
    by (bit_vector)
    requires
        i < usize::BITS,
        j < usize::BITS,
    ensures
        ((w | (1usize << i)) & (1usize << i)) != 0,
        i != j ==> (((w | (1usize << i)) & (1usize << j)) != 0) == ((w & (1usize << j)) != 0),
        ((w & !(1usize << i)) & (1usize << i)) == 0,
        i != j ==> (((w & !(1usize << i)) & (1usize << j)) != 0) == ((w & (1usize << j)) != 0),
        (0usize & (1usize << j)) == 0,
        (w & (1usize << i)) != 0 ==> w != 0,
        (w & (1usize << i)) == 0 ==> (w & !(1usize << i)) == w,
        (w & (1usize << i)) != 0 ==> (w | (1usize << i)) == w,
{
}

proof fn lemma_first_shift(w: usize)
    by (bit_vector)
    requires
        w != 0,
    ensures
        (w >> 0usize) != 0,
{
}

proof fn lemma_next_shift(w: usize, i: usize)
    by (bit_vector)
    requires
        i < usize::BITS,
        (w >> i) != 0,
        (w & (1usize << i)) == 0,
    ensures
        i + 1 < usize::BITS,
        (w >> ((i + 1) as usize)) != 0,
{
}

/// Splitting a position into word index and offset, and joining them again.
proof fn lemma_position(pos: int, shift: int)
    requires
        0 <= pos < addressable_words(),
        0 <= shift < usize::BITS,
    ensures
        0 <= pos * usize::BITS + shift <= usize::MAX,
        (pos * usize::BITS + shift) / usize::BITS as int == pos,
        (pos * usize::BITS + shift) % usize::BITS as int == shift,
{
    lemma_arch();
    if usize::BITS == 32 {
        assert(addressable_words() == 0xffff_ffffint / 32 + 1);
        assert(pos * 32 + shift <= 0xffff_ffff);
        assert((pos * 32 + shift) / 32 == pos);
        assert((pos * 32 + shift) % 32 == shift);
    } else {
        assert(addressable_words() == 0xffff_ffff_ffff_ffffint / 64 + 1);
        assert(pos * 64 + shift <= 0xffff_ffff_ffff_ffff);
        assert((pos * 64 + shift) / 64 == pos);
        assert((pos * 64 + shift) % 64 == shift);
    }
}

proof fn lemma_split(bit: usize)
    ensures
        0 <= (bit as int / usize::BITS as int) < addressable_words(),
        0 <= (bit as int % usize::BITS as int) < usize::BITS,
        (bit as int / usize::BITS as int) * usize::BITS + (bit as int % usize::BITS as int) == bit,
{
    lemma_arch();
    if usize::BITS == 32 {
        assert(addressable_words() == 0xffff_ffffint / 32 + 1);
        assert(bit as int / 32 < 0xffff_ffffint / 32 + 1);
        assert((bit as int / 32) * 32 + bit as int % 32 == bit);
    } else {
        assert(addressable_words() == 0xffff_ffff_ffff_ffffint / 64 + 1);
        assert(bit as int / 64 < 0xffff_ffff_ffff_ffffint / 64 + 1);
        assert((bit as int / 64) * 64 + bit as int % 64 == bit);
    }
}

/// The set bits of `words` among the positions below `n`.
spec fn bits_below(words: Seq<usize>, n: int) -> Set<usize> {
    Set::new(|bit: usize| bit < n && bit_in_words(words, bit))
}

/// The number of set bits of `words` among the positions below `n`.
spec fn count_below(words: Seq<usize>, n: nat) -> nat
    decreases n,
{
    if n == 0 {
        0
    } else {
        count_below(words, (n - 1) as nat) + if n - 1 <= usize::MAX && bit_in_words(
            words,
            (n - 1) as usize,
        ) {
            1nat
        } else {
            0nat
        }
    }
}

proof fn lemma_bits_below(words: Seq<usize>, n: nat)
    ensures
        bits_below(words, n as int).finite(),
        bits_below(words, n as int).len() == count_below(words, n),
    decreases n,
{
    if n == 0 {
        assert(bits_below(words, 0) =~= Set::<usize>::empty());
    } else {
        lemma_bits_below(words, (n - 1) as nat);
        let prev = bits_below(words, n - 1);
        if n - 1 <= usize::MAX && bit_in_words(words, (n - 1) as usize) {
            assert(bits_below(words, n as int) =~= prev.insert((n - 1) as usize));
        } else {
            assert(bits_below(words, n as int) =~= prev);
        }
    }
}

/// The positions in word `pos` below offset `shift` count as the ones of
/// that word below `shift`.
proof fn lemma_count_in_word(words: Seq<usize>, pos: nat, shift: nat)
    requires
        pos < words.len(),
        pos < addressable_words(),
        shift <= usize::BITS,
    ensures
        count_below(words, pos * usize::BITS as nat + shift) == count_below(
            words,
            pos * usize::BITS as nat,
        ) + ones_below(words[pos as int], shift),
    decreases shift,
{
    if shift > 0 {
        lemma_count_in_word(words, pos, (shift - 1) as nat);
        lemma_position(pos as int, shift - 1);
        let bit = (pos * usize::BITS as nat + shift - 1) as usize;
        assert(bit_in_words(words, bit) == ((words[pos as int] & (1usize << ((shift
            - 1) as usize))) != 0));
        assert(pos * usize::BITS as nat + shift - 1 == (pos * usize::BITS as nat + shift) as nat
            - 1);
    }
}

/// The positions in the first `n` words count as the ones of those words.
proof fn lemma_count_words(words: Seq<usize>, n: nat)
    requires
        n <= words.len(),
        n <= addressable_words(),
    ensures
        count_below(words, n * usize::BITS as nat) == ones_in_words(words, n),
    decreases n,
{
    if n > 0 {
        lemma_count_words(words, (n - 1) as nat);
        lemma_count_in_word(words, (n - 1) as nat, usize::BITS as nat);
        assert((n - 1) as nat * usize::BITS as nat + usize::BITS as nat == n * usize::BITS as nat)
            by (nonlinear_arith)
            requires
                n > 0,
        ;
    } else {
        assert(0nat * usize::BITS as nat == 0) by (nonlinear_arith);
    }
}

proof fn lemma_ones_of_zero(n: nat)
    requires
        n <= usize::BITS,
    ensures
        ones_below(0usize, n) == 0,
    decreases n,
{
    if n > 0 {
        lemma_ones_of_zero((n - 1) as nat);
        lemma_bit_ops(0usize, 0usize, (n - 1) as usize);
    }
}

/// Words that are zero from `from` on add no ones.
proof fn lemma_ones_in_zero_tail(words: Seq<usize>, from: nat, n: nat)
    requires
        from <= n <= words.len(),
        forall|i: int| from <= i < words.len() ==> words[i] == 0,
    ensures
        ones_in_words(words, n) == ones_in_words(words, from),
    decreases n,
{
    if n > from {
        lemma_ones_in_zero_tail(words, from, (n - 1) as nat);
        lemma_ones_of_zero(usize::BITS as nat);
    }
}

proof fn lemma_ones_in_words_monotonic(words: Seq<usize>, i: nat, j: nat)
    requires
        i <= j <= words.len(),
    ensures
        ones_in_words(words, i) <= ones_in_words(words, j),
    decreases j,
{
    if i < j {
        lemma_ones_in_words_monotonic(words, i, (j - 1) as nat);
    }
}

/// Single-layer bit set: one bit per position, in words that are added as
/// positions are set and never taken away.
#[derive(Debug)]
pub struct FlatBitSet {
    bits: Vec<usize>,
}

impl View for FlatBitSet {
    type V = Set<usize>;

    /// The positions that are set.
    open spec fn view(&self) -> Set<usize> {
        Set::new(|bit: usize| bit_in_words(self.words(), bit))
    }
}

impl FlatBitSet {
    /// The words of the backing storage.
    pub closed spec fn words(&self) -> Seq<usize> {
        self.bits@
    }

    /// Words that no position addresses hold no bit.
    pub open spec fn well_formed(&self) -> bool {
        forall|i: int|
            addressable_words() <= i < self.words().len() ==> #[trigger] self.words()[i] == 0
    }

    /// The set bits are those below the end of the addressable words, and
    /// their number is the number of ones in the words.
    pub proof fn lemma_len(&self)
        requires
            self.well_formed(),
        ensures
            self@.finite(),
            self@.len() == ones_in_words(self.words(), self.words().len()),
    {
        let words = self.words();
        let n: nat = if words.len() <= addressable_words() {
            words.len()
        } else {
            addressable_words() as nat
        };
        lemma_arch();
        lemma_bits_below(words, n * usize::BITS as nat);
        lemma_count_words(words, n);
        lemma_ones_in_zero_tail(words, n, words.len());
        assert forall|bit: usize| bit_in_words(words, bit) implies bit < n * usize::BITS as nat by {
            lemma_split(bit);
            let pos = bit as int / usize::BITS as int;
            assert(pos < n);
            assert(pos * usize::BITS + usize::BITS <= n * usize::BITS) by (nonlinear_arith)
                requires
                    pos + 1 <= n,
            ;
        }
        assert(self@ =~= bits_below(words, (n * usize::BITS as nat) as int));
    }

    /// Creates a new `FlatBitSet` with all bits set to zero.
    pub fn new() -> (set: Self)
        ensures
            set.well_formed(),
            set.words() == Seq::<usize>::empty(),
            set@ == Set::<usize>::empty(),
    {
        let set = FlatBitSet { bits: Vec::new() };
        assert(set@ =~= Set::<usize>::empty());
        set
    }

    /// The words of the backing storage, lowest positions first.
    pub fn as_words(&self) -> (words: &[usize])
        ensures
            words@ == self.words(),
    {
        self.bits.as_slice()
    }

    /// Grows the backing storage to at least `size` words. New words hold
    /// no bit; the storage never shrinks.
    #[inline]
    pub fn ensure_size(&mut self, size: usize)
        requires
            old(self).well_formed(),
        ensures
            final(self).well_formed(),
            final(self)@ == old(self)@,
            final(self).words().len() == if old(self).words().len() < size {
                size as nat
            } else {
                old(self).words().len()
            },
            forall|i: int|
                0 <= i < old(self).words().len() ==> final(self).words()[i] == old(self).words()[i],
            forall|i: int|
                old(self).words().len() <= i < final(self).words().len() ==> final(self).words()[i]
                    == 0,
    {
        while self.bits.len() < size
            invariant
                self.bits@.len() >= old(self).bits@.len(),
                self.bits@.len() <= size || self.bits@.len() == old(self).bits@.len(),
                forall|i: int| 0 <= i < old(self).bits@.len() ==> self.bits@[i] == old(self).bits@[i],
                forall|i: int| old(self).bits@.len() <= i < self.bits@.len() ==> self.bits@[i] == 0,
            decreases size - self.bits.len(),
        {
            self.bits.push(0);
        }
        proof {
            assert forall|bit: usize|
                bit_in_words(self.words(), bit) == bit_in_words(old(self).words(), bit) by {
                lemma_split(bit);
                let shift = (bit as int % usize::BITS as int) as usize;
                lemma_bit_ops(0usize, shift, shift);
            }
            assert(self@ =~= old(self)@);
        }
    }
}

impl Clone for FlatBitSet {
    fn clone(&self) -> (copy: Self)
        ensures
            copy.words() == self.words(),
            copy@ == self@,
    {
        let copy = FlatBitSet { bits: self.bits.clone() };
        assert(copy.bits@ =~= self.bits@);
        copy
    }
}

impl Default for FlatBitSet {
    fn default() -> (set: Self)
        ensures
            set.well_formed(),
            set.words() == Seq::<usize>::empty(),
            set@ == Set::<usize>::empty(),
    {
        FlatBitSet::new()
    }
}

impl BitSet for FlatBitSet {
    open spec fn wf(&self) -> bool {
        self.well_formed()
    }

    proof fn lemma_finite(&self) {
        self.lemma_len();
    }

    fn empty_bit_set() -> (set: Self) {
        FlatBitSet::new()
    }

    #[inline]
    fn add(&mut self, bit: usize) -> (was_set: bool)
        ensures
            final(self).words().len() == if old(self).words().len() <= (bit as int
                / usize::BITS as int) {
                bit as int / usize::BITS as int + 1
            } else {
                old(self).words().len() as int
            },
    {
        proof {
            lemma_arch();
            lemma_split(bit);
        }
        let pos = bit / NUM_BITS;
        let shift = bit % NUM_BITS;
        let mask: usize = 1usize << shift;

        self.ensure_size(pos + 1);

        let ghost grown = self.words();
        let num = self.bits[pos];
        let was_set = (num & mask) != 0;

        self.bits.set(pos, num | mask);

        proof {
            assert forall|other: usize|
                bit_in_words(self.words(), other) == (other == bit || bit_in_words(
                    old(self).words(),
                    other,
                )) by {
                lemma_split(other);
                let other_pos = other as int / usize::BITS as int;
                let other_shift = (other as int % usize::BITS as int) as usize;
                lemma_bit_ops(num, shift, other_shift);
                lemma_bit_ops(0usize, shift, other_shift);
            }
            assert(self@ =~= old(self)@.insert(bit));
            lemma_bit_ops(0usize, shift, shift);
        }
        was_set
    }

    fn remove(&mut self, bit: usize) -> (was_set: bool)
        ensures
            final(self).words().len() == old(self).words().len(),
            !was_set ==> final(self).words() == old(self).words(),
    {
        proof {
            lemma_arch();
            lemma_split(bit);
        }
        let pos = bit / NUM_BITS;
        let shift = bit % NUM_BITS;
        let mask: usize = 1usize << shift;

        if self.bits.len() > pos {
            let num = self.bits[pos];
            let was_set = (num & mask) != 0;

            self.bits.set(pos, num & !mask);

            proof {
                assert forall|other: usize|
                    bit_in_words(self.words(), other) == (other != bit && bit_in_words(
                        old(self).words(),
                        other,
                    )) by {
                    lemma_split(other);
                    let other_shift = (other as int % usize::BITS as int) as usize;
                    lemma_bit_ops(num, shift, other_shift);
                }
                assert(self@ =~= old(self)@.remove(bit));
                lemma_bit_ops(num, shift, shift);
                lemma_bit_ops(0usize, shift, shift);
                if !was_set {
                    assert(self.words() =~= old(self).words());
                }
            }
            was_set
        } else {
            assert(self@ =~= old(self)@.remove(bit));
            false
        }
    }

    fn pop_front(&mut self) -> (first: Option<usize>)
        ensures
            final(self).words().len() == old(self).words().len(),
    {
        let mut pos: usize = 0;
        while pos < self.bits.len() && self.bits[pos] == 0
            invariant
                pos <= self.bits@.len(),
                forall|i: int| 0 <= i < pos ==> self.bits@[i] == 0,
            decreases self.bits@.len() - pos,
        {
            pos += 1;
        }
        if pos == self.bits.len() {
            proof {
                assert forall|bit: usize| !bit_in_words(self.words(), bit) by {
                    lemma_split(bit);
                    let shift = (bit as int % usize::BITS as int) as usize;
                    lemma_bit_ops(0usize, shift, shift);
                }
                assert(self@ =~= Set::<usize>::empty());
            }
            return None;
        }
        let ghost word = self.bits@[pos as int];
        proof {
            lemma_arch();
            lemma_position(pos as int, 0);
            lemma_first_shift(word);
        }
        let mpos = pos * NUM_BITS;
        let mut bpos: usize = 0;
        while bpos < NUM_BITS
            invariant
                self.words() == old(self).words(),
                self.well_formed(),
                pos < self.words().len(),
                pos < addressable_words(),
                word == self.words()[pos as int],
                mpos == pos * usize::BITS,
                bpos < usize::BITS,
                NUM_BITS == usize::BITS,
                (word >> bpos) != 0,
                forall|i: int| 0 <= i < pos ==> self.words()[i] == 0,
                forall|j: usize| j < bpos ==> (word & (1usize << j)) == 0,
            decreases usize::BITS - bpos,
        {
            proof {
                lemma_position(pos as int, bpos as int);
            }
            let bit = mpos + bpos;
            if self.remove(bit) {
                proof {
                    assert forall|other: usize| old(self)@.contains(other) implies bit
                        <= other by {
                        lemma_split(other);
                        let other_pos = other as int / usize::BITS as int;
                        let other_shift = (other as int % usize::BITS as int) as usize;
                        lemma_bit_ops(0usize, other_shift, other_shift);
                        if other_pos == pos && other_shift < bpos {
                            assert((word & (1usize << other_shift)) == 0);
                        }
                        if other_pos > pos {
                            assert(other_pos * usize::BITS >= (pos + 1) * usize::BITS)
                                by (nonlinear_arith)
                                requires
                                    other_pos >= pos + 1,
                            ;
                            assert((pos + 1) * usize::BITS == pos * usize::BITS + usize::BITS)
                                by (nonlinear_arith);
                        }
                    }
                }
                return Some(bit);
            }
            proof {
                lemma_next_shift(word, bpos);
                assert forall|j: usize| j < bpos + 1 implies (word & (1usize << j)) == 0 by {
                    if j == bpos {
                    }
                }
            }
            bpos += 1;
        }
        None
    }

    fn contains(&self, bit: usize) -> (is_set: bool) {
        proof {
            lemma_arch();
            lemma_split(bit);
        }
        let pos = bit / NUM_BITS;
        let shift = bit % NUM_BITS;
        let mask: usize = 1usize << shift;

        if self.bits.len() > pos {
            (self.bits[pos] & mask) != 0
        } else {
            false
        }
    }

    fn count(&self) -> (n: usize) {
        proof {
            self.lemma_len();
        }
        let mut total: usize = 0;
        let mut i: usize = 0;
        while i < self.bits.len()
            invariant
                i <= self.bits@.len(),
                total == ones_in_words(self.bits@, i as nat),
                ones_in_words(self.bits@, self.bits@.len()) <= usize::MAX,
            decreases self.bits@.len() - i,
        {
            proof {
                lemma_ones_in_words_monotonic(self.bits@, (i + 1) as nat, self.bits@.len());
            }
            total += self.bits[i].count_ones() as usize;
            i += 1;
        }
        total
    }
}

} // verus!
