//! Bitmap data structure helper.

use crate::utils::error::SummersetError;
use crate::utils::text::{decimal, push_decimal};
use fixedbitset::FixedBitSet;
use std::collections::HashSet;
use std::ops::Range;
use vstd::prelude::*;
use vstd::string::*;

verus! {

/// The bit set of the `fixedbitset` crate, which holds the flags of a
/// bitmap. Nothing of its inside is known here; what it holds is named by
/// `flags_of`, and the functions below say what the calls into the crate
/// do to that. They are believed, not proved.
#[verifier::external_type_specification]
#[verifier::external_body]
pub struct ExFixedBitSet(FixedBitSet);

/// The flags that a bit set holds, lowest index first.
pub uninterp spec fn flags_of(set: FixedBitSet) -> Seq<bool>;

/// How many of the flags are true.
pub open spec fn count_true(flags: Seq<bool>) -> nat
    decreases flags.len(),
{
    if flags.len() == 0 {
        0
    } else {
        count_true(flags.drop_last()) + if flags.last() {
            1nat
        } else {
            0nat
        }
    }
}

/// No more flags can be true than there are flags.
pub proof fn lemma_count_true_bound(flags: Seq<bool>)
    ensures
        count_true(flags) <= flags.len(),
    decreases flags.len(),
{
    if flags.len() > 0 {
        lemma_count_true_bound(flags.drop_last());
    }
}

/// `FixedBitSet::with_capacity`: a set of `size` flags, all of them false.
#[verifier::external_body]
fn bitset_with_capacity(size: u8) -> (set: FixedBitSet)
    ensures
        flags_of(set) == Seq::new(size as nat, |i: int| false),
{
    FixedBitSet::with_capacity(size as usize)
}

/// `FixedBitSet::len`: the number of flags, set or not.
#[verifier::external_body]
fn bitset_len(set: &FixedBitSet) -> (len: usize)
    ensures
        len == flags_of(*set).len(),
{
    set.len()
}

/// `FixedBitSet::set`: the flag at `bit` becomes `enabled`, the others stay.
/// The call panics on an index past the end, which `requires` leaves out.
#[verifier::external_body]
fn bitset_set(set: &mut FixedBitSet, bit: usize, enabled: bool)
    requires
        bit < flags_of(*old(set)).len(),
    ensures
        flags_of(*final(set)) == flags_of(*old(set)).update(bit as int, enabled),
    no_unwind
{
    set.set(bit, enabled)
}

/// Indexing a `FixedBitSet`: the flag at `bit`, and false past the end.
#[verifier::external_body]
fn bitset_index(set: &FixedBitSet, bit: usize) -> (flag: bool)
    ensures
        flag == (bit < flags_of(*set).len() && flags_of(*set)[bit as int]),
{
    set[bit]
}

/// `FixedBitSet::set_range` over the full range: every flag becomes
/// `enabled`. The full range fits every set, so the call does not panic.
#[verifier::external_body]
fn bitset_set_all(set: &mut FixedBitSet, enabled: bool)
    ensures
        flags_of(*final(set)) == Seq::new(flags_of(*old(set)).len(), |i: int| enabled),
    no_unwind
{
    set.set_range(.., enabled)
}

/// `FixedBitSet::toggle_range` over the full range: every flag is inverted.
/// The full range fits every set, so the call does not panic.
#[verifier::external_body]
fn bitset_toggle_all(set: &mut FixedBitSet)
    ensures
        flags_of(*final(set)) == Seq::new(
            flags_of(*old(set)).len(),
            |i: int| !flags_of(*old(set))[i],
        ),
    no_unwind
{
    set.toggle_range(..)
}

/// `FixedBitSet::count_ones` over the full range: how many flags are set.
#[verifier::external_body]
fn bitset_count_ones(set: &FixedBitSet) -> (ones: usize)
    ensures
        ones == count_true(flags_of(*set)),
{
    set.count_ones(..)
}

/// `FixedBitSet::union_with` on two sets of one length: each flag becomes
/// the disjunction of the two flags at its index, and the call does not
/// panic. (On sets of different lengths the call may grow the first;
/// `requires` leaves those out.)
#[verifier::external_body]
fn bitset_union_with(set: &mut FixedBitSet, other: &FixedBitSet)
    requires
        flags_of(*old(set)).len() == flags_of(*other).len(),
    ensures
        flags_of(*final(set)) == Seq::new(
            flags_of(*old(set)).len(),
            |i: int| flags_of(*old(set))[i] || flags_of(*other)[i],
        ),
    no_unwind
{
    set.union_with(other)
}

/// `FixedBitSet::clear`: every flag becomes false, the length stays. The
/// call does not panic.
#[verifier::external_body]
fn bitset_clear(set: &mut FixedBitSet)
    ensures
        flags_of(*final(set)) == Seq::new(flags_of(*old(set)).len(), |i: int| false),
    no_unwind
{
    set.clear()
}

/// `FixedBitSet::clone`: a second set with the same flags.
#[verifier::external_body]
fn bitset_clone(set: &FixedBitSet) -> (copy: FixedBitSet)
    ensures
        flags_of(copy) == flags_of(*set),
{
    set.clone()
}

/// Compact bitmap for u8 ID -> bool mapping.
///
/// A bitmap has between 1 and 255 slots; its view is the sequence of their
/// flags.
#[derive(Debug)]
pub struct Bitmap(FixedBitSet);

impl View for Bitmap {
    type V = Seq<bool>;

    closed spec fn view(&self) -> Seq<bool> {
        flags_of(self.0)
    }
}

impl Bitmap {
    #[verifier::type_invariant]
    spec fn sized(self) -> bool {
        0 < flags_of(self.0).len() <= u8::MAX
    }

    /// Creates a new bitmap of given size. If `ones` is true, all slots are
    /// marked true initially; otherwise, all slots are initially false.
    /// A bitmap has at least one slot: code that is not verified and asks
    /// for none is stopped.
    pub fn new(size: u8, ones: bool) -> (map: Self)
        requires
            size > 0,
        ensures
            map@ == Seq::new(size as nat, |i: int| ones),
    {
        if size == 0 {
            return unreached();
        }
        let mut bitset = bitset_with_capacity(size);
        if ones {
            bitset_set_all(&mut bitset, true);
        }
        Bitmap(bitset)
    }

    /// Sets bit at index to given flag.
    pub fn set(&mut self, idx: u8, flag: bool) -> (r: Result<(), SummersetError>)
        ensures
            match r {
                Ok(_) => idx < old(self)@.len() && final(self)@ == old(self)@.update(
                    idx as int,
                    flag,
                ),
                Err(e) => idx >= old(self)@.len() && final(self)@ == old(self)@ && e == (
                SummersetError::IndexOutOfBound { idx }),
            },
    {
        proof {
            use_type_invariant(&*self);
        }
        if idx as usize >= bitset_len(&self.0) {
            return Err(SummersetError::IndexOutOfBound { idx });
        }
        bitset_set(&mut self.0, idx as usize, flag);
        Ok(())
    }

    /// Gets the bit flag at index.
    pub fn get(&self, idx: u8) -> (r: Result<bool, SummersetError>)
        ensures
            match r {
                Ok(flag) => idx < self@.len() && flag == self@[idx as int],
                Err(e) => idx >= self@.len() && e == (SummersetError::IndexOutOfBound { idx }),
            },
    {
        if idx as usize >= bitset_len(&self.0) {
            return Err(SummersetError::IndexOutOfBound { idx });
        }
        Ok(self.at(idx))
    }

    /// The flag of a slot that the bitmap has.
    fn at(&self, idx: u8) -> (flag: bool)
        requires
            idx < self@.len(),
        ensures
            flag == self@[idx as int],
    {
        bitset_index(&self.0, idx as usize)
    }

    /// Returns the size of the bitmap.
    pub fn size(&self) -> (size: u8)
        ensures
            size == self@.len(),
            size > 0,
    {
        proof {
            use_type_invariant(self);
        }
        bitset_len(&self.0) as u8
    }

    /// Returns the number of trues in the bitmap.
    pub fn count(&self) -> (cnt: u8)
        ensures
            cnt == count_true(self@),
            cnt <= self@.len(),
    {
        proof {
            use_type_invariant(self);
            lemma_count_true_bound(self@);
        }
        bitset_count_ones(&self.0) as u8
    }

    /// Flips all flags in the bitmap.
    pub fn flip(&mut self)
        ensures
            final(self)@ == Seq::new(old(self)@.len(), |i: int| !old(self)@[i]),
    {
        proof {
            use_type_invariant(&*self);
        }
        bitset_toggle_all(&mut self.0);
    }

    /// Unions with another same-size bitmap.
    pub fn union(&mut self, other: &Self) -> (r: Result<(), SummersetError>)
        ensures
            match r {
                Ok(_) => old(self)@.len() == other@.len() && final(self)@ == Seq::new(
                    other@.len(),
                    |i: int| old(self)@[i] || other@[i],
                ),
                Err(e) => old(self)@.len() != other@.len() && final(self)@ == old(self)@ && e == (
                SummersetError::SizeMismatch {
                    left: old(self)@.len() as u8,
                    right: other@.len() as u8,
                }),
            },
    {
        proof {
            use_type_invariant(&*self);
        }
        if self.size() == other.size() {
            bitset_union_with(&mut self.0, &other.0);
            Ok(())
        } else {
            Err(SummersetError::SizeMismatch { left: self.size(), right: other.size() })
        }
    }

    /// Clears all flags in the bitmap to 0.
    pub fn clear(&mut self)
        ensures
            final(self)@ == Seq::new(old(self)@.len(), |i: int| false),
    {
        proof {
            use_type_invariant(&*self);
        }
        bitset_clear(&mut self.0);
    }
}

impl Bitmap {
    /// Allows walking the slots in index order as `(id, bit)` pairs.
    pub fn iter(&self) -> (it: BitmapIter<'_>)
        ensures
            it@ == Seq::new(self@.len(), |i: int| (i as u8, self@[i])),
    {
        proof {
            use_type_invariant(self);
        }
        let it = BitmapIter { map: self, idx: 0 };
        assert(it@ =~= Seq::new(self@.len(), |i: int| (i as u8, self@[i])));
        it
    }

    /// The approximate heap size in bytes: the number of slots in 32-bit
    /// words, rounded up.
    pub fn heap_size(&self) -> (words: usize)
        ensures
            words == (self@.len() + 31) / 32,
    {
        (self.size() as usize + 31) / 32
    }

    /// Convert <- (size, range of contiguous indexes where the flag is true).
    /// The range lies within the size, unless it is empty.
    pub fn from_range(size: u8, ones: Range<u8>) -> (map: Self)
        requires
            size > 0,
            ones.start < ones.end ==> ones.end <= size,
        ensures
            map@ == Seq::new(size as nat, |i: int| ones.start <= i < ones.end),
    {
        let mut bitmap = Self::new(size, false);
        let mut idx: u8 = ones.start;
        while idx < ones.end
            invariant
                ones.start < ones.end ==> ones.end <= size,
                ones.start <= idx,
                ones.start < ones.end ==> idx <= ones.end,
                ones.start >= ones.end ==> idx == ones.start,
                bitmap@ == Seq::new(size as nat, |i: int| ones.start <= i < idx),
            decreases ones.end - idx,
        {
            bitmap.mark(idx);
            idx = idx + 1;
        }
        assert(bitmap@ =~= Seq::new(size as nat, |i: int| ones.start <= i < ones.end));
        bitmap
    }

    /// Convert <- (size, vec of indexes where the flag is true).
    /// Every index of the vec lies within the size.
    pub fn from_vec(size: u8, ones: &Vec<u8>) -> (map: Self)
        requires
            size > 0,
            forall|k: int| 0 <= k < ones@.len() ==> ones@[k] < size,
        ensures
            map@ == Seq::new(size as nat, |i: int| ones@.contains(i as u8)),
    {
        let mut bitmap = Self::new(size, false);
        let mut k: usize = 0;
        assert(bitmap@ =~= Seq::new(size as nat, |i: int| ones@.take(0).contains(i as u8)));
        while k < ones.len()
            invariant
                k <= ones.len(),
                forall|j: int| 0 <= j < ones@.len() ==> ones@[j] < size,
                bitmap@ == Seq::new(size as nat, |i: int| ones@.take(k as int).contains(i as u8)),
            decreases ones.len() - k,
        {
            let idx = ones[k];
            bitmap.mark(idx);
            proof {
                let grown = ones@.take(k as int + 1);
                assert(grown.drop_last() == ones@.take(k as int));
                assert(grown.last() == idx);
                assert forall|i: int| 0 <= i < size implies #[trigger] bitmap@[i] == grown.contains(
                    i as u8,
                ) by {
                    if i == idx {
                        assert(grown[k as int] == idx);
                    } else if grown.contains(i as u8) {
                        let j = choose|j: int| 0 <= j < grown.len() && grown[j] == i as u8;
                        assert(ones@.take(k as int)[j] == i as u8);
                    } else if ones@.take(k as int).contains(i as u8) {
                        let j = choose|j: int|
                            0 <= j < ones@.take(k as int).len() && ones@.take(k as int)[j] == i as u8;
                        assert(grown[j] == i as u8);
                    }
                }
                assert(bitmap@ =~= Seq::new(size as nat, |i: int| grown.contains(i as u8)));
            }
            k = k + 1;
        }
        proof {
            assert(ones@.take(k as int) == ones@);
        }
        bitmap
    }

    /// Convert <- (size, set of indexes where the flag is true).
    /// Every index of the set lies within the size.
    pub fn from_set(size: u8, ones: &HashSet<u8>) -> (map: Self)
        requires
            size > 0,
            forall|idx: u8| ones@.contains(idx) ==> idx < size,
        ensures
            map@ == Seq::new(size as nat, |i: int| ones@.contains(i as u8)),
    {
        broadcast use vstd::std_specs::hash::group_hash_axioms;

        let mut bitmap = Self::new(size, false);
        let mut next: u16 = 0;
        while next <= 255
            invariant
                next <= 256,
                forall|idx: u8| ones@.contains(idx) ==> idx < size,
                bitmap@ == Seq::new(size as nat, |i: int| i < next && ones@.contains(i as u8)),
            decreases 256 - next,
        {
            let idx = next as u8;
            if ones.contains(&idx) {
                bitmap.mark(idx);
            }
            next = next + 1;
        }
        assert(bitmap@ =~= Seq::new(size as nat, |i: int| ones@.contains(i as u8)));
        bitmap
    }

    /// Marks a slot that the bitmap has as true.
    fn mark(&mut self, idx: u8)
        requires
            idx < old(self)@.len(),
        ensures
            final(self)@ == old(self)@.update(idx as int, true),
    {
        match self.set(idx, true) {
            Ok(_) => {},
            Err(_) => unreached(),
        }
    }

    /// Convert -> set of indexes where the flag is true.
    pub fn to_set(&self) -> (ones: HashSet<u8>)
        ensures
            ones@ == Set::new(|idx: u8| idx < self@.len() && self@[idx as int]),
    {
        broadcast use vstd::std_specs::hash::group_hash_axioms;

        let size = self.size();
        let mut ones: HashSet<u8> = HashSet::new();
        let mut idx: u8 = 0;
        while idx < size
            invariant
                size == self@.len(),
                idx <= size,
                ones@ == Set::new(|i: u8| i < idx && self@[i as int]),
            decreases size - idx,
        {
            if self.at(idx) {
                ones.insert(idx);
            }
            idx = idx + 1;
        }
        ones
    }

    /// Convert -> vec of indexes where the flag is true, in rising order.
    pub fn to_vec(&self) -> (ones: Vec<u8>)
        ensures
            ones@ == ones_of(self@),
    {
        let size = self.size();
        let mut ones: Vec<u8> = Vec::new();
        let mut idx: u8 = 0;
        while idx < size
            invariant
                size == self@.len(),
                idx <= size,
                ones@ == ones_of(self@.take(idx as int)),
            decreases size - idx,
        {
            proof {
                assert(self@.take(idx as int + 1).drop_last() == self@.take(idx as int));
            }
            if self.at(idx) {
                ones.push(idx);
            }
            idx = idx + 1;
        }
        proof {
            assert(self@.take(idx as int) == self@);
        }
        ones
    }
}

/// The numerals of the indexes, with a comma between each two.
pub open spec fn comma_list(ones: Seq<u8>) -> Seq<char>
    decreases ones.len(),
{
    if ones.len() == 0 {
        Seq::empty()
    } else if ones.len() == 1 {
        decimal(ones[0] as nat)
    } else {
        comma_list(ones.drop_last()) + seq![','] + decimal(ones.last() as nat)
    }
}

impl Bitmap {
    /// The bitmap as a text: the indexes of its true flags in rising
    /// order, with commas between them, in braces.
    pub fn to_string(&self) -> (text: String)
        ensures
            text@ == seq!['{'] + comma_list(ones_of(self@)) + seq!['}'],
    {
        proof {
            reveal_strlit("{");
            reveal_strlit("}");
            reveal_strlit(",");
        }
        let size = self.size();
        let mut text = String::from_str("{");
        assert("{"@ =~= seq!['{']);
        let mut first_idx = true;
        let mut idx: u8 = 0;
        assert(text@ =~= seq!['{'] + comma_list(ones_of(self@.take(0))));
        while idx < size
            invariant
                size == self@.len(),
                idx <= size,
                first_idx == (ones_of(self@.take(idx as int)).len() == 0),
                text@ == seq!['{'] + comma_list(ones_of(self@.take(idx as int))),
            decreases size - idx,
        {
            proof {
                assert(self@.take(idx as int + 1).drop_last() == self@.take(idx as int));
            }
            if self.at(idx) {
                let ghost before = ones_of(self@.take(idx as int));
                proof {
                    assert(before.push(idx).drop_last() == before);
                }
                if !first_idx {
                    text.append(",");
                } else {
                    first_idx = false;
                }
                push_decimal(&mut text, idx as u64);
                proof {
                    let grown = before.push(idx);
                    reveal_strlit(",");
                    assert(","@ =~= seq![',']);
                    assert(grown.last() == idx);
                    if before.len() == 0 {
                        assert(comma_list(grown) == decimal(idx as nat));
                    } else {
                        assert(comma_list(grown) == comma_list(before) + seq![','] + decimal(
                            idx as nat,
                        ));
                    }
                    assert(text@ =~= seq!['{'] + comma_list(grown));
                }
            }
            idx = idx + 1;
        }
        proof {
            assert(self@.take(idx as int) == self@);
        }
        text.append("}");
        proof {
            reveal_strlit("}");
            assert("}"@ =~= seq!['}']);
            assert("{"@ =~= seq!['{']);
        }
        text
    }
}

/// The indexes of the true flags, in rising order.
pub open spec fn ones_of(flags: Seq<bool>) -> Seq<u8>
    decreases flags.len(),
{
    if flags.len() == 0 {
        Seq::empty()
    } else if flags.last() {
        ones_of(flags.drop_last()).push((flags.len() - 1) as u8)
    } else {
        ones_of(flags.drop_last())
    }
}

/// Immutable iterator over `Bitmap`, yielding `(id, bit)` pairs.
///
/// Its view is the sequence of pairs that it has yet to yield.
pub struct BitmapIter<'m> {
    map: &'m Bitmap,
    idx: u8,
}

impl<'m> View for BitmapIter<'m> {
    type V = Seq<(u8, bool)>;

    closed spec fn view(&self) -> Seq<(u8, bool)> {
        Seq::new(
            (self.map@.len() - self.idx) as nat,
            |k: int| ((self.idx + k) as u8, self.map@[self.idx + k]),
        )
    }
}

impl<'m> BitmapIter<'m> {
    #[verifier::type_invariant]
    spec fn in_range(self) -> bool {
        self.idx <= self.map@.len() <= u8::MAX
    }

    /// Yields the next `(id, bit)` pair, if any slot is left.
    pub fn next(&mut self) -> (r: Option<(u8, bool)>)
        ensures
            match r {
                Some(item) => old(self)@.len() > 0 && item == old(self)@[0]
                    && final(self)@ == old(self)@.drop_first(),
                None => old(self)@.len() == 0 && final(self)@ == old(self)@,
            },
    {
        proof {
            use_type_invariant(&*self);
        }
        let id = self.idx;
        if id < self.map.size() {
            let flag = self.map.at(id);
            self.idx = self.idx + 1;
            assert(self@ =~= old(self)@.drop_first());
            Some((id, flag))
        } else {
            None
        }
    }
}

impl PartialEq for Bitmap {
    /// Two bitmaps are equal when they have the same size and the same flags.
    fn eq(&self, other: &Self) -> (r: bool) {
        let size = self.size();
        if size != other.size() {
            return false;
        }
        let mut idx: u8 = 0;
        while idx < size
            invariant
                size == self@.len(),
                size == other@.len(),
                idx <= size,
                forall|i: int| 0 <= i < idx ==> self@[i] == other@[i],
            decreases size - idx,
        {
            if self.at(idx) != other.at(idx) {
                return false;
            }
            idx = idx + 1;
        }
        assert(self@ =~= other@);
        true
    }
}

impl Eq for Bitmap {

}

impl vstd::std_specs::cmp::PartialEqSpecImpl for Bitmap {
    open spec fn obeys_eq_spec() -> bool {
        true
    }

    open spec fn eq_spec(&self, other: &Self) -> bool {
        self@ == other@
    }
}

impl Clone for Bitmap {
    fn clone(&self) -> (copy: Self)
        ensures
            copy@ == self@,
    {
        proof {
            use_type_invariant(self);
        }
        Bitmap(bitset_clone(&self.0))
    }
}

} // verus!
