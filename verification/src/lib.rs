//! A sorted, resizable sequence of integers backed by a contiguous vector.
//!
//! `BinaryVec` keeps its elements in ascending order across every insertion
//! and removal, locating positions by binary search. Lookups run in
//! logarithmic time; insertions and removals shift the tail of the vector.

use core::cmp::Ordering;
use vstd::assert_seqs_equal;
use vstd::prelude::*;
use vstd::std_specs::iter::IteratorSpec;

verus! {

/// The ordering invariant: every element is at most every later element.
pub open spec fn sorted(s: Seq<i64>) -> bool {
    forall|i: int, j: int| 0 <= i <= j < s.len() ==> s[i] <= s[j]
}

/// A vector of `i64` values maintained in ascending order.
#[derive(Debug, Clone, Eq, Ord)]
pub struct BinaryVec {
    vec: Vec<i64>,
}

/// Two `BinaryVec`s are equal when they have the same length and equal
/// elements at every index.
impl PartialEq for BinaryVec {
    fn eq(&self, other: &Self) -> (r: bool) {
        if self.vec.len() != other.vec.len() {
            return false;
        }
        let mut i: usize = 0;
        while i < self.vec.len()
            invariant
                i <= self@.len(),
                self@.len() == other@.len(),
                forall|j: int| 0 <= j < i ==> self@[j] == other@[j],
            decreases self@.len() - i,
        {
            if self.vec[i] != other.vec[i] {
                return false;
            }
            i += 1;
        }
        proof {
            assert(self@ =~= other@);
        }
        true
    }
}

impl vstd::std_specs::cmp::PartialEqSpecImpl for BinaryVec {
    open spec fn obeys_eq_spec() -> bool {
        true
    }

    open spec fn eq_spec(&self, other: &BinaryVec) -> bool {
        self@ == other@
    }
}

/// Standard lexicographic comparison of two sequences: the first unequal
/// pair of elements decides; a strict prefix orders before the longer
/// sequence.
pub open spec fn lex_cmp(a: Seq<i64>, b: Seq<i64>) -> Ordering
    decreases a.len(),
{
    if a.len() == 0 && b.len() == 0 {
        Ordering::Equal
    } else if a.len() == 0 {
        Ordering::Less
    } else if b.len() == 0 {
        Ordering::Greater
    } else if a[0] < b[0] {
        Ordering::Less
    } else if a[0] > b[0] {
        Ordering::Greater
    } else {
        lex_cmp(a.drop_first(), b.drop_first())
    }
}

/// `BinaryVec`s are ordered lexicographically, element by element.
impl PartialOrd for BinaryVec {
    fn partial_cmp(&self, other: &Self) -> (r: Option<Ordering>) {
        let n = if self.vec.len() <= other.vec.len() {
            self.vec.len()
        } else {
            other.vec.len()
        };
        let mut i: usize = 0;
        proof {
            assert(self@.skip(0) =~= self@);
            assert(other@.skip(0) =~= other@);
        }
        while i < n
            invariant
                i <= n,
                n <= self@.len() && n <= other@.len(),
                n == self@.len() || n == other@.len(),
                lex_cmp(self@, other@) == lex_cmp(
                    self@.skip(i as int),
                    other@.skip(i as int),
                ),
            decreases n - i,
        {
            proof {
                assert(self@.skip(i as int)[0] == self@[i as int]);
                assert(other@.skip(i as int)[0] == other@[i as int]);
            }
            if self.vec[i] < other.vec[i] {
                return Some(Ordering::Less);
            }
            if self.vec[i] > other.vec[i] {
                return Some(Ordering::Greater);
            }
            proof {
                assert(self@.skip(i as int).drop_first() =~= self@.skip(i + 1));
                assert(other@.skip(i as int).drop_first() =~= other@.skip(i + 1));
            }
            i += 1;
        }
        proof {
            assert(self@.skip(n as int).len() == 0 || other@.skip(n as int).len() == 0);
        }
        if self.vec.len() < other.vec.len() {
            Some(Ordering::Less)
        } else if self.vec.len() > other.vec.len() {
            Some(Ordering::Greater)
        } else {
            Some(Ordering::Equal)
        }
    }
}

impl vstd::std_specs::cmp::PartialOrdSpecImpl for BinaryVec {
    open spec fn obeys_partial_cmp_spec() -> bool {
        true
    }

    open spec fn partial_cmp_spec(&self, other: &BinaryVec) -> Option<Ordering> {
        Some(lex_cmp(self@, other@))
    }
}

// `std::slice::IterMut` carries no vstd specification; the declaration
// lets it stand in a signature. Verus sees nothing of a value of it.
#[verifier::external_type_specification]
#[verifier::external_body]
#[verifier::reject_recursive_types(T)]
pub struct ExIterMut<'a, T: 'a>(std::slice::IterMut<'a, T>);

impl View for BinaryVec {
    type V = Seq<i64>;

    closed spec fn view(&self) -> Seq<i64> {
        self.vec@
    }
}

impl BinaryVec {
    /// Creates a new empty `BinaryVec`.
    pub fn new() -> (r: Self)
        ensures
            r@ == Seq::<i64>::empty(),
            r@.len() == 0,
            sorted(r@),
    {
        BinaryVec { vec: Vec::new() }
    }

    /// Binary search for the leftmost position at which `value` could be
    /// inserted without disturbing the order: the number of elements
    /// strictly below `value`. If `value` is present, this is the index of
    /// its first occurrence.
    fn lower_bound(&self, value: i64) -> (r: usize)
        requires
            sorted(self@),
        ensures
            r <= self@.len(),
            forall|k: int| 0 <= k < r ==> self@[k] < value,
            forall|k: int| r <= k < self@.len() ==> self@[k] >= value,
            self@.contains(value) <==> (r < self@.len() && self@[r as int] == value),
    {
        let mut lo: usize = 0;
        let mut hi: usize = self.vec.len();
        while lo != hi
            invariant
                lo <= hi <= self@.len(),
                sorted(self@),
                forall|k: int| 0 <= k < lo ==> self@[k] < value,
                forall|k: int| hi <= k < self@.len() ==> self@[k] >= value,
            decreases hi - lo,
        {
            let mid = lo + (hi - lo) / 2;
            if self.vec[mid] < value {
                lo = mid + 1;
            } else {
                hi = mid;
            }
        }
        proof {
            if lo < self@.len() && self@[lo as int] == value {
                assert(self@.contains(value));
            } else {
                assert forall|k: int| 0 <= k < self@.len() implies self@[k] != value by {
                    if k >= lo {
                        assert(self@[lo as int] <= self@[k]);
                    }
                }
            }
        }
        lo
    }

    /// Inserts a value into the `BinaryVec`, maintaining sorted order, and
    /// returns the index where the value was inserted. An element equal to
    /// `value` already present leaves the new element immediately before
    /// the run of equals.
    pub fn insert(&mut self, value: i64) -> (r: usize)
        requires
            sorted(old(self)@),
        ensures
            r <= old(self)@.len(),
            forall|k: int| 0 <= k < r ==> old(self)@[k] < value,
            forall|k: int| r <= k < old(self)@.len() ==> old(self)@[k] >= value,
            final(self)@ == old(self)@.insert(r as int, value),
            final(self)@.len() == old(self)@.len() + 1,
            final(self)@[r as int] == value,
            sorted(final(self)@),
    {
        let idx = self.lower_bound(value);
        self.vec.insert(idx, value);
        proof {
            old(self)@.insert_ensures(idx as int, value);
            assert forall|i: int, j: int|
                0 <= i <= j < final(self)@.len() implies final(self)@[i] <= final(self)@[j] by {
                if i < idx && j > idx {
                    assert(old(self)@[i] <= old(self)@[j - 1]);
                }
            }
        }
        idx
    }

    /// Returns the item at the specified index, or `None` if the index is
    /// out of bounds.
    pub fn get(&self, index: usize) -> (r: Option<&i64>)
        ensures
            index < self@.len() ==> (r matches Some(v) && *v == self@[index as int]),
            index >= self@.len() ==> r is None,
    {
        if index < self.vec.len() {
            Some(&self.vec[index])
        } else {
            None
        }
    }

    /// Returns the index of the specified value, or `None` if the value is
    /// not found. When equal elements coexist, the index of the first of
    /// them is returned.
    pub fn get_index(&self, value: &i64) -> (r: Option<usize>)
        requires
            sorted(self@),
        ensures
            r is Some <==> self@.contains(*value),
            r matches Some(i) ==> i < self@.len() && self@[i as int] == *value
                && (forall|j: int| 0 <= j < i ==> self@[j] < *value),
    {
        let idx = self.lower_bound(*value);
        if idx < self.vec.len() && self.vec[idx] == *value {
            Some(idx)
        } else {
            None
        }
    }

    /// Checks if the `BinaryVec` contains the specified value.
    pub fn contains(&self, value: &i64) -> (r: bool)
        requires
            sorted(self@),
        ensures
            r == self@.contains(*value),
    {
        let idx = self.lower_bound(*value);
        idx < self.vec.len() && self.vec[idx] == *value
    }

    /// Removes the item at the specified index, returning it if it exists,
    /// or `None` if the index is out of bounds.
    pub fn remove(&mut self, index: usize) -> (r: Option<i64>)
        ensures
            index < old(self)@.len() ==> r == Some(old(self)@[index as int])
                && final(self)@ == old(self)@.remove(index as int)
                && final(self)@.len() == old(self)@.len() - 1,
            index >= old(self)@.len() ==> r is None && final(self)@ == old(self)@,
            sorted(old(self)@) ==> sorted(final(self)@),
    {
        if index < self.vec.len() {
            let v = self.vec.remove(index);
            proof {
                old(self)@.remove_ensures(index as int);
            }
            Some(v)
        } else {
            None
        }
    }

    /// Removes the specified item from the `BinaryVec`, returning it if it
    /// exists, or `None` if the item is not found. When equal elements
    /// coexist, the first of them is removed.
    pub fn remove_item(&mut self, value: &i64) -> (r: Option<i64>)
        requires
            sorted(old(self)@),
        ensures
            old(self)@.contains(*value) ==> r == Some(*value)
                && final(self)@.len() == old(self)@.len() - 1
                && (exists|i: int|
                    0 <= i < old(self)@.len() && old(self)@[i] == *value
                    && (forall|j: int| 0 <= j < i ==> old(self)@[j] < *value)
                    && final(self)@ == old(self)@.remove(i)),
            !old(self)@.contains(*value) ==> r is None && final(self)@ == old(self)@,
            sorted(final(self)@),
    {
        let idx = self.lower_bound(*value);
        if idx < self.vec.len() && self.vec[idx] == *value {
            let v = self.vec.remove(idx);
            proof {
                old(self)@.remove_ensures(idx as int);
                assert(0 <= idx < old(self)@.len() && old(self)@[idx as int] == *value
                    && final(self)@ == old(self)@.remove(idx as int));
            }
            Some(v)
        } else {
            None
        }
    }

    /// Returns the number of elements in the `BinaryVec`.
    pub fn len(&self) -> (r: usize)
        ensures
            r == self@.len(),
    {
        self.vec.len()
    }

    /// Creates a new `BinaryVec` with the specified capacity.
    pub fn with_capacity(capacity: usize) -> (r: Self)
        ensures
            r@ == Seq::<i64>::empty(),
            r@.len() == 0,
            sorted(r@),
    {
        BinaryVec { vec: Vec::with_capacity(capacity) }
    }

    /// Returns the vector internally used by `BinaryVec`.
    pub fn into_vec(self) -> (r: Vec<i64>)
        ensures
            r@ == self@,
    {
        self.vec
    }

    /// Checks if the `BinaryVec` is empty.
    pub fn is_empty(&self) -> (r: bool)
        ensures
            r <==> self@.len() == 0,
    {
        self.vec.is_empty()
    }

    /// Clears the `BinaryVec`, removing all elements.
    pub fn clear(&mut self)
        ensures
            final(self)@ == Seq::<i64>::empty(),
            final(self)@.len() == 0,
            sorted(final(self)@),
    {
        self.vec.clear();
    }

    /// Reserves capacity for at least `additional` more elements to be
    /// inserted in the `BinaryVec`. The elements are untouched.
    pub fn reserve(&mut self, additional: usize)
        ensures
            final(self)@ == old(self)@,
    {
        self.vec.reserve(additional);
    }

    /// Shrinks the capacity of the `BinaryVec` to fit its current length.
    /// The elements are untouched.
    ///
    /// Relies on `Vec::shrink_to_fit`, which only releases spare capacity.
    #[verifier::external_body]
    pub fn shrink_to_fit(&mut self)
        ensures
            final(self)@ == old(self)@,
    {
        self.vec.shrink_to_fit();
    }

    /// Returns the number of elements that can be stored in the
    /// `BinaryVec` without reallocating; at least the current length.
    ///
    /// Relies on `Vec::capacity`: a vector always has room for the
    /// elements it holds.
    #[verifier::external_body]
    pub fn capacity(&self) -> (r: usize)
        ensures
            r >= self@.len(),
    {
        self.vec.capacity()
    }

    /// Resizes the `BinaryVec` to contain `new_len` elements, filling new
    /// elements with `value`. Truncation keeps the (sorted) prefix;
    /// growing appends raw copies of `value`, which is the caller's
    /// responsibility to keep ordered above the existing elements, or the
    /// ordering invariant no longer holds.
    pub fn resize(&mut self, new_len: usize, value: i64)
        ensures
            final(self)@.len() == new_len,
            new_len <= old(self)@.len() ==> final(self)@ == old(self)@.subrange(
                0,
                new_len as int,
            ),
            new_len > old(self)@.len() ==> final(self)@ == old(self)@ + Seq::new(
                (new_len - old(self)@.len()) as nat,
                |i: int| value,
            ),
            new_len <= old(self)@.len() && sorted(old(self)@) ==> sorted(final(self)@),
    {
        if new_len <= self.vec.len() {
            self.vec.truncate(new_len);
        } else {
            while self.vec.len() < new_len
                invariant
                    old(self)@.len() < new_len,
                    old(self)@.len() <= self@.len() <= new_len,
                    self@ == old(self)@ + Seq::new(
                        (self@.len() - old(self)@.len()) as nat,
                        |i: int| value,
                    ),
                decreases new_len - self@.len(),
            {
                self.vec.push(value);
                proof {
                    assert_seqs_equal!(
                        self@ == old(self)@
                            + Seq::new((self@.len() - old(self)@.len()) as nat, |i: int| value)
                    );
                }
            }
        }
    }

    /// Returns a read-only view of the underlying storage, in ascending
    /// order.
    pub fn as_slice(&self) -> (r: &[i64])
        ensures
            r@ == self@,
    {
        self.vec.as_slice()
    }

    /// Returns a mutable view of the underlying storage. The caller must
    /// keep the elements ordered through it, or the ordering invariant no
    /// longer holds.
    pub fn as_mut_slice(&mut self) -> (r: &mut [i64])
        ensures
            r@ == old(self)@,
            final(r)@ == final(self)@,
    {
        self.vec.as_mut_slice()
    }

    /// Returns an iterator over mutable references to the items in the
    /// `BinaryVec`, in ascending order. The caller must keep the elements
    /// ordered through it, or the ordering invariant no longer holds;
    /// nothing is promised of the container afterwards.
    ///
    /// Relies on `Vec::iter_mut` for the iteration itself.
    #[verifier::external_body]
    pub fn iter_mut(&mut self) -> std::slice::IterMut<'_, i64> {
        self.vec.iter_mut()
    }

    /// Returns an iterator over references to the items in the
    /// `BinaryVec`, in ascending order.
    pub fn iter(&self) -> (r: std::slice::Iter<'_, i64>)
        ensures
            r.remaining() == self@.as_ref(),
            r.decrease() is Some,
    {
        let s = self.vec.as_slice();
        let it = s.iter();
        proof {
            vstd::std_specs::slice::axiom_spec_slice_iter(s);
        }
        it
    }

    /// Returns the first (minimum) element of the `BinaryVec`, or `None`
    /// if it is empty.
    pub fn first(&self) -> (r: Option<&i64>)
        ensures
            self@.len() > 0 ==> (r matches Some(v) && *v == self@[0]),
            self@.len() == 0 ==> r is None,
    {
        self.vec.as_slice().first()
    }

    /// Returns the last (maximum) element of the `BinaryVec`, or `None` if
    /// it is empty.
    pub fn last(&self) -> (r: Option<&i64>)
        ensures
            self@.len() > 0 ==> (r matches Some(v) && *v == self@[self@.len() - 1]),
            self@.len() == 0 ==> r is None,
    {
        self.vec.as_slice().last()
    }
}

/// Round trip: inserting a value into a sequence and then removing it at
/// the index the insertion chose restores the sequence that stood before,
/// its length included. Together with the contracts of
/// [`BinaryVec::insert`] and [`BinaryVec::remove`], an `insert` followed
/// by a `remove` at the returned index hands the inserted value back and
/// leaves the container as it was.
pub proof fn lemma_insert_remove_round_trip(s: Seq<i64>, value: i64, i: int)
    requires
        0 <= i <= s.len(),
    ensures
        s.insert(i, value).remove(i) == s,
        s.insert(i, value)[i] == value,
{
    s.insert_ensures(i, value);
    s.insert(i, value).remove_ensures(i);
    assert_seqs_equal!(s.insert(i, value).remove(i) == s);
}

impl Default for BinaryVec {
    /// An empty `BinaryVec`.
    fn default() -> (r: Self)
        ensures
            r@ == Seq::<i64>::empty(),
            sorted(r@),
    {
        BinaryVec::new()
    }
}

} // verus!
