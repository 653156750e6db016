//! A growable array built on a raw slot buffer.
//!
//! `RawVec` owns a store of slots and reports a capacity, and knows nothing
//! about which slots hold live values. `Vec` owns a `RawVec` plus a logical
//! length `len`: the leading `len` slots are live, the rest dead. A dead
//! slot is modelled as holding `None`, a live one as holding `Some` of its
//! value.
//!
//! A zero-size element type needs no memory, so its buffer reports the
//! maximum representable capacity from the start and is never grown: the
//! only way such an array can overflow is its length counter reaching that
//! maximum. For every other type the capacity starts at 0 and doubles on
//! demand.

use vstd::layout::size_of;
use vstd::prelude::*;

verus! {

/// Replaces the slot at `i` with `v` and hands back what was there.
fn replace_slot<T>(slots: &mut std::vec::Vec<Option<T>>, i: usize, v: Option<T>) -> (prev: Option<
    T,
>)
    requires
        i < old(slots)@.len(),
    ensures
        final(slots)@ =~= old(slots)@.update(i as int, v),
        prev == old(slots)@[i as int],
{
    let prev = slots.remove(i);
    slots.insert(i, v);
    prev
}

/// The backing store: a store of slots and a reported capacity, with no
/// knowledge of which slots hold live values. For a zero-size element type
/// the capacity is the maximum representable count from the start — no
/// memory is ever needed — and the slot store only mirrors which values are
/// live; for every other type the capacity is the slot count.
pub struct RawVec<T> {
    slots: std::vec::Vec<Option<T>>,
    cap: usize,
}

impl<T> View for RawVec<T> {
    type V = Seq<Option<T>>;

    closed spec fn view(&self) -> Seq<Option<T>> {
        self.slots@
    }
}

impl<T> RawVec<T> {
    /// The buffer's invariant: a zero-size element type's capacity sits at
    /// the maximum representable count; any other type's capacity counts
    /// the slots.
    pub closed spec fn wf(&self) -> bool {
        if size_of::<T>() == 0 {
            self.cap == usize::MAX
        } else {
            self.cap == self.slots@.len()
        }
    }

    /// The reported capacity, counted in elements.
    pub closed spec fn spec_cap(&self) -> nat {
        self.cap as nat
    }

    /// An empty buffer: nothing allocated for elements. A zero-size element
    /// type starts at the maximum representable capacity and is never
    /// grown; every other type starts at capacity 0.
    pub fn new() -> (r: Self)
        ensures
            r.wf(),
            r@ =~= Seq::<Option<T>>::empty(),
            r.spec_cap() == fresh_cap::<T>(),
    {
        let cap: usize = if core::mem::size_of::<T>() == 0 {
            usize::MAX
        } else {
            0
        };
        RawVec { slots: std::vec::Vec::new(), cap }
    }

    /// The capacity, counted in elements.
    pub fn cap(&self) -> (r: usize)
        ensures
            r == self.spec_cap(),
    {
        self.cap
    }

    /// How many slots the store holds. Equal to the capacity except for a
    /// zero-size element type, whose capacity is the sentinel.
    fn slot_count(&self) -> (r: usize)
        ensures
            r == self@.len(),
    {
        self.slots.len()
    }

    /// Doubles the capacity (a first growth goes to capacity 1). The old
    /// slots keep their contents; the new slots are dead. Never to be
    /// reached for a zero-size element type: its capacity is already the
    /// maximum, so a growth request is itself the overflow signal.
    fn grow(&mut self)
        requires
            old(self).wf(),
            size_of::<T>() != 0,
            old(self).spec_cap() <= usize::MAX / 2,
        ensures
            final(self).wf(),
            final(self).spec_cap() == grown_cap(old(self).spec_cap()),
            final(self)@.len() == final(self).spec_cap(),
            forall|i: int| 0 <= i < old(self)@.len() ==> final(self)@[i] == old(self)@[i],
            forall|i: int|
                old(self)@.len() <= i < final(self)@.len() ==> final(self)@[i] is None,
    {
        let old_cap = self.cap;
        let new_cap: usize = if old_cap == 0 {
            1
        } else {
            2 * old_cap
        };
        while self.slots.len() < new_cap
            invariant
                old(self)@.len() <= self.slots@.len() <= new_cap,
                new_cap == grown_cap(old(self)@.len()),
                forall|i: int| 0 <= i < old(self)@.len() ==> self.slots@[i] == old(self)@[i],
                forall|i: int|
                    old(self)@.len() <= i < self.slots@.len() ==> self.slots@[i] is None,
            decreases new_cap - self.slots.len(),
        {
            self.slots.push(None);
        }
        self.cap = new_cap;
    }

    /// Replaces the slot at `i`, handing back its old contents.
    fn set_slot(&mut self, i: usize, v: Option<T>) -> (prev: Option<T>)
        requires
            i < old(self)@.len(),
        ensures
            final(self)@ =~= old(self)@.update(i as int, v),
            prev == old(self)@[i as int],
            final(self).spec_cap() == old(self).spec_cap(),
            old(self).wf() ==> final(self).wf(),
    {
        replace_slot(&mut self.slots, i, v)
    }

    /// Appends one slot to the store. Only a zero-size element type's store
    /// grows this way: its reported capacity is already the maximum and
    /// never changes.
    fn push_slot(&mut self, v: Option<T>)
        requires
            old(self).wf(),
            size_of::<T>() == 0,
            old(self)@.len() < usize::MAX,
        ensures
            final(self).wf(),
            final(self).spec_cap() == old(self).spec_cap(),
            final(self)@ =~= old(self)@.push(v),
    {
        self.slots.push(v);
    }
}

/// The capacity a fresh buffer reports: the maximum representable count for
/// a zero-size element type, 0 for every other.
pub open spec fn fresh_cap<T>() -> nat {
    if size_of::<T>() == 0 {
        usize::MAX as nat
    } else {
        0
    }
}

/// The capacity after one growth step: doubling, except that the first
/// growth goes from 0 to 1.
pub open spec fn grown_cap(c: nat) -> nat {
    if c == 0 {
        1
    } else {
        2 * c
    }
}

/// A growable array: a raw slot buffer plus the logical length, the count of
/// leading slots that hold live values.
pub struct Vec<T> {
    buf: RawVec<T>,
    len: usize,
}

impl<T> View for Vec<T> {
    type V = Seq<T>;

    /// The live values, in order.
    closed spec fn view(&self) -> Seq<T> {
        Seq::new(self.len as nat, |i: int| self.buf@[i]->0)
    }
}

impl<T> Vec<T> {
    /// The array's invariant: the buffer is well-formed, the length fits
    /// the slot store, the leading `len` slots are live and the rest are
    /// dead.
    pub closed spec fn wf(&self) -> bool {
        &&& self.buf.wf()
        &&& self.len <= self.buf@.len()
        &&& (forall|i: int| 0 <= i < self.len ==> self.buf@[i] is Some)
        &&& (forall|i: int| self.len <= i < self.buf@.len() ==> self.buf@[i] is None)
    }

    /// The capacity the backing buffer reports, in elements.
    pub closed spec fn spec_cap(&self) -> nat {
        self.buf.spec_cap()
    }

    /// An empty array over an empty buffer: length 0, and the capacity a
    /// fresh buffer reports for the element type.
    pub fn new() -> (c: Self)
        ensures
            c.wf(),
            c@ =~= Seq::<T>::empty(),
            c.spec_cap() == fresh_cap::<T>(),
    {
        Vec { buf: RawVec::new(), len: 0 }
    }

    /// The number of live elements.
    pub fn len(&self) -> (r: usize)
        ensures
            r == self@.len(),
    {
        self.len
    }

    /// The capacity, in elements.
    pub fn cap(&self) -> (r: usize)
        ensures
            r == self.spec_cap(),
    {
        self.buf.cap()
    }

    /// Bounds-checked read-only access to the live region.
    pub fn get(&self, index: usize) -> (r: &T)
        requires
            self.wf(),
            index < self@.len(),
        ensures
            *r == self@[index as int],
    {
        self.buf.slots[index].as_ref().unwrap()
    }

    /// Appends `value` after the last live element, growing the buffer
    /// first when it is full. A zero-size element type never grows: its
    /// capacity is unbounded and only the length counter can overflow.
    pub fn push(&mut self, value: T)
        requires
            old(self).wf(),
            size_of::<T>() == 0 ==> old(self)@.len() < usize::MAX,
            size_of::<T>() != 0 && old(self)@.len() == old(self).spec_cap() ==> old(
                self,
            ).spec_cap() <= usize::MAX / 2,
        ensures
            final(self).wf(),
            final(self)@ =~= old(self)@.push(value),
            size_of::<T>() == 0 ==> final(self).spec_cap() == old(self).spec_cap(),
            size_of::<T>() != 0 ==> final(self).spec_cap() == (if old(self)@.len() == old(
                self,
            ).spec_cap() {
                grown_cap(old(self).spec_cap())
            } else {
                old(self).spec_cap()
            }),
    {
        if core::mem::size_of::<T>() != 0 && self.len == self.buf.cap() {
            self.buf.grow();
        }
        if self.len == self.buf.slot_count() {
            self.buf.push_slot(Some(value));
        } else {
            let _ = self.buf.set_slot(self.len, Some(value));
        }
        self.len = self.len + 1;
    }

    /// Makes room at `index` by shifting the elements at `[index, len)` one
    /// slot to the right, then writes `value` there. Grows the buffer first
    /// when it is full.
    #[verifier::rlimit(30)]
    pub fn insert(&mut self, index: usize, value: T)
        requires
            old(self).wf(),
            index <= old(self)@.len(),
            size_of::<T>() == 0 ==> old(self)@.len() < usize::MAX,
            size_of::<T>() != 0 && old(self)@.len() == old(self).spec_cap() ==> old(
                self,
            ).spec_cap() <= usize::MAX / 2,
        ensures
            final(self).wf(),
            final(self)@ =~= old(self)@.insert(index as int, value),
            size_of::<T>() == 0 ==> final(self).spec_cap() == old(self).spec_cap(),
            size_of::<T>() != 0 ==> final(self).spec_cap() == (if old(self)@.len() == old(
                self,
            ).spec_cap() {
                grown_cap(old(self).spec_cap())
            } else {
                old(self).spec_cap()
            }),
    {
        if core::mem::size_of::<T>() != 0 && self.len == self.buf.cap() {
            self.buf.grow();
        }
        if self.len == self.buf.slot_count() {
            self.buf.push_slot(None);
        }
        let ghost orig = self.buf@;
        let ghost len0 = self.len as int;
        let mut j = self.len;
        while j > index
            invariant
                index <= j <= len0 < self.buf@.len(),
                self.len == len0,
                self.buf@.len() == orig.len(),
                self.buf.wf(),
                size_of::<T>() == 0 ==> self.buf.spec_cap() == old(self).spec_cap(),
                size_of::<T>() != 0 ==> self.buf.spec_cap() == (if old(self)@.len() == old(
                    self,
                ).spec_cap() {
                    grown_cap(old(self).spec_cap())
                } else {
                    old(self).spec_cap()
                }),
                forall|i: int| 0 <= i < len0 ==> orig[i] is Some,
                forall|i: int| len0 <= i < orig.len() ==> orig[i] is None,
                forall|i: int| 0 <= i < len0 ==> orig[i] == old(self).buf@[i],
                forall|i: int| 0 <= i < j ==> self.buf@[i] == orig[i],
                self.buf@[j as int] is None,
                forall|i: int| j < i <= len0 ==> self.buf@[i] == orig[i - 1],
                forall|i: int| len0 < i < self.buf@.len() ==> self.buf@[i] == orig[i],
            decreases j,
        {
            let v = self.buf.set_slot(j - 1, None);
            let _ = self.buf.set_slot(j, v);
            j = j - 1;
        }
        let ghost exitbuf = self.buf@;
        let _ = self.buf.set_slot(index, Some(value));
        self.len = self.len + 1;
        proof {
            let target = old(self)@.insert(index as int, value);
            old(self)@.insert_ensures(index as int, value);
            assert forall|i: int| 0 <= i < self.len implies self.buf@[i] is Some by {
                assert(self.buf@[i] == exitbuf.update(index as int, Some(value))[i]);
                if i < index {
                    assert(exitbuf[i] == orig[i]);
                } else if i > index {
                    assert(exitbuf[i] == orig[i - 1]);
                }
            }
            assert forall|i: int| self.len <= i < self.buf@.len() implies self.buf@[i] is None by {
                assert(self.buf@[i] == exitbuf.update(index as int, Some(value))[i]);
                assert(exitbuf[i] == orig[i]);
            }
            assert forall|i: int| 0 <= i < self@.len() implies self@[i] == target[i] by {
                assert(self@[i] == self.buf@[i]->0);
                assert(self.buf@[i] == exitbuf.update(index as int, Some(value))[i]);
                if i < index {
                    assert(exitbuf[i] == orig[i]);
                    assert(orig[i] == old(self).buf@[i]);
                    assert(target[i] == old(self)@[i]);
                } else if i > index {
                    assert(exitbuf[i] == orig[i - 1]);
                    assert(orig[i - 1] == old(self).buf@[i - 1]);
                    assert(target[(i - 1) + 1] == old(self)@[i - 1]);
                }
            }
            assert(self@.len() == target.len());
            assert(self@ =~= target);
        }
    }

    /// Reads the element at `index` out, then closes the gap by shifting the
    /// elements after it one slot to the left.
    #[verifier::rlimit(30)]
    pub fn remove(&mut self, index: usize) -> (r: T)
        requires
            old(self).wf(),
            index < old(self)@.len(),
        ensures
            final(self).wf(),
            final(self).spec_cap() == old(self).spec_cap(),
            r == old(self)@[index as int],
            final(self)@ =~= old(self)@.remove(index as int),
    {
        let v = self.buf.set_slot(index, None);
        let ghost orig = old(self).buf@;
        let ghost len0 = self.len as int;
        let mut j = index;
        while j + 1 < self.len
            invariant
                index <= j < len0 <= self.buf@.len(),
                self.len == len0,
                self.buf@.len() == orig.len(),
                self.buf.wf(),
                self.buf.spec_cap() == old(self).spec_cap(),
                forall|i: int| 0 <= i < len0 ==> orig[i] is Some,
                forall|i: int| len0 <= i < orig.len() ==> orig[i] is None,
                forall|i: int| 0 <= i < index ==> self.buf@[i] == orig[i],
                forall|i: int| index <= i < j ==> self.buf@[i] == orig[i + 1],
                self.buf@[j as int] is None,
                forall|i: int| j < i < self.buf@.len() ==> self.buf@[i] == orig[i],
            decreases len0 - j,
        {
            let w = self.buf.set_slot(j + 1, None);
            let _ = self.buf.set_slot(j, w);
            j = j + 1;
        }
        self.len = self.len - 1;
        proof {
            let target = old(self)@.remove(index as int);
            old(self)@.remove_ensures(index as int);
            assert forall|i: int| 0 <= i < self.len implies self.buf@[i] is Some by {
                if i < index {
                    assert(self.buf@[i] == orig[i]);
                } else {
                    assert(self.buf@[i] == orig[i + 1]);
                }
            }
            assert forall|i: int| self.len <= i < self.buf@.len() implies self.buf@[i] is None by {
                if i > len0 - 1 {
                    assert(self.buf@[i] == orig[i]);
                }
            }
            assert forall|i: int| 0 <= i < self@.len() implies self@[i] == target[i] by {
                assert(self@[i] == self.buf@[i]->0);
                if i < index {
                    assert(self.buf@[i] == orig[i]);
                    assert(target[i] == old(self)@[i]);
                } else {
                    assert(self.buf@[i] == orig[i + 1]);
                    assert(target[i] == old(self)@[i + 1]);
                }
            }
            assert(self@.len() == target.len());
            assert(self@ =~= target);
        }
        v.unwrap()
    }

    /// Takes the last live element out, or nothing when the array is empty.
    pub fn pop(&mut self) -> (r: Option<T>)
        requires
            old(self).wf(),
        ensures
            final(self).wf(),
            final(self).spec_cap() == old(self).spec_cap(),
            old(self)@.len() == 0 ==> r is None && final(self)@ =~= old(self)@,
            old(self)@.len() > 0 ==> r == Some(old(self)@.last()) && final(self)@ =~= old(
                self,
            )@.drop_last(),
    {
        if self.len == 0 {
            None
        } else {
            self.len = self.len - 1;
            self.buf.set_slot(self.len, None)
        }
    }

    /// Moves every live element into a [`Drain`] iterator and resets the
    /// length to 0. The buffer and its capacity stay with the array, ready
    /// for reuse without another growth below the prior capacity.
    pub fn drain(&mut self) -> (d: Drain<T>)
        requires
            old(self).wf(),
        ensures
            final(self).wf(),
            final(self)@ =~= Seq::<T>::empty(),
            final(self).spec_cap() == old(self).spec_cap(),
            d.wf(),
            d@ =~= old(self)@,
    {
        let ghost orig = self.buf@;
        let ghost len0 = self.len as int;
        let mut taken: std::vec::Vec<Option<T>> = std::vec::Vec::new();
        let mut i: usize = 0;
        while i < self.len
            invariant
                0 <= i <= len0 <= self.buf@.len(),
                self.len == len0,
                orig == old(self).buf@,
                self.buf@.len() == orig.len(),
                self.buf.wf(),
                self.buf.spec_cap() == old(self).spec_cap(),
                taken@.len() == i,
                forall|k: int| 0 <= k < i ==> taken@[k] == orig[k],
                forall|k: int| 0 <= k < i ==> self.buf@[k] is None,
                forall|k: int| i <= k < self.buf@.len() ==> self.buf@[k] == orig[k],
                forall|k: int| 0 <= k < len0 ==> orig[k] is Some,
                forall|k: int| len0 <= k < orig.len() ==> orig[k] is None,
            decreases len0 - i,
        {
            let v = self.buf.set_slot(i, None);
            taken.push(v);
            i = i + 1;
        }
        self.len = 0;
        proof {
            assert forall|k: int| 0 <= k < taken@.len() implies taken@[k] is Some by {
                assert(taken@[k] == orig[k]);
            }
            assert forall|k: int| 0 <= k < self.buf@.len() implies self.buf@[k] is None by {
                if k >= len0 {
                    assert(self.buf@[k] == orig[k]);
                }
            }
        }
        let d = Drain { iter: RawValIter::new(taken) };
        proof {
            assert forall|k: int| 0 <= k < d@.len() implies d@[k] == old(self)@[k] by {
                assert(old(self)@[k] == old(self).buf@[k]->0);
            }
            assert(d@ =~= old(self)@);
        }
        d
    }

    /// Consumes the array: its buffer and every live element move into an
    /// [`IntoIter`], which yields them from either end.
    pub fn into_iter(self) -> (it: IntoIter<T>)
        requires
            self.wf(),
        ensures
            it.wf(),
            it@ =~= self@,
    {
        let mut arr = self;
        let d = arr.drain();
        let Drain { iter } = d;
        IntoIter { _buf: arr.buf, iter }
    }
}

/// The internal two-pointer cursor: it owns the region `[start, end)` of
/// still-unyielded values and hands each out exactly once, from either end.
struct RawValIter<T> {
    elems: std::vec::Vec<Option<T>>,
    start: usize,
    end: usize,
}

impl<T> View for RawValIter<T> {
    type V = Seq<T>;

    /// The values not yet yielded, front to back.
    closed spec fn view(&self) -> Seq<T> {
        Seq::new((self.end - self.start) as nat, |i: int| self.elems@[self.start + i]->0)
    }
}

impl<T> RawValIter<T> {
    /// The cursor's invariant: the region is well-ordered and every slot in
    /// it still holds a live value.
    closed spec fn wf(&self) -> bool {
        &&& self.start <= self.end <= self.elems@.len()
        &&& (forall|i: int| self.start <= i < self.end ==> self.elems@[i] is Some)
    }

    /// A cursor over all of `elems`, every slot of which must be live.
    fn new(elems: std::vec::Vec<Option<T>>) -> (it: Self)
        requires
            forall|i: int| 0 <= i < elems@.len() ==> elems@[i] is Some,
        ensures
            it.wf(),
            it@ =~= Seq::new(elems@.len(), |i: int| elems@[i]->0),
    {
        let n = elems.len();
        RawValIter { elems, start: 0, end: n }
    }

    /// Yields the front value and advances `start` past its slot; nothing
    /// once the region is empty.
    fn next(&mut self) -> (r: Option<T>)
        requires
            old(self).wf(),
        ensures
            final(self).wf(),
            old(self)@.len() == 0 ==> r is None && final(self)@ =~= old(self)@,
            old(self)@.len() > 0 ==> r == Some(old(self)@.first()) && final(self)@ =~= old(
                self,
            )@.drop_first(),
    {
        if self.start == self.end {
            None
        } else {
            let v = replace_slot(&mut self.elems, self.start, None);
            self.start = self.start + 1;
            proof {
                assert(old(self)@[0] == old(self).elems@[old(self).start + 0]->0);
                assert forall|i: int| 0 <= i < self@.len() implies self@[i] == old(
                    self,
                )@.drop_first()[i] by {
                    assert(self@[i] == self.elems@[self.start + i]->0);
                    assert(old(self)@[i + 1] == old(self).elems@[old(self).start + (i + 1)]->0);
                }
                assert(self@ =~= old(self)@.drop_first());
            }
            v
        }
    }

    /// Yields the back value after retreating `end` onto its slot; nothing
    /// once the region is empty.
    fn next_back(&mut self) -> (r: Option<T>)
        requires
            old(self).wf(),
        ensures
            final(self).wf(),
            old(self)@.len() == 0 ==> r is None && final(self)@ =~= old(self)@,
            old(self)@.len() > 0 ==> r == Some(old(self)@.last()) && final(self)@ =~= old(
                self,
            )@.drop_last(),
    {
        if self.start == self.end {
            None
        } else {
            self.end = self.end - 1;
            let v = replace_slot(&mut self.elems, self.end, None);
            proof {
                assert(old(self)@[old(self)@.len() - 1] == old(self).elems@[old(self).start + (
                old(self)@.len() - 1)]->0);
                assert forall|i: int| 0 <= i < self@.len() implies self@[i] == old(
                    self,
                )@.drop_last()[i] by {
                    assert(self@[i] == self.elems@[self.start + i]->0);
                    assert(old(self)@[i] == old(self).elems@[old(self).start + i]->0);
                }
                assert(self@ =~= old(self)@.drop_last());
            }
            v
        }
    }

    /// How many values remain, as an exact lower and upper bound.
    fn size_hint(&self) -> (r: (usize, Option<usize>))
        requires
            self.wf(),
        ensures
            r.0 == self@.len(),
            r.1 == Some(r.0),
    {
        let n = self.end - self.start;
        (n, Some(n))
    }
}

/// Consumes a whole array by value: it owns the array's buffer and a cursor
/// over the full original live region, and yields every remaining element
/// from either end.
pub struct IntoIter<T> {
    _buf: RawVec<T>,
    iter: RawValIter<T>,
}

impl<T> View for IntoIter<T> {
    type V = Seq<T>;

    /// The values not yet yielded, front to back.
    closed spec fn view(&self) -> Seq<T> {
        self.iter@
    }
}

impl<T> IntoIter<T> {
    /// The iterator's invariant.
    pub closed spec fn wf(&self) -> bool {
        self.iter.wf()
    }

    /// Yields the front remaining value, or nothing once exhausted.
    pub fn next(&mut self) -> (r: Option<T>)
        requires
            old(self).wf(),
        ensures
            final(self).wf(),
            old(self)@.len() == 0 ==> r is None && final(self)@ =~= old(self)@,
            old(self)@.len() > 0 ==> r == Some(old(self)@.first()) && final(self)@ =~= old(
                self,
            )@.drop_first(),
    {
        self.iter.next()
    }

    /// Yields the back remaining value, or nothing once exhausted.
    pub fn next_back(&mut self) -> (r: Option<T>)
        requires
            old(self).wf(),
        ensures
            final(self).wf(),
            old(self)@.len() == 0 ==> r is None && final(self)@ =~= old(self)@,
            old(self)@.len() > 0 ==> r == Some(old(self)@.last()) && final(self)@ =~= old(
                self,
            )@.drop_last(),
    {
        self.iter.next_back()
    }

    /// How many values remain, as an exact lower and upper bound.
    pub fn size_hint(&self) -> (r: (usize, Option<usize>))
        requires
            self.wf(),
        ensures
            r.0 == self@.len(),
            r.1 == Some(r.0),
    {
        self.iter.size_hint()
    }
}

/// Drains an array's live elements: it owns only a cursor over the values
/// that were live when draining began; the array keeps its buffer, already
/// emptied, for reuse.
pub struct Drain<T> {
    iter: RawValIter<T>,
}

impl<T> View for Drain<T> {
    type V = Seq<T>;

    /// The values not yet yielded, front to back.
    closed spec fn view(&self) -> Seq<T> {
        self.iter@
    }
}

impl<T> Drain<T> {
    /// The iterator's invariant.
    pub closed spec fn wf(&self) -> bool {
        self.iter.wf()
    }

    /// Yields the front remaining value, or nothing once exhausted.
    pub fn next(&mut self) -> (r: Option<T>)
        requires
            old(self).wf(),
        ensures
            final(self).wf(),
            old(self)@.len() == 0 ==> r is None && final(self)@ =~= old(self)@,
            old(self)@.len() > 0 ==> r == Some(old(self)@.first()) && final(self)@ =~= old(
                self,
            )@.drop_first(),
    {
        self.iter.next()
    }

    /// Yields the back remaining value, or nothing once exhausted.
    pub fn next_back(&mut self) -> (r: Option<T>)
        requires
            old(self).wf(),
        ensures
            final(self).wf(),
            old(self)@.len() == 0 ==> r is None && final(self)@ =~= old(self)@,
            old(self)@.len() > 0 ==> r == Some(old(self)@.last()) && final(self)@ =~= old(
                self,
            )@.drop_last(),
    {
        self.iter.next_back()
    }

    /// How many values remain, as an exact lower and upper bound.
    pub fn size_hint(&self) -> (r: (usize, Option<usize>))
        requires
            self.wf(),
        ensures
            r.0 == self@.len(),
            r.1 == Some(r.0),
    {
        self.iter.size_hint()
    }
}

impl<T> Default for Vec<T> {
    /// The same empty array as [`Vec::new`].
    fn default() -> (c: Self)
        ensures
            c.wf(),
            c@ =~= Seq::<T>::empty(),
            c.spec_cap() == fresh_cap::<T>(),
    {
        Vec::new()
    }
}

/// Law: a push appends and disturbs nothing. Every element already in the
/// view keeps its place and value, the new value stands last, and the length
/// grows by one — so any sequence of pushes leaves the view in push order,
/// with one element per push, whatever growth happened along the way.
pub proof fn lemma_push_keeps_prefix<T>(s: Seq<T>, v: T)
    ensures
        s.push(v).len() == s.len() + 1,
        forall|j: int| 0 <= j < s.len() ==> s.push(v)[j] == s[j],
        s.push(v)[s.len() as int] == v,
{
}

/// Law: a push followed immediately by a pop is a no-op on the visible
/// state. Over the views that [`Vec::push`] and [`Vec::pop`] promise:
/// pushing `v` onto `s` gives a sequence whose last element is `v` — the
/// value the pop returns — and dropping that last element is `s` again.
pub proof fn lemma_push_then_pop<T>(s: Seq<T>, v: T)
    ensures
        s.push(v).len() == s.len() + 1,
        s.push(v).last() == v,
        s.push(v).drop_last() =~= s,
{
}

/// Law: `insert` at `i` followed by `remove` at `i` returns the inserted
/// value and restores the prior length and the prior order of every other
/// element, in the views that [`Vec::insert`] and [`Vec::remove`] promise.
pub proof fn lemma_insert_then_remove<T>(s: Seq<T>, i: int, v: T)
    requires
        0 <= i <= s.len(),
    ensures
        s.insert(i, v)[i] == v,
        s.insert(i, v).len() == s.len() + 1,
        s.insert(i, v).remove(i) =~= s,
{
    s.insert_ensures(i, v);
    s.insert(i, v).remove_ensures(i);
}

/// Law: removing the element at `i` shortens the view by exactly one and
/// keeps the relative order of all the others: those before `i` stay put,
/// those after move one place down.
pub proof fn lemma_remove_keeps_order<T>(s: Seq<T>, i: int)
    requires
        0 <= i < s.len(),
    ensures
        s.remove(i).len() == s.len() - 1,
        forall|j: int| 0 <= j < i ==> s.remove(i)[j] == s[j],
        forall|j: int| i <= j < s.len() - 1 ==> s.remove(i)[j] == s[j + 1],
{
    s.remove_ensures(i);
}

/// Law: consuming from the back walks the reverse of the forward order.
/// One backward step on a view `s` yields `s.last()`, which is the front of
/// `s.reverse()`, and leaves `s.drop_last()`, whose reverse is the rest of
/// `s.reverse()` — so backward consumption to exhaustion yields exactly
/// `s.reverse()`, while forward consumption yields `s` itself.
pub proof fn lemma_backward_is_reverse<T>(s: Seq<T>)
    requires
        s.len() > 0,
    ensures
        s.last() == s.reverse()[0],
        s.drop_last().reverse() =~= s.reverse().drop_first(),
{
}

} // verus!
