//! A runtime-checked aliasing cell.
//!
//! The cell hands out shared or exclusive access to its value and refuses a
//! request (by returning `None`) when granting it would break the
//! single-writer discipline, rather than crashing. Acquire and release are
//! explicit: `borrow` / `borrow_mut` hand out a guard, and `release` /
//! `release_mut` take it back.

use vstd::prelude::*;

verus! {

/// The cell's borrow state: free, shared among `n > 0` readers, or held
/// exclusively by one writer.
#[derive(Clone, Copy)]
enum RefState {
    Idle,
    Shared(usize),
    Exclusive,
}

/// A runtime-checked aliasing cell. While a writer holds the value (through
/// a `RefMut`), the value lives in the guard and the cell holds nothing.
pub struct RefCell<T> {
    value: Option<T>,
    state: RefState,
}

/// Evidence of one granted shared borrow; handed back through
/// [`RefCell::release`].
pub struct Ref<T> {
    marker: core::marker::PhantomData<T>,
}

/// The guard of an exclusive borrow: it holds the value itself, and hands it
/// back through [`RefCell::release_mut`].
pub struct RefMut<T> {
    value: T,
}

impl<T> RefMut<T> {
    /// The value the guard holds.
    pub closed spec fn val(&self) -> T {
        self.value
    }

    /// Reads the guarded value.
    pub fn get(&self) -> (r: &T)
        ensures
            *r == self.val(),
    {
        &self.value
    }

    /// Overwrites the guarded value.
    pub fn set(&mut self, v: T)
        ensures
            final(self).val() == v,
    {
        self.value = v;
    }
}

impl<T> RefCell<T> {
    /// The discipline the cell maintains: the value is away exactly while a
    /// writer holds it, and a shared state counts at least one reader.
    pub closed spec fn wf(&self) -> bool {
        &&& (self.state is Exclusive <==> self.value is None)
        &&& (self.state matches RefState::Shared(n) ==> n > 0)
    }

    /// Whether a writer currently holds the value.
    pub closed spec fn is_writing(&self) -> bool {
        self.state is Exclusive
    }

    /// How many readers currently hold a shared borrow.
    pub closed spec fn readers(&self) -> nat {
        match self.state {
            RefState::Shared(n) => n as nat,
            _ => 0,
        }
    }

    /// The cell's value. Meaningful only while no writer holds it.
    pub closed spec fn val(&self) -> T {
        self.value->0
    }

    /// A fresh cell: value present, no borrows.
    pub fn new(value: T) -> (c: Self)
        ensures
            c.wf(),
            !c.is_writing(),
            c.readers() == 0,
            c.val() == value,
    {
        RefCell { value: Some(value), state: RefState::Idle }
    }

    /// Requests shared access: granted (one more reader) unless a writer
    /// holds the value.
    pub fn borrow(&mut self) -> (r: Option<Ref<T>>)
        requires
            old(self).wf(),
            old(self).readers() < usize::MAX,
        ensures
            final(self).wf(),
            old(self).is_writing() ==> r is None && *final(self) == *old(self),
            !old(self).is_writing() ==> {
                &&& r is Some
                &&& !final(self).is_writing()
                &&& final(self).readers() == old(self).readers() + 1
                &&& final(self).val() == old(self).val()
            },
    {
        match self.state {
            RefState::Idle => {
                self.state = RefState::Shared(1);
                Some(Ref { marker: core::marker::PhantomData })
            },
            RefState::Shared(n) => {
                self.state = RefState::Shared(n + 1);
                Some(Ref { marker: core::marker::PhantomData })
            },
            RefState::Exclusive => None,
        }
    }

    /// Requests exclusive access: granted only when the cell is free, and
    /// then moves the value into the returned guard.
    pub fn borrow_mut(&mut self) -> (r: Option<RefMut<T>>)
        requires
            old(self).wf(),
        ensures
            final(self).wf(),
            (old(self).is_writing() || old(self).readers() > 0) ==> r is None && *final(self)
                == *old(self),
            (!old(self).is_writing() && old(self).readers() == 0) ==> {
                &&& r matches Some(m) && m.val() == old(self).val()
                &&& final(self).is_writing()
                &&& final(self).readers() == 0
            },
    {
        match self.state {
            RefState::Idle => {
                self.state = RefState::Exclusive;
                let v = self.value.take();
                Some(RefMut { value: v.unwrap() })
            },
            _ => None,
        }
    }

    /// Reads the value. Safe whenever no writer holds it.
    pub fn get(&self) -> (r: &T)
        requires
            self.wf(),
            !self.is_writing(),
        ensures
            *r == self.val(),
    {
        self.value.as_ref().unwrap()
    }

    /// Hands a shared borrow back: one fewer reader.
    pub fn release(&mut self, _guard: Ref<T>)
        requires
            old(self).wf(),
            old(self).readers() > 0,
        ensures
            final(self).wf(),
            !final(self).is_writing(),
            final(self).readers() == old(self).readers() - 1,
            final(self).val() == old(self).val(),
    {
        match self.state {
            RefState::Shared(n) => {
                if n == 1 {
                    self.state = RefState::Idle;
                } else {
                    self.state = RefState::Shared(n - 1);
                }
            },
            _ => {},
        }
    }

    /// Hands an exclusive borrow back: the guard's value (as the writer left
    /// it) returns into the cell, which becomes free again.
    pub fn release_mut(&mut self, guard: RefMut<T>)
        requires
            old(self).wf(),
            old(self).is_writing(),
        ensures
            final(self).wf(),
            !final(self).is_writing(),
            final(self).readers() == 0,
            final(self).val() == guard.val(),
    {
        let RefMut { value: v } = guard;
        self.value = Some(v);
        self.state = RefState::Idle;
    }
}

} // verus!
