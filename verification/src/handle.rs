//! Owning handles over arena-resident values.
//!
//! An [`ArenaBox`] pairs a value with the address the cursor assigned to it.
//! The handle owns the value — dropping the handle drops the value — but it
//! never owns the arena's storage: the address is only a record of where the
//! cursor placed the value, and releasing the bytes is the arena's business
//! alone. The lifetime parameter ties every handle to the exclusive borrow
//! backing the cursor that produced it, so no handle can survive into a later
//! cursor's generation.

use vstd::prelude::*;
use core::marker::PhantomData;

verus! {

/// An owning handle over one value placed in an arena.
#[derive(Debug)]
pub struct ArenaBox<'a, T> {
    value: Box<T>,
    addr: usize,
    _arena: PhantomData<&'a ()>,
}

/// A handle whose ownership has been handed back to the caller.
///
/// This is the raw form produced by [`ArenaBox::into_raw`]: the same address
/// and value, no longer tied to a cursor's borrow. It exists for building
/// structures the handle abstraction alone cannot express; the caller is
/// responsible for turning it back into a handle with
/// [`ArenaBox::from_raw`] before the arena's generation ends.
#[derive(Debug)]
pub struct RawArenaBox<T> {
    value: Box<T>,
    addr: usize,
}

impl<'a, T> ArenaBox<'a, T> {
    /// Wraps a value the cursor has just placed at `addr`.
    pub(crate) fn new_at(value: T, addr: usize) -> (b: ArenaBox<'a, T>)
        ensures
            b.value() == value,
            b.addr() == addr as nat,
    {
        ArenaBox { value: Box::new(value), addr, _arena: PhantomData }
    }

    /// The value the handle owns.
    pub closed spec fn value(&self) -> T {
        *self.value
    }

    /// The address of the value: an offset from the arena buffer's start.
    pub closed spec fn addr(&self) -> nat {
        self.addr as nat
    }

    /// Reconstructs a handle from its raw form.
    ///
    /// The inverse of [`ArenaBox::into_raw`]: the resulting handle owns the
    /// same value at the same address, and will drop the value exactly as
    /// the original handle would have.
    pub fn from_raw(raw: RawArenaBox<T>) -> (b: ArenaBox<'a, T>)
        ensures
            b.value() == raw.value(),
            b.addr() == raw.addr(),
    {
        ArenaBox { value: raw.value, addr: raw.addr, _arena: PhantomData }
    }

    /// Dissolves the handle into its raw form without dropping the value.
    pub fn into_raw(self) -> (raw: RawArenaBox<T>)
        ensures
            raw.value() == self.value(),
            raw.addr() == self.addr(),
    {
        RawArenaBox { value: self.value, addr: self.addr }
    }

    /// A reference to the contained value.
    pub fn as_ref(&self) -> (r: &T)
        ensures
            *r == self.value(),
    {
        &*self.value
    }

    /// A mutable reference to the contained value.
    pub fn as_mut(&mut self) -> (r: &mut T)
        ensures
            *r == old(self).value(),
            final(self).value() == *final(r),
            final(self).addr() == old(self).addr(),
    {
        &mut *self.value
    }

    /// The address of the contained value.
    pub fn as_ptr(&self) -> (r: usize)
        ensures
            r == self.addr(),
    {
        self.addr
    }

    /// The address of the contained value, for writing through.
    pub fn as_mut_ptr(&mut self) -> (r: usize)
        ensures
            r == old(self).addr(),
            *final(self) == *old(self),
    {
        self.addr
    }

    /// Takes the value out of the handle without dropping it in place.
    ///
    /// The arena's bytes are untouched either way; what leaking forgoes is
    /// only the drop the handle would have run at the end of its scope.
    pub fn leak(self) -> (r: T)
        ensures
            r == self.value(),
    {
        *self.value
    }
}

impl<T> RawArenaBox<T> {
    /// The value the raw handle carries.
    pub closed spec fn value(&self) -> T {
        *self.value
    }

    /// The address recorded when the handle was dissolved.
    pub closed spec fn addr(&self) -> nat {
        self.addr as nat
    }

    /// A reference to the value the raw handle carries.
    pub fn as_ref(&self) -> (r: &T)
        ensures
            *r == self.value(),
    {
        &*self.value
    }

    /// The address recorded when the handle was dissolved.
    pub fn as_ptr(&self) -> (r: usize)
        ensures
            r == self.addr(),
    {
        self.addr
    }
}

/// An owning handle over a contiguous run of values placed in an arena.
///
/// Produced by the bulk insertions: the run begins at `addr` and the values
/// sit back to back in their original order. Like [`ArenaBox`], the handle
/// owns the values — dropping it drops each of them — but never the arena's
/// storage.
#[derive(Debug)]
pub struct ArenaSlice<'a, T> {
    values: Vec<T>,
    addr: usize,
    _arena: PhantomData<&'a ()>,
}

impl<'a, T> View for ArenaSlice<'a, T> {
    type V = Seq<T>;

    closed spec fn view(&self) -> Seq<T> {
        self.values@
    }
}

impl<'a, T> ArenaSlice<'a, T> {
    /// Wraps a run of values the cursor has placed starting at `addr`.
    pub(crate) fn new_at(values: Vec<T>, addr: usize) -> (s: ArenaSlice<'a, T>)
        ensures
            s@ == values@,
            s.addr() == addr as nat,
    {
        ArenaSlice { values, addr, _arena: PhantomData }
    }

    /// The address of the run's first value: an offset from the arena
    /// buffer's start.
    pub closed spec fn addr(&self) -> nat {
        self.addr as nat
    }

    /// How many values the run holds.
    pub fn len(&self) -> (n: usize)
        ensures
            n == self@.len(),
    {
        self.values.len()
    }

    /// Whether the run holds no value at all.
    pub fn is_empty(&self) -> (e: bool)
        ensures
            e == (self@.len() == 0),
    {
        self.values.len() == 0
    }

    /// A reference to the `i`th value of the run.
    pub fn get(&self, i: usize) -> (r: &T)
        requires
            i < self@.len(),
        ensures
            *r == self@[i as int],
    {
        &self.values[i]
    }

    /// A mutable reference to the `i`th value of the run.
    pub fn get_mut(&mut self, i: usize) -> (r: &mut T)
        requires
            i < old(self)@.len(),
        ensures
            *r == old(self)@[i as int],
            final(self)@ == old(self)@.update(i as int, *final(r)),
            final(self).addr() == old(self).addr(),
    {
        &mut self.values[i]
    }

    /// The address of the run's first value.
    pub fn as_ptr(&self) -> (r: usize)
        ensures
            r == self.addr(),
    {
        self.addr
    }

    /// The whole run as a slice, in insertion order.
    pub fn as_slice(&self) -> (r: &[T])
        ensures
            r@ == self@,
    {
        self.values.as_slice()
    }
}

/// Converting a handle to its raw form and back preserves both the value and
/// the address: a raw form as [`ArenaBox::into_raw`] describes it, passed on
/// to a handle as [`ArenaBox::from_raw`] describes it, stands in for the
/// original handle in every respect. Ownership of the value moves with each
/// conversion, so across the round trip the value is dropped exactly once,
/// by whoever holds it last.
pub proof fn lemma_raw_round_trip<'a, T>(
    before: ArenaBox<'a, T>,
    raw: RawArenaBox<T>,
    after: ArenaBox<'a, T>,
)
    requires
        raw.value() == before.value(),
        raw.addr() == before.addr(),
        after.value() == raw.value(),
        after.addr() == raw.addr(),
    ensures
        after.value() == before.value(),
        after.addr() == before.addr(),
{
}

} // verus!
