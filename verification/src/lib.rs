//! A region-based ("arena") allocator with verified bump-pointer arithmetic.
//!
//! An [`Arena`] owns one fixed-length byte buffer. An [`ArenaAlloc`] is a
//! short-lived cursor over that buffer: it hands out aligned addresses by
//! advancing a head offset towards the buffer's end, and wraps each inserted
//! value in an owning [`ArenaBox`]. Exactly one cursor can be live per arena
//! at a time, which the borrow on the arena enforces statically; a later
//! cursor starts again from the buffer's beginning, reusing the same bytes.
//!
//! Addresses are offsets from the start of the arena's buffer. Every
//! allocation is proved to stay inside the buffer, to land on a multiple of
//! the requested alignment, and to fail exactly when the rounded head plus
//! the requested size would pass the buffer's end.

use vstd::prelude::*;
use core::marker::PhantomData;

pub mod alignment;
pub mod handle;
pub mod model;

pub use crate::handle::{ArenaBox, ArenaSlice, RawArenaBox};
use crate::model::{alloc_address, alloc_fits, alloc_head, lemma_bump_step, req_wf, run_address, run_end, run_fits, LayoutReq};
use vstd::layout::{align_of, layout_for_type_is_valid, size_of};
use vstd::std_specs::iter::IteratorSpec;

verus! {

/// The layout request one value of a type makes: its size and alignment.
pub open spec fn layout_of<T>() -> LayoutReq {
    LayoutReq { size: size_of::<T>(), align: align_of::<T>() }
}

/// A fixed-length buffer from which an [`ArenaAlloc`] carves out space.
pub struct Arena {
    buffer: Vec<u8>,
}

impl Arena {
    /// The buffer's length in bytes, fixed at creation.
    pub closed spec fn length(&self) -> nat {
        self.buffer@.len()
    }

    /// An arena always owns at least one byte.
    pub closed spec fn wf(&self) -> bool {
        self.buffer@.len() > 0
    }

    /// Allocates a new arena of exactly `length` bytes.
    pub fn new(length: usize) -> (arena: Arena)
        requires
            length > 0,
        ensures
            arena.wf(),
            arena.length() == length,
    {
        let mut buffer: Vec<u8> = Vec::new();
        while buffer.len() < length
            invariant
                buffer@.len() <= length,
            decreases length - buffer@.len(),
        {
            buffer.push(0);
        }
        Arena { buffer }
    }

    /// Begins a generation: a cursor that allocates from the buffer's start.
    ///
    /// The cursor borrows the arena exclusively, so at most one can be live
    /// at a time, and no handle from an earlier cursor can still exist when
    /// a later one begins — which is the one reason reusing the same bytes
    /// from the start is sound.
    pub fn begin_alloc<'a>(&'a mut self) -> (cursor: ArenaAlloc<'a>)
        ensures
            *final(self) == *old(self),
            cursor.wf(),
            cursor.head() == 0,
            cursor.limit() == old(self).length(),
    {
        ArenaAlloc { head: 0, limit: self.buffer.len(), _arena: PhantomData }
    }
}

/// A bump-pointer cursor over an [`Arena`]'s buffer.
///
/// `head` is the offset of the next free byte; `limit` is the buffer's
/// length. Every allocation rounds the head up to the requested alignment,
/// checks that the requested size still fits below the limit, and advances
/// the head past the new region — so the head only ever grows, and regions
/// handed out never overlap.
pub struct ArenaAlloc<'a> {
    head: usize,
    limit: usize,
    _arena: PhantomData<&'a mut Arena>,
}

impl<'a> ArenaAlloc<'a> {
    /// The offset of the next free byte.
    pub closed spec fn head(&self) -> nat {
        self.head as nat
    }

    /// The offset one past the last usable byte: the arena's length.
    pub closed spec fn limit(&self) -> nat {
        self.limit as nat
    }

    /// The head never passes the limit.
    pub closed spec fn wf(&self) -> bool {
        self.head <= self.limit
    }

    /// Allocates `size` bytes at a multiple of `align`, or reports that they
    /// do not fit.
    ///
    /// The request fails exactly when the head, rounded up to `align`, no
    /// longer leaves `size` bytes below the limit; rounding that would
    /// overflow the address space counts as not fitting, never as an error.
    /// A failed request leaves the cursor untouched. A zero-sized request
    /// always succeeds, consumes nothing, and is served a trivially aligned
    /// marker address.
    pub fn try_alloc_layout(&mut self, size: usize, align: usize) -> (r: Option<usize>)
        requires
            old(self).wf(),
            align >= 1,
        ensures
            final(self).wf(),
            final(self).limit() == old(self).limit(),
            old(self).head() <= final(self).head(),
            r is Some <==> alloc_fits(
                old(self).head(),
                old(self).limit(),
                LayoutReq { size: size as nat, align: align as nat },
            ),
            match r {
                Some(addr) => {
                    &&& addr == alloc_address(
                        old(self).head(),
                        LayoutReq { size: size as nat, align: align as nat },
                    )
                    &&& final(self).head() == alloc_head(
                        old(self).head(),
                        LayoutReq { size: size as nat, align: align as nat },
                    )
                    &&& addr as nat % align as nat == 0
                },
                None => *final(self) == *old(self),
            },
    {
        if size == 0 {
            proof {
                crate::alignment::lemma_round_up_idempotent(0, align as nat);
                vstd::arithmetic::div_mod::lemma_mod_multiples_basic(1, align as int);
            }
            return Some(align);
        }
        let rounded = match crate::alignment::checked_round_up(self.head, align) {
            Some(v) => v,
            None => {
                proof {
                    crate::alignment::lemma_round_up_bounds(old(self).head(), align as nat);
                }
                return None;
            },
        };
        proof {
            crate::alignment::lemma_round_up_bounds(old(self).head(), align as nat);
            crate::alignment::lemma_round_up_aligned(old(self).head(), align as nat);
        }
        if rounded > self.limit || self.limit - rounded < size {
            return None;
        }
        self.head = rounded + size;
        Some(rounded)
    }

    /// Allocates space for one value of `T`, or reports that it does not
    /// fit. The address returned is a multiple of `T`'s alignment.
    pub fn try_alloc<T>(&mut self) -> (r: Option<usize>)
        requires
            old(self).wf(),
        ensures
            final(self).wf(),
            final(self).limit() == old(self).limit(),
            old(self).head() <= final(self).head(),
            req_wf(layout_of::<T>()),
            r is Some <==> alloc_fits(old(self).head(), old(self).limit(), layout_of::<T>()),
            match r {
                Some(addr) => {
                    &&& addr == alloc_address(old(self).head(), layout_of::<T>())
                    &&& addr as nat % align_of::<T>() == 0
                    &&& final(self).head() == alloc_head(old(self).head(), layout_of::<T>())
                },
                None => *final(self) == *old(self),
            },
    {
        layout_for_type_is_valid::<T>();
        let size = core::mem::size_of::<T>();
        let align = core::mem::align_of::<T>();
        self.try_alloc_layout(size, align)
    }

    /// Allocates space for one value of `T`, which must fit.
    pub fn allocate<T>(&mut self) -> (addr: usize)
        requires
            old(self).wf(),
            alloc_fits(old(self).head(), old(self).limit(), layout_of::<T>()),
        ensures
            final(self).wf(),
            final(self).limit() == old(self).limit(),
            addr == alloc_address(old(self).head(), layout_of::<T>()),
            addr as nat % align_of::<T>() == 0,
            final(self).head() == alloc_head(old(self).head(), layout_of::<T>()),
    {
        match self.try_alloc::<T>() {
            Some(addr) => addr,
            None => vstd::pervasive::unreached(),
        }
    }

    /// Places `value` in freshly allocated space and hands back an owning
    /// [`ArenaBox`] over it, or returns the value untouched when it does
    /// not fit.
    pub fn try_insert<T>(&mut self, value: T) -> (r: Result<ArenaBox<'a, T>, T>)
        requires
            old(self).wf(),
        ensures
            final(self).wf(),
            final(self).limit() == old(self).limit(),
            old(self).head() <= final(self).head(),
            r is Ok <==> alloc_fits(old(self).head(), old(self).limit(), layout_of::<T>()),
            match r {
                Ok(b) => {
                    &&& b.value() == value
                    &&& b.addr() == alloc_address(old(self).head(), layout_of::<T>())
                    &&& b.addr() % align_of::<T>() == 0
                    &&& final(self).head() == alloc_head(old(self).head(), layout_of::<T>())
                },
                Err(v) => v == value && *final(self) == *old(self),
            },
    {
        match self.try_alloc::<T>() {
            Some(addr) => Ok(ArenaBox::new_at(value, addr)),
            None => Err(value),
        }
    }

    /// Places `value` in freshly allocated space, which must suffice, and
    /// hands back an owning [`ArenaBox`] over it.
    pub fn insert<T>(&mut self, value: T) -> (b: ArenaBox<'a, T>)
        requires
            old(self).wf(),
            alloc_fits(old(self).head(), old(self).limit(), layout_of::<T>()),
        ensures
            final(self).wf(),
            final(self).limit() == old(self).limit(),
            b.value() == value,
            b.addr() == alloc_address(old(self).head(), layout_of::<T>()),
            b.addr() % align_of::<T>() == 0,
            final(self).head() == alloc_head(old(self).head(), layout_of::<T>()),
    {
        match self.try_insert(value) {
            Ok(b) => b,
            Err(_) => vstd::pervasive::unreached(),
        }
    }

    /// Like [`ArenaAlloc::try_insert`], but the value is produced by calling
    /// `value` only once space for it has been confirmed: when there is no
    /// room, the producer is never run.
    pub fn try_insert_with<F, T>(&mut self, value: F) -> (r: Option<ArenaBox<'a, T>>) where
        F: FnOnce() -> T,

        requires
            old(self).wf(),
            call_requires(value, ()),
        ensures
            final(self).wf(),
            final(self).limit() == old(self).limit(),
            old(self).head() <= final(self).head(),
            r is Some <==> alloc_fits(old(self).head(), old(self).limit(), layout_of::<T>()),
            match r {
                Some(b) => {
                    &&& call_ensures(value, (), b.value())
                    &&& b.addr() == alloc_address(old(self).head(), layout_of::<T>())
                    &&& b.addr() % align_of::<T>() == 0
                    &&& final(self).head() == alloc_head(old(self).head(), layout_of::<T>())
                },
                None => *final(self) == *old(self),
            },
    {
        match self.try_alloc::<T>() {
            Some(addr) => Some(ArenaBox::new_at(value(), addr)),
            None => None,
        }
    }

    /// Copies a slice of values into one freshly allocated contiguous
    /// region and hands back an owning [`ArenaSlice`] over the copies, or
    /// reports that a region of that size does not fit. A failed request
    /// leaves the cursor untouched; an empty slice, or a slice of a
    /// zero-sized type, consumes no space and always succeeds.
    pub fn try_insert_slice<T: Copy>(&mut self, slice: &[T]) -> (r: Option<ArenaSlice<'a, T>>)
        requires
            old(self).wf(),
        ensures
            final(self).wf(),
            final(self).limit() == old(self).limit(),
            old(self).head() <= final(self).head(),
            r is Some <==> run_fits(
                old(self).head(),
                old(self).limit(),
                layout_of::<T>(),
                slice@.len(),
            ),
            match r {
                Some(s) => {
                    &&& s@ == slice@
                    &&& s.addr() == run_address(old(self).head(), layout_of::<T>(), slice@.len())
                    &&& final(self).head() == run_end(
                        old(self).head(),
                        layout_of::<T>(),
                        slice@.len(),
                    )
                },
                None => *final(self) == *old(self),
            },
    {
        layout_for_type_is_valid::<T>();
        let size = core::mem::size_of::<T>();
        let align = core::mem::align_of::<T>();
        let n = slice.len();
        let addr: usize;
        if size == 0 || n == 0 {
            addr = align;
        } else {
            let total = match size.checked_mul(n) {
                Some(t) => t,
                None => {
                    proof {
                        assert(size * n == n * size) by (nonlinear_arith);
                    }
                    return None;
                },
            };
            proof {
                assert(size * n == n * size && size * n >= 1) by (nonlinear_arith)
                    requires
                        size >= 1 && n >= 1,
                ;
            }
            match self.try_alloc_layout(total, align) {
                Some(a) => {
                    addr = a;
                },
                None => {
                    return None;
                },
            }
        }
        let mut values: Vec<T> = Vec::new();
        let mut i: usize = 0;
        while i < n
            invariant
                n == slice@.len(),
                i <= n,
                values@.len() == i,
                forall|j: int| 0 <= j < i ==> values@[j] == slice@[j],
            decreases n - i,
        {
            values.push(slice[i]);
            i += 1;
        }
        proof {
            assert(values@ =~= slice@);
        }
        Some(ArenaSlice::new_at(values, addr))
    }

    /// Copies a slice of values into one freshly allocated contiguous
    /// region, which must suffice, and hands back an owning [`ArenaSlice`]
    /// over the copies.
    pub fn insert_slice<T: Copy>(&mut self, slice: &[T]) -> (s: ArenaSlice<'a, T>)
        requires
            old(self).wf(),
            run_fits(old(self).head(), old(self).limit(), layout_of::<T>(), slice@.len()),
        ensures
            final(self).wf(),
            final(self).limit() == old(self).limit(),
            s@ == slice@,
            s.addr() == run_address(old(self).head(), layout_of::<T>(), slice@.len()),
            final(self).head() == run_end(old(self).head(), layout_of::<T>(), slice@.len()),
    {
        match self.try_insert_slice(slice) {
            Some(s) => s,
            None => vstd::pervasive::unreached(),
        }
    }

    /// Materializes every item of an iterator into one contiguous run of
    /// freshly allocated space, element by element, and hands back an
    /// owning [`ArenaSlice`] over all of them in their original order —
    /// with no intermediate allocation beyond the run itself, because each
    /// element is placed immediately after the one before it.
    ///
    /// When an element no longer fits, every element inserted so far is
    /// dropped — their destructors run before the failure is surfaced —
    /// but the head keeps the space they claimed: within one generation a
    /// bump cursor cannot take an allocation back.
    pub fn try_insert_all<T, I>(&mut self, items: I) -> (r: Option<ArenaSlice<'a, T>>) where
        I: Iterator<Item = T>,

        requires
            old(self).wf(),
            items.obeys_prophetic_iter_laws(),
            items.decrease() is Some,
        ensures
            final(self).wf(),
            final(self).limit() == old(self).limit(),
            old(self).head() <= final(self).head(),
            r is Some <==> run_fits(
                old(self).head(),
                old(self).limit(),
                layout_of::<T>(),
                items.remaining().len(),
            ),
            match r {
                Some(s) => {
                    &&& s@ == items.remaining()
                    &&& s.addr() == run_address(
                        old(self).head(),
                        layout_of::<T>(),
                        items.remaining().len(),
                    )
                    &&& final(self).head() == run_end(
                        old(self).head(),
                        layout_of::<T>(),
                        items.remaining().len(),
                    )
                },
                None => (exists|k: nat|
                    k < items.remaining().len() && run_fits(
                        old(self).head(),
                        old(self).limit(),
                        layout_of::<T>(),
                        k,
                    ) && !run_fits(old(self).head(), old(self).limit(), layout_of::<T>(), k + 1)
                        && final(self).head() == run_end(old(self).head(), layout_of::<T>(), k)),
            },
    {
        layout_for_type_is_valid::<T>();
        let ghost layout = layout_of::<T>();
        let ghost all = items.remaining();
        let size = core::mem::size_of::<T>();
        let align = core::mem::align_of::<T>();
        let mut it = items;
        let mut values: Vec<T> = Vec::new();
        let mut base: usize = align;
        loop
            invariant
                all == items.remaining(),
                self.wf(),
                old(self).head() <= self.head(),
                self.limit() == old(self).limit(),
                it.obeys_prophetic_iter_laws(),
                it.decrease() is Some,
                size as nat == layout.size,
                align as nat == layout.align,
                req_wf(layout),
                layout == layout_of::<T>(),
                values@.len() + it.remaining().len() == all.len(),
                values@ == all.take(values@.len() as int),
                it.remaining() == all.skip(values@.len() as int),
                run_fits(old(self).head(), old(self).limit(), layout, values@.len()),
                values@.len() == 0 ==> self.head() == old(self).head() && base as nat
                    == layout.align,
                values@.len() > 0 ==> base as nat == run_address(
                    old(self).head(),
                    layout,
                    values@.len(),
                ) && self.head() == run_end(old(self).head(), layout, values@.len()),
                size > 0 && values@.len() > 0 ==> self.head() % layout.align == 0,
            decreases it.decrease()->0,
        {
            let x = match it.next() {
                Some(x) => x,
                None => {
                    proof {
                        assert(all.take(all.len() as int) =~= all);
                    }
                    return Some(ArenaSlice::new_at(values, base));
                },
            };
            let ghost k = values@.len();
            let ghost h_before = self.head();
            proof {
                assert(all.skip(k as int)[0] == all[k as int]);
            }
            match self.try_alloc::<T>() {
                Some(addr) => {
                    if values.len() == 0 {
                        base = addr;
                    }
                    values.push(x);
                    proof {
                        assert(values@ =~= all.take(k + 1 as int)) by {
                            assert(all.take(k + 1 as int) =~= all.take(k as int).push(
                                all[k as int],
                            ));
                        }
                        assert(it.remaining() =~= all.skip(k + 1 as int));
                        if size > 0 {
                            lemma_bump_step(old(self).head(), h_before, layout, k);
                        }
                    }
                },
                None => {
                    proof {
                        assert(k < all.len());
                        if size > 0 {
                            lemma_bump_step(old(self).head(), h_before, layout, k);
                        }
                        assert(run_fits(old(self).head(), old(self).limit(), layout, k)
                            && !run_fits(
                            old(self).head(),
                            old(self).limit(),
                            layout,
                            (k + 1) as nat,
                        ) && self.head() == run_end(old(self).head(), layout, k));
                        crate::model::lemma_run_fits_monotone_all(
                            old(self).head(),
                            old(self).limit(),
                            layout,
                            (k + 1) as nat,
                        );
                    }
                    return None;
                },
            }
        }
    }

    /// Materializes every item of an iterator into one contiguous run of
    /// freshly allocated space, which must suffice, and hands back an
    /// owning [`ArenaSlice`] over all of them in their original order.
    pub fn insert_all<T, I>(&mut self, items: I) -> (s: ArenaSlice<'a, T>) where
        I: Iterator<Item = T>,

        requires
            old(self).wf(),
            items.obeys_prophetic_iter_laws(),
            items.decrease() is Some,
            run_fits(
                old(self).head(),
                old(self).limit(),
                layout_of::<T>(),
                items.remaining().len(),
            ),
        ensures
            final(self).wf(),
            final(self).limit() == old(self).limit(),
            s@ == items.remaining(),
            s.addr() == run_address(old(self).head(), layout_of::<T>(), items.remaining().len()),
            final(self).head() == run_end(
                old(self).head(),
                layout_of::<T>(),
                items.remaining().len(),
            ),
    {
        match self.try_insert_all(items) {
            Some(s) => s,
            None => vstd::pervasive::unreached(),
        }
    }

    /// Like [`ArenaAlloc::insert`], but the value is produced by calling
    /// `value` only once space for it has been confirmed; the space must
    /// suffice.
    pub fn insert_with<F, T>(&mut self, value: F) -> (b: ArenaBox<'a, T>) where F: FnOnce() -> T
        requires
            old(self).wf(),
            call_requires(value, ()),
            alloc_fits(old(self).head(), old(self).limit(), layout_of::<T>()),
        ensures
            final(self).wf(),
            final(self).limit() == old(self).limit(),
            call_ensures(value, (), b.value()),
            b.addr() == alloc_address(old(self).head(), layout_of::<T>()),
            b.addr() % align_of::<T>() == 0,
            final(self).head() == alloc_head(old(self).head(), layout_of::<T>()),
    {
        match self.try_insert_with(value) {
            Some(b) => b,
            None => vstd::pervasive::unreached(),
        }
    }
}

/// Generation reuse: any two cursors begun on one arena — necessarily one
/// after the other, since the exclusive borrow admits only one at a time —
/// start from the buffer's beginning with the full length available. A run
/// of requests therefore fits in the later generation exactly as it fit in
/// the earlier one, and is served the same addresses over the same bytes.
/// No value of the earlier generation can be observed through the later
/// cursor: a cursor holds nothing but its two offsets, and every value ever
/// inserted is owned by the handle that was returned for it.
pub proof fn lemma_generation_reuse<'a, 'b>(
    arena: Arena,
    first: ArenaAlloc<'a>,
    second: ArenaAlloc<'b>,
    reqs: Seq<LayoutReq>,
)
    requires
        first.head() == 0,
        first.limit() == arena.length(),
        second.head() == 0,
        second.limit() == arena.length(),
    ensures
        forall|i: int|
            0 <= i < reqs.len() ==> (alloc_fits(
                crate::model::run_head_at(first.head(), reqs, i),
                first.limit(),
                #[trigger] reqs[i],
            ) <==> alloc_fits(
                crate::model::run_head_at(second.head(), reqs, i),
                second.limit(),
                reqs[i],
            )),
        forall|i: int|
            0 <= i < reqs.len() ==> alloc_address(
                crate::model::run_head_at(first.head(), reqs, i),
                #[trigger] reqs[i],
            ) == alloc_address(crate::model::run_head_at(second.head(), reqs, i), reqs[i]),
{
}

} // verus!
