//! The mathematical model of bump allocation.
//!
//! A cursor is a pair of offsets, `head` and `limit`, into the arena's
//! buffer. One allocation request is a [`LayoutReq`]: the size and alignment
//! of the type being stored. These functions say, over plain naturals, what
//! one allocation does — where it lands, whether it fits, and where the head
//! stands afterwards — and the lemmas state the facts that hold of whole
//! sequences of requests: that a run whose final head stays within the limit
//! succeeds step by step, that every address is aligned, and that the regions
//! handed out never overlap.

use vstd::prelude::*;
use vstd::arithmetic::div_mod::{lemma_add_mod_noop, lemma_small_mod};
use crate::alignment::{
    lemma_round_up_aligned, lemma_round_up_bounds, lemma_round_up_idempotent, round_up,
};

verus! {

/// One allocation request: the size and alignment of the type to store.
pub ghost struct LayoutReq {
    pub size: nat,
    pub align: nat,
}

/// Alignments are at least one; a type's size is a multiple of its alignment.
pub open spec fn req_wf(r: LayoutReq) -> bool {
    r.align >= 1 && r.size % r.align == 0
}

/// Whether a request fits between `head` and `limit`. A zero-sized request
/// always fits; any other needs its size between the rounded head and the
/// limit.
pub open spec fn alloc_fits(head: nat, limit: nat, r: LayoutReq) -> bool {
    r.size == 0 || round_up(head, r.align) + r.size <= limit
}

/// The address a successful request is served at. A zero-sized request gets
/// a trivially aligned marker address and claims no storage.
pub open spec fn alloc_address(head: nat, r: LayoutReq) -> nat {
    if r.size == 0 {
        r.align
    } else {
        round_up(head, r.align)
    }
}

/// The head after a successful request.
pub open spec fn alloc_head(head: nat, r: LayoutReq) -> nat {
    if r.size == 0 {
        head
    } else {
        round_up(head, r.align) + r.size
    }
}

/// Whether `n` values of one layout, packed back to back, fit between
/// `head` and `limit`. Since a type's size is a multiple of its alignment,
/// only the first of the `n` regions needs padding.
pub open spec fn run_fits(head: nat, limit: nat, r: LayoutReq, n: nat) -> bool {
    n == 0 || r.size == 0 || round_up(head, r.align) + n * r.size <= limit
}

/// The address the first of `n` values of one layout is served at. An empty
/// or zero-sized run gets the trivially aligned marker address and claims no
/// storage.
pub open spec fn run_address(head: nat, r: LayoutReq, n: nat) -> nat {
    if n == 0 || r.size == 0 {
        r.align
    } else {
        round_up(head, r.align)
    }
}

/// The head after `n` values of one layout have been served back to back.
pub open spec fn run_end(head: nat, r: LayoutReq, n: nat) -> nat {
    if n == 0 || r.size == 0 {
        head
    } else {
        round_up(head, r.align) + n * r.size
    }
}

/// What fits as a run of `n` values also fits as a run of any fewer.
pub proof fn lemma_run_fits_monotone(head: nat, limit: nat, r: LayoutReq, m: nat, n: nat)
    requires
        m <= n,
        run_fits(head, limit, r, n),
    ensures
        run_fits(head, limit, r, m),
{
    if m != 0 && r.size != 0 {
        assert(m * r.size <= n * r.size) by (nonlinear_arith)
            requires
                m <= n,
        ;
    }
}

/// The same fact, quantified over every longer run at once.
pub proof fn lemma_run_fits_monotone_all(head: nat, limit: nat, r: LayoutReq, m: nat)
    ensures
        forall|n: nat|
            m <= n ==> (#[trigger] run_fits(head, limit, r, n) ==> run_fits(head, limit, r, m)),
{
    assert forall|n: nat| m <= n && run_fits(head, limit, r, n) implies run_fits(
        head,
        limit,
        r,
        m,
    ) by {
        lemma_run_fits_monotone(head, limit, r, m, n);
    }
}

/// One more value appended to a run of `k` values of one layout lands
/// immediately after them: because the head left by the run is already
/// aligned, serving the next value needs no padding, which is what makes a
/// run of single insertions a contiguous sequence.
pub proof fn lemma_bump_step(head0: nat, h: nat, r: LayoutReq, k: nat)
    requires
        req_wf(r),
        r.size > 0,
        k == 0 ==> h == head0,
        k > 0 ==> h == run_end(head0, r, k) && h % r.align == 0,
    ensures
        k == 0 ==> alloc_address(h, r) == run_address(head0, r, k + 1),
        k > 0 ==> run_address(head0, r, k + 1) == run_address(head0, r, k),
        alloc_head(h, r) == run_end(head0, r, (k + 1) as nat),
        alloc_head(h, r) % r.align == 0,
{
    if k == 0 {
        assert(1 * r.size == r.size);
    } else {
        lemma_round_up_idempotent(h, r.align);
        assert((k + 1) * r.size == k * r.size + r.size) by (nonlinear_arith);
    }
    lemma_round_up_aligned(h, r.align);
    lemma_small_mod(0, r.align);
    lemma_add_mod_noop(round_up(h, r.align) as int, r.size as int, r.align as int);
}

/// The head after a run of requests, assuming each is served in turn.
pub open spec fn run_head(head: nat, reqs: Seq<LayoutReq>) -> nat
    decreases reqs.len(),
{
    if reqs.len() == 0 {
        head
    } else {
        run_head(alloc_head(head, reqs[0]), reqs.drop_first())
    }
}

/// Addresses are served in increasing order: one allocation never moves the
/// head backwards.
pub proof fn lemma_alloc_head_monotone(head: nat, r: LayoutReq)
    requires
        req_wf(r),
    ensures
        head <= alloc_head(head, r),
        alloc_address(head, r) + r.size <= alloc_head(head, r) || r.size == 0,
{
    lemma_round_up_bounds(head, r.align);
}

/// A whole run never moves the head backwards either.
pub proof fn lemma_run_head_monotone(head: nat, reqs: Seq<LayoutReq>)
    requires
        forall|i: int| 0 <= i < reqs.len() ==> req_wf(#[trigger] reqs[i]),
    ensures
        head <= run_head(head, reqs),
    decreases reqs.len(),
{
    if reqs.len() > 0 {
        lemma_alloc_head_monotone(head, reqs[0]);
        lemma_run_head_monotone(alloc_head(head, reqs[0]), reqs.drop_first());
    }
}

/// Serving one more request continues from where the run before it ended.
pub proof fn lemma_run_head_push(head: nat, reqs: Seq<LayoutReq>, r: LayoutReq)
    ensures
        run_head(head, reqs.push(r)) == alloc_head(run_head(head, reqs), r),
    decreases reqs.len(),
{
    if reqs.len() == 0 {
        assert(reqs.push(r)[0] == r);
        assert(reqs.push(r).drop_first() =~= Seq::<LayoutReq>::empty());
        assert(run_head(head, reqs.push(r)) == run_head(alloc_head(head, r), Seq::empty()));
    } else {
        assert(reqs.push(r)[0] == reqs[0]);
        assert(reqs.push(r).drop_first() =~= reqs.drop_first().push(r));
        lemma_run_head_push(alloc_head(head, reqs[0]), reqs.drop_first(), r);
    }
}

/// The head after the first `i` requests of a run.
pub open spec fn run_head_at(head: nat, reqs: Seq<LayoutReq>, i: int) -> nat {
    run_head(head, reqs.take(i))
}

/// Every insertion in a run whose final head stays within the limit fits at
/// the moment it is served: a sequence of insertions whose total aligned
/// footprint is at most the arena's length succeeds insertion by insertion.
pub proof fn lemma_run_all_fit(head: nat, limit: nat, reqs: Seq<LayoutReq>)
    requires
        forall|i: int| 0 <= i < reqs.len() ==> req_wf(#[trigger] reqs[i]),
        run_head(head, reqs) <= limit,
    ensures
        forall|i: int|
            0 <= i < reqs.len() ==> alloc_fits(
                run_head_at(head, reqs, i),
                limit,
                #[trigger] reqs[i],
            ),
    decreases reqs.len(),
{
    assert forall|i: int| 0 <= i < reqs.len() implies alloc_fits(
        run_head_at(head, reqs, i),
        limit,
        reqs[i],
    ) by {
        lemma_run_head_take_full(head, reqs);
        lemma_run_head_prefix(head, reqs, i + 1, reqs.len() as int);
        lemma_run_head_step(head, reqs, i);
        lemma_alloc_head_monotone(run_head_at(head, reqs, i), reqs[i]);
    }
}

/// The head after `i + 1` requests is one allocation past the head after `i`.
pub proof fn lemma_run_head_step(head: nat, reqs: Seq<LayoutReq>, i: int)
    requires
        0 <= i < reqs.len(),
    ensures
        run_head_at(head, reqs, i + 1) == alloc_head(run_head_at(head, reqs, i), reqs[i]),
{
    assert(reqs.take(i + 1) =~= reqs.take(i).push(reqs[i]));
    lemma_run_head_push(head, reqs.take(i), reqs[i]);
}

/// Taking a whole run changes nothing.
pub proof fn lemma_run_head_take_full(head: nat, reqs: Seq<LayoutReq>)
    ensures
        run_head(head, reqs.take(reqs.len() as int)) == run_head(head, reqs),
{
    assert(reqs.take(reqs.len() as int) =~= reqs);
}

/// The head can only grow from one prefix of a run to a longer one.
pub proof fn lemma_run_head_prefix(head: nat, reqs: Seq<LayoutReq>, i: int, j: int)
    requires
        forall|k: int| 0 <= k < reqs.len() ==> req_wf(#[trigger] reqs[k]),
        0 <= i <= j <= reqs.len(),
    ensures
        run_head_at(head, reqs, i) <= run_head_at(head, reqs, j),
    decreases j - i,
{
    if i < j {
        lemma_run_head_step(head, reqs, j - 1);
        lemma_alloc_head_monotone(run_head_at(head, reqs, j - 1), reqs[j - 1]);
        lemma_run_head_prefix(head, reqs, i, j - 1);
    }
}

/// Every address served to a sized request in a run is aligned to what the
/// request asked, and so is the marker address of a zero-sized one.
pub proof fn lemma_run_addresses_aligned(head: nat, reqs: Seq<LayoutReq>)
    requires
        forall|i: int| 0 <= i < reqs.len() ==> req_wf(#[trigger] reqs[i]),
    ensures
        forall|i: int|
            0 <= i < reqs.len() ==> #[trigger] alloc_address(run_head_at(head, reqs, i), reqs[i])
                % reqs[i].align == 0,
{
    assert forall|i: int| 0 <= i < reqs.len() implies #[trigger] alloc_address(
        run_head_at(head, reqs, i),
        reqs[i],
    ) % reqs[i].align == 0 by {
        if reqs[i].size == 0 {
            assert(reqs[i].align % reqs[i].align == 0) by {
                lemma_round_up_idempotent(0, reqs[i].align);
                vstd::arithmetic::div_mod::lemma_mod_multiples_basic(1, reqs[i].align as int);
            }
        } else {
            lemma_round_up_aligned(run_head_at(head, reqs, i), reqs[i].align);
        }
    }
}

/// Two sized allocations of one run never overlap: the earlier one's region
/// ends at or before the later one's begins. A failure further on cannot
/// corrupt what was already served.
pub proof fn lemma_run_regions_disjoint(head: nat, reqs: Seq<LayoutReq>, i: int, j: int)
    requires
        forall|k: int| 0 <= k < reqs.len() ==> req_wf(#[trigger] reqs[k]),
        0 <= i < j < reqs.len(),
        reqs[i].size > 0,
        reqs[j].size > 0,
    ensures
        alloc_address(run_head_at(head, reqs, i), reqs[i]) + reqs[i].size <= alloc_address(
            run_head_at(head, reqs, j),
            reqs[j],
        ),
{
    lemma_run_head_step(head, reqs, i);
    lemma_run_head_prefix(head, reqs, i + 1, j);
    lemma_round_up_bounds(run_head_at(head, reqs, j), reqs[j].align);
}

} // verus!
