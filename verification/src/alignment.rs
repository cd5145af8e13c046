//! Alignment arithmetic for the bump cursor.
//!
//! Addresses handed out by the cursor are offsets into the arena's buffer,
//! measured from its start. Rounding an offset up to the next multiple of an
//! alignment is the one piece of arithmetic everything else leans on, so it
//! lives here together with the facts the allocation proofs need.

use vstd::prelude::*;
use vstd::arithmetic::div_mod::{
    lemma_fundamental_div_mod, lemma_mod_division_less_than_divisor, lemma_mod_multiples_basic,
};

verus! {

/// The smallest multiple of `align` that is at least `pos`.
pub open spec fn round_up(pos: nat, align: nat) -> nat
    recommends
        align >= 1,
{
    if pos % align == 0 {
        pos
    } else {
        (pos + align - pos % align) as nat
    }
}

/// Rounding lands on a multiple of the alignment.
pub proof fn lemma_round_up_aligned(pos: nat, align: nat)
    requires
        align >= 1,
    ensures
        round_up(pos, align) % align == 0,
{
    if pos % align != 0 {
        lemma_fundamental_div_mod(pos as int, align as int);
        let q = pos as int / align as int;
        assert(pos + align - pos % align == (q + 1) * align) by (nonlinear_arith)
            requires
                pos == align * q + pos % align,
                align >= 1,
        ;
        lemma_mod_multiples_basic(q + 1, align as int);
    }
}

/// Rounding never moves backwards, and overshoots by less than one alignment.
pub proof fn lemma_round_up_bounds(pos: nat, align: nat)
    requires
        align >= 1,
    ensures
        pos <= round_up(pos, align),
        round_up(pos, align) < pos + align,
{
    lemma_mod_division_less_than_divisor(pos as int, align as int);
}

/// A position already on a multiple of the alignment stays put.
pub proof fn lemma_round_up_idempotent(pos: nat, align: nat)
    requires
        align >= 1,
        pos % align == 0,
    ensures
        round_up(pos, align) == pos,
{
}

/// Rounds `pos` up to the next multiple of `align`, or reports that the
/// result would not fit in a `usize`.
pub fn checked_round_up(pos: usize, align: usize) -> (r: Option<usize>)
    requires
        align >= 1,
    ensures
        match r {
            Some(v) => v == round_up(pos as nat, align as nat),
            None => round_up(pos as nat, align as nat) > usize::MAX,
        },
{
    let rem = pos % align;
    if rem == 0 {
        Some(pos)
    } else {
        pos.checked_add(align - rem)
    }
}

} // verus!
