use vstd::prelude::*;
use std::collections::VecDeque;
use crate::ir::{Hir, Location, Mir};
use crate::window::{WindowRule, fold_pairs, rewrite_window};

verus! {

/// Merges adjacent increments, and adjacent cursor moves, by summing their
/// deltas (with two's-complement wrap-around).
pub struct ConstantFold;

/// Drops a load that follows a store of the same register to the same address.
pub struct RedundantLoad;

/// What two adjacent high-level instructions fold into, if anything.
pub open spec fn fold_hir(a: Hir, b: Hir) -> Option<Hir> {
    match (a, b) {
        (Hir::Inc(x), Hir::Inc(y)) => Some(Hir::Inc(vstd::wrapping::i32_specs::wrapping_add(x, y))),
        (Hir::Move(x), Hir::Move(y)) => Some(Hir::Move(vstd::wrapping::i32_specs::wrapping_add(x, y))),
        _ => None,
    }
}

/// A load of register `r` from `addr` right after a store of `r` to `addr`
/// is redundant: the pair reduces to the store.
pub open spec fn drop_load(a: Mir, b: Mir) -> Option<Mir> {
    match (a, b) {
        (Mir::Store(Location::Register(ra), x), Mir::Load(Location::Register(rb), y)) => {
            if ra == rb && x == y {
                Some(a)
            } else {
                None
            }
        },
        _ => None,
    }
}

impl WindowRule<Hir> for ConstantFold {
    open spec fn combine(&self, a: Hir, b: Hir) -> Option<Hir> {
        fold_hir(a, b)
    }

    fn merge(&self, window: &mut VecDeque<Hir>) {
        if window.len() < 2 {
            return;
        }
        let merged = match (window[0], window[1]) {
            (Hir::Inc(a), Hir::Inc(b)) => Hir::Inc(a.wrapping_add(b)),
            (Hir::Move(a), Hir::Move(b)) => Hir::Move(a.wrapping_add(b)),
            _ => {
                return;
            },
        };
        let ghost w = window@;
        window.pop_front();
        window.pop_front();
        window.push_front(merged);
        assert(window@ =~= seq![merged] + w.subrange(2, w.len() as int));
    }
}

impl WindowRule<Mir> for RedundantLoad {
    open spec fn combine(&self, a: Mir, b: Mir) -> Option<Mir> {
        drop_load(a, b)
    }

    fn merge(&self, window: &mut VecDeque<Mir>) {
        if window.len() < 2 {
            return;
        }
        let redundant = match (&window[0], &window[1]) {
            (Mir::Store(Location::Register(ra), x), Mir::Load(Location::Register(rb), y)) => {
                *ra == *rb && x.same_as(y)
            },
            _ => false,
        };
        if redundant {
            let ghost w = window@;
            window.remove(1);
            assert(window@ =~= seq![w[0]] + w.subrange(2, w.len() as int));
        }
    }
}

/// Collapses each run of adjacent `Inc`, and of adjacent `Move`, into one
/// instruction carrying the summed delta.
pub fn fold_constants(code: Vec<Hir>) -> (r: Vec<Hir>)
    ensures
        r@ == fold_pairs(ConstantFold, code@),
{
    rewrite_window(code, &ConstantFold)
}

/// Removes every load that re-reads what the same register just stored to
/// the same address.
pub fn remove_redundant_loads(code: Vec<Mir>) -> (r: Vec<Mir>)
    ensures
        r@ == fold_pairs(RedundantLoad, code@),
{
    rewrite_window(code, &RedundantLoad)
}

} // verus!
