use vstd::prelude::*;
use std::collections::VecDeque;

verus! {

/// How many pending elements the rewriter holds at most.
pub const WINDOW: usize = 2;

/// A rewrite rule over the two oldest elements of a window.
pub trait WindowRule<T> {
    /// What two adjacent elements become: `Some(m)` when they merge into the
    /// single element `m`, `None` when both stay as they are.
    spec fn combine(&self, a: T, b: T) -> Option<T>;

    /// Rewrites the window in place: where it holds two or more elements and
    /// the two oldest merge, they are replaced by the merged one; otherwise
    /// the window is left as it is.
    fn merge(&self, window: &mut VecDeque<T>)
        ensures
            ({
                let w = old(window)@;
                if w.len() >= 2 && self.combine(w[0], w[1]) is Some {
                    final(window)@ == seq![self.combine(w[0], w[1]).unwrap()] + w.subrange(2, w.len() as int)
                } else {
                    final(window)@ == w
                }
            }),
    ;
}

/// Adds `x` after the already rewritten `acc`: it merges with the last
/// element of `acc` where the rule says so, and is appended otherwise.
pub open spec fn fold_step<T, R: WindowRule<T>>(rule: R, acc: Seq<T>, x: T) -> Seq<T> {
    if acc.len() > 0 && rule.combine(acc.last(), x) is Some {
        acc.drop_last().push(rule.combine(acc.last(), x).unwrap())
    } else {
        acc.push(x)
    }
}

/// The sequence `s` rewritten by `rule`: every adjacent pair of the
/// (already merged) stream is offered to the rule, from left to right.
pub open spec fn fold_pairs<T, R: WindowRule<T>>(rule: R, s: Seq<T>) -> Seq<T>
    decreases s.len(),
{
    if s.len() == 0 {
        seq![]
    } else {
        fold_step(rule, fold_pairs(rule, s.drop_last()), s.last())
    }
}

/// Pulls the next upstream element (the last one of `upstream`) into the
/// window and lets the rule merge.
fn pull_next<T, R: WindowRule<T>>(
    rule: &R,
    upstream: &mut Vec<T>,
    window: &mut VecDeque<T>,
    out: &Vec<T>,
    Ghost(items): Ghost<Seq<T>>,
)
    requires
        old(upstream)@.len() > 0,
        old(window)@.len() <= 1,
        old(window)@.len() == 0 ==> out@.len() == 0,
        old(upstream)@.len() <= items.len(),
        forall|k: int|
            0 <= k < old(upstream)@.len() ==> #[trigger] old(upstream)@[k] == items[items.len() - 1 - k],
        out@ + old(window)@ == fold_pairs(
            *rule,
            items.take(items.len() - old(upstream)@.len()),
        ),
    ensures
        final(upstream)@ == old(upstream)@.drop_last(),
        1 <= final(window)@.len() <= 2,
        final(window)@.len() <= old(window)@.len() + 1,
        final(window)@.len() == 2 ==> rule.combine(final(window)@[0], final(window)@[1]) is None,
        out@ + final(window)@ == fold_pairs(*rule, items.take(items.len() - final(upstream)@.len())),
{
    let ghost c = items.len() - upstream@.len();
    let ghost acc = out@ + window@;
    let x = upstream.pop().unwrap();
    assert(items.take(c + 1).drop_last() == items.take(c));
    assert(items.take(c + 1).last() == x);
    window.push_back(x);
    let ghost w = window@;
    rule.merge(window);
    proof {
        if w.len() == 2 {
            assert(acc.last() == w[0]);
            if rule.combine(w[0], w[1]) is Some {
                assert(acc.drop_last() == out@);
                assert(w.subrange(2, 2) == Seq::<T>::empty());
            } else {
                assert(acc.push(x) == out@ + window@);
            }
        } else {
            assert(acc == Seq::<T>::empty());
        }
    }
}

/// Runs the sliding-window rewriter over `items`: before each output the
/// window is refilled up to `WINDOW` elements, merging after each admission;
/// then the oldest element is emitted, one more is admitted, and the rule
/// runs again. The result is the stream rewritten pair by pair.
pub fn rewrite_window<T, R: WindowRule<T>>(items: Vec<T>, rule: &R) -> (r: Vec<T>)
    ensures
        r@ == fold_pairs(*rule, items@),
{
    let ghost all = items@;
    let mut items = items;
    let mut upstream: Vec<T> = Vec::new();
    while items.len() > 0
        invariant
            items@.len() + upstream@.len() == all.len(),
            forall|k: int| 0 <= k < items@.len() ==> #[trigger] items@[k] == all[k],
            forall|k: int|
                0 <= k < upstream@.len() ==> #[trigger] upstream@[k] == all[all.len() - 1 - k],
        decreases items.len(),
    {
        let x = items.pop().unwrap();
        upstream.push(x);
    }
    let mut window: VecDeque<T> = VecDeque::new();
    let mut out: Vec<T> = Vec::new();
    assert(all.take(0) == Seq::<T>::empty());
    loop
        invariant
            upstream@.len() <= all.len(),
            forall|k: int|
                0 <= k < upstream@.len() ==> #[trigger] upstream@[k] == all[all.len() - 1 - k],
            window@.len() <= 2,
            window@.len() == 2 ==> rule.combine(window@[0], window@[1]) is None,
            window@.len() == 0 ==> out@.len() == 0 || upstream@.len() == 0,
            out@ + window@ == fold_pairs(*rule, all.take(all.len() - upstream@.len())),
        ensures
            out@ == fold_pairs(*rule, all),
        decreases upstream@.len() + window@.len(),
    {
        let ghost total = upstream@.len() + window@.len();
        while window.len() < WINDOW && upstream.len() > 0
            invariant
                upstream@.len() <= all.len(),
                forall|k: int|
                    0 <= k < upstream@.len() ==> #[trigger] upstream@[k] == all[all.len() - 1 - k],
                window@.len() <= 2,
                window@.len() == 2 ==> rule.combine(window@[0], window@[1]) is None,
                window@.len() == 0 ==> out@.len() == 0 || upstream@.len() == 0,
                upstream@.len() + window@.len() <= total,
                out@ + window@ == fold_pairs(*rule, all.take(all.len() - upstream@.len())),
            decreases upstream@.len(),
        {
            pull_next(rule, &mut upstream, &mut window, &out, Ghost(all));
        }
        let ghost before = out@ + window@;
        match window.pop_front() {
            None => {
                assert(upstream@.len() == 0);
                assert(all.take(all.len() as int) == all);
                assert(out@ =~= out@ + window@);
                break;
            },
            Some(x) => {
                out.push(x);
                assert(out@ + window@ =~= before);
            },
        }
        if upstream.len() > 0 {
            pull_next(rule, &mut upstream, &mut window, &out, Ghost(all));
        }
        rule.merge(&mut window);
    }
    out
}

} // verus!
