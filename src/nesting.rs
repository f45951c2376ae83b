use vstd::prelude::*;
use crate::ir::{Ast, Hir};
use crate::lower::{lower_asts, lower_from};
use crate::parse::{ParseError, parse_result, scan, scan_step};

verus! {

/// How many times `c` occurs in `t`.
pub open spec fn count_char(t: Seq<char>, c: char) -> nat
    decreases t.len(),
{
    if t.len() == 0 {
        0
    } else {
        count_char(t.drop_last(), c) + if t.last() == c { 1nat } else { 0nat }
    }
}

/// How many `Block` nodes the nodes `s[i..]` hold, nested ones included.
pub open spec fn blocks_from(s: Seq<Ast>, i: int) -> nat
    decreases s, s.len() - i,
{
    if i < 0 || i >= s.len() {
        0
    } else {
        let head: nat = match s[i] {
            Ast::Block(_, body) => 1 + blocks_from(body@, 0),
            _ => 0,
        };
        head + blocks_from(s, i + 1)
    }
}

/// How many `Block` nodes a tree holds, nested ones included.
pub open spec fn count_blocks(s: Seq<Ast>) -> nat {
    blocks_from(s, 0)
}

/// The ids of the `Open` markers of `h`, in order.
pub open spec fn open_ids(h: Seq<Hir>) -> Seq<i32>
    decreases h.len(),
{
    if h.len() == 0 {
        seq![]
    } else {
        match h.last() {
            Hir::Open(id) => open_ids(h.drop_last()).push(id),
            _ => open_ids(h.drop_last()),
        }
    }
}

/// The ids of the blocks open after `h`, innermost last, when `st` were
/// open before it; `None` where a `Close` does not match the innermost open
/// block.
pub open spec fn open_stack_from(st: Seq<i32>, h: Seq<Hir>) -> Option<Seq<i32>>
    decreases h.len(),
{
    if h.len() == 0 {
        Some(st)
    } else {
        match open_stack_from(st, h.drop_last()) {
            None => None,
            Some(s) => match h.last() {
                Hir::Open(id) => Some(s.push(id)),
                Hir::Close(id) => if s.len() > 0 && s.last() == id {
                    Some(s.drop_last())
                } else {
                    None
                },
                _ => Some(s),
            },
        }
    }
}

/// The ids of the blocks still open after `h`, innermost last; `None` where
/// a `Close` does not match the innermost open block.
pub open spec fn open_stack(h: Seq<Hir>) -> Option<Seq<i32>> {
    open_stack_from(seq![], h)
}

/// `h` is well nested: each `Close` closes the innermost open block, with
/// its id; no block is left open; and no id is opened twice. So each id has
/// one `Open`, followed later by one `Close`, and no two blocks' ranges
/// partly overlap.
pub open spec fn balanced(h: Seq<Hir>) -> bool {
    &&& open_stack(h) == Some(Seq::<i32>::empty())
    &&& open_ids(h).no_duplicates()
}

/// The ids `0, 1, ..., n - 1`.
pub open spec fn first_ids(n: nat) -> Seq<i32> {
    Seq::new(n, |k: int| k as i32)
}

proof fn lemma_open_ids_append(a: Seq<Hir>, b: Seq<Hir>)
    ensures
        open_ids(a + b) == open_ids(a) + open_ids(b),
    decreases b.len(),
{
    if b.len() == 0 {
        assert(a + b == a);
        assert(open_ids(a) + open_ids(b) == open_ids(a));
    } else {
        lemma_open_ids_append(a, b.drop_last());
        assert((a + b).drop_last() == a + b.drop_last());
        assert((a + b).last() == b.last());
        match b.last() {
            Hir::Open(id) => {
                assert(open_ids(a) + open_ids(b.drop_last()).push(id) == (open_ids(a) + open_ids(
                    b.drop_last(),
                )).push(id));
            },
            _ => {},
        }
    }
}

proof fn lemma_blocks_from(s: Seq<Ast>, i: int)
    requires
        0 <= i <= s.len(),
    ensures
        blocks_from(s, i) == open_ids(lower_from(s, i)).len(),
    decreases s, s.len() - i,
{
    if i < s.len() {
        lemma_blocks_from(s, i + 1);
        let rest = lower_from(s, i + 1);
        match s[i] {
            Ast::Block(id, body) => {
                lemma_blocks_from(body@, 0);
                let inner = lower_from(body@, 0);
                lemma_open_ids_append(seq![Hir::Open(id)] + inner + seq![Hir::Close(id)], rest);
                lemma_open_ids_append(seq![Hir::Open(id)] + inner, seq![Hir::Close(id)]);
                lemma_open_ids_append(seq![Hir::Open(id)], inner);
                assert(seq![Hir::Open(id)].drop_last() == Seq::<Hir>::empty());
                assert(seq![Hir::Close(id)].drop_last() == Seq::<Hir>::empty());
                assert(open_ids(Seq::<Hir>::empty()) == Seq::<i32>::empty());
                assert(open_ids(seq![Hir::Open(id)]) == seq![id]);
                assert(open_ids(seq![Hir::Close(id)]) == Seq::<i32>::empty());
            },
            _ => {
                let head = lower_from(s, i).take(1);
                assert(lower_from(s, i) == head + rest);
                lemma_open_ids_append(head, rest);
                assert(head.drop_last() == Seq::<Hir>::empty());
                assert(!(head.last() is Open));
                assert(open_ids(head.drop_last()) == Seq::<i32>::empty());
                assert(open_ids(head) == Seq::<i32>::empty());
                assert(blocks_from(s, i) == blocks_from(s, i + 1));
            },
        }
    } else {
        assert(lower_from(s, i) == Seq::<Hir>::empty());
    }
}


/// The ids of the blocks open in a scan state, innermost last.
pub open spec fn open_id_stack(open: Seq<(int, int)>) -> Seq<i32> {
    open.map_values(|e: (int, int)| e.0 as i32)
}

proof fn lemma_scan_facts(t: Seq<char>, n: int)
    requires
        0 <= n <= t.len(),
        t.len() < i32::MAX,
        scan(t, n).error is None,
    ensures
        scan(t, n).next == count_char(t.take(n), '['),
        scan(t, n).next <= n,
        scan(t, n).open.len() + count_char(t.take(n), ']') == count_char(t.take(n), '['),
        open_ids(scan(t, n).hir) == first_ids(scan(t, n).next as nat),
        open_stack(scan(t, n).hir) == Some(open_id_stack(scan(t, n).open)),
    decreases n,
{
    if n == 0 {
        assert(t.take(0) == Seq::<char>::empty());
        assert(first_ids(0) == Seq::<i32>::empty());
        assert(open_id_stack(Seq::<(int, int)>::empty()) == Seq::<i32>::empty());
    } else {
        let prev = scan(t, n - 1);
        if prev.error is Some {
            crate::parse::lemma_scan_error_sticks(t, n - 1, n);
        }
        lemma_scan_facts(t, n - 1);
        let c = t[n - 1];
        let st = scan(t, n);
        assert(st == scan_step(prev, c, n - 1));
        assert(t.take(n).drop_last() == t.take(n - 1));
        assert(t.take(n).last() == c);
        if c == '[' {
            assert(st.hir.drop_last() == prev.hir);
            assert(first_ids(prev.next as nat).push(prev.next as i32) == first_ids(st.next as nat));
            assert(open_id_stack(prev.open).push(prev.next as i32) == open_id_stack(st.open));
        } else if c == ']' {
            assert(st.hir.drop_last() == prev.hir);
            assert(open_id_stack(prev.open).drop_last() == open_id_stack(st.open));
        } else {
            assert(st.hir.drop_last() == prev.hir);
        }
    }
}

/// Parsing a well-bracketed text makes one `Block` per bracket pair, and
/// numbers the blocks 0, 1, 2, ... in the order in which they open.
pub proof fn lemma_parse_blocks(t: Seq<char>, ast: Seq<Ast>)
    requires
        t.len() < i32::MAX,
        parse_result(t) == Ok::<Seq<Hir>, ParseError>(lower_asts(ast)),
    ensures
        count_char(t, '[') == count_char(t, ']'),
        count_blocks(ast) == count_char(t, '['),
        open_ids(lower_asts(ast)) == first_ids(count_char(t, '[')),
{
    lemma_scan_facts(t, t.len() as int);
    assert(t.take(t.len() as int) == t);
    lemma_blocks_from(ast, 0);
}

/// The flat image of every tree that parsing yields is balanced.
pub proof fn lemma_parse_balanced(t: Seq<char>, ast: Seq<Ast>)
    requires
        t.len() < i32::MAX,
        parse_result(t) == Ok::<Seq<Hir>, ParseError>(lower_asts(ast)),
    ensures
        balanced(lower_asts(ast)),
{
    let n = t.len() as int;
    lemma_scan_facts(t, n);
    let st = scan(t, n);
    assert(open_id_stack(st.open) == Seq::<i32>::empty());
    let ids = first_ids(st.next as nat);
    assert forall|a: int, b: int| 0 <= a < ids.len() && 0 <= b < ids.len() && a != b implies ids[a]
        != ids[b] by {}
}


proof fn lemma_open_stack_append(st: Seq<i32>, a: Seq<Hir>, b: Seq<Hir>)
    ensures
        open_stack_from(st, a + b) == match open_stack_from(st, a) {
            Some(s) => open_stack_from(s, b),
            None => None,
        },
    decreases b.len(),
{
    if b.len() == 0 {
        assert(a + b == a);
    } else {
        lemma_open_stack_append(st, a, b.drop_last());
        assert((a + b).drop_last() == a + b.drop_last());
        assert((a + b).last() == b.last());
    }
}

proof fn lemma_lower_from_nested(st: Seq<i32>, s: Seq<Ast>, i: int)
    requires
        0 <= i <= s.len(),
    ensures
        open_stack_from(st, lower_from(s, i)) == Some(st),
    decreases s, s.len() - i,
{
    if i < s.len() {
        lemma_lower_from_nested(st, s, i + 1);
        let rest = lower_from(s, i + 1);
        match s[i] {
            Ast::Block(id, body) => {
                let inner = lower_from(body@, 0);
                lemma_lower_from_nested(st.push(id), body@, 0);
                let open = seq![Hir::Open(id)];
                let close = seq![Hir::Close(id)];
                assert(open.drop_last() == Seq::<Hir>::empty());
                assert(close.drop_last() == Seq::<Hir>::empty());
                assert(open_stack_from(st, open.drop_last()) == Some(st));
                assert(open.last() == Hir::Open(id));
                assert(open_stack_from(st, open) == Some(st.push(id)));
                lemma_open_stack_append(st, open, inner);
                lemma_open_stack_append(st, open + inner, close);
                assert(open_stack_from(st.push(id), close.drop_last()) == Some(st.push(id)));
                assert(close.last() == Hir::Close(id));
                assert(st.push(id).drop_last() == st);
                assert(open_stack_from(st.push(id), close) == Some(st));
                lemma_open_stack_append(st, open + inner + close, rest);
            },
            _ => {
                let head = lower_from(s, i).take(1);
                assert(lower_from(s, i) == head + rest);
                assert(head.drop_last() == Seq::<Hir>::empty());
                assert(open_stack_from(st, head.drop_last()) == Some(st));
                assert(!(head.last() is Open) && !(head.last() is Close));
                assert(open_stack_from(st, head) == Some(st));
                lemma_open_stack_append(st, head, rest);
            },
        }
    } else {
        assert(lower_from(s, i) == Seq::<Hir>::empty());
    }
}

/// The flat image of every tree is stack-consistent: each `Close` closes the
/// innermost open block, with its id, and every block opened is closed.
pub proof fn lemma_lowering_nested(s: Seq<Ast>)
    ensures
        open_stack(lower_asts(s)) == Some(Seq::<i32>::empty()),
{
    lemma_lower_from_nested(seq![], s, 0);
}

} // verus!
