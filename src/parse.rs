use vstd::prelude::*;
use crate::ir::{Ast, Hir};
use crate::lower::{lower_asts, lower_from};

verus! {

/// Why a source text could not be parsed; each carries a character position.
#[derive(Clone, Copy, Debug, PartialEq, Eq, Structural)]
pub enum ParseError {
    /// A `]` with no open block.
    UnmatchedClose(usize),
    /// A `[` that is still open when the text ends (the innermost such).
    UnmatchedOpen(usize),
    /// A character outside the instruction alphabet.
    UnexpectedChar(usize),
}

/// The state of a left-to-right reading of a source text: the flat
/// instructions read so far, the blocks still open (id and position of the
/// `[`), the next block id, and the first error met.
pub struct ScanState {
    pub hir: Seq<Hir>,
    pub open: Seq<(int, int)>,
    pub next: int,
    pub error: Option<ParseError>,
}

/// Reads the character `c` at position `p`.
pub open spec fn scan_step(st: ScanState, c: char, p: int) -> ScanState {
    if st.error is Some {
        st
    } else if c == '<' {
        ScanState { hir: st.hir.push(Hir::Move(-1i32)), ..st }
    } else if c == '>' {
        ScanState { hir: st.hir.push(Hir::Move(1i32)), ..st }
    } else if c == '-' {
        ScanState { hir: st.hir.push(Hir::Inc(-1i32)), ..st }
    } else if c == '+' {
        ScanState { hir: st.hir.push(Hir::Inc(1i32)), ..st }
    } else if c == ',' {
        ScanState { hir: st.hir.push(Hir::Read), ..st }
    } else if c == '.' {
        ScanState { hir: st.hir.push(Hir::Write), ..st }
    } else if c == '[' {
        ScanState {
            hir: st.hir.push(Hir::Open(st.next as i32)),
            open: st.open.push((st.next, p)),
            next: st.next + 1,
            error: None,
        }
    } else if c == ']' {
        if st.open.len() == 0 {
            ScanState { error: Some(ParseError::UnmatchedClose(p as usize)), ..st }
        } else {
            ScanState {
                hir: st.hir.push(Hir::Close(st.open.last().0 as i32)),
                open: st.open.drop_last(),
                ..st
            }
        }
    } else {
        ScanState { error: Some(ParseError::UnexpectedChar(p as usize)), ..st }
    }
}

/// The state after reading the first `n` characters of `t`.
pub open spec fn scan(t: Seq<char>, n: int) -> ScanState
    decreases n,
{
    if n <= 0 {
        ScanState { hir: seq![], open: seq![], next: 0, error: None }
    } else {
        scan_step(scan(t, n - 1), t[n - 1], n - 1)
    }
}

/// What parsing `t` yields, given as the flat image of the tree: blocks are
/// numbered from 0 in the order of their `[`, and every bracket must be matched.
pub open spec fn parse_result(t: Seq<char>) -> Result<Seq<Hir>, ParseError> {
    let st = scan(t, t.len() as int);
    if st.error is Some {
        Err(st.error.unwrap())
    } else if st.open.len() > 0 {
        Err(ParseError::UnmatchedOpen(st.open.last().1 as usize))
    } else {
        Ok(st.hir)
    }
}

/// The flat image of the enclosing levels kept while a block is parsed:
/// for each level, the nodes before the block, then the block's `Open`.
pub open spec fn frames_image(s: Seq<(i32, usize, Vec<Ast>)>) -> Seq<Hir>
    decreases s.len(),
{
    if s.len() == 0 {
        seq![]
    } else {
        frames_image(s.drop_last()) + lower_asts(s.last().2@) + seq![Hir::Open(s.last().0)]
    }
}

proof fn lemma_lower_push_from(s: Seq<Ast>, x: Ast, i: int)
    requires
        0 <= i <= s.len(),
    ensures
        lower_from(s.push(x), i) == lower_from(s, i) + lower_asts(seq![x]),
    decreases s.len() - i,
{
    if i == s.len() {
        assert(lower_from(seq![x], 1) == Seq::<Hir>::empty());
        assert(lower_from(s.push(x), i + 1) == Seq::<Hir>::empty());
        assert(lower_from(s, i) == Seq::<Hir>::empty());
        assert(s.push(x)[i] == seq![x][0]);
    } else {
        lemma_lower_push_from(s, x, i + 1);
        assert(s.push(x)[i] == s[i]);
    }
}

/// Appending a node appends its image.
pub proof fn lemma_lower_push(s: Seq<Ast>, x: Ast)
    ensures
        lower_asts(s.push(x)) == lower_asts(s) + lower_asts(seq![x]),
{
    lemma_lower_push_from(s, x, 0);
}

/// The image of a single block node.
pub proof fn lemma_lower_block(id: i32, body: Vec<Ast>)
    ensures
        lower_asts(seq![Ast::Block(id, body)])
            == seq![Hir::Open(id)] + lower_asts(body@) + seq![Hir::Close(id)],
{
    let s = seq![Ast::Block(id, body)];
    assert(lower_from(s, 1) == Seq::<Hir>::empty());
    assert(seq![Hir::Open(id)] + lower_asts(body@) + seq![Hir::Close(id)] + Seq::<Hir>::empty()
        == seq![Hir::Open(id)] + lower_asts(body@) + seq![Hir::Close(id)]);
}


/// Once an error is met, reading further keeps it.
pub proof fn lemma_scan_error_sticks(t: Seq<char>, n: int, m: int)
    requires
        0 <= n <= m,
        scan(t, n).error is Some,
    ensures
        scan(t, m).error == scan(t, n).error,
    decreases m - n,
{
    if m > n {
        lemma_scan_error_sticks(t, n, m - 1);
    }
}

/// Parses an instruction text into a syntax tree, numbering blocks from 0 in
/// the order of their `[`. Unmatched brackets and characters outside the
/// alphabet are rejected.
pub fn parse(text: &Vec<char>) -> (r: Result<Vec<Ast>, ParseError>)
    requires
        text.len() < i32::MAX,
    ensures
        match r {
            Ok(ast) => parse_result(text@) == Ok::<Seq<Hir>, ParseError>(lower_asts(ast@)),
            Err(e) => parse_result(text@) == Err::<Seq<Hir>, ParseError>(e),
        },
{
    let mut cur: Vec<Ast> = Vec::new();
    let mut stack: Vec<(i32, usize, Vec<Ast>)> = Vec::new();
    let mut next: i32 = 0;
    let mut i: usize = 0;
    while i < text.len()
        invariant
            i <= text.len(),
            text.len() < i32::MAX,
            0 <= next <= i,
            scan(text@, i as int).error is None,
            scan(text@, i as int).next == next as int,
            scan(text@, i as int).open.len() == stack@.len(),
            forall|k: int|
                0 <= k < stack@.len() ==> #[trigger] scan(text@, i as int).open[k] == (
                stack@[k].0 as int,
                stack@[k].1 as int,
            ),
            scan(text@, i as int).hir == frames_image(stack@) + lower_asts(cur@),
        decreases text.len() - i,
    {
        let c = text[i];
        let ghost st = scan(text@, i as int);
        assert(scan(text@, i + 1) == scan_step(st, c, i as int));
        if c == '[' {
            let ghost old_stack = stack@;
            let ghost old_cur = cur@;
            let parent = cur;
            cur = Vec::new();
            stack.push((next, i, parent));
            proof {
                assert(stack@.drop_last() == old_stack);
                assert(cur@ == Seq::<Ast>::empty());
                assert(lower_asts(cur@) == Seq::<Hir>::empty());
                assert(frames_image(stack@) + lower_asts(cur@) == frames_image(stack@));
            }
            next = next + 1;
        } else if c == ']' {
            if stack.len() == 0 {
                proof { lemma_scan_error_sticks(text@, i + 1, text.len() as int); }
                return Err(ParseError::UnmatchedClose(i));
            }
            let ghost old_stack = stack@;
            let (id, _pos, mut parent) = stack.pop().unwrap();
            let ghost pre = parent@;
            let body = cur;
            parent.push(Ast::Block(id, body));
            proof {
                lemma_lower_push(pre, Ast::Block(id, body));
                lemma_lower_block(id, body);
                assert(old_stack.drop_last() == stack@);
                assert(st.open.last() == (id as int, old_stack.last().1 as int));
            }
            cur = parent;
        } else {
            let node = if c == '<' {
                Ast::Move(-1)
            } else if c == '>' {
                Ast::Move(1)
            } else if c == '-' {
                Ast::Inc(-1)
            } else if c == '+' {
                Ast::Inc(1)
            } else if c == ',' {
                Ast::Read
            } else if c == '.' {
                Ast::Write
            } else {
                proof { lemma_scan_error_sticks(text@, i + 1, text.len() as int); }
                return Err(ParseError::UnexpectedChar(i));
            };
            let ghost pre = cur@;
            cur.push(node);
            proof {
                lemma_lower_push(pre, node);
                assert(lower_from(seq![node], 1) == Seq::<Hir>::empty());
            }
        }
        i = i + 1;
    }
    if stack.len() > 0 {
        let k = stack.len() - 1;
        return Err(ParseError::UnmatchedOpen(stack[k].1));
    }
    proof {
        assert(stack@ == Seq::<(i32, usize, Vec<Ast>)>::empty());
        assert(frames_image(stack@) + lower_asts(cur@) == lower_asts(cur@));
    }
    Ok(cur)
}

} // verus!
