use vstd::prelude::*;
use vstd::string::StringExecFns;
use crate::emit::{EmitError, asm_lines, mir_to_asm, texts};
use crate::filter::{filter_source, filtered, lemma_filtered_len};
use crate::ir::{Hir, Mir};
use crate::lower::{lower_asts, ast_to_ir, expand, lower_hir, lower_program};
use crate::parse::{ParseError, parse, parse_result};
use crate::peephole::{ConstantFold, RedundantLoad, fold_constants, remove_redundant_loads};
use crate::window::{WindowRule, fold_pairs, fold_step};

verus! {

/// The lines of a whole instruction sequence, or `None` where one
/// instruction cannot be rendered.
pub open spec fn emit_all(s: Seq<Mir>) -> Option<Seq<Seq<char>>>
    decreases s.len(),
{
    if s.len() == 0 {
        Some(seq![])
    } else {
        match (emit_all(s.drop_last()), asm_lines(s.last())) {
            (Some(a), Some(b)) => Some(a + b),
            _ => None,
        }
    }
}

/// The register / memory program for a flat high-level program: constants
/// folded, expanded, and redundant loads removed.
pub open spec fn program_mir(h: Seq<Hir>) -> Seq<Mir> {
    fold_pairs(RedundantLoad, expand(fold_pairs(ConstantFold, h)))
}

/// The fixed lines before the program: sections, entry label, and the cursor
/// set to the start of the tape.
pub open spec fn prelude_lines() -> Seq<Seq<char>> {
    seq![
        "        .text"@,
        "        .global main"@,
        "        .syntax unified"@,
        "main:   ldr r5, =tape"@,
    ]
}

/// The fixed lines after the program: the zeroed 30000-byte tape.
pub open spec fn postlude_lines() -> Seq<Seq<char>> {
    seq!["        .data"@, "tape:   .space 30000"@]
}

/// The fixed lines before the program.
pub fn prelude() -> (r: Vec<String>)
    ensures
        texts(r@) == prelude_lines(),
{
    let r = vec![
        String::from_str("        .text"),
        String::from_str("        .global main"),
        String::from_str("        .syntax unified"),
        String::from_str("main:   ldr r5, =tape"),
    ];
    assert(texts(r@) =~= prelude_lines());
    r
}

/// The fixed lines after the program.
pub fn postlude() -> (r: Vec<String>)
    ensures
        texts(r@) == postlude_lines(),
{
    let r = vec![String::from_str("        .data"), String::from_str("tape:   .space 30000")];
    assert(texts(r@) =~= postlude_lines());
    r
}

proof fn lemma_emit_all_none_sticks(s: Seq<Mir>, i: int, j: int)
    requires
        0 <= i <= j <= s.len(),
        emit_all(s.take(i)) is None,
    ensures
        emit_all(s.take(j)) is None,
    decreases j - i,
{
    if j > i {
        lemma_emit_all_none_sticks(s, i, j - 1);
        assert(s.take(j).drop_last() == s.take(j - 1));
    }
}

/// Renders a whole instruction sequence, failing on the first instruction
/// whose operands the emitter does not know.
pub fn emit_program(code: &Vec<Mir>) -> (r: Result<Vec<String>, EmitError>)
    ensures
        match r {
            Ok(lines) => emit_all(code@) == Some(texts(lines@)),
            Err(_) => emit_all(code@) is None,
        },
{
    let mut out: Vec<String> = Vec::new();
    let mut i: usize = 0;
    assert(texts(out@) =~= Seq::<Seq<char>>::empty());
    while i < code.len()
        invariant
            i <= code@.len(),
            emit_all(code@.take(i as int)) == Some(texts(out@)),
        decreases code.len() - i,
    {
        assert(code@.take(i + 1).drop_last() == code@.take(i as int));
        match mir_to_asm(&code[i]) {
            Ok(mut lines) => {
                let ghost before = out@;
                let ghost added = lines@;
                out.append(&mut lines);
                assert(texts(out@) =~= texts(before) + texts(added));
            },
            Err(e) => {
                proof {
                    lemma_emit_all_none_sticks(code@, i + 1, code@.len() as int);
                    assert(code@.take(code@.len() as int) == code@);
                }
                return Err(e);
            },
        }
        i = i + 1;
    }
    assert(code@.take(code@.len() as int) == code@);
    Ok(out)
}


/// Every instruction that lowering produces has operands the emitter knows.
proof fn lemma_lower_hir_renders(h: Hir)
    ensures
        forall|k: int| 0 <= k < lower_hir(h).len() ==> asm_lines(#[trigger] lower_hir(h)[k]) is Some,
{
}

proof fn lemma_expand_renders(s: Seq<Hir>)
    ensures
        forall|k: int|
            0 <= k < expand(s).len() ==> asm_lines(
                #[trigger] expand(s)[k],
            ) is Some,
    decreases s.len(),
{
    if s.len() > 0 {
        lemma_expand_renders(s.drop_last());
        lemma_lower_hir_renders(s.last());
        let a = expand(s.drop_last());
        let b = lower_hir(s.last());
        assert(expand(s) == a + b);
        assert forall|k: int| 0 <= k < (a + b).len() implies asm_lines(#[trigger] (a + b)[k]) is Some by {
            if k >= a.len() {
                assert((a + b)[k] == b[k - a.len()]);
            }
        }
    }
}

proof fn lemma_drop_loads_render(s: Seq<Mir>)
    requires
        forall|k: int| 0 <= k < s.len() ==> asm_lines(#[trigger] s[k]) is Some,
    ensures
        forall|k: int|
            0 <= k < fold_pairs(RedundantLoad, s).len() ==> asm_lines(
                #[trigger] fold_pairs(RedundantLoad, s)[k],
            ) is Some,
    decreases s.len(),
{
    if s.len() > 0 {
        lemma_drop_loads_render(s.drop_last());
        let acc = fold_pairs(RedundantLoad, s.drop_last());
        assert(asm_lines(s[s.len() - 1]) is Some);
        assert(fold_pairs(RedundantLoad, s) == fold_step(RedundantLoad, acc, s.last()));
        if acc.len() > 0 && RedundantLoad.combine(acc.last(), s.last()) is Some {
            assert(asm_lines(acc[acc.len() - 1]) is Some);
        }
    }
}

proof fn lemma_emit_all_some(s: Seq<Mir>)
    requires
        forall|k: int| 0 <= k < s.len() ==> asm_lines(#[trigger] s[k]) is Some,
    ensures
        emit_all(s) is Some,
    decreases s.len(),
{
    if s.len() > 0 {
        lemma_emit_all_some(s.drop_last());
        assert(asm_lines(s[s.len() - 1]) is Some);
    }
}

/// Every flat high-level program renders: no instruction of its register /
/// memory program has operands that the emitter does not know.
pub proof fn lemma_program_renders(h: Seq<Hir>)
    ensures
        emit_all(program_mir(h)) is Some,
{
    let folded = fold_pairs(ConstantFold, h);
    lemma_expand_renders(folded);
    lemma_drop_loads_render(expand(folded));
    lemma_emit_all_some(program_mir(h));
}

/// Compiles a source text to assembly lines: filter, parse, flatten, fold
/// constants, expand, remove redundant loads, render, and frame the result
/// with the fixed prelude and postlude. Fails exactly where the instruction
/// text does not parse; the error's position counts instruction characters
/// only.
pub fn compile(source: &Vec<char>) -> (r: Result<Vec<String>, ParseError>)
    requires
        source.len() < i32::MAX,
    ensures
        match parse_result(filtered(source@)) {
            Err(e) => r == Err::<Vec<String>, ParseError>(e),
            Ok(h) => r is Ok && texts(r->Ok_0@) == prelude_lines() + emit_all(program_mir(h)).unwrap()
                + postlude_lines(),
        },
{
    proof {
        lemma_filtered_len(source@);
    }
    let text = filter_source(source);
    let ast = match parse(&text) {
        Ok(ast) => ast,
        Err(e) => {
            return Err(e);
        },
    };
    let hir = ast_to_ir(&ast);
    let hir = fold_constants(hir);
    let mir = lower_program(&hir);
    let mir = remove_redundant_loads(mir);
    proof {
        lemma_program_renders(lower_asts(ast@));
    }
    let mut body = match emit_program(&mir) {
        Ok(lines) => lines,
        Err(_) => {
            assert(false);
            Vec::new()
        },
    };
    let mut out = prelude();
    let mut tail = postlude();
    let ghost (a, b, c) = (out@, body@, tail@);
    out.append(&mut body);
    out.append(&mut tail);
    assert(texts(out@) =~= texts(a) + texts(b) + texts(c));
    Ok(out)
}

} // verus!
