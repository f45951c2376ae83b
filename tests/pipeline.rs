use bfc::emit::{mir_to_asm, EmitError};
use bfc::filter::{filter_source, is_bf_char};
use bfc::ir::{Ast, Hir, LabelKind, Location, Mir};
use bfc::lower::{ast_to_ir, hir_to_mir, lower_program};
use bfc::parse::{parse, ParseError};
use bfc::peephole::{fold_constants, remove_redundant_loads};
use bfc::pipeline::{compile, emit_program, postlude, prelude};

fn chars(s: &str) -> Vec<char> {
    s.chars().collect()
}

fn cell() -> Location {
    Location::Indirect(Box::new(Location::Register(5)))
}

fn reg(n: i32) -> Location {
    Location::Register(n)
}

fn lines(v: &[&str]) -> Vec<String> {
    v.iter().map(|s| s.to_string()).collect()
}

#[test]
fn alphabet_is_recognised() {
    for c in "<>+-[],.".chars() {
        assert!(is_bf_char(&c));
    }
    for c in "abc 0\n#".chars() {
        assert!(!is_bf_char(&c));
    }
}

#[test]
fn filter_drops_comments() {
    let out = filter_source(&chars("add one: + then print . [loop-]"));
    assert_eq!(out, chars("+.[-]"));
}

#[test]
fn filter_is_idempotent() {
    let once = filter_source(&chars("a+b-c[d]e<f>g,h.i"));
    let twice = filter_source(&once);
    assert_eq!(once, twice);
    assert_eq!(once, chars("+-[]<>,."));
}

#[test]
fn filter_of_empty_is_empty() {
    assert_eq!(filter_source(&Vec::new()), Vec::<char>::new());
}

#[test]
fn parse_leaves() {
    let ast = parse(&chars("<>-+,.")).unwrap();
    assert_eq!(
        ast,
        vec![Ast::Move(-1), Ast::Move(1), Ast::Inc(-1), Ast::Inc(1), Ast::Read, Ast::Write]
    );
}

#[test]
fn parse_numbers_blocks_in_opening_order() {
    let ast = parse(&chars("[[+]>[-]]<[.]")).unwrap();
    assert_eq!(
        ast,
        vec![
            Ast::Block(
                0,
                vec![
                    Ast::Block(1, vec![Ast::Inc(1)]),
                    Ast::Move(1),
                    Ast::Block(2, vec![Ast::Inc(-1)]),
                ]
            ),
            Ast::Move(-1),
            Ast::Block(3, vec![Ast::Write]),
        ]
    );
}

#[test]
fn parse_empty_text() {
    assert_eq!(parse(&Vec::new()).unwrap(), Vec::<Ast>::new());
}

#[test]
fn parse_rejects_unmatched_close() {
    assert_eq!(parse(&chars("+]")), Err(ParseError::UnmatchedClose(1)));
    assert_eq!(parse(&chars("[]]+[")), Err(ParseError::UnmatchedClose(2)));
}

#[test]
fn parse_rejects_unmatched_open() {
    assert_eq!(parse(&chars("[+")), Err(ParseError::UnmatchedOpen(0)));
    assert_eq!(parse(&chars("[[]+[")), Err(ParseError::UnmatchedOpen(4)));
}

#[test]
fn parse_rejects_foreign_character() {
    assert_eq!(parse(&chars("+x")), Err(ParseError::UnexpectedChar(1)));
}

#[test]
fn lowering_is_balanced() {
    let ast = parse(&chars("[[]+[-]]")).unwrap();
    let hir = ast_to_ir(&ast);
    assert_eq!(
        hir,
        vec![
            Hir::Open(0),
            Hir::Open(1),
            Hir::Close(1),
            Hir::Inc(1),
            Hir::Open(2),
            Hir::Inc(-1),
            Hir::Close(2),
            Hir::Close(0),
        ]
    );
}

#[test]
fn loop_lowers_to_open_body_close() {
    let ast = parse(&chars("[-]")).unwrap();
    let hir = ast_to_ir(&ast);
    assert_eq!(hir, vec![Hir::Open(0), Hir::Inc(-1), Hir::Close(0)]);
    let mir = remove_redundant_loads(lower_program(&fold_constants(hir)));
    assert_eq!(
        mir,
        vec![
            Mir::Load(reg(1), cell()),
            Mir::BranchZero(1, 0),
            Mir::Label(LabelKind::Start(0)),
            Mir::Load(reg(1), cell()),
            Mir::Inc(1, Location::Immediate(-1)),
            Mir::Store(reg(1), cell()),
            Mir::BranchNonZero(1, 0),
            Mir::Label(LabelKind::End(0)),
        ]
    );
}

#[test]
fn fold_merges_a_run_of_increments() {
    let out = fold_constants(vec![Hir::Inc(1), Hir::Inc(1), Hir::Inc(1)]);
    assert_eq!(out, vec![Hir::Inc(3)]);
}

#[test]
fn fold_keeps_different_kinds_apart() {
    let out = fold_constants(vec![Hir::Move(1), Hir::Inc(1)]);
    assert_eq!(out, vec![Hir::Move(1), Hir::Inc(1)]);
}

#[test]
fn fold_keeps_non_adjacent_apart() {
    let out = fold_constants(vec![Hir::Inc(1), Hir::Move(1), Hir::Inc(1)]);
    assert_eq!(out, vec![Hir::Inc(1), Hir::Move(1), Hir::Inc(1)]);
}

#[test]
fn fold_sums_moves_and_keeps_zero() {
    let out = fold_constants(vec![Hir::Move(2), Hir::Move(-2), Hir::Open(0), Hir::Inc(5), Hir::Inc(-1)]);
    assert_eq!(out, vec![Hir::Move(0), Hir::Open(0), Hir::Inc(4)]);
}

#[test]
fn fold_wraps_around() {
    let out = fold_constants(vec![Hir::Inc(i32::MAX), Hir::Inc(1)]);
    assert_eq!(out, vec![Hir::Inc(i32::MIN)]);
}

#[test]
fn fold_of_empty_is_empty() {
    assert_eq!(fold_constants(Vec::new()), Vec::<Hir>::new());
}

#[test]
fn redundant_load_is_dropped() {
    let out = remove_redundant_loads(vec![Mir::Store(reg(1), cell()), Mir::Load(reg(1), cell())]);
    assert_eq!(out, vec![Mir::Store(reg(1), cell())]);
}

#[test]
fn load_of_other_register_stays() {
    let input = vec![Mir::Store(reg(1), cell()), Mir::Load(reg(2), cell())];
    let out = remove_redundant_loads(input);
    assert_eq!(out, vec![Mir::Store(reg(1), cell()), Mir::Load(reg(2), cell())]);
}

#[test]
fn load_from_other_address_stays() {
    let other = Location::Indirect(Box::new(Location::Register(6)));
    let out = remove_redundant_loads(vec![Mir::Store(reg(1), cell()), Mir::Load(reg(1), other)]);
    assert_eq!(
        out,
        vec![Mir::Store(reg(1), cell()), Mir::Load(reg(1), Location::Indirect(Box::new(Location::Register(6))))]
    );
}

#[test]
fn repeated_loads_after_store_are_dropped() {
    let out = remove_redundant_loads(vec![
        Mir::Store(reg(1), cell()),
        Mir::Load(reg(1), cell()),
        Mir::Load(reg(1), cell()),
        Mir::Syscall,
    ]);
    assert_eq!(out, vec![Mir::Store(reg(1), cell()), Mir::Syscall]);
}

#[test]
fn lowering_of_each_instruction() {
    assert_eq!(hir_to_mir(&Hir::Move(-3)), vec![Mir::Inc(5, Location::Immediate(-3))]);
    assert_eq!(
        hir_to_mir(&Hir::Read),
        vec![
            Mir::Move(7, Location::Immediate(3)),
            Mir::Move(0, Location::Immediate(0)),
            Mir::Move(1, reg(5)),
            Mir::Move(2, Location::Immediate(1)),
            Mir::Syscall,
        ]
    );
    assert_eq!(
        hir_to_mir(&Hir::Write),
        vec![
            Mir::Move(7, Location::Immediate(4)),
            Mir::Move(0, Location::Immediate(1)),
            Mir::Move(1, reg(5)),
            Mir::Move(2, Location::Immediate(1)),
            Mir::Syscall,
        ]
    );
}

#[test]
fn emission_templates() {
    assert_eq!(mir_to_asm(&Mir::Store(reg(1), cell())).unwrap(), lines(&["        strb r1, [r5]"]));
    assert_eq!(mir_to_asm(&Mir::Load(reg(1), cell())).unwrap(), lines(&["        ldrb r1, [r5]"]));
    assert_eq!(mir_to_asm(&Mir::Move(7, Location::Immediate(4))).unwrap(), lines(&["        mov  r7, 4"]));
    assert_eq!(mir_to_asm(&Mir::Move(1, reg(5))).unwrap(), lines(&["        mov  r1, r5"]));
    assert_eq!(mir_to_asm(&Mir::Inc(5, Location::Immediate(-120))).unwrap(), lines(&["        add  r5, -120"]));
    assert_eq!(
        mir_to_asm(&Mir::BranchZero(1, 12)).unwrap(),
        lines(&["        cmp  r1, 0", "        beq  BF_End_12"])
    );
    assert_eq!(
        mir_to_asm(&Mir::BranchNonZero(1, 7)).unwrap(),
        lines(&["        cmp  r1, 0", "        bne  BF_Start_7"])
    );
    assert_eq!(mir_to_asm(&Mir::Label(LabelKind::Start(30))).unwrap(), lines(&["BF_Start_30:"]));
    assert_eq!(mir_to_asm(&Mir::Label(LabelKind::End(0))).unwrap(), lines(&["BF_End_0:"]));
    assert_eq!(mir_to_asm(&Mir::Syscall).unwrap(), lines(&["        svc 0"]));
}

#[test]
fn emission_of_extreme_immediates() {
    assert_eq!(
        mir_to_asm(&Mir::Inc(1, Location::Immediate(i32::MIN))).unwrap(),
        lines(&["        add  r1, -2147483648"])
    );
    assert_eq!(
        mir_to_asm(&Mir::Inc(1, Location::Immediate(i32::MAX))).unwrap(),
        lines(&["        add  r1, 2147483647"])
    );
}

#[test]
fn emission_rejects_unknown_operands() {
    assert_eq!(mir_to_asm(&Mir::Store(reg(1), reg(5))), Err(EmitError::UnsupportedOperands));
    assert_eq!(mir_to_asm(&Mir::Inc(1, reg(2))), Err(EmitError::UnsupportedOperands));
    let program = vec![Mir::Syscall, Mir::Load(cell(), reg(1))];
    assert_eq!(emit_program(&program), Err(EmitError::UnsupportedOperands));
}

#[test]
fn prelude_and_postlude() {
    assert_eq!(
        prelude(),
        lines(&["        .text", "        .global main", "        .syntax unified", "main:   ldr r5, =tape"])
    );
    assert_eq!(postlude(), lines(&["        .data", "tape:   .space 30000"]));
}

#[test]
fn end_to_end_increment_and_write() {
    let out = compile(&chars("+++.")).unwrap();
    let mut expected = prelude();
    expected.extend(lines(&[
        "        ldrb r1, [r5]",
        "        add  r1, 3",
        "        strb r1, [r5]",
        "        mov  r7, 4",
        "        mov  r0, 1",
        "        mov  r1, r5",
        "        mov  r2, 1",
        "        svc 0",
    ]));
    expected.extend(postlude());
    assert_eq!(out, expected);
    let mir = lower_program(&fold_constants(ast_to_ir(&parse(&chars("+++.")).unwrap())));
    let incs = mir.iter().filter(|m| **m == Mir::Inc(1, Location::Immediate(3))).count();
    assert_eq!(incs, 1);
}

#[test]
fn end_to_end_loop_with_comments() {
    let out = compile(&chars("clear: [-] done")).unwrap();
    let mut expected = prelude();
    expected.extend(lines(&[
        "        ldrb r1, [r5]",
        "        cmp  r1, 0",
        "        beq  BF_End_0",
        "BF_Start_0:",
        "        ldrb r1, [r5]",
        "        add  r1, -1",
        "        strb r1, [r5]",
        "        cmp  r1, 0",
        "        bne  BF_Start_0",
        "BF_End_0:",
    ]));
    expected.extend(postlude());
    assert_eq!(out, expected);
}

#[test]
fn end_to_end_reports_parse_errors() {
    assert_eq!(compile(&chars("x ] y")), Err(ParseError::UnmatchedClose(0)));
    assert_eq!(compile(&chars("+ [ .")), Err(ParseError::UnmatchedOpen(1)));
}

#[test]
fn end_to_end_empty_program() {
    let mut expected = prelude();
    expected.extend(postlude());
    assert_eq!(compile(&chars("nothing here")).unwrap(), expected);
}
