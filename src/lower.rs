use vstd::prelude::*;
use crate::ir::{Ast, Hir, LabelKind, Location, Mir};

verus! {

/// The flat image of the nodes `s[i..]`: a block becomes `Open(id)`, its
/// body's image, then `Close(id)`; every other node maps to its namesake.
pub open spec fn lower_from(s: Seq<Ast>, i: int) -> Seq<Hir>
    decreases s, s.len() - i,
{
    if i < 0 || i >= s.len() {
        seq![]
    } else {
        let head = match s[i] {
            Ast::Move(d) => seq![Hir::Move(d)],
            Ast::Inc(d) => seq![Hir::Inc(d)],
            Ast::Block(id, body) => seq![Hir::Open(id)] + lower_from(body@, 0) + seq![Hir::Close(id)],
            Ast::Read => seq![Hir::Read],
            Ast::Write => seq![Hir::Write],
        };
        head + lower_from(s, i + 1)
    }
}

/// The flat image of a sequence of nodes.
pub open spec fn lower_asts(s: Seq<Ast>) -> Seq<Hir> {
    lower_from(s, 0)
}

/// Flattens a syntax tree into the high-level instruction sequence.
pub fn ast_to_ir(ast: &Vec<Ast>) -> (r: Vec<Hir>)
    ensures
        r@ == lower_asts(ast@),
    decreases ast,
{
    let mut ir: Vec<Hir> = Vec::new();
    let mut i: usize = 0;
    while i < ast.len()
        invariant
            i <= ast.len(),
            lower_asts(ast@) == ir@ + lower_from(ast@, i as int),
        decreases ast.len() - i,
    {
        match &ast[i] {
            Ast::Block(id, body) => {
                ir.push(Hir::Open(*id));
                let mut inner = ast_to_ir(body);
                ir.append(&mut inner);
                ir.push(Hir::Close(*id));
            },
            Ast::Move(d) => ir.push(Hir::Move(*d)),
            Ast::Inc(d) => ir.push(Hir::Inc(*d)),
            Ast::Read => ir.push(Hir::Read),
            Ast::Write => ir.push(Hir::Write),
        }
        i = i + 1;
    }
    ir
}


/// The register that holds the tape cursor.
pub const CURSOR: i32 = 5;

/// The scratch register.
pub const SCRATCH: i32 = 1;

/// The current tape cell, `[r5]`.
pub open spec fn cell() -> Location {
    Location::Indirect(Box::new(Location::Register(CURSOR)))
}

/// The system call that moves one byte between the current cell and a file
/// descriptor: number `call` in r7, `fd` in r0, the cursor in r1, 1 in r2.
pub open spec fn syscall_seq(call: i32, fd: i32) -> Seq<Mir> {
    seq![
        Mir::Move(7, Location::Immediate(call)),
        Mir::Move(0, Location::Immediate(fd)),
        Mir::Move(SCRATCH, Location::Register(CURSOR)),
        Mir::Move(2, Location::Immediate(1)),
        Mir::Syscall,
    ]
}

/// The register / memory instructions that implement one high-level instruction.
pub open spec fn lower_hir(h: Hir) -> Seq<Mir> {
    match h {
        Hir::Move(i) => seq![Mir::Inc(CURSOR, Location::Immediate(i))],
        Hir::Inc(i) => seq![
            Mir::Load(Location::Register(SCRATCH), cell()),
            Mir::Inc(SCRATCH, Location::Immediate(i)),
            Mir::Store(Location::Register(SCRATCH), cell()),
        ],
        Hir::Open(id) => seq![
            Mir::Load(Location::Register(SCRATCH), cell()),
            Mir::BranchZero(SCRATCH, id),
            Mir::Label(LabelKind::Start(id)),
        ],
        Hir::Close(id) => seq![
            Mir::Load(Location::Register(SCRATCH), cell()),
            Mir::BranchNonZero(SCRATCH, id),
            Mir::Label(LabelKind::End(id)),
        ],
        Hir::Write => syscall_seq(4, 1),
        Hir::Read => syscall_seq(3, 0),
    }
}

/// `f` applied to each element of `s`, the results joined in order.
pub open spec fn flat_map<A, T>(s: Seq<A>, f: spec_fn(A) -> Seq<T>) -> Seq<T>
    decreases s.len(),
{
    if s.len() == 0 {
        seq![]
    } else {
        flat_map(s.drop_last(), f) + f(s.last())
    }
}

fn cell_exec() -> (r: Location)
    ensures
        r == cell(),
{
    Location::Indirect(Box::new(Location::Register(CURSOR)))
}

fn syscall_exec(call: i32, fd: i32) -> (r: Vec<Mir>)
    ensures
        r@ == syscall_seq(call, fd),
{
    let r = vec![
        Mir::Move(7, Location::Immediate(call)),
        Mir::Move(0, Location::Immediate(fd)),
        Mir::Move(SCRATCH, Location::Register(CURSOR)),
        Mir::Move(2, Location::Immediate(1)),
        Mir::Syscall,
    ];
    assert(r@ =~= syscall_seq(call, fd));
    r
}

/// Expands one high-level instruction against the fixed register assignment.
pub fn hir_to_mir(h: &Hir) -> (r: Vec<Mir>)
    ensures
        r@ == lower_hir(*h),
{
    let r = match *h {
        Hir::Move(i) => vec![Mir::Inc(CURSOR, Location::Immediate(i))],
        Hir::Inc(i) => vec![
            Mir::Load(Location::Register(SCRATCH), cell_exec()),
            Mir::Inc(SCRATCH, Location::Immediate(i)),
            Mir::Store(Location::Register(SCRATCH), cell_exec()),
        ],
        Hir::Open(id) => vec![
            Mir::Load(Location::Register(SCRATCH), cell_exec()),
            Mir::BranchZero(SCRATCH, id),
            Mir::Label(LabelKind::Start(id)),
        ],
        Hir::Close(id) => vec![
            Mir::Load(Location::Register(SCRATCH), cell_exec()),
            Mir::BranchNonZero(SCRATCH, id),
            Mir::Label(LabelKind::End(id)),
        ],
        Hir::Write => syscall_exec(4, 1),
        Hir::Read => syscall_exec(3, 0),
    };
    assert(r@ =~= lower_hir(*h));
    r
}

/// Applies `f` to each item and joins the results in order; `spec_f` says
/// what `f` returns.
pub fn map_collect<A, T, F: Fn(&A) -> Vec<T>>(
    items: &Vec<A>,
    f: F,
    Ghost(spec_f): Ghost<spec_fn(A) -> Seq<T>>,
) -> (r: Vec<T>)
    requires
        forall|i: int| 0 <= i < items@.len() ==> f.requires((&items@[i],)),
        forall|x: A, v: Vec<T>| #[trigger] f.ensures((&x,), v) ==> v@ == spec_f(x),
    ensures
        r@ == flat_map(items@, spec_f),
{
    let mut collect: Vec<T> = Vec::new();
    let mut i: usize = 0;
    while i < items.len()
        invariant
            i <= items@.len(),
            forall|k: int| 0 <= k < items@.len() ==> f.requires((&items@[k],)),
            forall|x: A, v: Vec<T>| #[trigger] f.ensures((&x,), v) ==> v@ == spec_f(x),
            collect@ == flat_map(items@.take(i as int), spec_f),
        decreases items.len() - i,
    {
        let mut x = f(&items[i]);
        assert(items@.take(i + 1).drop_last() == items@.take(i as int));
        collect.append(&mut x);
        i = i + 1;
    }
    assert(items@.take(items@.len() as int) == items@);
    collect
}

/// The register / memory instructions of a whole high-level program.
pub open spec fn expand(s: Seq<Hir>) -> Seq<Mir> {
    flat_map(s, |h: Hir| lower_hir(h))
}

/// Expands a whole high-level program into register / memory instructions.
pub fn lower_program(code: &Vec<Hir>) -> (r: Vec<Mir>)
    ensures
        r@ == expand(code@),
{
    map_collect(code, hir_to_mir, Ghost(|h: Hir| lower_hir(h)))
}

} // verus!
