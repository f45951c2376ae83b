use vstd::prelude::*;

verus! {

/// A node of the abstract syntax tree.
#[derive(Debug, PartialEq, Eq)]
pub enum Ast {
    Move(i32),
    Inc(i32),
    Block(i32, Vec<Ast>),
    Read,
    Write,
}

/// A flat, high-level instruction; blocks are marked by `Open` / `Close`.
#[derive(Clone, Copy, Debug, PartialEq, Eq, Structural)]
pub enum Hir {
    Move(i32),
    Inc(i32),
    Open(i32),
    Close(i32),
    Read,
    Write,
}

/// An operand: a register, an immediate, or the memory cell addressed by
/// another operand.
#[derive(Debug, PartialEq, Eq)]
pub enum Location {
    Register(i32),
    Immediate(i32),
    Indirect(Box<Location>),
}

/// The two labels that bracket a block.
#[derive(Clone, Copy, Debug, PartialEq, Eq, Structural)]
pub enum LabelKind {
    Start(i32),
    End(i32),
}

/// A register / memory level instruction.
#[derive(Debug, PartialEq, Eq)]
pub enum Mir {
    Store(Location, Location),
    Load(Location, Location),
    Move(i32, Location),
    Inc(i32, Location),
    BranchZero(i32, i32),
    BranchNonZero(i32, i32),
    Label(LabelKind),
    Syscall,
}

impl Location {
    /// Structural equality of two operands.
    pub fn same_as(&self, other: &Location) -> (r: bool)
        ensures
            r == (*self == *other),
        decreases self,
    {
        match (self, other) {
            (Location::Register(a), Location::Register(b)) => *a == *b,
            (Location::Immediate(a), Location::Immediate(b)) => *a == *b,
            (Location::Indirect(a), Location::Indirect(b)) => {
                let r = (**a).same_as(&**b);
                r
            },
            _ => false,
        }
    }
}

} // verus!
