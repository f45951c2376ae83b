use vstd::prelude::*;
use vstd::string::StringExecFns;
use crate::ir::{LabelKind, Location, Mir};

verus! {

/// The character of the decimal digit `d`.
pub open spec fn digit_char(d: nat) -> char {
    if d == 0 { '0' } else if d == 1 { '1' } else if d == 2 { '2' } else if d == 3 { '3' }
    else if d == 4 { '4' } else if d == 5 { '5' } else if d == 6 { '6' } else if d == 7 { '7' }
    else if d == 8 { '8' } else { '9' }
}

/// The decimal digits of `n`, most significant first, with no leading zeros.
pub open spec fn digits(n: nat) -> Seq<char>
    decreases n,
{
    if n < 10 {
        seq![digit_char(n)]
    } else {
        digits(n / 10).push(digit_char(n % 10))
    }
}

/// The decimal text of `n`, with a leading `-` when negative.
pub open spec fn decimal(n: int) -> Seq<char> {
    if n < 0 {
        seq!['-'] + digits((-n) as nat)
    } else {
        digits(n as nat)
    }
}

fn digit_str(d: u32) -> (r: &'static str)
    requires
        d < 10,
    ensures
        r@ == seq![digit_char(d as nat)],
{
    match d {
        0 => {
            proof {
                reveal_strlit("0");
            }
            "0"
        },
        1 => {
            proof {
                reveal_strlit("1");
            }
            "1"
        },
        2 => {
            proof {
                reveal_strlit("2");
            }
            "2"
        },
        3 => {
            proof {
                reveal_strlit("3");
            }
            "3"
        },
        4 => {
            proof {
                reveal_strlit("4");
            }
            "4"
        },
        5 => {
            proof {
                reveal_strlit("5");
            }
            "5"
        },
        6 => {
            proof {
                reveal_strlit("6");
            }
            "6"
        },
        7 => {
            proof {
                reveal_strlit("7");
            }
            "7"
        },
        8 => {
            proof {
                reveal_strlit("8");
            }
            "8"
        },
        _ => {
            proof {
                reveal_strlit("9");
            }
            "9"
        },
    }
}

fn push_digits(s: &mut String, v: u32)
    ensures
        final(s)@ == old(s)@ + digits(v as nat),
    decreases v,
{
    if v >= 10 {
        push_digits(s, v / 10);
    }
    s.append(digit_str(v % 10));
    assert(final(s)@ =~= old(s)@ + digits(v as nat));
}

fn push_decimal(s: &mut String, n: i32)
    ensures
        final(s)@ == old(s)@ + decimal(n as int),
{
    if n < 0 {
        proof {
            reveal_strlit("-");
        }
        s.append("-");
        let m: i64 = -(n as i64);
        push_digits(s, m as u32);
        assert(final(s)@ =~= old(s)@ + decimal(n as int));
    } else {
        push_digits(s, n as u32);
    }
}


/// Why an instruction could not be rendered: its operands have a shape the
/// emitter does not know, which signals a fault in an earlier stage.
#[derive(Clone, Copy, Debug, PartialEq, Eq, Structural)]
pub enum EmitError {
    UnsupportedOperands,
}

/// One line holding one number: `pre`, the number, `post`.
pub open spec fn line1(pre: Seq<char>, a: i32, post: Seq<char>) -> Seq<char> {
    pre + decimal(a as int) + post
}

/// One line holding two numbers.
pub open spec fn line2(pre: Seq<char>, a: i32, mid: Seq<char>, b: i32, post: Seq<char>) -> Seq<char> {
    pre + decimal(a as int) + mid + decimal(b as int) + post
}

/// The assembly lines of one instruction, or `None` where its operands are
/// outside the shapes the emitter knows.
pub open spec fn asm_lines(m: Mir) -> Option<Seq<Seq<char>>> {
    match m {
        Mir::Store(Location::Register(src), Location::Indirect(a)) => match *a {
            Location::Register(dst) => Some(seq![line2("        strb r"@, src, ", [r"@, dst, "]"@)]),
            _ => None,
        },
        Mir::Load(Location::Register(dst), Location::Indirect(a)) => match *a {
            Location::Register(src) => Some(seq![line2("        ldrb r"@, dst, ", [r"@, src, "]"@)]),
            _ => None,
        },
        Mir::Move(dst, Location::Immediate(src)) => Some(seq![line2("        mov  r"@, dst, ", "@, src, ""@)]),
        Mir::Move(dst, Location::Register(src)) => Some(seq![line2("        mov  r"@, dst, ", r"@, src, ""@)]),
        Mir::Inc(dst, Location::Immediate(src)) => Some(seq![line2("        add  r"@, dst, ", "@, src, ""@)]),
        Mir::BranchZero(reg, label) => Some(seq![
            line1("        cmp  r"@, reg, ", 0"@),
            line1("        beq  BF_End_"@, label, ""@),
        ]),
        Mir::BranchNonZero(reg, label) => Some(seq![
            line1("        cmp  r"@, reg, ", 0"@),
            line1("        bne  BF_Start_"@, label, ""@),
        ]),
        Mir::Label(LabelKind::Start(i)) => Some(seq![line1("BF_Start_"@, i, ":"@)]),
        Mir::Label(LabelKind::End(i)) => Some(seq![line1("BF_End_"@, i, ":"@)]),
        Mir::Syscall => Some(seq!["        svc 0"@]),
        _ => None,
    }
}

/// The text of each line.
pub open spec fn texts(v: Seq<String>) -> Seq<Seq<char>> {
    v.map_values(|l: String| l@)
}

fn text1(pre: &str, a: i32, post: &str) -> (r: String)
    ensures
        r@ == line1(pre@, a, post@),
{
    let mut s = String::from_str(pre);
    push_decimal(&mut s, a);
    s.append(post);
    s
}

fn text2(pre: &str, a: i32, mid: &str, b: i32, post: &str) -> (r: String)
    ensures
        r@ == line2(pre@, a, mid@, b, post@),
{
    let mut s = String::from_str(pre);
    push_decimal(&mut s, a);
    s.append(mid);
    push_decimal(&mut s, b);
    s.append(post);
    s
}

/// Renders one instruction as its assembly lines.
pub fn mir_to_asm(m: &Mir) -> (r: Result<Vec<String>, EmitError>)
    ensures
        match r {
            Ok(lines) => asm_lines(*m) == Some(texts(lines@)),
            Err(_) => asm_lines(*m) is None,
        },
{
    let lines = match m {
        Mir::Store(Location::Register(src), Location::Indirect(a)) => match &**a {
            Location::Register(dst) => vec![text2("        strb r", *src, ", [r", *dst, "]")],
            _ => {
                return Err(EmitError::UnsupportedOperands);
            },
        },
        Mir::Load(Location::Register(dst), Location::Indirect(a)) => match &**a {
            Location::Register(src) => vec![text2("        ldrb r", *dst, ", [r", *src, "]")],
            _ => {
                return Err(EmitError::UnsupportedOperands);
            },
        },
        Mir::Move(dst, Location::Immediate(src)) => vec![text2("        mov  r", *dst, ", ", *src, "")],
        Mir::Move(dst, Location::Register(src)) => vec![text2("        mov  r", *dst, ", r", *src, "")],
        Mir::Inc(dst, Location::Immediate(src)) => vec![text2("        add  r", *dst, ", ", *src, "")],
        Mir::BranchZero(reg, label) => vec![
            text1("        cmp  r", *reg, ", 0"),
            text1("        beq  BF_End_", *label, ""),
        ],
        Mir::BranchNonZero(reg, label) => vec![
            text1("        cmp  r", *reg, ", 0"),
            text1("        bne  BF_Start_", *label, ""),
        ],
        Mir::Label(LabelKind::Start(i)) => vec![text1("BF_Start_", *i, ":")],
        Mir::Label(LabelKind::End(i)) => vec![text1("BF_End_", *i, ":")],
        Mir::Syscall => vec![String::from_str("        svc 0")],
        _ => {
            return Err(EmitError::UnsupportedOperands);
        },
    };
    assert(texts(lines@) =~= asm_lines(*m).unwrap());
    Ok(lines)
}

} // verus!
