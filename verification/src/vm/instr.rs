//! Hack assembly instructions as values, and how each is written.
use vstd::prelude::*;
use crate::text::{concat3, decimal};

verus! {

/// The destination of a computation.
#[derive(Debug, Clone, Copy, PartialEq, Eq, Structural)]
pub enum Dst {
    A,
    D,
    M,
    AM,
    MD,
}

/// The ALU computations the translator writes.
#[derive(Debug, Clone, Copy, PartialEq, Eq, Structural)]
pub enum Op {
    Zero,
    MinusOne,
    D,
    A,
    M,
    NotM,
    NegM,
    DPlusOne,
    AMinusOne,
    MMinusOne,
    MPlusOne,
    DPlusA,
    DPlusM,
    MMinusD,
    MAndD,
    MOrD,
}

/// Jump conditions on the computed value.
#[derive(Debug, Clone, Copy, PartialEq, Eq, Structural)]
pub enum Cond {
    JMP,
    JEQ,
    JNE,
    JLE,
    JGE,
}

/// One line of Hack assembly.
pub enum Ins {
    /// `@n` for a number.
    AtNum(nat),
    /// `@name` for a symbol.
    AtSym(Seq<char>),
    /// `dst=op`
    Assign(Dst, Op),
    /// `op;cond`
    Jump(Op, Cond),
    /// `(name)`
    Label(Seq<char>),
}

pub open spec fn dst_text(d: Dst) -> Seq<char> {
    match d {
        Dst::A => "A"@,
        Dst::D => "D"@,
        Dst::M => "M"@,
        Dst::AM => "AM"@,
        Dst::MD => "MD"@,
    }
}

pub open spec fn op_text(o: Op) -> Seq<char> {
    match o {
        Op::Zero => "0"@,
        Op::MinusOne => "-1"@,
        Op::D => "D"@,
        Op::A => "A"@,
        Op::M => "M"@,
        Op::NotM => "!M"@,
        Op::NegM => "-M"@,
        Op::DPlusOne => "D+1"@,
        Op::AMinusOne => "A-1"@,
        Op::MMinusOne => "M-1"@,
        Op::MPlusOne => "M+1"@,
        Op::DPlusA => "D+A"@,
        Op::DPlusM => "D+M"@,
        Op::MMinusD => "M-D"@,
        Op::MAndD => "M&D"@,
        Op::MOrD => "M|D"@,
    }
}

pub open spec fn cond_text(c: Cond) -> Seq<char> {
    match c {
        Cond::JMP => "JMP"@,
        Cond::JEQ => "JEQ"@,
        Cond::JNE => "JNE"@,
        Cond::JLE => "JLE"@,
        Cond::JGE => "JGE"@,
    }
}

/// How an instruction is written.
pub open spec fn render(i: Ins) -> Seq<char> {
    match i {
        Ins::AtNum(n) => "@"@ + decimal(n),
        Ins::AtSym(s) => "@"@ + s,
        Ins::Assign(d, o) => dst_text(d) + "="@ + op_text(o),
        Ins::Jump(o, c) => op_text(o) + ";"@ + cond_text(c),
        Ins::Label(s) => "("@ + s + ")"@,
    }
}

/// The lines of a sequence of instructions.
pub open spec fn listing(s: Seq<Ins>) -> Seq<Seq<char>> {
    s.map_values(|i: Ins| render(i))
}

/// The lines of a concatenation are the concatenation of the lines.
pub proof fn lemma_listing_add(a: Seq<Ins>, b: Seq<Ins>)
    ensures
        listing(a + b) == listing(a) + listing(b),
{
    assert(listing(a + b) =~= listing(a) + listing(b));
}

impl Dst {
    pub fn text(&self) -> (r: &'static str)
        ensures
            r@ == dst_text(*self),
    {
        match self {
            Dst::A => "A",
            Dst::D => "D",
            Dst::M => "M",
            Dst::AM => "AM",
            Dst::MD => "MD",
        }
    }
}

impl Op {
    pub fn text(&self) -> (r: &'static str)
        ensures
            r@ == op_text(*self),
    {
        match self {
            Op::Zero => "0",
            Op::MinusOne => "-1",
            Op::D => "D",
            Op::A => "A",
            Op::M => "M",
            Op::NotM => "!M",
            Op::NegM => "-M",
            Op::DPlusOne => "D+1",
            Op::AMinusOne => "A-1",
            Op::MMinusOne => "M-1",
            Op::MPlusOne => "M+1",
            Op::DPlusA => "D+A",
            Op::DPlusM => "D+M",
            Op::MMinusD => "M-D",
            Op::MAndD => "M&D",
            Op::MOrD => "M|D",
        }
    }
}

impl Cond {
    pub fn text(&self) -> (r: &'static str)
        ensures
            r@ == cond_text(*self),
    {
        match self {
            Cond::JMP => "JMP",
            Cond::JEQ => "JEQ",
            Cond::JNE => "JNE",
            Cond::JLE => "JLE",
            Cond::JGE => "JGE",
        }
    }
}

/// The text of `dst=op`.
pub fn set_text(d: Dst, o: Op) -> (r: String)
    ensures
        r@ == render(Ins::Assign(d, o)),
{
    concat3(d.text(), "=", o.text())
}

/// The text of `op;cond`.
pub fn jump_text(o: Op, c: Cond) -> (r: String)
    ensures
        r@ == render(Ins::Jump(o, c)),
{
    concat3(o.text(), ";", c.text())
}

} // verus!
