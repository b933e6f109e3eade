//! What Hack assembly does when it runs: registers A and D, the RAM, and
//! a straight run through a block of instructions that follows jumps to
//! labels further down the block and leaves the block on any other jump.
use vstd::prelude::*;
use crate::vm::instr::{Cond, Dst, Ins, Op};

verus! {

/// The machine's state: the A and D registers and the RAM.
pub struct HackState {
    pub a: u16,
    pub d: u16,
    pub ram: spec_fn(int) -> u16,
}

/// A number as a 16-bit word.
pub open spec fn wrap(x: int) -> u16 {
    (x % 0x1_0000) as u16
}

/// A word read as a two's-complement number.
pub open spec fn signed(v: u16) -> int {
    if v >= 0x8000 { v - 0x1_0000 } else { v as int }
}

/// The RAM with `v` stored at `addr`.
pub open spec fn store(ram: spec_fn(int) -> u16, addr: int, v: u16) -> spec_fn(int) -> u16 {
    |x: int| if x == addr { v } else { ram(x) }
}

/// The value an ALU computation gives.
pub open spec fn eval(o: Op, st: HackState) -> u16 {
    let m = (st.ram)(st.a as int);
    match o {
        Op::Zero => 0,
        Op::MinusOne => 0xffff,
        Op::D => st.d,
        Op::A => st.a,
        Op::M => m,
        Op::NotM => !m,
        Op::NegM => wrap(0 - m),
        Op::DPlusOne => wrap(st.d + 1),
        Op::AMinusOne => wrap(st.a - 1),
        Op::MMinusOne => wrap(m - 1),
        Op::MPlusOne => wrap(m + 1),
        Op::DPlusA => wrap(st.d + st.a),
        Op::DPlusM => wrap(st.d + m),
        Op::MMinusD => wrap(m - st.d),
        Op::MAndD => m & st.d,
        Op::MOrD => m | st.d,
    }
}

/// The state after storing a computed value into its destinations (M at
/// the address A held before).
pub open spec fn assign(st: HackState, d: Dst, v: u16) -> HackState {
    match d {
        Dst::A => HackState { a: v, ..st },
        Dst::D => HackState { d: v, ..st },
        Dst::M => HackState { ram: store(st.ram, st.a as int, v), ..st },
        Dst::AM => HackState { a: v, ram: store(st.ram, st.a as int, v), ..st },
        Dst::MD => HackState { d: v, ram: store(st.ram, st.a as int, v), ..st },
    }
}

/// Whether a jump condition holds of a computed value.
pub open spec fn holds(c: Cond, v: u16) -> bool {
    match c {
        Cond::JMP => true,
        Cond::JEQ => v == 0,
        Cond::JNE => v != 0,
        Cond::JLE => signed(v) <= 0,
        Cond::JGE => signed(v) >= 0,
    }
}

/// The first label at or after `k` whose address (in `env`) is `t`.
pub open spec fn find_label(p: Seq<Ins>, k: int, t: u16, env: spec_fn(Seq<char>) -> u16) -> Option<int>
    decreases p.len() - k,
{
    if k < 0 || k >= p.len() {
        None
    } else if p[k] matches Ins::Label(l) && env(l) == t {
        Some(k)
    } else {
        find_label(p, k + 1, t, env)
    }
}

/// Runs block `p` from instruction `i`: `env` gives each symbol its value
/// (the address of a variable or a label). The result is the state when
/// control leaves the block, and the address jumped to, or `None` where
/// control runs off its end.
pub open spec fn run(p: Seq<Ins>, i: int, st: HackState, env: spec_fn(Seq<char>) -> u16) -> (
    HackState,
    Option<u16>,
)
    decreases p.len() - i,
{
    if i < 0 || i >= p.len() {
        (st, None)
    } else {
        match p[i] {
            Ins::Label(_) => run(p, i + 1, st, env),
            Ins::AtNum(n) => run(p, i + 1, HackState { a: wrap(n as int), ..st }, env),
            Ins::AtSym(s) => run(p, i + 1, HackState { a: env(s), ..st }, env),
            Ins::Assign(d, o) => run(p, i + 1, assign(st, d, eval(o, st)), env),
            Ins::Jump(o, c) => if holds(c, eval(o, st)) {
                match find_label(p, i + 1, st.a, env) {
                    Some(j) => if i < j < p.len() {
                        run(p, j, st, env)
                    } else {
                        (st, Some(st.a))
                    },
                    None => (st, Some(st.a)),
                }
            } else {
                run(p, i + 1, st, env)
            },
        }
    }
}

/// Whether a block holds no jump.
pub open spec fn no_jumps(p: Seq<Ins>) -> bool {
    forall|k: int| 0 <= k < p.len() ==> !(#[trigger] p[k] is Jump)
}

/// The predefined symbols of the Hack assembler have their addresses.
pub open spec fn predefined(env: spec_fn(Seq<char>) -> u16) -> bool {
    &&& env("SP"@) == 0
    &&& env("LCL"@) == 1
    &&& env("ARG"@) == 2
    &&& env("THIS"@) == 3
    &&& env("THAT"@) == 4
    &&& env("R13"@) == 13
    &&& env("R14"@) == 14
    &&& env("R15"@) == 15
}

proof fn lemma_find_label_shift(a: Seq<Ins>, b: Seq<Ins>, k: int, t: u16, env: spec_fn(Seq<char>) -> u16)
    requires
        0 <= k,
    ensures
        find_label(a + b, a.len() + k, t, env) == (match find_label(b, k, t, env) {
            Some(j) => Some(a.len() + j),
            None => None::<int>,
        }),
    decreases b.len() - k,
{
    if k < b.len() {
        assert((a + b)[a.len() + k] == b[k]);
        lemma_find_label_shift(a, b, k + 1, t, env);
    }
}

/// Running the second part of a concatenation is running that part alone.
pub proof fn lemma_run_shift(a: Seq<Ins>, b: Seq<Ins>, k: int, st: HackState, env: spec_fn(Seq<char>) -> u16)
    requires
        0 <= k,
    ensures
        run(a + b, a.len() + k, st, env) == run(b, k, st, env),
    decreases b.len() - k,
{
    if k < b.len() {
        assert((a + b)[a.len() + k] == b[k]);
        match b[k] {
            Ins::Jump(o, c) => {
                lemma_find_label_shift(a, b, k + 1, st.a, env);
                if holds(c, eval(o, st)) {
                    match find_label(b, k + 1, st.a, env) {
                        Some(j) => {
                            if k < j < b.len() {
                                lemma_run_shift(a, b, j, st, env);
                            }
                        },
                        None => {},
                    }
                } else {
                    lemma_run_shift(a, b, k + 1, st, env);
                }
            },
            Ins::Label(_) => lemma_run_shift(a, b, k + 1, st, env),
            Ins::AtNum(n) => lemma_run_shift(a, b, k + 1, HackState { a: wrap(n as int), ..st }, env),
            Ins::AtSym(s) => lemma_run_shift(a, b, k + 1, HackState { a: env(s), ..st }, env),
            Ins::Assign(d, o) => lemma_run_shift(a, b, k + 1, assign(st, d, eval(o, st)), env),
        }
    }
}

proof fn lemma_run_seq_from(a: Seq<Ins>, b: Seq<Ins>, i: int, st: HackState, env: spec_fn(Seq<char>) -> u16)
    requires
        no_jumps(a),
        0 <= i <= a.len(),
    ensures
        run(a + b, i, st, env) == run(b, 0, run(a, i, st, env).0, env),
        run(a, i, st, env).1 is None,
    decreases a.len() - i,
{
    if i == a.len() {
        lemma_run_shift(a, b, 0, st, env);
    } else {
        assert((a + b)[i] == a[i]);
        assert(!(a[i] is Jump));
        match a[i] {
            Ins::Label(_) => lemma_run_seq_from(a, b, i + 1, st, env),
            Ins::AtNum(n) => lemma_run_seq_from(a, b, i + 1, HackState { a: wrap(n as int), ..st }, env),
            Ins::AtSym(s) => lemma_run_seq_from(a, b, i + 1, HackState { a: env(s), ..st }, env),
            Ins::Assign(d, o) => lemma_run_seq_from(a, b, i + 1, assign(st, d, eval(o, st)), env),
            Ins::Jump(_, _) => {},
        }
    }
}

/// A block without jumps followed by another: the second runs from where
/// the first leaves the machine.
pub proof fn lemma_run_seq(a: Seq<Ins>, b: Seq<Ins>, st: HackState, env: spec_fn(Seq<char>) -> u16)
    requires
        no_jumps(a),
    ensures
        run(a + b, 0, st, env) == run(b, 0, run(a, 0, st, env).0, env),
        run(a, 0, st, env).1 is None,
{
    lemma_run_seq_from(a, b, 0, st, env);
}

/// Two blocks without jumps make one.
pub proof fn lemma_no_jumps_add(a: Seq<Ins>, b: Seq<Ins>)
    requires
        no_jumps(a),
        no_jumps(b),
    ensures
        no_jumps(a + b),
{
    assert forall|k: int| 0 <= k < (a + b).len() implies !(#[trigger] (a + b)[k] is Jump) by {
        if k < a.len() {
            assert((a + b)[k] == a[k]);
        } else {
            assert((a + b)[k] == b[k - a.len()]);
        }
    }
}

} // verus!
