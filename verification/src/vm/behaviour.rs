//! What the translator's assembly does when it runs: for each VM command
//! and for each shared routine, the effect of its block on the stack
//! pointer, the segments and the RAM, and where control goes next.
use vstd::prelude::*;
use crate::vm::codewriter::{
    call_ins, call_routine, comparison_routine, goto_a, if_ins, math_ins, pointer_register,
    pop_ins, push_ins, return_routine, segment_register, stack_pop_read, stack_push, static_name,
    zero_locals, at, asg, cache_const, stack_peak, bin_op, frame_stack_push, frame_pop,
    boot_start, call_head, call_tail, return_head, return_body, return_tail, enter_macro,
};
use crate::vm::instr::{Cond, Dst, Ins, Op};
use crate::vm::machine::{
    eval, lemma_run_seq, no_jumps, predefined, run, signed, store, wrap, HackState,
};
use crate::vm::parser::{Bin, Comp, Math, Neg, Segment};

verus! {

/// The RAM of `b` agrees with that of `a` everywhere except at the given
/// addresses.
pub open spec fn same_except(a: spec_fn(int) -> u16, b: spec_fn(int) -> u16, x1: int, x2: int) -> bool {
    forall|x: int| x != x1 && x != x2 ==> #[trigger] b(x) == a(x)
}

proof fn lemma_stack_push(st: HackState, env: spec_fn(Seq<char>) -> u16)
    requires
        predefined(env),
        (st.ram)(0) != 0,
    ensures
        run(stack_push(), 0, st, env).1 is None,
        ({
            let r = run(stack_push(), 0, st, env).0;
            &&& (r.ram)(0) == wrap((st.ram)(0) + 1)
            &&& (r.ram)((st.ram)(0) as int) == st.d
            &&& same_except(st.ram, r.ram, 0, (st.ram)(0) as int)
            &&& r.d == st.d
        }),
{
    reveal_with_fuel(run, 7);
    assert(stack_push() =~= seq![
        Ins::AtSym("SP"@),
        Ins::Assign(Dst::A, Op::M),
        Ins::Assign(Dst::M, Op::D),
        Ins::AtSym("SP"@),
        Ins::Assign(Dst::M, Op::MPlusOne),
    ]);
}

/// The value that a push puts on the stack, read from the state before it.
pub open spec fn push_value(file: Seq<char>, seg: Segment, i: u32, st: HackState, env: spec_fn(Seq<char>) -> u16) -> u16 {
    match seg {
        Segment::Constant => wrap(i as int),
        Segment::Static => (st.ram)(env(static_name(file, i)) as int),
        Segment::Temp => (st.ram)(5 + i),
        Segment::Pointer => (st.ram)(env(pointer_register(i)) as int),
        _ => (st.ram)(wrap((st.ram)(env(segment_register(seg)) as int) + i) as int),
    }
}

/// The instructions of a push before the shared push of D.
pub open spec fn push_load(file: Seq<char>, seg: Segment, index: u32) -> Seq<Ins> {
    match seg {
        Segment::Constant => cache_const(index as nat),
        Segment::Static => at(static_name(file, index)) + asg(Dst::D, Op::M),
        Segment::Temp => seq![Ins::AtNum((5 + index) as nat)] + asg(Dst::D, Op::M),
        Segment::Pointer => at(pointer_register(index)) + asg(Dst::D, Op::M),
        _ => at(segment_register(seg)) + asg(Dst::D, Op::M) + seq![Ins::AtNum(index as nat)]
            + asg(Dst::A, Op::DPlusA) + asg(Dst::D, Op::M),
    }
}

/// `push segment i` puts the segment's cell `i` (the constant `i`) on top
/// of the stack: the stack pointer moves up by one and no other cell
/// changes.
pub proof fn lemma_push_behaviour(file: Seq<char>, seg: Segment, i: u32, st: HackState, env: spec_fn(Seq<char>) -> u16)
    requires
        predefined(env),
        16 <= (st.ram)(0) < 0xffff,
        i < 0x8000,
    ensures
        run(push_ins(file, seg, i), 0, st, env).1 is None,
        ({
            let r = run(push_ins(file, seg, i), 0, st, env).0;
            &&& (r.ram)(0) == (st.ram)(0) + 1
            &&& (r.ram)((st.ram)(0) as int) == push_value(file, seg, i, st, env)
            &&& same_except(st.ram, r.ram, 0, (st.ram)(0) as int)
        }),
{
    let pre = push_load(file, seg, i);
    assert(push_ins(file, seg, i) == pre + stack_push());
    reveal_with_fuel(run, 7);
    assert(no_jumps(pre)) by {
        match seg {
            Segment::Constant => {},
            Segment::Static => {},
            Segment::Temp => {},
            Segment::Pointer => {},
            _ => {},
        }
    }
    lemma_run_seq(pre, stack_push(), st, env);
    let st1 = run(pre, 0, st, env).0;
    assert(st1.ram == st.ram && st1.d == push_value(file, seg, i, st, env)) by {
        match seg {
            Segment::Constant => {},
            Segment::Static => {},
            Segment::Temp => {},
            Segment::Pointer => {
                if i == 0 {
                    assert(pointer_register(i) == "THIS"@);
                } else {
                    assert(pointer_register(i) == "THAT"@);
                }
            },
            _ => {
                assert(wrap(i as int) == i);
            },
        }
    }
    lemma_stack_push(st1, env);
}

/// The address that a pop stores into, from the state before it.
pub open spec fn pop_target(file: Seq<char>, seg: Segment, i: u32, st: HackState, env: spec_fn(Seq<char>) -> u16) -> int {
    match seg {
        Segment::Static => env(static_name(file, i)) as int,
        Segment::Temp => 5 + i,
        Segment::Pointer => env(pointer_register(i)) as int,
        _ => wrap((st.ram)(env(segment_register(seg)) as int) + i) as int,
    }
}

/// `pop segment i` takes the top of the stack into the segment's cell `i`:
/// the stack pointer moves down by one, and besides it and that cell only
/// R14 (the address kept while popping) may change.
pub proof fn lemma_pop_behaviour(file: Seq<char>, seg: Segment, i: u32, st: HackState, env: spec_fn(Seq<char>) -> u16)
    requires
        predefined(env),
        seg != Segment::Constant,
        17 <= (st.ram)(0) < 0xffff,
        i < 0x8000,
        pop_target(file, seg, i, st, env) != 0,
        pop_target(file, seg, i, st, env) != 14,
    ensures
        run(pop_ins(file, seg, i), 0, st, env).1 is None,
        ({
            let r = run(pop_ins(file, seg, i), 0, st, env).0;
            let t = pop_target(file, seg, i, st, env);
            &&& (r.ram)(0) == (st.ram)(0) - 1
            &&& (r.ram)(t) == (st.ram)((st.ram)(0) - 1)
            &&& forall|x: int| x != 0 && x != t && x != 14 ==> #[trigger] (r.ram)(x) == (st.ram)(x)
        }),
{
    reveal_with_fuel(run, 13);
    assert(wrap(i as int) == i);
    assert(wrap((st.ram)(0) - 1) == (st.ram)(0) - 1);
    match seg {
        Segment::Pointer => {
            if i == 0 {
                assert(pointer_register(i) == "THIS"@);
            } else {
                assert(pointer_register(i) == "THAT"@);
            }
        },
        _ => {},
    }
}

/// The value a binary command leaves, from its operands `x` (below) and
/// `y` (on top).
pub open spec fn bin_value(op: Bin, x: u16, y: u16) -> u16 {
    match op {
        Bin::Add => wrap(x + y),
        Bin::Sub => wrap(x - y),
        Bin::And => x & y,
        Bin::Or => x | y,
    }
}

/// `add`, `sub`, `and` and `or` replace the two top values of the stack
/// by their result: the stack pointer moves down by one and no other cell
/// changes.
pub proof fn lemma_binary_behaviour(op: Bin, st: HackState, env: spec_fn(Seq<char>) -> u16)
    requires
        predefined(env),
        18 <= (st.ram)(0) < 0xffff,
    ensures
        run(math_ins(Math::Bin(op), Seq::empty()), 0, st, env).1 is None,
        ({
            let r = run(math_ins(Math::Bin(op), Seq::empty()), 0, st, env).0;
            let s = (st.ram)(0) as int;
            &&& (r.ram)(0) == s - 1
            &&& (r.ram)(s - 2) == bin_value(op, (st.ram)(s - 2), (st.ram)(s - 1))
            &&& same_except(st.ram, r.ram, 0, s - 2)
        }),
{
    reveal_with_fuel(run, 6);
    let s = (st.ram)(0) as int;
    assert(wrap(s - 1) == s - 1);
    assert(wrap(s - 2) == s - 2);
    let x = (st.ram)(s - 2);
    let y = (st.ram)(s - 1);
    assert(wrap(y + x) == wrap(x + y));
}

/// `not` and `neg` replace the top value of the stack by its bitwise
/// negation or its negative; nothing else changes.
pub proof fn lemma_unary_behaviour(op: Neg, st: HackState, env: spec_fn(Seq<char>) -> u16)
    requires
        predefined(env),
        17 <= (st.ram)(0) < 0xffff,
    ensures
        run(math_ins(Math::Neg(op), Seq::empty()), 0, st, env).1 is None,
        ({
            let r = run(math_ins(Math::Neg(op), Seq::empty()), 0, st, env).0;
            let s = (st.ram)(0) as int;
            let y = (st.ram)(s - 1);
            &&& (r.ram)(s - 1) == (match op {
                Neg::Not => !y,
                Neg::Neg => wrap(0 - y),
            })
            &&& same_except(st.ram, r.ram, s - 1, s - 1)
        }),
{
    reveal_with_fuel(run, 4);
    assert(wrap((st.ram)(0) - 1) == (st.ram)(0) - 1);
}

/// A comparison loads its return address into D and jumps to the shared
/// routine of its kind, changing no memory.
pub proof fn lemma_comparison_call(c: Comp, ret: Seq<char>, st: HackState, env: spec_fn(Seq<char>) -> u16)
    requires
        env(ret) != env(crate::vm::codewriter::comparison_entry(c)),
    ensures
        run(math_ins(Math::Comp(c), ret), 0, st, env) == (
            HackState { a: env(crate::vm::codewriter::comparison_entry(c)), d: env(ret), ..st },
            Some(env(crate::vm::codewriter::comparison_entry(c))),
        ),
{
    reveal_with_fuel(run, 5);
    reveal_with_fuel(crate::vm::machine::find_label, 2);
}

/// `if-goto l` pops the top of the stack and jumps to `l` where it is
/// zero; otherwise control goes on. Only the stack pointer changes.
pub proof fn lemma_if_goto_behaviour(target: Seq<char>, st: HackState, env: spec_fn(Seq<char>) -> u16)
    requires
        predefined(env),
        17 <= (st.ram)(0) < 0xffff,
    ensures
        ({
            let (r, exit) = run(if_ins(target), 0, st, env);
            let s = (st.ram)(0) as int;
            &&& exit == (if (st.ram)(s - 1) == 0 { Some(env(target)) } else { None::<u16> })
            &&& (r.ram)(0) == s - 1
            &&& same_except(st.ram, r.ram, 0, 0)
        }),
{
    reveal_with_fuel(run, 6);
    reveal_with_fuel(crate::vm::machine::find_label, 2);
    assert(wrap((st.ram)(0) - 1) == (st.ram)(0) - 1);
}

/// `goto l` jumps to `l` and changes no memory.
pub proof fn lemma_goto_behaviour(target: Seq<char>, st: HackState, env: spec_fn(Seq<char>) -> u16)
    ensures
        run(at(target) + goto_a(), 0, st, env) == (HackState { a: env(target), ..st }, Some(env(target))),
{
    reveal_with_fuel(run, 3);
    reveal_with_fuel(crate::vm::machine::find_label, 2);
}

proof fn lemma_zero_locals_no_jumps(n: nat)
    ensures
        no_jumps(zero_locals(n)),
    decreases n,
{
    if n > 0 {
        lemma_zero_locals_no_jumps((n - 1) as nat);
        let a = zero_locals((n - 1) as nat);
        let b = cache_const(0) + stack_push();
        assert(zero_locals(n) == a + b);
        assert forall|k: int| 0 <= k < (a + b).len() implies !(#[trigger] (a + b)[k] is Jump) by {
            if k < a.len() {
                assert((a + b)[k] == a[k]);
            } else {
                assert((a + b)[k] == b[k - a.len()]);
            }
        }
    }
}

/// A function's entry pushes `n` zeros: the stack pointer moves up by
/// `n`, the `n` cells above the old top hold zero, no other cell changes.
pub proof fn lemma_zero_locals_behaviour(n: nat, st: HackState, env: spec_fn(Seq<char>) -> u16)
    requires
        predefined(env),
        16 <= (st.ram)(0),
        (st.ram)(0) + n < 0xffff,
    ensures
        run(zero_locals(n), 0, st, env).1 is None,
        ({
            let r = run(zero_locals(n), 0, st, env).0;
            let s = (st.ram)(0) as int;
            &&& (r.ram)(0) == s + n
            &&& forall|x: int| s <= x < s + n ==> #[trigger] (r.ram)(x) == 0
            &&& forall|x: int| x != 0 && !(s <= x < s + n) ==> #[trigger] (r.ram)(x) == (st.ram)(x)
        }),
    decreases n,
{
    if n == 0 {
        assert(zero_locals(0) =~= Seq::<Ins>::empty());
    } else {
        let a = zero_locals((n - 1) as nat);
        let b = cache_const(0) + stack_push();
        assert(zero_locals(n) == a + b);
        lemma_zero_locals_no_jumps((n - 1) as nat);
        lemma_zero_locals_behaviour((n - 1) as nat, st, env);
        lemma_run_seq(a, b, st, env);
        let st1 = run(a, 0, st, env).0;
        assert(no_jumps(cache_const(0)));
        lemma_run_seq(cache_const(0), stack_push(), st1, env);
        reveal_with_fuel(run, 3);
        let st2 = run(cache_const(0), 0, st1, env).0;
        assert(st2.ram == st1.ram && st2.d == 0);
        lemma_stack_push(st2, env);
    }
}

/// `function f n` marks the function's entry with its label and allocates
/// its `n` locals, each zero, on the stack.
pub proof fn lemma_function_behaviour(f: Seq<char>, n: nat, st: HackState, env: spec_fn(Seq<char>) -> u16)
    requires
        predefined(env),
        16 <= (st.ram)(0),
        (st.ram)(0) + n < 0xffff,
    ensures
        crate::vm::codewriter::function_ins(f, n)[0] == Ins::Label(f),
        run(crate::vm::codewriter::function_ins(f, n), 0, st, env) == run(zero_locals(n), 0, st, env),
{
    let l = seq![Ins::Label(f)];
    assert(no_jumps(l));
    lemma_run_seq(l, zero_locals(n), st, env);
    reveal_with_fuel(run, 2);
}

/// The name of a comparison's routine.
pub open spec fn comparison_name(c: Comp) -> Seq<char> {
    match c {
        Comp::Eq => "EQ"@,
        Comp::Gt => "GT"@,
        Comp::Lt => "LT"@,
    }
}

/// The condition on `x - y` under which a comparison's routine leaves
/// false.
pub open spec fn comparison_skip(c: Comp) -> Cond {
    match c {
        Comp::Eq => Cond::JNE,
        Comp::Gt => Cond::JLE,
        Comp::Lt => Cond::JGE,
    }
}

/// Whether the comparison holds of `x` (below) and `y` (on top).
pub open spec fn comparison_holds(c: Comp, x: u16, y: u16) -> bool {
    match c {
        Comp::Eq => x == y,
        Comp::Gt => signed(x) > signed(y),
        Comp::Lt => signed(x) < signed(y),
    }
}

proof fn lemma_wrapped_difference(x: u16, y: u16)
    requires
        -0x8000 <= signed(x) - signed(y) <= 0x7fff,
    ensures
        signed(wrap(x - y)) == signed(x) - signed(y),
        (wrap(x - y) == 0) == (x == y),
{
    let dx = signed(x) - signed(y);
    if dx >= 0 {
        assert(wrap(x - y) as int == dx) by {
            if x >= 0x8000 && y < 0x8000 {
                assert(x - y == dx + 0x1_0000);
            } else if x < 0x8000 && y >= 0x8000 {
                assert(x - y == dx - 0x1_0000);
            }
        }
    } else {
        assert(wrap(x - y) as int == dx + 0x1_0000) by {
            if x >= 0x8000 && y < 0x8000 {
                assert(x - y == dx + 0x1_0000);
            } else if x < 0x8000 && y >= 0x8000 {
                assert(x - y == dx - 0x1_0000);
            }
        }
    }
}

/// A comparison's shared routine, entered with its return address in D,
/// replaces the two top values of the stack by true (-1) or false (0),
/// keeps the return address in R15 and jumps back to it. It assumes
/// `x - y` does not overflow.
pub proof fn lemma_comparison_routine(c: Comp, st: HackState, env: spec_fn(Seq<char>) -> u16)
    requires
        predefined(env),
        18 <= (st.ram)(0) < 0xffff,
        -0x8000 <= signed((st.ram)((st.ram)(0) - 2)) - signed((st.ram)((st.ram)(0) - 1)) <= 0x7fff,
    ensures
        ({
            let (r, exit) = run(comparison_routine(comparison_name(c), comparison_skip(c)), 0, st, env);
            let s = (st.ram)(0) as int;
            let x = (st.ram)(s - 2);
            let y = (st.ram)(s - 1);
            &&& exit == Some(st.d)
            &&& (r.ram)(0) == s - 1
            &&& (r.ram)(s - 2) == (if comparison_holds(c, x, y) { 0xffffu16 } else { 0u16 })
            &&& (r.ram)(15) == st.d
            &&& forall|z: int| z != 0 && z != s - 2 && z != 15 ==> #[trigger] (r.ram)(z) == (st.ram)(z)
        }),
{
    let s = (st.ram)(0) as int;
    let x = (st.ram)(s - 2);
    let y = (st.ram)(s - 1);
    lemma_wrapped_difference(x, y);
    assert(wrap(s - 1) == s - 1);
    assert(wrap(s - 2) == s - 2);
    reveal_with_fuel(run, 20);
    reveal_with_fuel(crate::vm::machine::find_label, 6);
}

/// A call stores its argument count in R13 and the callee's address in
/// R14, loads its return address into D and jumps to the shared call
/// routine.
pub proof fn lemma_call_behaviour(f: Seq<char>, n: u32, ret: Seq<char>, st: HackState, env: spec_fn(Seq<char>) -> u16)
    requires
        predefined(env),
        env(ret) != env("ENTER_CALL"@),
    ensures
        ({
            let (r, exit) = run(call_ins(f, n, ret), 0, st, env);
            &&& exit == Some(env("ENTER_CALL"@))
            &&& r.d == env(ret)
            &&& (r.ram)(13) == wrap(n as int)
            &&& (r.ram)(14) == env(f)
            &&& forall|z: int| z != 13 && z != 14 ==> #[trigger] (r.ram)(z) == (st.ram)(z)
        }),
{
    reveal_with_fuel(run, 14);
    reveal_with_fuel(crate::vm::machine::find_label, 2);
}

proof fn lemma_frame_stack_push(seg: Segment, st: HackState, env: spec_fn(Seq<char>) -> u16)
    requires
        predefined(env),
        crate::vm::codewriter::is_dynamic(seg),
        (st.ram)(0) != 0,
    ensures
        run(frame_stack_push(seg), 0, st, env).1 is None,
        ({
            let r = run(frame_stack_push(seg), 0, st, env).0;
            &&& (r.ram)(0) == wrap((st.ram)(0) + 1)
            &&& (r.ram)((st.ram)(0) as int) == (st.ram)(env(segment_register(seg)) as int)
            &&& same_except(st.ram, r.ram, 0, (st.ram)(0) as int)
        }),
{
    let pre = at(segment_register(seg)) + asg(Dst::D, Op::M);
    assert(frame_stack_push(seg) == pre + stack_push());
    assert(no_jumps(pre));
    lemma_run_seq(pre, stack_push(), st, env);
    reveal_with_fuel(run, 3);
    lemma_stack_push(run(pre, 0, st, env).0, env);
}

/// The shared call routine, entered with the return address in D, the
/// argument count in R13 and the callee's address in R14, lays out the
/// frame: the return address and the caller's LCL, ARG, THIS and THAT are
/// pushed, ARG points at the first argument, LCL and the stack pointer
/// just above the frame; then it jumps to the callee.
pub proof fn lemma_call_routine(st: HackState, env: spec_fn(Seq<char>) -> u16)
    requires
        predefined(env),
        16 <= (st.ram)(0),
        (st.ram)(0) + 5 < 0xffff,
        (st.ram)(13) < 0xfff0,
        (st.ram)(14) != env("BOOTED"@),
    ensures
        ({
            let (r, exit) = run(call_routine(), 0, st, env);
            let s = (st.ram)(0) as int;
            &&& exit == Some((st.ram)(14))
            &&& (r.ram)(s) == st.d
            &&& (r.ram)(s + 1) == (st.ram)(1)
            &&& (r.ram)(s + 2) == (st.ram)(2)
            &&& (r.ram)(s + 3) == (st.ram)(3)
            &&& (r.ram)(s + 4) == (st.ram)(4)
            &&& (r.ram)(0) == s + 5
            &&& (r.ram)(1) == s + 5
            &&& (r.ram)(2) == wrap(s - (st.ram)(13))
            &&& forall|z: int| !(0 <= z <= 2) && !(s <= z < s + 5) ==> #[trigger] (r.ram)(z) == (st.ram)(z)
        }),
{
    let s = (st.ram)(0) as int;
    let p0 = seq![Ins::Label("ENTER_CALL"@)];
    let h1 = p0 + stack_push();
    let h2 = h1 + frame_stack_push(Segment::Local);
    let h3 = h2 + frame_stack_push(Segment::Argument);
    let h4 = h3 + frame_stack_push(Segment::This);
    let h5 = h4 + frame_stack_push(Segment::That);
    assert(call_head() == h5);
    assert(call_routine() == h5 + (call_tail() + seq![Ins::Label("BOOTED"@)]));
    assert(no_jumps(p0));
    assert(no_jumps(stack_push()));
    assert(no_jumps(frame_stack_push(Segment::Local)));
    assert(no_jumps(frame_stack_push(Segment::Argument)));
    assert(no_jumps(frame_stack_push(Segment::This)));
    assert(no_jumps(frame_stack_push(Segment::That)));
    crate::vm::machine::lemma_no_jumps_add(p0, stack_push());
    crate::vm::machine::lemma_no_jumps_add(h1, frame_stack_push(Segment::Local));
    crate::vm::machine::lemma_no_jumps_add(h2, frame_stack_push(Segment::Argument));
    crate::vm::machine::lemma_no_jumps_add(h3, frame_stack_push(Segment::This));
    crate::vm::machine::lemma_no_jumps_add(h4, frame_stack_push(Segment::That));
    let rest = call_tail() + seq![Ins::Label("BOOTED"@)];
    lemma_run_seq(h5, rest, st, env);
    lemma_run_seq(h4, frame_stack_push(Segment::That), st, env);
    lemma_run_seq(h3, frame_stack_push(Segment::This), st, env);
    lemma_run_seq(h2, frame_stack_push(Segment::Argument), st, env);
    lemma_run_seq(h1, frame_stack_push(Segment::Local), st, env);
    lemma_run_seq(p0, stack_push(), st, env);
    reveal_with_fuel(run, 2);
    let t0 = run(p0, 0, st, env).0;
    assert(t0 == st);
    lemma_stack_push(t0, env);
    let t1 = run(stack_push(), 0, t0, env).0;
    lemma_frame_stack_push(Segment::Local, t1, env);
    let t2 = run(frame_stack_push(Segment::Local), 0, t1, env).0;
    lemma_frame_stack_push(Segment::Argument, t2, env);
    let t3 = run(frame_stack_push(Segment::Argument), 0, t2, env).0;
    lemma_frame_stack_push(Segment::This, t3, env);
    let t4 = run(frame_stack_push(Segment::This), 0, t3, env).0;
    lemma_frame_stack_push(Segment::That, t4, env);
    let t5 = run(frame_stack_push(Segment::That), 0, t4, env).0;
    assert((t5.ram)(0) == s + 5);
    assert((t5.ram)(13) == (st.ram)(13));
    assert((t5.ram)(14) == (st.ram)(14));
    let n = (st.ram)(13);
    assert(wrap(n + 5) == n + 5);
    assert(wrap(s + 5 - (n + 5)) == wrap(s - n));
    reveal_with_fuel(run, 17);
    reveal_with_fuel(crate::vm::machine::find_label, 2);
}

/// The shared return routine, run inside a function whose frame is laid
/// out below LCL (return address and the caller's LCL, ARG, THIS, THAT),
/// puts the returned value (the top of the stack) where ARG points, sets
/// the stack pointer just above it, restores the caller's LCL, ARG, THIS
/// and THAT and jumps to the return address. Besides those registers, that
/// cell, R13 and R14 nothing changes.
pub proof fn lemma_return_routine(st: HackState, env: spec_fn(Seq<char>) -> u16)
    requires
        predefined(env),
        21 <= (st.ram)(1),
        16 <= (st.ram)(2) <= (st.ram)(1) - 5,
        (st.ram)(1) < (st.ram)(0) < 0xffff,
    ensures
        ({
            let (r, exit) = run(return_routine(), 0, st, env);
            let q = (st.ram)(1) as int;
            let g = (st.ram)(2) as int;
            let s = (st.ram)(0) as int;
            &&& exit == Some((st.ram)(q - 5))
            &&& (r.ram)(g) == (st.ram)(s - 1)
            &&& (r.ram)(0) == g + 1
            &&& (r.ram)(1) == (st.ram)(q - 4)
            &&& (r.ram)(2) == (st.ram)(q - 3)
            &&& (r.ram)(3) == (st.ram)(q - 2)
            &&& (r.ram)(4) == (st.ram)(q - 1)
            &&& forall|z: int| !(0 <= z <= 4) && z != 13 && z != 14 && z != g ==> #[trigger] (r.ram)(z)
                == (st.ram)(z)
        }),
{
    let q = (st.ram)(1) as int;
    let g = (st.ram)(2) as int;
    let s = (st.ram)(0) as int;
    let hb = return_head() + return_body();
    assert(return_routine() == hb + return_tail());
    assert(no_jumps(hb));
    lemma_run_seq(hb, return_tail(), st, env);
    assert(wrap(q - 5) == q - 5);
    assert(wrap(s - 1) == s - 1);
    assert(wrap(g + 1) == g + 1);
    reveal_with_fuel(run, 25);
    let t = run(hb, 0, st, env).0;
    assert((t.ram)(14) == q);
    assert((t.ram)(13) == (st.ram)(q - 5));
    assert(wrap(q - 1) == q - 1);
    assert(wrap(q - 2) == q - 2);
    assert(wrap(q - 3) == q - 3);
    assert(wrap(q - 4) == q - 4);
    reveal_with_fuel(crate::vm::machine::find_label, 2);
}

/// The bootstrap sets the stack pointer to 256 and jumps over the shared
/// routines to `BOOTED`, where `Sys.init` is called.
pub proof fn lemma_bootstrap_behaviour(st: HackState, env: spec_fn(Seq<char>) -> u16)
    requires
        predefined(env),
    ensures
        ({
            let (r, exit) = run(boot_start(), 0, st, env);
            &&& exit == Some(env("BOOTED"@))
            &&& (r.ram)(0) == 256
            &&& same_except(st.ram, r.ram, 0, 0)
        }),
{
    reveal_with_fuel(run, 6);
    reveal_with_fuel(crate::vm::machine::find_label, 2);
}


/// A comparison command as it runs: its code jumps to the shared routine
/// of its kind, which replaces the two top values of the stack by true
/// (-1) or false (0) and comes back to the command's return label. Besides
/// the stack pointer, that cell and R15, no cell changes.
pub proof fn lemma_comparison_behaviour(c: Comp, ret: Seq<char>, st: HackState, env: spec_fn(Seq<char>) -> u16)
    requires
        predefined(env),
        env(ret) != env(crate::vm::codewriter::comparison_entry(c)),
        18 <= (st.ram)(0) < 0xffff,
        -0x8000 <= signed((st.ram)((st.ram)(0) - 2)) - signed((st.ram)((st.ram)(0) - 1)) <= 0x7fff,
    ensures
        ({
            let (s1, e1) = run(math_ins(Math::Comp(c), ret), 0, st, env);
            let (r, exit) = run(comparison_routine(comparison_name(c), comparison_skip(c)), 0, s1, env);
            let s = (st.ram)(0) as int;
            let x = (st.ram)(s - 2);
            let y = (st.ram)(s - 1);
            &&& e1 == Some(env(crate::vm::codewriter::comparison_entry(c)))
            &&& exit == Some(env(ret))
            &&& (r.ram)(0) == s - 1
            &&& (r.ram)(s - 2) == (if comparison_holds(c, x, y) { 0xffffu16 } else { 0u16 })
            &&& forall|z: int| z != 0 && z != s - 2 && z != 15 ==> #[trigger] (r.ram)(z) == (st.ram)(z)
        }),
{
    lemma_comparison_call(c, ret, st, env);
    let s1 = run(math_ins(Math::Comp(c), ret), 0, st, env).0;
    lemma_comparison_routine(c, s1, env);
}

/// A call as it runs: its code and the shared call routine lay out the
/// frame above the arguments (the return address, then the caller's LCL,
/// ARG, THIS and THAT), point ARG at the first argument and LCL and the
/// stack pointer just above the frame, and jump to the callee. Besides
/// those registers, R13, R14 and the frame, no cell changes.
pub proof fn lemma_call_sequence(f: Seq<char>, n: u32, ret: Seq<char>, st: HackState, env: spec_fn(Seq<char>) -> u16)
    requires
        predefined(env),
        env(ret) != env("ENTER_CALL"@),
        env(f) != env("BOOTED"@),
        n <= (st.ram)(0),
        n < 0xfff0,
        16 <= (st.ram)(0),
        (st.ram)(0) + 5 < 0xffff,
    ensures
        ({
            let (s1, e1) = run(call_ins(f, n, ret), 0, st, env);
            let (r, exit) = run(call_routine(), 0, s1, env);
            let s = (st.ram)(0) as int;
            &&& e1 == Some(env("ENTER_CALL"@))
            &&& exit == Some(env(f))
            &&& (r.ram)(s) == env(ret)
            &&& (r.ram)(s + 1) == (st.ram)(1)
            &&& (r.ram)(s + 2) == (st.ram)(2)
            &&& (r.ram)(s + 3) == (st.ram)(3)
            &&& (r.ram)(s + 4) == (st.ram)(4)
            &&& (r.ram)(0) == s + 5
            &&& (r.ram)(1) == s + 5
            &&& (r.ram)(2) == s - n
            &&& forall|z: int| !(0 <= z <= 2) && z != 13 && z != 14 && !(s <= z < s + 5) ==> #[trigger] (r.ram)(z)
                == (st.ram)(z)
        }),
{
    lemma_call_behaviour(f, n, ret, st, env);
    let s1 = run(call_ins(f, n, ret), 0, st, env).0;
    assert(wrap(n as int) == n);
    lemma_call_routine(s1, env);
    let s = (st.ram)(0) as int;
    assert(wrap(s - n) == s - n);
}


/// The place of each comparison's routine among the three that follow the
/// bootstrap's start.
pub open spec fn comparison_index(c: Comp) -> int {
    match c {
        Comp::Eq => 0,
        Comp::Gt => 1,
        Comp::Lt => 2,
    }
}

/// The bootstrap holds, for each comparison, a routine that starts at the
/// comparison's entry label and, run with the return address in D,
/// replaces the two top values of the stack by true (-1) exactly when the
/// comparison holds of them and by false (0) otherwise, then jumps back.
pub proof fn lemma_boot_comparison(c: Comp, st: HackState, env: spec_fn(Seq<char>) -> u16)
    requires
        predefined(env),
        18 <= (st.ram)(0) < 0xffff,
        -0x8000 <= signed((st.ram)((st.ram)(0) - 2)) - signed((st.ram)((st.ram)(0) - 1)) <= 0x7fff,
    ensures
        ({
            let len = comparison_routine(comparison_name(c), comparison_skip(c)).len() as int;
            let k = crate::vm::codewriter::boot_start().len() + comparison_index(c) * len;
            let p = crate::vm::codewriter::boot_prefix().subrange(k, k + len);
            let (r, exit) = run(p, 0, st, env);
            let s = (st.ram)(0) as int;
            let x = (st.ram)(s - 2);
            let y = (st.ram)(s - 1);
            &&& k + len <= crate::vm::codewriter::boot_prefix().len()
            &&& p[0] == Ins::Label(crate::vm::codewriter::comparison_entry(c))
            &&& exit == Some(st.d)
            &&& (r.ram)(0) == s - 1
            &&& (r.ram)(s - 2) == (if comparison_holds(c, x, y) { 0xffffu16 } else { 0u16 })
            &&& (r.ram)(15) == st.d
            &&& forall|z: int| z != 0 && z != s - 2 && z != 15 ==> #[trigger] (r.ram)(z) == (st.ram)(z)
        }),
{
    let bs = crate::vm::codewriter::boot_start();
    let re = comparison_routine("EQ"@, Cond::JNE);
    let rg = comparison_routine("GT"@, Cond::JLE);
    let rl = comparison_routine("LT"@, Cond::JGE);
    let bp = crate::vm::codewriter::boot_prefix();
    assert(bp == bs + re + rg + rl);
    let len = comparison_routine(comparison_name(c), comparison_skip(c)).len() as int;
    assert(re.len() == len && rg.len() == len && rl.len() == len);
    let k = bs.len() + comparison_index(c) * len;
    match c {
        Comp::Eq => {
            assert(bp.subrange(k, k + len) =~= re);
        },
        Comp::Gt => {
            assert(bp.subrange(k, k + len) =~= rg);
        },
        Comp::Lt => {
            assert(bp.subrange(k, k + len) =~= rl);
        },
    }
    reveal_strlit("ENTER_");
    reveal_strlit("ENTER_EQ");
    reveal_strlit("ENTER_GT");
    reveal_strlit("ENTER_LT");
    reveal_strlit("EQ");
    reveal_strlit("GT");
    reveal_strlit("LT");
    assert("ENTER_"@ + "EQ"@ =~= "ENTER_EQ"@);
    assert("ENTER_"@ + "GT"@ =~= "ENTER_GT"@);
    assert("ENTER_"@ + "LT"@ =~= "ENTER_LT"@);
    lemma_comparison_routine(c, st, env);
}

} // verus!
