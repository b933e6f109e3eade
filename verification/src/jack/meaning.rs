//! What the compiler's code means: the values that Jack's binary operators
//! compute, the values that the VM commands compute, and the law that an
//! expression `a op b` is compiled into code that computes `a op b`.
use vstd::prelude::*;
use crate::jack::tokens::{Operator, Scope, Symbol, TokenTypeModel};
use crate::jack::vm_model::{op_line, push_line, EngineModel};
use crate::jack::grammar::{sp_expr_loop, sp_expression, sp_term};

verus! {

/// -1 (true) or 0 (false), as Jack and the VM write truth values.
pub open spec fn truth(b: bool) -> int {
    if b {
        -1
    } else {
        0
    }
}

/// The value of `x op y` for a Jack binary operator.
pub open spec fn jack_binop(op: Operator, x: int, y: int) -> int {
    match op {
        Operator::Add => x + y,
        Operator::Sub => x - y,
        Operator::Mult => x * y,
        Operator::Divide => x / y,
        Operator::And => ((x as u16) & (y as u16)) as int,
        Operator::Or => ((x as u16) | (y as u16)) as int,
        Operator::Lesser => truth(x < y),
        Operator::Greater => truth(x > y),
        Operator::Equal => truth(x == y),
        Operator::Not => 0,
    }
}

/// The value that a VM command leaves when it takes `x` (below) and `y`
/// (on top) from the stack: the arithmetic and logic commands, and the OS
/// calls that multiply and divide. `None` for any other line.
pub open spec fn vm_binop(line: Seq<char>, x: int, y: int) -> Option<int> {
    if line == "add"@ {
        Some(x + y)
    } else if line == "sub"@ {
        Some(x - y)
    } else if line == "call Math.multiply 2"@ {
        Some(x * y)
    } else if line == "call Math.divide 2"@ {
        Some(x / y)
    } else if line == "and"@ {
        Some(((x as u16) & (y as u16)) as int)
    } else if line == "or"@ {
        Some(((x as u16) | (y as u16)) as int)
    } else if line == "lt"@ {
        Some(truth(x < y))
    } else if line == "gt"@ {
        Some(truth(x > y))
    } else if line == "eq"@ {
        Some(truth(x == y))
    } else {
        None
    }
}

/// The VM command of every binary operator computes, on the VM's stack,
/// what the operator computes in Jack.
pub proof fn lemma_op_line_computes(op: Operator, x: int, y: int)
    requires
        op != Operator::Not,
    ensures
        vm_binop(op_line(op), x, y) == Some(jack_binop(op, x, y)),
{
    reveal_strlit("add");
    reveal_strlit("sub");
    reveal_strlit("call Math.multiply 2");
    reveal_strlit("call Math.divide 2");
    reveal_strlit("and");
    reveal_strlit("or");
    reveal_strlit("lt");
    reveal_strlit("gt");
    reveal_strlit("eq");
    assert("add"@.len() == 3 && "add"@[0] == 'a' && "add"@[1] == 'd');
    assert("sub"@.len() == 3 && "sub"@[0] == 's');
    assert("call Math.multiply 2"@.len() == 20 && "call Math.divide 2"@.len() == 18);
    assert("and"@.len() == 3 && "and"@[0] == 'a' && "and"@[1] == 'n');
    assert("or"@.len() == 2 && "or"@[0] == 'o');
    assert("lt"@.len() == 2 && "lt"@[0] == 'l');
    assert("gt"@.len() == 2 && "gt"@[0] == 'g');
    assert("eq"@.len() == 2 && "eq"@[0] == 'e');
}

/// Whether the token at `i` is `Ok` with value `v`.
pub open spec fn token_is(st: EngineModel, i: int, v: TokenTypeModel) -> bool {
    &&& 0 <= i < st.toks.len()
    &&& st.toks[i] matches Ok(t) && t.value == v
}

/// Whether the token at `i` is an operator (or no token is there).
pub open spec fn operator_at(st: EngineModel, i: int) -> bool {
    &&& 0 <= i < st.toks.len()
    &&& st.toks[i] matches Ok(t) && (t.value matches TokenTypeModel::Symbol(Symbol::Op(_)))
}

/// An expression `a op b` of two integer constants and a binary operator,
/// followed by no further operator, is compiled into three lines: `a` and
/// `b` pushed, then a command that computes `a op b` from them.
pub proof fn lemma_binary_expression(st: EngineModel, a: usize, op: Operator, b: usize, fuel: nat)
    requires
        0 <= st.pos,
        token_is(st, st.pos, TokenTypeModel::IntConst(a)),
        token_is(st, st.pos + 1, TokenTypeModel::Symbol(Symbol::Op(op))),
        op != Operator::Not,
        token_is(st, st.pos + 2, TokenTypeModel::IntConst(b)),
        !operator_at(st, st.pos + 3),
        fuel >= 4,
    ensures
        ({
            let (s, r) = sp_expression(st, fuel);
            let n = st.out.len() as int;
            &&& r is Ok
            &&& s.pos == st.pos + 3
            &&& s.out.len() == n + 3
            &&& s.out.take(n) == st.out
            &&& s.out[n] == push_line(Scope::Const, a as nat)
            &&& s.out[n + 1] == push_line(Scope::Const, b as nat)
            &&& vm_binop(s.out[n + 2], a as int, b as int) == Some(jack_binop(op, a as int, b as int))
        }),
{
    lemma_op_line_computes(op, a as int, b as int);
    let n = st.out.len() as int;
    let s1 = sp_term(st, (fuel - 1) as nat).0;
    assert(s1.pos == st.pos + 1 && s1.out == st.out.push(push_line(Scope::Const, a as nat)));
    let s2 = EngineModel { pos: s1.pos + 1, ..s1 };
    let s3 = sp_term(s2, (fuel - 2) as nat).0;
    assert(s3.pos == st.pos + 3 && s3.out == s1.out.push(push_line(Scope::Const, b as nat)));
    let s4 = EngineModel { out: s3.out.push(op_line(op)), ..s3 };
    assert(sp_expr_loop(s4, (fuel - 2) as nat) == (s4, Ok::<(), Seq<char>>(())));
    assert(sp_expr_loop(s1, (fuel - 1) as nat) == sp_expr_loop(s4, (fuel - 2) as nat));
    assert(s4.out.take(n) =~= st.out);
}


/// The value that a VM command leaves when it takes `y` from the top of
/// the stack: `neg` and `not`. `None` for any other line.
pub open spec fn vm_unop(line: Seq<char>, y: int) -> Option<int> {
    if line == "neg"@ {
        Some(0 - y)
    } else if line == "not"@ {
        Some((!(y as u16)) as int)
    } else {
        None
    }
}

/// A unary expression `-a` or `~a` of an integer constant is compiled into
/// `a` pushed, then a command that negates it (`-`) or inverts its bits
/// (`~`).
pub proof fn lemma_unary_expression(st: EngineModel, op: Operator, a: usize, fuel: nat)
    requires
        0 <= st.pos,
        op == Operator::Sub || op == Operator::Not,
        token_is(st, st.pos, TokenTypeModel::Symbol(Symbol::Op(op))),
        token_is(st, st.pos + 1, TokenTypeModel::IntConst(a)),
        !operator_at(st, st.pos + 2),
        fuel >= 4,
    ensures
        ({
            let (s, r) = sp_expression(st, fuel);
            let n = st.out.len() as int;
            &&& r is Ok
            &&& s.pos == st.pos + 2
            &&& s.out.len() == n + 2
            &&& s.out.take(n) == st.out
            &&& s.out[n] == push_line(Scope::Const, a as nat)
            &&& vm_unop(s.out[n + 1], a as int) == Some(
                if op == Operator::Sub { 0 - a } else { (!(a as u16)) as int },
            )
        }),
{
    reveal_strlit("neg");
    reveal_strlit("not");
    assert("neg"@.len() == 3 && "neg"@[1] == 'e' && "not"@.len() == 3 && "not"@[1] == 'o');
    let n = st.out.len() as int;
    let s1 = EngineModel { pos: st.pos + 1, ..st };
    let s2 = sp_term(s1, (fuel - 2) as nat).0;
    assert(s2.pos == st.pos + 2 && s2.out == st.out.push(push_line(Scope::Const, a as nat)));
    let s3 = sp_term(st, (fuel - 1) as nat).0;
    assert(sp_expr_loop(s3, (fuel - 1) as nat) == (s3, Ok::<(), Seq<char>>(())));
    assert(s3.out.take(n) =~= st.out);
}

} // verus!
