//! The VM code that the compiler writes, line by line, and the compiler's
//! state as values.
use vstd::prelude::*;
use crate::text::decimal;
use crate::jack::tokens::{
    Delimiter, keyword_text, operator_text, symbol_text, token_text, Keyword, Operator, Scope, Symbol,
    TokenModel, TokenTypeModel,
};
use crate::jack::symbol_table::{define_model, TableModel, TypeModel};

verus! {

/// The VM segment that a scope's variables live in.
pub open spec fn vm_segment(s: Scope) -> Seq<char> {
    match s {
        Scope::Static => "static"@,
        Scope::Field => "this"@,
        Scope::Var => "local"@,
        Scope::Arg => "argument"@,
        Scope::Const => "constant"@,
        Scope::This => "this"@,
        Scope::That => "that"@,
        Scope::Pointer => "pointer"@,
        Scope::Temp => "temp"@,
    }
}

/// `push segment index`
pub open spec fn push_line(s: Scope, i: nat) -> Seq<char> {
    "push "@ + vm_segment(s) + " "@ + decimal(i)
}

/// `pop segment index`
pub open spec fn pop_line(s: Scope, i: nat) -> Seq<char> {
    "pop "@ + vm_segment(s) + " "@ + decimal(i)
}

/// The VM command of an operator (multiplication and division are calls
/// of the OS's `Math` class).
pub open spec fn op_line(op: Operator) -> Seq<char> {
    match op {
        Operator::Add => "add"@,
        Operator::Sub => "sub"@,
        Operator::Mult => "call Math.multiply 2"@,
        Operator::Divide => "call Math.divide 2"@,
        Operator::And => "and"@,
        Operator::Or => "or"@,
        Operator::Lesser => "lt"@,
        Operator::Greater => "gt"@,
        Operator::Equal => "eq"@,
        Operator::Not => "not"@,
    }
}

/// `call f n`
pub open spec fn call_line(f: Seq<char>, n: nat) -> Seq<char> {
    "call "@ + f + " "@ + decimal(n)
}

/// `function f n`
pub open spec fn function_line(f: Seq<char>, n: nat) -> Seq<char> {
    "function "@ + f + " "@ + decimal(n)
}

/// The compiler's state: its token stream (ending at the first token that
/// could not be read, if any) and position in it, the VM lines written, the
/// symbol table, the class being compiled and the label counter.
pub struct EngineModel {
    pub toks: Seq<Result<TokenModel, Seq<char>>>,
    pub pos: int,
    pub out: Seq<Seq<char>>,
    pub table: TableModel,
    pub class_name: Seq<char>,
    pub labels: int,
}

/// A step's state after, and its value or error.
pub type Step<T> = (EngineModel, Result<T, Seq<char>>);

/// `st` with `line` written.
pub open spec fn put(st: EngineModel, line: Seq<char>) -> EngineModel {
    EngineModel { out: st.out.push(line), ..st }
}

/// The next token, without consuming it.
pub open spec fn sp_peek(st: EngineModel) -> Result<TokenModel, Seq<char>> {
    if 0 <= st.pos < st.toks.len() {
        st.toks[st.pos]
    } else {
        Err("Unexpected EOF"@)
    }
}

/// The next token, consumed.
pub open spec fn sp_advance(st: EngineModel) -> Step<TokenModel> {
    if 0 <= st.pos < st.toks.len() {
        (EngineModel { pos: st.pos + 1, ..st }, st.toks[st.pos])
    } else {
        (st, Err("Unexpected EOF"@))
    }
}

/// `"<line>: <what>, found '<token>'"`
pub open spec fn found(t: TokenModel, what: Seq<char>) -> Seq<char> {
    decimal(t.line as nat) + ": "@ + what + ", found '"@ + token_text(t.value) + "'"@
}

/// An identifier, consumed.
pub open spec fn sp_expect_id(st: EngineModel) -> Step<Seq<char>> {
    let (s1, r) = sp_advance(st);
    match r {
        Err(e) => (s1, Err(e)),
        Ok(t) => match t.value {
            TokenTypeModel::Id(n) => (s1, Ok(n)),
            _ => (s1, Err(found(t, "Expected identifier"@))),
        },
    }
}

/// The given symbol, consumed.
pub open spec fn sp_expect_symbol(st: EngineModel, expected: Symbol) -> Step<()> {
    let (s1, r) = sp_advance(st);
    match r {
        Err(e) => (s1, Err(e)),
        Ok(t) => match t.value {
            TokenTypeModel::Symbol(s) => if s == expected {
                (s1, Ok(()))
            } else {
                (s1, Err(found(t, "Expected symbol '"@ + symbol_text(expected) + "'"@)))
            },
            _ => (s1, Err(found(t, "Expected symbol '"@ + symbol_text(expected) + "'"@))),
        },
    }
}

/// A type (primitive keyword or class name), consumed.
pub open spec fn sp_type(st: EngineModel) -> Step<TypeModel> {
    let (s1, r) = sp_advance(st);
    match r {
        Err(e) => (s1, Err(e)),
        Ok(t) => match t.value {
            TokenTypeModel::Keywd(Keyword::Prim(p)) => (s1, Ok(TypeModel::Primitive(p))),
            TokenTypeModel::Id(c) => (s1, Ok(TypeModel::Class(c))),
            _ => (
                s1,
                Err(
                    token_text(t.value) + ": Expected type (int, char, boolean, ClassName), found '"@
                        + decimal(t.line as nat) + "'"@,
                ),
            ),
        },
    }
}

/// A list `a, b, c;` of identifiers, appended to `acc`.
pub open spec fn sp_id_list(st: EngineModel, acc: Seq<Seq<char>>) -> Step<Seq<Seq<char>>>
    decreases st.toks.len() - st.pos,
{
    let (s1, r) = sp_expect_id(st);
    match r {
        Err(e) => (s1, Err(e)),
        Ok(n) => {
            let (s2, r2) = sp_advance(s1);
            match r2 {
                Err(e) => (s2, Err(e)),
                Ok(t) => match t.value {
                    TokenTypeModel::Symbol(Symbol::Delim(Delimiter::Comma)) => sp_id_list(
                        s2,
                        acc.push(n),
                    ),
                    TokenTypeModel::Symbol(Symbol::Delim(Delimiter::Semicolon)) => (
                        s2,
                        Ok(acc.push(n)),
                    ),
                    _ => (
                        s2,
                        Err(
                            token_text(t.value) + ": Expected ';' found '"@ + decimal(t.line as nat)
                                + "'"@,
                        ),
                    ),
                },
            }
        },
    }
}

/// The table after declaring each of `names`, in order, with type `ty` in
/// scope `s`.
pub open spec fn define_all(t: TableModel, names: Seq<Seq<char>>, ty: TypeModel, s: Scope) -> TableModel
    decreases names.len(),
{
    if names.len() == 0 {
        t
    } else {
        define_model(define_all(t, names.drop_last(), ty, s), names.last(), ty, s)
    }
}

/// The lines that build a string constant: its length in bytes, then each
/// character appended by its code.
pub open spec fn string_lines(chars: Seq<char>) -> Seq<Seq<char>>
    decreases chars.len(),
{
    if chars.len() == 0 {
        Seq::empty()
    } else {
        string_lines(chars.drop_last()).push(push_line(Scope::Const, (chars.last() as u32) as nat)).push(
            call_line("String.append"@, 2),
        )
    }
}

/// The text of a keyword in an error message.
pub open spec fn keyword_found(line: usize, k: Keyword) -> Seq<char> {
    decimal(line as nat) + ": Expected constant, found keyword '"@ + keyword_text(k) + "'"@
}

/// The text of an operator in unary position.
pub open spec fn unary_error(line: usize, op: Operator) -> Seq<char> {
    decimal(line as nat) + ": Unexpected binary operator '"@ + operator_text(op)
        + "' in unary position"@
}

} // verus!
