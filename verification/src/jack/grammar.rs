//! What the compiler does on a token stream, step by step: each function
//! takes the compiler's state and gives the state after the construct and
//! its result. `fuel` bounds the depth of the descent; the compiler always
//! starts with enough of it (see `need`).
use vstd::prelude::*;
use crate::text::decimal;
use crate::jack::tokens::{
    Action, Const, Delimiter, Keyword, Operator, Routine, Scope, Symbol, TokenModel,
    TokenTypeModel,
};
use crate::jack::symbol_table::{define_model, flush_model, TypeModel};
use crate::jack::vm_model::{
    call_line, define_all, found, function_line, keyword_found, op_line, pop_line, push_line, put,
    sp_advance, sp_expect_id, sp_expect_symbol, sp_id_list, sp_peek, sp_type, string_lines,
    unary_error, EngineModel, Step,
};

verus! {

/// The fuel that a construct of rank `rank` needs from state `st`.
pub open spec fn need(st: EngineModel, rank: int) -> int {
    16 * (st.toks.len() - st.pos + 1) + rank
}

/// What a step gives when it runs out of fuel (never, from enough of it).
pub open spec fn no_fuel<T>(st: EngineModel) -> Step<T> {
    (st, Err(Seq::empty()))
}

pub open spec fn is_delim(t: TokenModel, d: Delimiter) -> bool {
    t.value == TokenTypeModel::Symbol(Symbol::Delim(d))
}

pub open spec fn peeks_delim(st: EngineModel, d: Delimiter) -> bool {
    sp_peek(st) matches Ok(t) && is_delim(t, d)
}

// ---------------------------------------------------------------------------
// Expressions
// ---------------------------------------------------------------------------

/// `term (op term)*`
pub open spec fn sp_expression(st: EngineModel, fuel: nat) -> Step<()>
    decreases fuel, 0nat,
{
    if fuel == 0 {
        no_fuel(st)
    } else {
        let (s1, r1) = sp_term(st, (fuel - 1) as nat);
        match r1 {
            Err(e) => (s1, Err(e)),
            Ok(_) => sp_expr_loop(s1, (fuel - 1) as nat),
        }
    }
}

/// `(op term)*`: each operator applied after its right operand.
pub open spec fn sp_expr_loop(st: EngineModel, fuel: nat) -> Step<()>
    decreases fuel, 0nat,
{
    if fuel == 0 {
        no_fuel(st)
    } else {
        match sp_peek(st) {
            Ok(t) => match t.value {
                TokenTypeModel::Symbol(Symbol::Op(op)) => if op == Operator::Not {
                    (
                        st,
                        Err(
                            decimal(t.line as nat)
                                + ": 'Not' operator cannot be used as a binary operator"@,
                        ),
                    )
                } else {
                    let s1 = sp_advance(st).0;
                    let (s2, r2) = sp_term(s1, (fuel - 1) as nat);
                    match r2 {
                        Err(e) => (s2, Err(e)),
                        Ok(_) => sp_expr_loop(put(s2, op_line(op)), (fuel - 1) as nat),
                    }
                },
                _ => (st, Ok(())),
            },
            Err(_) => (st, Ok(())),
        }
    }
}

/// One term: a constant, a unary operation, a parenthesised expression or
/// something named.
pub open spec fn sp_term(st: EngineModel, fuel: nat) -> Step<()>
    decreases fuel, 0nat,
{
    if fuel == 0 {
        no_fuel(st)
    } else {
        let (s1, r) = sp_advance(st);
        match r {
            Err(e) => (s1, Err(e)),
            Ok(t) => match t.value {
                TokenTypeModel::IntConst(v) => (put(s1, push_line(Scope::Const, v as nat)), Ok(())),
                TokenTypeModel::StrgConst(sv) => (
                    EngineModel {
                        out: s1.out.push(
                            push_line(Scope::Const, (vstd::utf8::encode_utf8(sv).len() as usize) as nat),
                        ).push(call_line("String.new"@, 1)) + string_lines(sv),
                        ..s1
                    },
                    Ok(()),
                ),
                TokenTypeModel::Keywd(k) => match k {
                    Keyword::Const(Const::True) => (
                        put(put(s1, push_line(Scope::Const, 0)), "not"@),
                        Ok(()),
                    ),
                    Keyword::Const(Const::False) => (put(s1, push_line(Scope::Const, 0)), Ok(())),
                    Keyword::Const(Const::Null) => (put(s1, push_line(Scope::Const, 0)), Ok(())),
                    Keyword::Const(Const::This) => (put(s1, push_line(Scope::Pointer, 0)), Ok(())),
                    _ => (s1, Err(keyword_found(t.line, k))),
                },
                TokenTypeModel::Symbol(Symbol::Op(op)) => if op == Operator::Sub || op
                    == Operator::Not {
                    let (s2, r2) = sp_term(s1, (fuel - 1) as nat);
                    match r2 {
                        Err(e) => (s2, Err(e)),
                        Ok(_) => (put(s2, if op == Operator::Sub { "neg"@ } else { "not"@ }), Ok(())),
                    }
                } else {
                    (s1, Err(unary_error(t.line, op)))
                },
                TokenTypeModel::Symbol(Symbol::Delim(Delimiter::OpenParen)) => {
                    let (s2, r2) = sp_expression(s1, (fuel - 1) as nat);
                    match r2 {
                        Err(e) => (s2, Err(e)),
                        Ok(_) => sp_expect_symbol(s2, Symbol::Delim(Delimiter::CloseParen)),
                    }
                },
                TokenTypeModel::Id(name) => sp_id(s1, name, (fuel - 1) as nat),
                _ => (
                    s1,
                    Err(
                        decimal(t.line as nat) + ": Unexpected term token: '"@ + crate::jack::tokens::token_text(
                            t.value,
                        ) + "'"@,
                    ),
                ),
            },
        }
    }
}

/// After `name` and `(` or `.f(`: the arguments, `)` and the call.
pub open spec fn sp_call_rest(st: EngineModel, target: Seq<char>, extra: nat, fuel: nat) -> Step<()>
    decreases fuel, 1nat,
{
    let (s1, r1) = sp_expression_list(st, fuel);
    match r1 {
        Err(e) => (s1, Err(e)),
        Ok(n) => {
            let (s2, r2) = sp_expect_symbol(s1, Symbol::Delim(Delimiter::CloseParen));
            match r2 {
                Err(e) => (s2, Err(e)),
                Ok(_) => (put(s2, call_line(target, n + extra)), Ok(())),
            }
        },
    }
}

/// A term that starts with a name: an array element, a call, or a variable.
pub open spec fn sp_id(st: EngineModel, name: Seq<char>, fuel: nat) -> Step<()>
    decreases fuel, 2nat,
{
    if fuel == 0 {
        no_fuel(st)
    } else {
        let syms = st.table.symbols;
        match sp_peek(st) {
            Err(e) => (st, Err(e)),
            Ok(t) => if is_delim(t, Delimiter::OpenBracket) {
                if !syms.contains_key(name) {
                    (st, Err("Undefined array: "@ + name))
                } else {
                    let s1 = sp_advance(put(st, push_line(syms[name].segment, syms[name].index as nat))).0;
                    let (s2, r2) = sp_expression(s1, (fuel - 1) as nat);
                    match r2 {
                        Err(e) => (s2, Err(e)),
                        Ok(_) => {
                            let (s3, r3) = sp_expect_symbol(s2, Symbol::Delim(Delimiter::CloseBracket));
                            match r3 {
                                Err(e) => (s3, Err(e)),
                                Ok(_) => (
                                    put(
                                        put(put(s3, op_line(Operator::Add)), pop_line(Scope::Pointer, 1)),
                                        push_line(Scope::That, 0),
                                    ),
                                    Ok(()),
                                ),
                            }
                        },
                    }
                }
            } else if is_delim(t, Delimiter::OpenParen) {
                let s1 = put(sp_advance(st).0, push_line(Scope::Pointer, 0));
                sp_call_rest(s1, st.class_name + "."@ + name, 1, (fuel - 1) as nat)
            } else if is_delim(t, Delimiter::Dot) {
                let (s2, r2) = sp_expect_id(sp_advance(st).0);
                match r2 {
                    Err(e) => (s2, Err(e)),
                    Ok(sub) => {
                        let (s3, r3) = sp_expect_symbol(s2, Symbol::Delim(Delimiter::OpenParen));
                        match r3 {
                            Err(e) => (s3, Err(e)),
                            Ok(_) => if syms.contains_key(name) {
                                let s4 = put(s3, push_line(syms[name].segment, syms[name].index as nat));
                                match syms[name].type_desc {
                                    TypeModel::Class(c) => sp_call_rest(
                                        s4,
                                        c + "."@ + sub,
                                        1,
                                        (fuel - 1) as nat,
                                    ),
                                    TypeModel::Primitive(_) => (
                                        s4,
                                        Err("Cannot call method on primitive "@ + name),
                                    ),
                                }
                            } else {
                                sp_call_rest(s3, name + "."@ + sub, 0, (fuel - 1) as nat)
                            },
                        }
                    },
                }
            } else if syms.contains_key(name) {
                (put(st, push_line(syms[name].segment, syms[name].index as nat)), Ok(()))
            } else {
                (st, Err("Undefined variable: "@ + name))
            },
        }
    }
}

/// The arguments of a call, up to (not including) its `)`, and their number.
pub open spec fn sp_expression_list(st: EngineModel, fuel: nat) -> Step<nat>
    decreases fuel, 0nat,
{
    if fuel == 0 {
        no_fuel(st)
    } else {
        match sp_peek(st) {
            Err(e) => (st, Err(e)),
            Ok(t) => if is_delim(t, Delimiter::CloseParen) {
                (st, Ok(0))
            } else {
                sp_list_loop(st, 0, (fuel - 1) as nat)
            },
        }
    }
}

/// `expression (, expression)*`, counting from `count`.
pub open spec fn sp_list_loop(st: EngineModel, count: nat, fuel: nat) -> Step<nat>
    decreases fuel, 0nat,
{
    if fuel == 0 {
        no_fuel(st)
    } else {
        let (s1, r1) = sp_expression(st, (fuel - 1) as nat);
        match r1 {
            Err(e) => (s1, Err(e)),
            Ok(_) => match sp_peek(s1) {
                Err(e) => (s1, Err(e)),
                Ok(t) => if is_delim(t, Delimiter::Comma) {
                    sp_list_loop(sp_advance(s1).0, count + 1, (fuel - 1) as nat)
                } else {
                    (s1, Ok(count + 1))
                },
            },
        }
    }
}


// ---------------------------------------------------------------------------
// Statements
// ---------------------------------------------------------------------------

/// Statements up to and including the `}` that closes them.
pub open spec fn sp_statements(st: EngineModel, fuel: nat) -> Step<()>
    decreases fuel, 0nat,
{
    if fuel == 0 {
        no_fuel(st)
    } else {
        let (s1, r) = sp_advance(st);
        match r {
            Err(e) => (s1, Err(e)),
            Ok(t) => match t.value {
                TokenTypeModel::Keywd(Keyword::Action(a)) => if a == Action::Else {
                    (s1, Err(decimal(t.line as nat) + ": Unexpected 'else'"@))
                } else {
                    let (s2, r2) = sp_statement(s1, a, (fuel - 1) as nat);
                    match r2 {
                        Err(e) => (s2, Err(e)),
                        Ok(_) => sp_statements(s2, (fuel - 1) as nat),
                    }
                },
                TokenTypeModel::Symbol(Symbol::Delim(Delimiter::CloseBrace)) => (s1, Ok(())),
                _ => (s1, Err(found(t, "Expected statement or '}'"@))),
            },
        }
    }
}

/// The rest of a statement after its keyword.
pub open spec fn sp_statement(st: EngineModel, a: Action, fuel: nat) -> Step<()>
    decreases fuel, 1nat,
{
    match a {
        Action::Let => sp_let(st, fuel),
        Action::If => sp_if(st, fuel),
        Action::While => sp_while(st, fuel),
        Action::Do => sp_do(st, fuel),
        _ => sp_return(st, fuel),
    }
}

/// `let name ([ expression ])? = expression ;`
pub open spec fn sp_let(st: EngineModel, fuel: nat) -> Step<()>
    decreases fuel, 0nat,
{
    if fuel == 0 {
        no_fuel(st)
    } else {
        let (s1, r1) = sp_expect_id(st);
        match r1 {
            Err(e) => (s1, Err(e)),
            Ok(name) => match sp_peek(s1) {
                Err(e) => (s1, Err(e)),
                Ok(t) => if is_delim(t, Delimiter::OpenBracket) {
                    let syms = s1.table.symbols;
                    if !syms.contains_key(name) {
                        (s1, Err("Undefined var"@))
                    } else {
                        let s2 = sp_advance(put(s1, push_line(syms[name].segment, syms[name].index as nat))).0;
                        let (s3, r3) = sp_expression(s2, (fuel - 1) as nat);
                        match r3 {
                            Err(e) => (s3, Err(e)),
                            Ok(_) => {
                                let (s4, r4) = sp_expect_symbol(s3, Symbol::Delim(Delimiter::CloseBracket));
                                match r4 {
                                    Err(e) => (s4, Err(e)),
                                    Ok(_) => sp_let_rest(put(s4, op_line(Operator::Add)), name, true, (fuel - 1) as nat),
                                }
                            },
                        }
                    }
                } else {
                    sp_let_rest(s1, name, false, (fuel - 1) as nat)
                },
            },
        }
    }
}

/// `= expression ;` of a `let`, then the store.
pub open spec fn sp_let_rest(st: EngineModel, name: Seq<char>, is_array: bool, fuel: nat) -> Step<()>
    decreases fuel, 1nat,
{
    let (s1, r1) = sp_expect_symbol(st, Symbol::Op(Operator::Equal));
    match r1 {
        Err(e) => (s1, Err(e)),
        Ok(_) => {
            let (s2, r2) = sp_expression(s1, fuel);
            match r2 {
                Err(e) => (s2, Err(e)),
                Ok(_) => {
                    let (s3, r3) = sp_expect_symbol(s2, Symbol::Delim(Delimiter::Semicolon));
                    match r3 {
                        Err(e) => (s3, Err(e)),
                        Ok(_) => if is_array {
                            (
                                put(
                                    put(
                                        put(put(s3, pop_line(Scope::Temp, 0)), pop_line(Scope::Pointer, 1)),
                                        push_line(Scope::Temp, 0),
                                    ),
                                    pop_line(Scope::That, 0),
                                ),
                                Ok(()),
                            )
                        } else if s3.table.symbols.contains_key(name) {
                            (
                                put(
                                    s3,
                                    pop_line(
                                        s3.table.symbols[name].segment,
                                        s3.table.symbols[name].index as nat,
                                    ),
                                ),
                                Ok(()),
                            )
                        } else {
                            (s3, Err("Undefined var"@))
                        },
                    }
                },
            }
        },
    }
}

/// `( expression )` followed by `{ statements }`: the condition, with its
/// `(` and `)`, then the block.
pub open spec fn sp_condition(st: EngineModel, fuel: nat) -> Step<()>
    decreases fuel, 1nat,
{
    let (s1, r1) = sp_expect_symbol(st, Symbol::Delim(Delimiter::OpenParen));
    match r1 {
        Err(e) => (s1, Err(e)),
        Ok(_) => {
            let (s2, r2) = sp_expression(s1, fuel);
            match r2 {
                Err(e) => (s2, Err(e)),
                Ok(_) => sp_expect_symbol(s2, Symbol::Delim(Delimiter::CloseParen)),
            }
        },
    }
}

/// `{ statements }`
pub open spec fn sp_block(st: EngineModel, fuel: nat) -> Step<()>
    decreases fuel, 1nat,
{
    let (s1, r1) = sp_expect_symbol(st, Symbol::Delim(Delimiter::OpenBrace));
    match r1 {
        Err(e) => (s1, Err(e)),
        Ok(_) => sp_statements(s1, fuel),
    }
}

/// `if ( expression ) { statements } (else { statements })?`, with the
/// labels `IF_TRUE<n>`, `IF_FALSE<n>` and `IF_END<n>`.
pub open spec fn sp_if(st: EngineModel, fuel: nat) -> Step<()>
    decreases fuel, 0nat,
{
    if fuel == 0 {
        no_fuel(st)
    } else {
        let n = decimal(st.labels as nat);
        let s0 = EngineModel { labels: st.labels + 1, ..st };
        let (s1, r1) = sp_condition(s0, (fuel - 1) as nat);
        match r1 {
            Err(e) => (s1, Err(e)),
            Ok(_) => {
                let s2 = put(
                    put(put(s1, "if-goto IF_TRUE"@ + n), "goto IF_FALSE"@ + n),
                    "label IF_TRUE"@ + n,
                );
                let (s3, r3) = sp_block(s2, (fuel - 1) as nat);
                match r3 {
                    Err(e) => (s3, Err(e)),
                    Ok(_) => if sp_peek(s3) matches Ok(t) && t.value == TokenTypeModel::Keywd(
                        Keyword::Action(Action::Else),
                    ) {
                        let s4 = sp_advance(put(put(s3, "goto IF_END"@ + n), "label IF_FALSE"@ + n)).0;
                        let (s5, r5) = sp_block(s4, (fuel - 1) as nat);
                        match r5 {
                            Err(e) => (s5, Err(e)),
                            Ok(_) => (put(s5, "label IF_END"@ + n), Ok(())),
                        }
                    } else {
                        (put(s3, "label IF_FALSE"@ + n), Ok(()))
                    },
                }
            },
        }
    }
}

/// `while ( expression ) { statements }`, with the labels `WHILE_EXP<n>`
/// and `WHILE_END<n>`.
pub open spec fn sp_while(st: EngineModel, fuel: nat) -> Step<()>
    decreases fuel, 0nat,
{
    if fuel == 0 {
        no_fuel(st)
    } else {
        let n = decimal(st.labels as nat);
        let s0 = put(EngineModel { labels: st.labels + 1, ..st }, "label WHILE_EXP"@ + n);
        let (s1, r1) = sp_condition(s0, (fuel - 1) as nat);
        match r1 {
            Err(e) => (s1, Err(e)),
            Ok(_) => {
                let s2 = put(put(s1, "not"@), "if-goto WHILE_END"@ + n);
                let (s3, r3) = sp_block(s2, (fuel - 1) as nat);
                match r3 {
                    Err(e) => (s3, Err(e)),
                    Ok(_) => (put(put(s3, "goto WHILE_EXP"@ + n), "label WHILE_END"@ + n), Ok(())),
                }
            },
        }
    }
}

/// `do expression ;`, its value dropped.
pub open spec fn sp_do(st: EngineModel, fuel: nat) -> Step<()>
    decreases fuel, 0nat,
{
    if fuel == 0 {
        no_fuel(st)
    } else {
        let (s1, r1) = sp_expression(st, (fuel - 1) as nat);
        match r1 {
            Err(e) => (s1, Err(e)),
            Ok(_) => {
                let (s2, r2) = sp_expect_symbol(s1, Symbol::Delim(Delimiter::Semicolon));
                match r2 {
                    Err(e) => (s2, Err(e)),
                    Ok(_) => (put(s2, pop_line(Scope::Temp, 0)), Ok(())),
                }
            },
        }
    }
}

/// `return expression? ;` (an absent value is 0).
pub open spec fn sp_return(st: EngineModel, fuel: nat) -> Step<()>
    decreases fuel, 0nat,
{
    if fuel == 0 {
        no_fuel(st)
    } else {
        match sp_peek(st) {
            Err(e) => (st, Err(e)),
            Ok(t) => {
                let (s1, r1) = if is_delim(t, Delimiter::Semicolon) {
                    (put(st, push_line(Scope::Const, 0)), Ok(()))
                } else {
                    sp_expression(st, (fuel - 1) as nat)
                };
                match r1 {
                    Err(e) => (s1, Err(e)),
                    Ok(_) => {
                        let (s2, r2) = sp_expect_symbol(s1, Symbol::Delim(Delimiter::Semicolon));
                        match r2 {
                            Err(e) => (s2, Err(e)),
                            Ok(_) => (put(s2, "return"@), Ok(())),
                        }
                    },
                }
            },
        }
    }
}

// ---------------------------------------------------------------------------
// Declarations
// ---------------------------------------------------------------------------

/// `var type a, b;` (the `var` consumed without a check).
pub open spec fn sp_var_dec(st: EngineModel) -> Step<()> {
    let s1 = sp_advance(st).0;
    let (s2, r2) = sp_type(s1);
    match r2 {
        Err(e) => (s2, Err(e)),
        Ok(ty) => {
            let (s3, r3) = sp_id_list(s2, Seq::empty());
            match r3 {
                Err(e) => (s3, Err(e)),
                Ok(names) => (
                    EngineModel { table: define_all(s3.table, names, ty, Scope::Var), ..s3 },
                    Ok(()),
                ),
            }
        },
    }
}

/// Whether the next token is `var`.
pub open spec fn peeks_var(st: EngineModel) -> bool {
    sp_peek(st) matches Ok(t) && t.value == TokenTypeModel::Keywd(Keyword::Scope(Scope::Var))
}

/// Local variable declarations, while the next token is `var`.
pub open spec fn sp_var_dec_loop(st: EngineModel, fuel: nat) -> Step<()>
    decreases fuel,
{
    if fuel == 0 {
        no_fuel(st)
    } else if peeks_var(st) {
        let (s1, r1) = sp_var_dec(st);
        match r1 {
            Err(e) => (s1, Err(e)),
            Ok(_) => sp_var_dec_loop(s1, (fuel - 1) as nat),
        }
    } else {
        (st, Ok(()))
    }
}

/// `static|field type a, b;`
pub open spec fn sp_class_var_dec(st: EngineModel) -> Step<()> {
    let (s1, r1) = sp_advance(st);
    match r1 {
        Err(e) => (s1, Err(e)),
        Ok(t) => match t.value {
            TokenTypeModel::Keywd(Keyword::Scope(seg)) => {
                let (s2, r2) = sp_type(s1);
                match r2 {
                    Err(e) => (s2, Err(e)),
                    Ok(ty) => {
                        let (s3, r3) = sp_id_list(s2, Seq::empty());
                        match r3 {
                            Err(e) => (s3, Err(e)),
                            Ok(names) => (
                                EngineModel { table: define_all(s3.table, names, ty, seg), ..s3 },
                                Ok(()),
                            ),
                        }
                    },
                }
            },
            _ => (s1, Err(found(t, "Expected static or field"@))),
        },
    }
}

/// Whether the next token is `static` or `field`.
pub open spec fn peeks_class_var(st: EngineModel) -> bool {
    sp_peek(st) matches Ok(t) && (t.value == TokenTypeModel::Keywd(Keyword::Scope(Scope::Static))
        || t.value == TokenTypeModel::Keywd(Keyword::Scope(Scope::Field)))
}

/// Class variable declarations, while the next token is `static` or `field`.
pub open spec fn sp_class_var_loop(st: EngineModel, fuel: nat) -> Step<()>
    decreases fuel,
{
    if fuel == 0 {
        no_fuel(st)
    } else if peeks_class_var(st) {
        let (s1, r1) = sp_class_var_dec(st);
        match r1 {
            Err(e) => (s1, Err(e)),
            Ok(_) => sp_class_var_loop(s1, (fuel - 1) as nat),
        }
    } else {
        (st, Ok(()))
    }
}

/// The parameters after the first token `t` of the list, each declared as
/// an argument.
pub open spec fn sp_param_loop(st: EngineModel, t: TokenModel) -> Step<()>
    decreases st.toks.len() - st.pos,
{
    let ty = match t.value {
        TokenTypeModel::Keywd(Keyword::Prim(p)) => Some(TypeModel::Primitive(p)),
        TokenTypeModel::Id(c) => Some(TypeModel::Class(c)),
        _ => None,
    };
    match ty {
        None => (st, Err(found(t, "Expected type"@))),
        Some(ty) => {
            let (s1, r1) = sp_expect_id(st);
            match r1 {
                Err(e) => (s1, Err(e)),
                Ok(name) => {
                    let s2 = EngineModel { table: define_model(s1.table, name, ty, Scope::Arg), ..s1 };
                    let (s3, r3) = sp_advance(s2);
                    match r3 {
                        Err(e) => (s3, Err(e)),
                        Ok(t2) => if is_delim(t2, Delimiter::CloseParen) {
                            (s3, Ok(()))
                        } else if is_delim(t2, Delimiter::Comma) {
                            let (s4, r4) = sp_advance(s3);
                            match r4 {
                                Err(e) => (s4, Err(e)),
                                Ok(t3) => sp_param_loop(s4, t3),
                            }
                        } else {
                            (s3, Err(found(t2, "Expected ')'"@)))
                        },
                    }
                },
            }
        },
    }
}

/// `( (type name (, type name)*)? )`
pub open spec fn sp_parameter_list(st: EngineModel) -> Step<()> {
    let (s1, r1) = sp_expect_symbol(st, Symbol::Delim(Delimiter::OpenParen));
    match r1 {
        Err(e) => (s1, Err(e)),
        Ok(_) => {
            let (s2, r2) = sp_advance(s1);
            match r2 {
                Err(e) => (s2, Err(e)),
                Ok(t) => if is_delim(t, Delimiter::CloseParen) {
                    (s2, Ok(()))
                } else {
                    sp_param_loop(s2, t)
                },
            }
        },
    }
}

/// The lines that open a subroutine once its locals are known: for a
/// method `pop pointer 0` (its object, the last value pushed before the
/// call, taken as `this`) and then the `function` line; for the others the
/// `function` line with the number of locals, followed for a constructor
/// by the allocation of the object.
pub open spec fn entry_lines(st: EngineModel, kind: Routine, f: Seq<char>) -> EngineModel {
    let s1 = put(st, function_line(f, st.table.local_count as nat));
    match kind {
        Routine::Constructor => put(
            put(put(s1, push_line(Scope::Const, st.table.field_count as nat)), call_line("Memory.alloc"@, 1)),
            pop_line(Scope::Pointer, 0),
        ),
        Routine::Method => put(put(st, pop_line(Scope::Pointer, 0)), function_line(f, st.table.local_count as nat)),
        Routine::Function => s1,
    }
}

/// A subroutine's body: `{`, local declarations, the entry lines of
/// subroutine `f`, statements and `}`.
pub open spec fn sp_body(st: EngineModel, kind: Routine, f: Seq<char>, fuel: nat) -> Step<()>
    decreases fuel, 1nat,
{
    let (s1, r1) = sp_expect_symbol(st, Symbol::Delim(Delimiter::OpenBrace));
    match r1 {
        Err(e) => (s1, Err(e)),
        Ok(_) => {
            let (s2, r2) = sp_var_dec_loop(s1, fuel);
            match r2 {
                Err(e) => (s2, Err(e)),
                Ok(_) => sp_statements(entry_lines(s2, kind, f), fuel),
            }
        },
    }
}

/// A subroutine declaration: the table flushed, the header read (a
/// constructor's name must be the class's), then the body.
pub open spec fn sp_subroutine(st: EngineModel, fuel: nat) -> Step<()>
    decreases fuel, 0nat,
{
    if fuel == 0 {
        no_fuel(st)
    } else {
        let s0 = EngineModel { table: flush_model(st.table), ..st };
        let (s1, r1) = sp_advance(s0);
        match r1 {
            Err(e) => (s1, Err(e)),
            Ok(t) => match t.value {
                TokenTypeModel::Keywd(Keyword::Routine(Routine::Constructor)) => {
                    let (s2, r2) = sp_expect_id(s1);
                    match r2 {
                        Err(e) => (s2, Err(e)),
                        Ok(id) => if id != s2.class_name {
                            (s2, Err(decimal(t.line as nat) + ": Constructor name must match class name"@))
                        } else {
                            let (s3, r3) = sp_parameter_list(s2);
                            match r3 {
                                Err(e) => (s3, Err(e)),
                                Ok(_) => sp_body(
                                    s3,
                                    Routine::Constructor,
                                    s3.class_name + ".new"@,
                                    (fuel - 1) as nat,
                                ),
                            }
                        },
                    }
                },
                TokenTypeModel::Keywd(Keyword::Routine(r)) => {
                    let (s2, r2) = sp_type(s1);
                    match r2 {
                        Err(e) => (s2, Err(e)),
                        Ok(_) => {
                            let (s3, r3) = sp_expect_id(s2);
                            match r3 {
                                Err(e) => (s3, Err(e)),
                                Ok(name) => {
                                    let (s4, r4) = sp_parameter_list(s3);
                                    match r4 {
                                        Err(e) => (s4, Err(e)),
                                        Ok(_) => sp_body(
                                            s4,
                                            r,
                                            s4.class_name + "."@ + name,
                                            (fuel - 1) as nat,
                                        ),
                                    }
                                },
                            }
                        },
                    }
                },
                _ => (s1, Err(found(t, "Expected constructor, function, or method"@))),
            },
        }
    }
}

/// Whether the next token starts a subroutine.
pub open spec fn peeks_routine(st: EngineModel) -> bool {
    sp_peek(st) matches Ok(t) && t.value matches TokenTypeModel::Keywd(Keyword::Routine(_))
}

/// Subroutine declarations, while the next token starts one.
pub open spec fn sp_subroutine_loop(st: EngineModel, fuel: nat) -> Step<()>
    decreases fuel, 0nat,
{
    if fuel == 0 {
        no_fuel(st)
    } else if peeks_routine(st) {
        let (s1, r1) = sp_subroutine(st, (fuel - 1) as nat);
        match r1 {
            Err(e) => (s1, Err(e)),
            Ok(_) => sp_subroutine_loop(s1, (fuel - 1) as nat),
        }
    } else {
        (st, Ok(()))
    }
}

/// `class Name { classVarDec* subroutineDec* }`
pub open spec fn sp_class(st: EngineModel, fuel: nat) -> Step<()>
    decreases fuel, 0nat,
{
    if fuel == 0 {
        no_fuel(st)
    } else {
        let (s1, r1) = sp_advance(st);
        match r1 {
            Err(e) => (s1, Err(e)),
            Ok(t) => if t.value != TokenTypeModel::Keywd(Keyword::Class) {
                (s1, Err(found(t, "Expected 'class' declaration"@)))
            } else {
                let (s2, r2) = sp_expect_id(s1);
                match r2 {
                    Err(e) => (s2, Err(e)),
                    Ok(name) => {
                        let s3 = EngineModel { class_name: name, ..s2 };
                        let (s4, r4) = sp_expect_symbol(s3, Symbol::Delim(Delimiter::OpenBrace));
                        match r4 {
                            Err(e) => (s4, Err(e)),
                            Ok(_) => {
                                let (s5, r5) = sp_class_var_loop(s4, (fuel - 1) as nat);
                                match r5 {
                                    Err(e) => (s5, Err(e)),
                                    Ok(_) => {
                                        let (s6, r6) = sp_subroutine_loop(s5, (fuel - 1) as nat);
                                        match r6 {
                                            Err(e) => (s6, Err(e)),
                                            Ok(_) => sp_expect_symbol(
                                                s6,
                                                Symbol::Delim(Delimiter::CloseBrace),
                                            ),
                                        }
                                    },
                                }
                            },
                        }
                    },
                }
            },
        }
    }
}

} // verus!
