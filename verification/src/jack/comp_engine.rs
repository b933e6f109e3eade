//! The compilation engine: a recursive-descent compiler from the tokens of
//! one Jack class to VM code, following `grammar`.
use vstd::prelude::*;
use crate::text::{decimal_string, concat2, concat3, str_eq};
use crate::jack::tokens::{
    Action, Const, Delimiter, Keyword, Operator, Routine, Scope, Symbol, Token, TokenModel,
    TokenType,
};
use crate::jack::tokenizer::{scan, lemma_scan_pos, JackTokenizer};
use crate::jack::symbol_table::{declarable, count_of, SymbolTable, TypeDescriptor};
use crate::jack::vm_model::{
    call_line, define_all, found, function_line, op_line, pop_line, push_line, put, sp_advance,
    sp_expect_id, sp_expect_symbol, sp_id_list, sp_peek, sp_type, string_lines, vm_segment,
    EngineModel,
};
use crate::jack::vm_code::{
    lemma_body_unit, lemma_if_region, lemma_plain_lines, lemma_unit_code_ok, lemma_unit_ext_trans, lemma_region_stmt, lemma_stmt_ext_trans, lemma_stmt_region,
    lemma_string_lines_plain, lemma_while_region, plain_ext, stmt_ext, unit_ext, vm_code_ok,
};
use crate::jack::grammar::{
    entry_lines, need, peeks_class_var, sp_block, sp_body, sp_call_rest, sp_class, sp_class_var_dec,
    sp_class_var_loop, sp_condition, sp_do, sp_expr_loop, sp_expression, sp_expression_list, sp_id,
    sp_if, sp_let, sp_let_rest, sp_list_loop, sp_param_loop, sp_parameter_list, sp_return,
    sp_statement, sp_statements, sp_subroutine, sp_subroutine_loop, sp_term, sp_var_dec,
    sp_var_dec_loop, sp_while,
};

verus! {

// ---------------------------------------------------------------------------
// The token stream
// ---------------------------------------------------------------------------

/// The tokens of `s` from position `pos` on line `line`, up to the end or
/// up to and including the first error.
pub open spec fn token_stream(s: Seq<char>, pos: int, line: int) -> Seq<Result<TokenModel, Seq<char>>>
    decreases s.len() - pos,
{
    if 0 <= pos <= s.len() {
        let (r, p, l) = scan(s, pos, line);
        proof {
            lemma_scan_pos(s, pos, line);
        }
        match r {
            None => Seq::empty(),
            Some(Err(e)) => seq![Err(e)],
            Some(Ok(t)) => seq![Ok(t)] + token_stream(s, p, l),
        }
    } else {
        Seq::empty()
    }
}

proof fn lemma_token_stream_len(s: Seq<char>, pos: int, line: int)
    requires
        0 <= pos <= s.len(),
    ensures
        token_stream(s, pos, line).len() <= s.len() - pos,
    decreases s.len() - pos,
{
    lemma_scan_pos(s, pos, line);
    let (r, p, l) = scan(s, pos, line);
    if let Some(Ok(t)) = r {
        lemma_token_stream_len(s, p, l);
    }
}

/// The view of a token result.
pub open spec fn tok_view(r: Result<Token, String>) -> Result<TokenModel, Seq<char>> {
    match r {
        Ok(t) => Ok(t@),
        Err(e) => Err(e@),
    }
}

/// The view of a step's result.
pub open spec fn rv<T: View>(r: Result<T, String>) -> Result<T::V, Seq<char>> {
    match r {
        Ok(v) => Ok(v@),
        Err(e) => Err(e@),
    }
}

/// The view of a counting step's result.
pub open spec fn count_view(r: Result<usize, String>) -> Result<nat, Seq<char>> {
    match r {
        Ok(n) => Ok(n as nat),
        Err(e) => Err(e@),
    }
}

/// The state `b` is `a` read further: only the position moved, forward.
pub open spec fn reads_on(a: EngineModel, b: EngineModel) -> bool {
    &&& b == EngineModel { pos: b.pos, ..a }
    &&& a.pos <= b.pos
}

/// The state `b` follows `a`: the same tokens, the position not moved
/// back, the lines written before kept as they were, and the label counter
/// not moved back.
pub open spec fn follows(a: EngineModel, b: EngineModel) -> bool {
    &&& b.toks == a.toks
    &&& a.pos <= b.pos
    &&& a.out.len() <= b.out.len()
    &&& forall|i: int| 0 <= i < a.out.len() ==> #[trigger] b.out[i] == a.out[i]
    &&& a.labels <= b.labels
}

// ---------------------------------------------------------------------------
// The engine
// ---------------------------------------------------------------------------

/// Compiles one Jack class from its tokens to VM code.
pub struct CompilationEngine {
    tokens: Vec<Result<Token, String>>,
    pos: usize,
    out: Vec<String>,
    symbol_table: SymbolTable,
    class_name: String,
    label_count: usize,
}

impl View for CompilationEngine {
    type V = EngineModel;

    closed spec fn view(&self) -> EngineModel {
        EngineModel {
            toks: self.tokens@.map_values(|r: Result<Token, String>| tok_view(r)),
            pos: self.pos as int,
            out: self.out@.map_values(|s: String| s@),
            table: self.symbol_table@,
            class_name: self.class_name@,
            labels: self.label_count as int,
        }
    }
}

/// The counts of the symbol table and the label counter stay below the
/// position, so that none of them can overflow.
pub open spec fn bounded(st: EngineModel) -> bool {
    &&& 0 <= st.pos <= st.toks.len()
    &&& st.toks.len() < usize::MAX / 4
    &&& st.table.static_count <= st.pos
    &&& st.table.local_count <= st.pos
    &&& st.table.arg_count <= st.pos
    &&& st.table.field_count <= st.pos
    &&& 0 <= st.labels <= st.pos
}

impl CompilationEngine {
    /// The engine is well formed.
    pub closed spec fn wf(&self) -> bool {
        &&& self.symbol_table.wf()
        &&& bounded(self@)
    }

    /// An engine over the tokens of `tokenizer` (read up to the end or the
    /// first error), with nothing written, an empty table, no class name and
    /// the label counter at 0.
    pub fn new(tokenizer: JackTokenizer) -> (r: Self)
        requires
            tokenizer.wf(),
            tokenizer@.source.len() < usize::MAX / 4,
        ensures
            r.wf(),
            r@.toks == token_stream(tokenizer@.source, tokenizer@.pos, tokenizer@.line),
            r@.pos == 0,
            r@.out == Seq::<Seq<char>>::empty(),
            r@.table.symbols == Map::<Seq<char>, crate::jack::symbol_table::SymbolModel>::empty(),
            r@.table.static_count == 0 && r@.table.local_count == 0 && r@.table.arg_count == 0
                && r@.table.field_count == 0,
            r@.class_name == Seq::<char>::empty(),
            r@.labels == 0,
    {
        let mut tokenizer = tokenizer;
        let ghost s = tokenizer@.source;
        let ghost goal = token_stream(s, tokenizer@.pos, tokenizer@.line);
        let mut tokens: Vec<Result<Token, String>> = Vec::new();
        let mut done = false;
        proof {
            lemma_token_stream_len(s, tokenizer@.pos, tokenizer@.line);
        }
        while !done
            invariant
                tokenizer.wf(),
                tokenizer@.source == s,
                s.len() < usize::MAX / 4,
                !done ==> goal == tokens@.map_values(|r: Result<Token, String>| tok_view(r))
                    + token_stream(s, tokenizer@.pos, tokenizer@.line),
                done ==> goal == tokens@.map_values(|r: Result<Token, String>| tok_view(r)),
                tokens@.len() + (s.len() - tokenizer@.pos) <= s.len(),
            decreases s.len() - tokenizer@.pos + (if done { 0int } else { 1int }),
        {
            let ghost before = tokens@.map_values(|r: Result<Token, String>| tok_view(r));
            let ghost p0 = tokenizer@.pos;
            let ghost l0 = tokenizer@.line;
            proof {
                lemma_scan_pos(s, p0, l0);
            }
            match tokenizer.next_token() {
                None => {
                    done = true;
                    assert(before + Seq::<Result<TokenModel, Seq<char>>>::empty() =~= before);
                },
                Some(Ok(t)) => {
                    let ghost tv = t@;
                    tokens.push(Ok(t));
                    assert(tokens@.map_values(|r: Result<Token, String>| tok_view(r)) =~= before.push(
                        Ok(tv),
                    ));
                    assert(before + (seq![Ok(tv)] + token_stream(s, tokenizer@.pos, tokenizer@.line))
                        =~= before.push(Ok(tv)) + token_stream(s, tokenizer@.pos, tokenizer@.line));
                },
                Some(Err(e)) => {
                    let ghost ev = e@;
                    tokens.push(Err(e));
                    done = true;
                    assert(tokens@.map_values(|r: Result<Token, String>| tok_view(r)) =~= before
                        + seq![Err::<TokenModel, Seq<char>>(ev)]);
                },
            }
        }
        let r = CompilationEngine {
            tokens,
            pos: 0,
            out: Vec::new(),
            symbol_table: SymbolTable::new(),
            class_name: String::new(),
            label_count: 0,
        };
        assert(r@.out =~= Seq::<Seq<char>>::empty());
        r
    }

    /// The VM lines written so far.
    pub fn output(&self) -> (r: &Vec<String>)
        ensures
            r@.map_values(|s: String| s@) == self@.out,
    {
        &self.out
    }

    // -- writing --

    fn put(&mut self, line: String)
        requires
            old(self).wf(),
        ensures
            final(self).wf(),
            final(self)@ == put(old(self)@, line@),
    {
        let ghost before = self@.out;
        let ghost lv = line@;
        self.out.push(line);
        assert(self@.out =~= before.push(lv));
    }

    fn put_str(&mut self, line: &str)
        requires
            old(self).wf(),
        ensures
            final(self).wf(),
            final(self)@ == put(old(self)@, line@),
    {
        self.put(String::from_str(line));
    }

    fn write_push(&mut self, seg: Scope, index: usize)
        requires
            old(self).wf(),
        ensures
            final(self).wf(),
            final(self)@ == put(old(self)@, push_line(seg, index as nat)),
            crate::jack::vm_code::plain(push_line(seg, index as nat)),
    {
        proof {
            lemma_plain_lines(seg, index as nat, Seq::empty(), Operator::Add);
        }
        let d = decimal_string(index as u64);
        let mut l = String::from_str("push ");
        l.append(segment_name(seg));
        l.append(" ");
        l.append(d.as_str());
        self.put(l);
    }

    fn write_pop(&mut self, seg: Scope, index: usize)
        requires
            old(self).wf(),
        ensures
            final(self).wf(),
            final(self)@ == put(old(self)@, pop_line(seg, index as nat)),
            crate::jack::vm_code::plain(pop_line(seg, index as nat)),
    {
        proof {
            lemma_plain_lines(seg, index as nat, Seq::empty(), Operator::Add);
        }
        let d = decimal_string(index as u64);
        let mut l = String::from_str("pop ");
        l.append(segment_name(seg));
        l.append(" ");
        l.append(d.as_str());
        self.put(l);
    }

    fn write_call(&mut self, f: &str, n: usize)
        requires
            old(self).wf(),
        ensures
            final(self).wf(),
            final(self)@ == put(old(self)@, call_line(f@, n as nat)),
            crate::jack::vm_code::plain(call_line(f@, n as nat)),
    {
        proof {
            lemma_plain_lines(Scope::Const, n as nat, f@, Operator::Add);
        }
        let d = decimal_string(n as u64);
        let mut l = String::from_str("call ");
        l.append(f);
        l.append(" ");
        l.append(d.as_str());
        self.put(l);
    }

    fn write_function(&mut self, f: &str, n: usize)
        requires
            old(self).wf(),
        ensures
            final(self).wf(),
            final(self)@ == put(old(self)@, function_line(f@, n as nat)),
            crate::jack::vm_code::is_function_line(function_line(f@, n as nat)) && !crate::jack::vm_code::is_label_line(function_line(f@, n as nat)) && !crate::jack::vm_code::is_jump_line(function_line(f@, n as nat)) && function_line(f@, n as nat) != "pop pointer 0"@,
    {
        proof {
            lemma_plain_lines(Scope::Const, n as nat, f@, Operator::Add);
        }
        let d = decimal_string(n as u64);
        let mut l = String::from_str("function ");
        l.append(f);
        l.append(" ");
        l.append(d.as_str());
        self.put(l);
    }

    fn write_arithmetic(&mut self, op: Operator)
        requires
            old(self).wf(),
        ensures
            final(self).wf(),
            final(self)@ == put(old(self)@, op_line(op)),
            crate::jack::vm_code::plain(op_line(op)),
    {
        proof {
            lemma_plain_lines(Scope::Const, 0, Seq::empty(), op);
        }
        self.put_str(operator_command(op));
    }

    // -- reading --

    fn peek(&self) -> (r: Result<Token, String>)
        requires
            self.wf(),
        ensures
            tok_view(r) == sp_peek(self@),
    {
        if self.pos < self.tokens.len() {
            match &self.tokens[self.pos] {
                Ok(t) => Ok(t.copy()),
                Err(e) => Err(e.clone()),
            }
        } else {
            Err(String::from_str("Unexpected EOF"))
        }
    }

    fn advance(&mut self) -> (r: Result<Token, String>)
        requires
            old(self).wf(),
        ensures
            final(self).wf(),
            reads_on(old(self)@, final(self)@),
            (final(self)@, tok_view(r)) == sp_advance(old(self)@),
    {
        let r = self.peek();
        if self.pos < self.tokens.len() {
            self.pos = self.pos + 1;
        }
        r
    }

    fn expect_id(&mut self) -> (r: Result<String, String>)
        requires
            old(self).wf(),
        ensures
            final(self).wf(),
            reads_on(old(self)@, final(self)@),
            (final(self)@, rv(r)) == sp_expect_id(old(self)@),
    {
        let token = match self.advance() {
            Ok(t) => t,
            Err(e) => return Err(e),
        };
        match token.value {
            TokenType::Id(s) => Ok(s),
            _ => Err(found_string(&token, "Expected identifier")),
        }
    }

    fn expect_symbol(&mut self, expected: Symbol) -> (r: Result<(), String>)
        requires
            old(self).wf(),
        ensures
            final(self).wf(),
            reads_on(old(self)@, final(self)@),
            (final(self)@, rv(r)) == sp_expect_symbol(old(self)@, expected),
    {
        let token = match self.advance() {
            Ok(t) => t,
            Err(e) => return Err(e),
        };
        let ok = match &token.value {
            TokenType::Symbol(s) => *s == expected,
            _ => false,
        };
        if ok {
            Ok(())
        } else {
            let what = concat3("Expected symbol '", expected.text(), "'");
            Err(found_string(&token, what.as_str()))
        }
    }

    fn get_type_descriptor(&mut self) -> (r: Result<TypeDescriptor, String>)
        requires
            old(self).wf(),
        ensures
            final(self).wf(),
            reads_on(old(self)@, final(self)@),
            (final(self)@, rv(r)) == sp_type(old(self)@),
    {
        let token = match self.advance() {
            Ok(t) => t,
            Err(e) => return Err(e),
        };
        match &token.value {
            TokenType::Keywd(Keyword::Prim(t)) => Ok(TypeDescriptor::Primitive(*t)),
            TokenType::Id(s) => Ok(TypeDescriptor::Class(s.clone())),
            _ => {
                let mut m = token.text();
                m.append(": Expected type (int, char, boolean, ClassName), found '");
                let d = decimal_string(token.line as u64);
                m.append(d.as_str());
                m.append("'");
                Err(m)
            },
        }
    }

    fn expect_id_list(&mut self) -> (r: Result<Vec<String>, String>)
        requires
            old(self).wf(),
        ensures
            final(self).wf(),
            reads_on(old(self)@, final(self)@),
            (final(self)@, match r {
                Ok(v) => Ok(v@.map_values(|s: String| s@)),
                Err(e) => Err(e@),
            }) == sp_id_list(old(self)@, Seq::empty()),
            r is Ok ==> r->Ok_0@.len() <= final(self)@.pos - old(self)@.pos,
    {
        let mut names: Vec<String> = Vec::new();
        let ghost goal = sp_id_list(self@, Seq::empty());
        let ghost p0 = self@.pos;
        assert(names@.map_values(|s: String| s@) =~= Seq::<Seq<char>>::empty());
        let mut result: Option<Result<(), String>> = None;
        while result.is_none()
            invariant
                self.wf(),
                result is None ==> sp_id_list(self@, names@.map_values(|s: String| s@)) == goal,
                result matches Some(Ok(())) ==> goal == (self@, Ok::<Seq<Seq<char>>, Seq<char>>(names@.map_values(|s: String| s@))),
                result matches Some(Err(e)) ==> goal == (self@, Err::<Seq<Seq<char>>, Seq<char>>(e@)),
                names@.len() <= self@.pos - p0,
                p0 <= self@.pos,
                reads_on(old(self)@, self@),
            decreases self@.toks.len() - self@.pos + (if result is None { 1int } else { 0int }),
        {
            let ghost acc = names@.map_values(|s: String| s@);
            match self.expect_id() {
                Err(e) => {
                    result = Some(Err(e));
                },
                Ok(name) => {
                    let ghost nv = name@;
                    names.push(name);
                    assert(names@.map_values(|s: String| s@) =~= acc.push(nv));
                    match self.advance() {
                        Err(e) => {
                            result = Some(Err(e));
                        },
                        Ok(token) => {
                            match &token.value {
                                TokenType::Symbol(Symbol::Delim(Delimiter::Comma)) => {},
                                TokenType::Symbol(Symbol::Delim(Delimiter::Semicolon)) => {
                                    result = Some(Ok(()));
                                },
                                _ => {
                                    let mut m = token.text();
                                    m.append(": Expected ';' found '");
                                    let d = decimal_string(token.line as u64);
                                    m.append(d.as_str());
                                    m.append("'");
                                    result = Some(Err(m));
                                },
                            }
                        },
                    }
                },
            }
        }
        match result {
            Some(Err(e)) => Err(e),
            _ => Ok(names),
        }
    }
}

impl CompilationEngine {
    // -- expressions --

    fn compile_expression(&mut self, Ghost(fuel): Ghost<nat>) -> (r: Result<(), String>)
        requires
            old(self).wf(),
            fuel >= need(old(self)@, 3),
        ensures
            final(self).wf(),
            follows(old(self)@, final(self)@),
            r is Ok ==> old(self)@.pos < final(self)@.pos,
            (final(self)@, rv(r)) == sp_expression(old(self)@, fuel),
            plain_ext(old(self)@, final(self)@),
        decreases fuel, 0nat,
    {
        match self.compile_term(Ghost((fuel - 1) as nat)) {
            Err(e) => {
                return Err(e);
            },
            Ok(()) => {},
        }
        let ghost goal = sp_expr_loop(self@, (fuel - 1) as nat);
        let ghost mut f: nat = (fuel - 1) as nat;
        let mut result: Option<Result<(), String>> = None;
        while result.is_none()
            invariant
                self.wf(),
                follows(old(self)@, self@),
                plain_ext(old(self)@, self@),
                old(self)@.pos < self@.pos,
                f <= fuel - 1,
                result is None ==> sp_expr_loop(self@, f) == goal && f >= need(self@, 2),
                result matches Some(rr) ==> goal == (self@, rv(rr)),
            decreases self@.toks.len() - self@.pos + (if result is None { 1int } else { 0int }),
        {
            match self.peek() {
                Ok(token) => match token.value {
                    TokenType::Symbol(Symbol::Op(op)) => {
                        if op == Operator::Not {
                            let d = decimal_string(token.line as u64);
                            result = Some(
                                Err(concat2(d.as_str(), ": 'Not' operator cannot be used as a binary operator")),
                            );
                        } else {
                            let _ = self.advance();
                            match self.compile_term(Ghost((f - 1) as nat)) {
                                Err(e) => {
                                    result = Some(Err(e));
                                },
                                Ok(()) => {
                                    self.write_arithmetic(op);
                                    proof {
                                        f = (f - 1) as nat;
                                    }
                                },
                            }
                        }
                    },
                    _ => {
                        result = Some(Ok(()));
                    },
                },
                Err(_) => {
                    result = Some(Ok(()));
                },
            }
        }
        match result {
            Some(rr) => rr,
            None => Ok(()),
        }
    }

    fn compile_term(&mut self, Ghost(fuel): Ghost<nat>) -> (r: Result<(), String>)
        requires
            old(self).wf(),
            fuel >= need(old(self)@, 1),
        ensures
            final(self).wf(),
            follows(old(self)@, final(self)@),
            r is Ok ==> old(self)@.pos < final(self)@.pos,
            (final(self)@, rv(r)) == sp_term(old(self)@, fuel),
            plain_ext(old(self)@, final(self)@),
        decreases fuel, 0nat,
    {
        proof {
            lemma_plain_lines(Scope::Const, 0, Seq::empty(), Operator::Add);
        }
        let token = match self.advance() {
            Ok(t) => t,
            Err(e) => {
                return Err(e);
            },
        };
        let line = token.line;
        match token.value {
            TokenType::IntConst(v) => {
                self.write_push(Scope::Const, v);
                Ok(())
            },
            TokenType::StrgConst(val) => {
                self.write_push(Scope::Const, val.as_str().len());
                self.write_call("String.new", 1);
                self.write_string_chars(val.as_str());
                Ok(())
            },
            TokenType::Keywd(k) => match k {
                Keyword::Const(Const::True) => {
                    self.write_push(Scope::Const, 0);
                    self.put_str("not");
                    Ok(())
                },
                Keyword::Const(Const::False) => {
                    self.write_push(Scope::Const, 0);
                    Ok(())
                },
                Keyword::Const(Const::Null) => {
                    self.write_push(Scope::Const, 0);
                    Ok(())
                },
                Keyword::Const(Const::This) => {
                    self.write_push(Scope::Pointer, 0);
                    Ok(())
                },
                _ => {
                    let d = decimal_string(line as u64);
                    let mut m = d;
                    m.append(": Expected constant, found keyword '");
                    m.append(k.text());
                    m.append("'");
                    Err(m)
                },
            },
            TokenType::Symbol(Symbol::Op(op)) => {
                if op == Operator::Sub || op == Operator::Not {
                    match self.compile_term(Ghost((fuel - 1) as nat)) {
                        Err(e) => Err(e),
                        Ok(()) => {
                            self.put_str(if op == Operator::Sub { "neg" } else { "not" });
                            Ok(())
                        },
                    }
                } else {
                    let d = decimal_string(line as u64);
                    let mut m = d;
                    m.append(": Unexpected binary operator '");
                    m.append(op.text());
                    m.append("' in unary position");
                    Err(m)
                }
            },
            TokenType::Symbol(Symbol::Delim(Delimiter::OpenParen)) => {
                match self.compile_expression(Ghost((fuel - 1) as nat)) {
                    Err(e) => Err(e),
                    Ok(()) => self.expect_symbol(Symbol::Delim(Delimiter::CloseParen)),
                }
            },
            TokenType::Id(name) => self.compile_id(name, Ghost((fuel - 1) as nat)),
            _ => {
                let d = decimal_string(line as u64);
                let mut m = d;
                m.append(": Unexpected term token: '");
                let tt = token.value.text();
                m.append(tt.as_str());
                m.append("'");
                Err(m)
            },
        }
    }

    fn write_string_chars(&mut self, val: &str)
        requires
            old(self).wf(),
        ensures
            final(self).wf(),
            final(self)@ == (EngineModel { out: old(self)@.out + string_lines(val@), ..old(self)@ }),
            plain_ext(old(self)@, final(self)@),
    {
        proof {
            lemma_string_lines_plain(val@);
        }
        let cs = crate::text::chars_of(val);
        let mut i: usize = 0;
        assert(cs@.take(0) =~= Seq::<char>::empty());
        assert(old(self)@.out + string_lines(Seq::<char>::empty()) =~= old(self)@.out);
        while i < cs.len()
            invariant
                self.wf(),
                i <= cs@.len(),
                cs@ == val@,
                self@ == (EngineModel { out: old(self)@.out + string_lines(cs@.take(i as int)), ..old(self)@ }),
            decreases cs@.len() - i,
        {
            let code: u32 = cs[i] as u32;
            self.write_push(Scope::Const, code as usize);
            self.write_call("String.append", 2);
            assert(cs@.take(i + 1).drop_last() =~= cs@.take(i as int));
            assert(self@.out =~= old(self)@.out + string_lines(cs@.take(i + 1)));
            i = i + 1;
        }
        assert(cs@.take(cs@.len() as int) =~= cs@);
    }

    fn lookup(&self, name: &str) -> (r: Option<(Scope, usize)>)
        requires
            self.wf(),
        ensures
            match r {
                Some((s, i)) => self@.table.symbols.contains_key(name@) && s
                    == self@.table.symbols[name@].segment && i == self@.table.symbols[name@].index,
                None => !self@.table.symbols.contains_key(name@),
            },
    {
        match (self.symbol_table.kind_of(name), self.symbol_table.index_of(name)) {
            (Some(k), Some(i)) => Some((k, i)),
            _ => None,
        }
    }

    fn compile_id(&mut self, name: String, Ghost(fuel): Ghost<nat>) -> (r: Result<(), String>)
        requires
            old(self).wf(),
            fuel >= need(old(self)@, 2),
        ensures
            final(self).wf(),
            follows(old(self)@, final(self)@),
            (final(self)@, rv(r)) == sp_id(old(self)@, name@, fuel),
            plain_ext(old(self)@, final(self)@),
        decreases fuel, 0nat,
    {
        let next = match self.peek() {
            Ok(t) => t,
            Err(e) => {
                return Err(e);
            },
        };
        match next.value {
            TokenType::Symbol(Symbol::Delim(Delimiter::OpenBracket)) => {
                match self.lookup(name.as_str()) {
                    None => Err(concat2("Undefined array: ", name.as_str())),
                    Some((kind, index)) => {
                        self.write_push(kind, index);
                        let _ = self.advance();
                        match self.compile_expression(Ghost((fuel - 1) as nat)) {
                            Err(e) => Err(e),
                            Ok(()) => match self.expect_symbol(Symbol::Delim(Delimiter::CloseBracket)) {
                                Err(e) => Err(e),
                                Ok(()) => {
                                    self.write_arithmetic(Operator::Add);
                                    self.write_pop(Scope::Pointer, 1);
                                    self.write_push(Scope::That, 0);
                                    Ok(())
                                },
                            },
                        }
                    },
                }
            },
            TokenType::Symbol(Symbol::Delim(Delimiter::OpenParen)) => {
                let _ = self.advance();
                self.write_push(Scope::Pointer, 0);
                let target = concat3(self.class_name.as_str(), ".", name.as_str());
                self.call_rest(target.as_str(), 1, Ghost((fuel - 1) as nat))
            },
            TokenType::Symbol(Symbol::Delim(Delimiter::Dot)) => {
                let _ = self.advance();
                let sub = match self.expect_id() {
                    Ok(s) => s,
                    Err(e) => {
                        return Err(e);
                    },
                };
                match self.expect_symbol(Symbol::Delim(Delimiter::OpenParen)) {
                    Err(e) => {
                        return Err(e);
                    },
                    Ok(()) => {},
                }
                match self.lookup(name.as_str()) {
                    Some((kind, index)) => {
                        self.write_push(kind, index);
                        let class = match self.symbol_table.type_of(name.as_str()) {
                            Some(TypeDescriptor::Class(c)) => Some(c.clone()),
                            _ => None,
                        };
                        match class {
                            Some(c) => {
                                let target = concat3(c.as_str(), ".", sub.as_str());
                                self.call_rest(target.as_str(), 1, Ghost((fuel - 1) as nat))
                            },
                            None => Err(concat2("Cannot call method on primitive ", name.as_str())),
                        }
                    },
                    None => {
                        let target = concat3(name.as_str(), ".", sub.as_str());
                        self.call_rest(target.as_str(), 0, Ghost((fuel - 1) as nat))
                    },
                }
            },
            _ => {
                match self.lookup(name.as_str()) {
                    Some((kind, index)) => {
                        self.write_push(kind, index);
                        Ok(())
                    },
                    None => Err(concat2("Undefined variable: ", name.as_str())),
                }
            },
        }
    }

    fn call_rest(&mut self, target: &str, extra: usize, Ghost(fuel): Ghost<nat>) -> (r: Result<(), String>)
        requires
            old(self).wf(),
            fuel >= need(old(self)@, 5),
            extra <= 1,
        ensures
            final(self).wf(),
            follows(old(self)@, final(self)@),
            (final(self)@, rv(r)) == sp_call_rest(old(self)@, target@, extra as nat, fuel),
            plain_ext(old(self)@, final(self)@),
        decreases fuel, 1nat,
    {
        let n = match self.compile_expression_list(Ghost(fuel)) {
            Ok(n) => n,
            Err(e) => {
                return Err(e);
            },
        };
        match self.expect_symbol(Symbol::Delim(Delimiter::CloseParen)) {
            Err(e) => Err(e),
            Ok(()) => {
                self.write_call(target, n + extra);
                Ok(())
            },
        }
    }

    fn compile_expression_list(&mut self, Ghost(fuel): Ghost<nat>) -> (r: Result<usize, String>)
        requires
            old(self).wf(),
            fuel >= need(old(self)@, 5),
        ensures
            final(self).wf(),
            follows(old(self)@, final(self)@),
            r is Ok ==> r->Ok_0 <= final(self)@.pos - old(self)@.pos,
            (final(self)@, count_view(r)) == sp_expression_list(old(self)@, fuel),
            plain_ext(old(self)@, final(self)@),
        decreases fuel, 0nat,
    {
        match self.peek() {
            Err(e) => {
                return Err(e);
            },
            Ok(t) => {
                if let TokenType::Symbol(Symbol::Delim(Delimiter::CloseParen)) = t.value {
                    return Ok(0);
                }
            },
        }
        let ghost p0 = self@.pos;
        let ghost goal = sp_list_loop(self@, 0, (fuel - 1) as nat);
        let ghost mut f: nat = (fuel - 1) as nat;
        let mut count: usize = 0;
        let mut result: Option<Result<usize, String>> = None;
        while result.is_none()
            invariant
                self.wf(),
                follows(old(self)@, self@),
                plain_ext(old(self)@, self@),
                p0 == old(self)@.pos,
                f <= fuel - 1,
                count <= self@.pos - p0,
                result is None ==> sp_list_loop(self@, count as nat, f) == goal && f >= need(self@, 4),
                result matches Some(rr) ==> goal == (self@, count_view(rr)),
                result matches Some(Ok(c)) ==> c <= self@.pos - p0,
            decreases self@.toks.len() - self@.pos + (if result is None { 1int } else { 0int }),
        {
            match self.compile_expression(Ghost((f - 1) as nat)) {
                Err(e) => {
                    result = Some(Err(e));
                },
                Ok(()) => match self.peek() {
                    Err(e) => {
                        result = Some(Err(e));
                    },
                    Ok(t) => {
                        if let TokenType::Symbol(Symbol::Delim(Delimiter::Comma)) = t.value {
                            let _ = self.advance();
                            count = count + 1;
                            proof {
                                f = (f - 1) as nat;
                            }
                        } else {
                            result = Some(Ok(count + 1));
                        }
                    },
                },
            }
        }
        match result {
            Some(rr) => rr,
            None => Ok(count),
        }
    }
}

impl CompilationEngine {
    // -- statements --

    fn compile_statements(&mut self, Ghost(fuel): Ghost<nat>) -> (r: Result<(), String>)
        requires
            old(self).wf(),
            fuel >= need(old(self)@, 5),
        ensures
            final(self).wf(),
            follows(old(self)@, final(self)@),
            r is Ok ==> old(self)@.pos < final(self)@.pos,
            (final(self)@, rv(r)) == sp_statements(old(self)@, fuel),
            r is Ok ==> stmt_ext(old(self)@, final(self)@),
        decreases fuel, 0nat,
    {
        let ghost goal = sp_statements(self@, fuel);
        let ghost mut f: nat = fuel;
        let mut result: Option<Result<(), String>> = None;
        while result.is_none()
            invariant
                self.wf(),
                follows(old(self)@, self@),
                f <= fuel,
                result is None ==> sp_statements(self@, f) == goal && f >= need(self@, 5),
                result matches Some(rr) ==> goal == (self@, rv(rr)),
                result matches Some(Ok(_)) ==> old(self)@.pos < self@.pos,
                !(result matches Some(Err(_))) ==> stmt_ext(old(self)@, self@),
            decreases self@.toks.len() - self@.pos + (if result is None { 1int } else { 0int }),
        {
            match self.advance() {
                Err(e) => {
                    result = Some(Err(e));
                },
                Ok(token) => match token.value {
                    TokenType::Keywd(Keyword::Action(a)) => {
                        if a == Action::Else {
                            let d = decimal_string(token.line as u64);
                            result = Some(Err(concat2(d.as_str(), ": Unexpected 'else'")));
                        } else {
                            let ghost prev = self@;
                            match self.compile_statement(a, Ghost((f - 1) as nat)) {
                                Err(e) => {
                                    result = Some(Err(e));
                                },
                                Ok(()) => {
                                    proof {
                                        f = (f - 1) as nat;
                                        lemma_stmt_ext_trans(old(self)@, prev, self@);
                                    }
                                },
                            }
                        }
                    },
                    TokenType::Symbol(Symbol::Delim(Delimiter::CloseBrace)) => {
                        result = Some(Ok(()));
                    },
                    _ => {
                        result = Some(Err(found_string(&token, "Expected statement or '}'")));
                    },
                },
            }
        }
        match result {
            Some(rr) => rr,
            None => Ok(()),
        }
    }

    fn compile_statement(&mut self, a: Action, Ghost(fuel): Ghost<nat>) -> (r: Result<(), String>)
        requires
            old(self).wf(),
            fuel >= need(old(self)@, 4),
            old(self)@.labels < old(self)@.pos,
        ensures
            final(self).wf(),
            follows(old(self)@, final(self)@),
            (final(self)@, rv(r)) == sp_statement(old(self)@, a, fuel),
            r is Ok ==> stmt_ext(old(self)@, final(self)@),
        decreases fuel, 1nat,
    {
        match a {
            Action::Let => self.compile_let(Ghost(fuel)),
            Action::If => self.compile_if(Ghost(fuel)),
            Action::While => self.compile_while(Ghost(fuel)),
            Action::Do => self.compile_do(Ghost(fuel)),
            _ => self.compile_return(Ghost(fuel)),
        }
    }

    fn compile_let(&mut self, Ghost(fuel): Ghost<nat>) -> (r: Result<(), String>)
        requires
            old(self).wf(),
            fuel >= need(old(self)@, 4),
        ensures
            final(self).wf(),
            follows(old(self)@, final(self)@),
            (final(self)@, rv(r)) == sp_let(old(self)@, fuel),
            plain_ext(old(self)@, final(self)@),
        decreases fuel, 0nat,
    {
        let name = match self.expect_id() {
            Ok(n) => n,
            Err(e) => {
                return Err(e);
            },
        };
        let next = match self.peek() {
            Ok(t) => t,
            Err(e) => {
                return Err(e);
            },
        };
        match next.value {
            TokenType::Symbol(Symbol::Delim(Delimiter::OpenBracket)) => {
                match self.lookup(name.as_str()) {
                    None => Err(String::from_str("Undefined var")),
                    Some((kind, index)) => {
                        self.write_push(kind, index);
                        let _ = self.advance();
                        match self.compile_expression(Ghost((fuel - 1) as nat)) {
                            Err(e) => Err(e),
                            Ok(()) => match self.expect_symbol(Symbol::Delim(Delimiter::CloseBracket)) {
                                Err(e) => Err(e),
                                Ok(()) => {
                                    self.write_arithmetic(Operator::Add);
                                    self.let_rest(name.as_str(), true, Ghost((fuel - 1) as nat))
                                },
                            },
                        }
                    },
                }
            },
            _ => self.let_rest(name.as_str(), false, Ghost((fuel - 1) as nat)),
        }
    }

    fn let_rest(&mut self, name: &str, is_array: bool, Ghost(fuel): Ghost<nat>) -> (r: Result<(), String>)
        requires
            old(self).wf(),
            fuel >= need(old(self)@, 3),
        ensures
            final(self).wf(),
            follows(old(self)@, final(self)@),
            (final(self)@, rv(r)) == sp_let_rest(old(self)@, name@, is_array, fuel),
            plain_ext(old(self)@, final(self)@),
        decreases fuel, 1nat,
    {
        match self.expect_symbol(Symbol::Op(Operator::Equal)) {
            Err(e) => {
                return Err(e);
            },
            Ok(()) => {},
        }
        match self.compile_expression(Ghost(fuel)) {
            Err(e) => {
                return Err(e);
            },
            Ok(()) => {},
        }
        match self.expect_symbol(Symbol::Delim(Delimiter::Semicolon)) {
            Err(e) => {
                return Err(e);
            },
            Ok(()) => {},
        }
        if is_array {
            self.write_pop(Scope::Temp, 0);
            self.write_pop(Scope::Pointer, 1);
            self.write_push(Scope::Temp, 0);
            self.write_pop(Scope::That, 0);
            Ok(())
        } else {
            match self.lookup(name) {
                Some((kind, index)) => {
                    self.write_pop(kind, index);
                    Ok(())
                },
                None => Err(String::from_str("Undefined var")),
            }
        }
    }

    fn compile_condition(&mut self, Ghost(fuel): Ghost<nat>) -> (r: Result<(), String>)
        requires
            old(self).wf(),
            fuel >= need(old(self)@, 3),
        ensures
            final(self).wf(),
            follows(old(self)@, final(self)@),
            (final(self)@, rv(r)) == sp_condition(old(self)@, fuel),
            plain_ext(old(self)@, final(self)@),
        decreases fuel, 1nat,
    {
        match self.expect_symbol(Symbol::Delim(Delimiter::OpenParen)) {
            Err(e) => {
                return Err(e);
            },
            Ok(()) => {},
        }
        match self.compile_expression(Ghost(fuel)) {
            Err(e) => Err(e),
            Ok(()) => self.expect_symbol(Symbol::Delim(Delimiter::CloseParen)),
        }
    }

    fn compile_block(&mut self, Ghost(fuel): Ghost<nat>) -> (r: Result<(), String>)
        requires
            old(self).wf(),
            fuel >= need(old(self)@, 3),
        ensures
            final(self).wf(),
            follows(old(self)@, final(self)@),
            (final(self)@, rv(r)) == sp_block(old(self)@, fuel),
            r is Ok ==> stmt_ext(old(self)@, final(self)@),
        decreases fuel, 1nat,
    {
        match self.expect_symbol(Symbol::Delim(Delimiter::OpenBrace)) {
            Err(e) => Err(e),
            Ok(()) => self.compile_statements(Ghost(fuel)),
        }
    }

    #[verifier::rlimit(50)]
    #[verifier::spinoff_prover]
    fn compile_if(&mut self, Ghost(fuel): Ghost<nat>) -> (r: Result<(), String>)
        requires
            old(self).wf(),
            fuel >= need(old(self)@, 4),
            old(self)@.labels < old(self)@.pos,
        ensures
            final(self).wf(),
            follows(old(self)@, final(self)@),
            (final(self)@, rv(r)) == sp_if(old(self)@, fuel),
            r is Ok ==> stmt_ext(old(self)@, final(self)@),
        decreases fuel, 0nat,
    {
        let ghost a = self@;
        let n = decimal_string(self.label_count as u64);
        self.label_count = self.label_count + 1;
        match self.compile_condition(Ghost((fuel - 1) as nat)) {
            Err(e) => {
                return Err(e);
            },
            Ok(()) => {},
        }
        let ghost s1 = self@;
        self.put(concat2("if-goto IF_TRUE", n.as_str()));
        self.put(concat2("goto IF_FALSE", n.as_str()));
        self.put(concat2("label IF_TRUE", n.as_str()));
        let ghost s2 = self@;
        match self.compile_block(Ghost((fuel - 1) as nat)) {
            Err(e) => {
                return Err(e);
            },
            Ok(()) => {},
        }
        let ghost s3 = self@;
        let has_else = match self.peek() {
            Ok(t) => match t.value {
                TokenType::Keywd(Keyword::Action(Action::Else)) => true,
                _ => false,
            },
            Err(_) => false,
        };
        if has_else {
            self.put(concat2("goto IF_END", n.as_str()));
            self.put(concat2("label IF_FALSE", n.as_str()));
            let _ = self.advance();
            let ghost s4 = self@;
            match self.compile_block(Ghost((fuel - 1) as nat)) {
                Err(e) => Err(e),
                Ok(()) => {
                    let ghost s5 = self@;
                    self.put(concat2("label IF_END", n.as_str()));
                    proof {
                        lemma_stmt_region(s2, s3, self@.out);
                        lemma_stmt_region(s4, s5, self@.out);
                        lemma_if_region(
                            self@.out,
                            a.out.len() as int,
                            s1.out.len() as int,
                            s3.out.len() as int,
                            s5.out.len() as int,
                            a.labels as nat,
                            s3.labels,
                            s5.labels,
                            true,
                        );
                        lemma_region_stmt(a, self@);
                    }
                    Ok(())
                },
            }
        } else {
            self.put(concat2("label IF_FALSE", n.as_str()));
            proof {
                lemma_stmt_region(s2, s3, self@.out);
                lemma_if_region(
                    self@.out,
                    a.out.len() as int,
                    s1.out.len() as int,
                    s3.out.len() as int,
                    0,
                    a.labels as nat,
                    s3.labels,
                    0,
                    false,
                );
                lemma_region_stmt(a, self@);
            }
            Ok(())
        }
    }

    fn compile_while(&mut self, Ghost(fuel): Ghost<nat>) -> (r: Result<(), String>)
        requires
            old(self).wf(),
            fuel >= need(old(self)@, 4),
            old(self)@.labels < old(self)@.pos,
        ensures
            final(self).wf(),
            follows(old(self)@, final(self)@),
            (final(self)@, rv(r)) == sp_while(old(self)@, fuel),
            r is Ok ==> stmt_ext(old(self)@, final(self)@),
        decreases fuel, 0nat,
    {
        let ghost a = self@;
        proof {
            lemma_plain_lines(Scope::Const, 0, Seq::empty(), Operator::Add);
        }
        let n = decimal_string(self.label_count as u64);
        self.label_count = self.label_count + 1;
        self.put(concat2("label WHILE_EXP", n.as_str()));
        match self.compile_condition(Ghost((fuel - 1) as nat)) {
            Err(e) => {
                return Err(e);
            },
            Ok(()) => {},
        }
        let ghost s1 = self@;
        self.put_str("not");
        self.put(concat2("if-goto WHILE_END", n.as_str()));
        let ghost s2 = self@;
        match self.compile_block(Ghost((fuel - 1) as nat)) {
            Err(e) => Err(e),
            Ok(()) => {
                let ghost s3 = self@;
                self.put(concat2("goto WHILE_EXP", n.as_str()));
                self.put(concat2("label WHILE_END", n.as_str()));
                proof {
                    lemma_stmt_region(s2, s3, self@.out);
                    lemma_while_region(
                        self@.out,
                        a.out.len() as int,
                        s1.out.len() as int,
                        s3.out.len() as int,
                        a.labels as nat,
                        s3.labels,
                    );
                    lemma_region_stmt(a, self@);
                }
                Ok(())
            },
        }
    }

    fn compile_do(&mut self, Ghost(fuel): Ghost<nat>) -> (r: Result<(), String>)
        requires
            old(self).wf(),
            fuel >= need(old(self)@, 4),
        ensures
            final(self).wf(),
            follows(old(self)@, final(self)@),
            (final(self)@, rv(r)) == sp_do(old(self)@, fuel),
            plain_ext(old(self)@, final(self)@),
        decreases fuel, 0nat,
    {
        match self.compile_expression(Ghost((fuel - 1) as nat)) {
            Err(e) => {
                return Err(e);
            },
            Ok(()) => {},
        }
        match self.expect_symbol(Symbol::Delim(Delimiter::Semicolon)) {
            Err(e) => Err(e),
            Ok(()) => {
                self.write_pop(Scope::Temp, 0);
                Ok(())
            },
        }
    }

    fn compile_return(&mut self, Ghost(fuel): Ghost<nat>) -> (r: Result<(), String>)
        requires
            old(self).wf(),
            fuel >= need(old(self)@, 4),
        ensures
            final(self).wf(),
            follows(old(self)@, final(self)@),
            (final(self)@, rv(r)) == sp_return(old(self)@, fuel),
            plain_ext(old(self)@, final(self)@),
        decreases fuel, 0nat,
    {
        proof {
            lemma_plain_lines(Scope::Const, 0, Seq::empty(), Operator::Add);
        }
        let next = match self.peek() {
            Ok(t) => t,
            Err(e) => {
                return Err(e);
            },
        };
        match next.value {
            TokenType::Symbol(Symbol::Delim(Delimiter::Semicolon)) => {
                self.write_push(Scope::Const, 0);
            },
            _ => {
                match self.compile_expression(Ghost((fuel - 1) as nat)) {
                    Err(e) => {
                        return Err(e);
                    },
                    Ok(()) => {},
                }
            },
        }
        match self.expect_symbol(Symbol::Delim(Delimiter::Semicolon)) {
            Err(e) => Err(e),
            Ok(()) => {
                self.put_str("return");
                Ok(())
            },
        }
    }
}

impl CompilationEngine {
    // -- declarations --

    /// Declares each of `names`, in order, with type `ty` in scope `seg`.
    fn define_names(&mut self, names: &Vec<String>, ty: &TypeDescriptor, seg: Scope)
        requires
            old(self).wf(),
            declarable(seg),
            count_of(old(self)@.table, seg) + names@.len() <= old(self)@.pos,
        ensures
            final(self).wf(),
            final(self)@ == (EngineModel {
                table: define_all(old(self)@.table, names@.map_values(|s: String| s@), ty@, seg),
                ..old(self)@
            }),
    {
        let ghost nv = names@.map_values(|s: String| s@);
        let ghost t0 = self@.table;
        let mut i: usize = 0;
        assert(nv.take(0) =~= Seq::<Seq<char>>::empty());
        while i < names.len()
            invariant
                self.wf(),
                declarable(seg),
                i <= names@.len(),
                nv == names@.map_values(|s: String| s@),
                count_of(t0, seg) + names@.len() <= self@.pos,
                count_of(self@.table, seg) == count_of(t0, seg) + i,
                self@ == (EngineModel { table: define_all(t0, nv.take(i as int), ty@, seg), ..old(self)@ }),
            decreases names@.len() - i,
        {
            self.symbol_table.define(names[i].as_str(), ty, seg);
            assert(nv.take(i + 1).drop_last() =~= nv.take(i as int));
            i = i + 1;
        }
        assert(nv.take(names@.len() as int) =~= nv);
    }

    /// `var type a, b;`
    fn compile_var_dec(&mut self) -> (r: Result<(), String>)
        requires
            old(self).wf(),
        ensures
            final(self).wf(),
            follows(old(self)@, final(self)@),
            r is Ok ==> old(self)@.pos < final(self)@.pos,
            (final(self)@, rv(r)) == sp_var_dec(old(self)@),
            final(self)@.out == old(self)@.out && final(self)@.labels == old(self)@.labels,
    {
        let _ = self.advance();
        let ty = match self.get_type_descriptor() {
            Ok(t) => t,
            Err(e) => {
                return Err(e);
            },
        };
        let names = match self.expect_id_list() {
            Ok(n) => n,
            Err(e) => {
                return Err(e);
            },
        };
        self.define_names(&names, &ty, Scope::Var);
        Ok(())
    }

    /// `static|field type a, b;`
    fn compile_class_var_dec(&mut self) -> (r: Result<(), String>)
        requires
            old(self).wf(),
            peeks_class_var(old(self)@),
        ensures
            final(self).wf(),
            follows(old(self)@, final(self)@),
            r is Ok ==> old(self)@.pos < final(self)@.pos,
            (final(self)@, rv(r)) == sp_class_var_dec(old(self)@),
            final(self)@.out == old(self)@.out && final(self)@.labels == old(self)@.labels,
    {
        let token = match self.advance() {
            Ok(t) => t,
            Err(e) => {
                return Err(e);
            },
        };
        let seg = match token.value {
            TokenType::Keywd(Keyword::Scope(s)) => s,
            _ => {
                return Err(found_string(&token, "Expected static or field"));
            },
        };
        let ty = match self.get_type_descriptor() {
            Ok(t) => t,
            Err(e) => {
                return Err(e);
            },
        };
        let names = match self.expect_id_list() {
            Ok(n) => n,
            Err(e) => {
                return Err(e);
            },
        };
        self.define_names(&names, &ty, seg);
        Ok(())
    }

    /// `( (type name (, type name)*)? )`, each parameter an argument.
    fn compile_parameter_list(&mut self) -> (r: Result<(), String>)
        requires
            old(self).wf(),
        ensures
            final(self).wf(),
            follows(old(self)@, final(self)@),
            (final(self)@, rv(r)) == sp_parameter_list(old(self)@),
            final(self)@.out == old(self)@.out && final(self)@.labels == old(self)@.labels,
    {
        match self.expect_symbol(Symbol::Delim(Delimiter::OpenParen)) {
            Err(e) => {
                return Err(e);
            },
            Ok(()) => {},
        }
        let mut token = match self.advance() {
            Ok(t) => t,
            Err(e) => {
                return Err(e);
            },
        };
        if let TokenType::Symbol(Symbol::Delim(Delimiter::CloseParen)) = token.value {
            return Ok(());
        }
        let ghost goal = sp_param_loop(self@, token@);
        let mut result: Option<Result<(), String>> = None;
        while result.is_none()
            invariant
                self.wf(),
                follows(old(self)@, self@),
                result is None ==> sp_param_loop(self@, token@) == goal,
                self@.out == old(self)@.out && self@.labels == old(self)@.labels,
                result matches Some(rr) ==> goal == (self@, rv(rr)),
            decreases self@.toks.len() - self@.pos + (if result is None { 1int } else { 0int }),
        {
            let ty = match &token.value {
                TokenType::Keywd(Keyword::Prim(p)) => Some(TypeDescriptor::Primitive(*p)),
                TokenType::Id(c) => Some(TypeDescriptor::Class(c.clone())),
                _ => None,
            };
            match ty {
                None => {
                    result = Some(Err(found_string(&token, "Expected type")));
                },
                Some(ty) => match self.expect_id() {
                    Err(e) => {
                        result = Some(Err(e));
                    },
                    Ok(name) => {
                        self.symbol_table.define(name.as_str(), &ty, Scope::Arg);
                        match self.advance() {
                            Err(e) => {
                                result = Some(Err(e));
                            },
                            Ok(t2) => match t2.value {
                                TokenType::Symbol(Symbol::Delim(Delimiter::CloseParen)) => {
                                    result = Some(Ok(()));
                                },
                                TokenType::Symbol(Symbol::Delim(Delimiter::Comma)) => {
                                    match self.advance() {
                                        Err(e) => {
                                            result = Some(Err(e));
                                        },
                                        Ok(t3) => {
                                            token = t3;
                                        },
                                    }
                                },
                                _ => {
                                    result = Some(Err(found_string(&t2, "Expected ')'")));
                                },
                            },
                        }
                    },
                },
            }
        }
        match result {
            Some(rr) => rr,
            None => Ok(()),
        }
    }

    /// A subroutine's body: `{`, local declarations, the entry lines of
    /// subroutine `f`, statements and `}`.
    fn compile_body(&mut self, kind: Routine, f: &str, Ghost(fuel): Ghost<nat>) -> (r: Result<(), String>)
        requires
            old(self).wf(),
            fuel >= need(old(self)@, 0),
        ensures
            final(self).wf(),
            follows(old(self)@, final(self)@),
            (final(self)@, rv(r)) == sp_body(old(self)@, kind, f@, fuel),
            r is Ok ==> unit_ext(old(self)@, final(self)@),
        decreases fuel, 1nat,
    {
        let ghost a = self@;
        match self.expect_symbol(Symbol::Delim(Delimiter::OpenBrace)) {
            Err(e) => {
                return Err(e);
            },
            Ok(()) => {},
        }
        let ghost goal = sp_var_dec_loop(self@, fuel);
        let ghost mut fl: nat = fuel;
        let mut result: Option<Result<(), String>> = None;
        while result.is_none()
            invariant
                self.wf(),
                follows(old(self)@, self@),
                old(self)@.pos < self@.pos,
                result is None ==> sp_var_dec_loop(self@, fl) == goal && fl >= self@.toks.len() - self@.pos + 1,
                self@.out == a.out && self@.labels == a.labels,
                result matches Some(rr) ==> goal == (self@, rv(rr)),
            decreases self@.toks.len() - self@.pos + (if result is None { 1int } else { 0int }),
        {
            let is_var = match self.peek() {
                Ok(t) => match t.value {
                    TokenType::Keywd(Keyword::Scope(Scope::Var)) => true,
                    _ => false,
                },
                Err(_) => false,
            };
            if is_var {
                match self.compile_var_dec() {
                    Err(e) => {
                        result = Some(Err(e));
                    },
                    Ok(()) => {
                        proof {
                            fl = (fl - 1) as nat;
                        }
                    },
                }
            } else {
                result = Some(Ok(()));
            }
        }
        match result {
            Some(Err(e)) => {
                return Err(e);
            },
            _ => {},
        }
        let locals = self.symbol_table.local_count();
        match kind {
            Routine::Constructor => {
                self.write_function(f, locals);
                let fields = self.symbol_table.field_count();
                self.write_push(Scope::Const, fields);
                self.write_call("Memory.alloc", 1);
                self.write_pop(Scope::Pointer, 0);
            },
            Routine::Method => {
                self.write_pop(Scope::Pointer, 0);
                self.write_function(f, locals);
            },
            Routine::Function => {
                self.write_function(f, locals);
            },
        }
        let ghost e = self@;
        proof {
            crate::jack::vm_code::lemma_pop_pointer_line();
            let lo = a.out.len() as int;
            assert(e.out.len() > lo);
            match kind {
                Routine::Method => {
                    assert(e.out[lo] == pop_line(Scope::Pointer, 0));
                    assert(e.out[lo + 1] == function_line(f@, locals as nat));
                },
                _ => {
                    assert(e.out[lo] == function_line(f@, locals as nat));
                },
            }
        }
        let r = self.compile_statements(Ghost(fuel));
        proof {
            if r is Ok {
                lemma_body_unit(a, e, self@);
            }
        }
        r
    }

    /// A subroutine declaration, after a flush of the table.
    fn compile_subroutine(&mut self, Ghost(fuel): Ghost<nat>) -> (r: Result<(), String>)
        requires
            old(self).wf(),
            fuel >= need(old(self)@, 1),
        ensures
            final(self).wf(),
            follows(old(self)@, final(self)@),
            r is Ok ==> old(self)@.pos < final(self)@.pos,
            (final(self)@, rv(r)) == sp_subroutine(old(self)@, fuel),
            r is Ok ==> unit_ext(old(self)@, final(self)@),
        decreases fuel, 0nat,
    {
        self.symbol_table.flush_subroutine();
        let token = match self.advance() {
            Ok(t) => t,
            Err(e) => {
                return Err(e);
            },
        };
        let line = token.line;
        match token.value {
            TokenType::Keywd(Keyword::Routine(Routine::Constructor)) => {
                let id = match self.expect_id() {
                    Ok(s) => s,
                    Err(e) => {
                        return Err(e);
                    },
                };
                if !str_eq(id.as_str(), self.class_name.as_str()) {
                    let d = decimal_string(line as u64);
                    return Err(concat2(d.as_str(), ": Constructor name must match class name"));
                }
                match self.compile_parameter_list() {
                    Err(e) => {
                        return Err(e);
                    },
                    Ok(()) => {},
                }
                let f = concat2(self.class_name.as_str(), ".new");
                self.compile_body(Routine::Constructor, f.as_str(), Ghost((fuel - 1) as nat))
            },
            TokenType::Keywd(Keyword::Routine(r)) => {
                match self.get_type_descriptor() {
                    Err(e) => {
                        return Err(e);
                    },
                    Ok(_) => {},
                }
                let name = match self.expect_id() {
                    Ok(s) => s,
                    Err(e) => {
                        return Err(e);
                    },
                };
                match self.compile_parameter_list() {
                    Err(e) => {
                        return Err(e);
                    },
                    Ok(()) => {},
                }
                let f = concat3(self.class_name.as_str(), ".", name.as_str());
                self.compile_body(r, f.as_str(), Ghost((fuel - 1) as nat))
            },
            _ => Err(found_string(&token, "Expected constructor, function, or method")),
        }
    }

    fn compile_class_inner(&mut self, Ghost(fuel): Ghost<nat>) -> (r: Result<(), String>)
        requires
            old(self).wf(),
            fuel >= need(old(self)@, 3),
        ensures
            final(self).wf(),
            follows(old(self)@, final(self)@),
            (final(self)@, rv(r)) == sp_class(old(self)@, fuel),
            r is Ok ==> unit_ext(old(self)@, final(self)@),
    {
        let token = match self.advance() {
            Ok(t) => t,
            Err(e) => {
                return Err(e);
            },
        };
        match token.value {
            TokenType::Keywd(Keyword::Class) => {},
            _ => {
                return Err(found_string(&token, "Expected 'class' declaration"));
            },
        }
        let name = match self.expect_id() {
            Ok(s) => s,
            Err(e) => {
                return Err(e);
            },
        };
        self.class_name = name;
        match self.expect_symbol(Symbol::Delim(Delimiter::OpenBrace)) {
            Err(e) => {
                return Err(e);
            },
            Ok(()) => {},
        }
        // class variable declarations
        let ghost goal1 = sp_class_var_loop(self@, (fuel - 1) as nat);
        let ghost mut f: nat = (fuel - 1) as nat;
        let mut result: Option<Result<(), String>> = None;
        while result.is_none()
            invariant
                self.wf(),
                follows(old(self)@, self@),
                old(self)@.pos < self@.pos,
                result is None ==> sp_class_var_loop(self@, f) == goal1 && f >= self@.toks.len() - self@.pos + 1,
                self@.out == old(self)@.out && self@.labels == old(self)@.labels,
                result matches Some(rr) ==> goal1 == (self@, rv(rr)),
            decreases self@.toks.len() - self@.pos + (if result is None { 1int } else { 0int }),
        {
            let is_class_var = match self.peek() {
                Ok(t) => match t.value {
                    TokenType::Keywd(Keyword::Scope(Scope::Static)) => true,
                    TokenType::Keywd(Keyword::Scope(Scope::Field)) => true,
                    _ => false,
                },
                Err(_) => false,
            };
            if is_class_var {
                match self.compile_class_var_dec() {
                    Err(e) => {
                        result = Some(Err(e));
                    },
                    Ok(()) => {
                        proof {
                            f = (f - 1) as nat;
                        }
                    },
                }
            } else {
                result = Some(Ok(()));
            }
        }
        match result {
            Some(Err(e)) => {
                return Err(e);
            },
            _ => {},
        }
        // subroutine declarations
        let ghost goal2 = sp_subroutine_loop(self@, (fuel - 1) as nat);
        proof {
            f = (fuel - 1) as nat;
        }
        let mut result2: Option<Result<(), String>> = None;
        while result2.is_none()
            invariant
                self.wf(),
                follows(old(self)@, self@),
                old(self)@.pos < self@.pos,
                result2 is None ==> sp_subroutine_loop(self@, f) == goal2 && f >= need(self@, 2),
                result2 matches Some(rr) ==> goal2 == (self@, rv(rr)),
                !(result2 matches Some(Err(_))) ==> unit_ext(old(self)@, self@),
            decreases self@.toks.len() - self@.pos + (if result2 is None { 1int } else { 0int }),
        {
            let is_routine = match self.peek() {
                Ok(t) => match t.value {
                    TokenType::Keywd(Keyword::Routine(_)) => true,
                    _ => false,
                },
                Err(_) => false,
            };
            if is_routine {
                let ghost prev = self@;
                match self.compile_subroutine(Ghost((f - 1) as nat)) {
                    Err(e) => {
                        result2 = Some(Err(e));
                    },
                    Ok(()) => {
                        proof {
                            f = (f - 1) as nat;
                            lemma_unit_ext_trans(old(self)@, prev, self@);
                        }
                    },
                }
            } else {
                result2 = Some(Ok(()));
            }
        }
        match result2 {
            Some(Err(e)) => Err(e),
            _ => self.expect_symbol(Symbol::Delim(Delimiter::CloseBrace)),
        }
    }

    /// Compiles one class: `class Name { classVarDec* subroutineDec* }`.
    /// The state after and the result are those of `sp_class` from the
    /// state before, with fuel enough for every token. Compiling reads the
    /// tokens forward, only appends to the lines already written, and never
    /// moves the label counter back.
    pub fn compile_class(&mut self) -> (r: Result<(), String>)
        requires
            old(self).wf(),
        ensures
            final(self).wf(),
            follows(old(self)@, final(self)@),
            (final(self)@, rv(r)) == sp_class(old(self)@, need(old(self)@, 3) as nat),
            r is Ok ==> unit_ext(old(self)@, final(self)@),
            r is Ok && old(self)@.out.len() == 0 ==> vm_code_ok(final(self)@.out),
    {
        let r = self.compile_class_inner(Ghost(need(self@, 3) as nat));
        proof {
            if r is Ok && old(self)@.out.len() == 0 {
                lemma_unit_code_ok(old(self)@, self@);
            }
        }
        r
    }
}

/// The VM segment name of a scope.
fn segment_name(s: Scope) -> (r: &'static str)
    ensures
        r@ == vm_segment(s),
{
    match s {
        Scope::Static => "static",
        Scope::Field => "this",
        Scope::Var => "local",
        Scope::Arg => "argument",
        Scope::Const => "constant",
        Scope::This => "this",
        Scope::That => "that",
        Scope::Pointer => "pointer",
        Scope::Temp => "temp",
    }
}

/// The VM command of an operator.
fn operator_command(op: Operator) -> (r: &'static str)
    ensures
        r@ == op_line(op),
{
    match op {
        Operator::Add => "add",
        Operator::Sub => "sub",
        Operator::Mult => "call Math.multiply 2",
        Operator::Divide => "call Math.divide 2",
        Operator::And => "and",
        Operator::Or => "or",
        Operator::Lesser => "lt",
        Operator::Greater => "gt",
        Operator::Equal => "eq",
        Operator::Not => "not",
    }
}

/// `"<line>: <what>, found '<token>'"`
fn found_string(t: &Token, what: &str) -> (r: String)
    ensures
        r@ == found(t@, what@),
{
    let d = decimal_string(t.line as u64);
    let mut m = d;
    m.append(": ");
    m.append(what);
    m.append(", found '");
    let tt = t.text();
    m.append(tt.as_str());
    m.append("'");
    m
}

} // verus!
