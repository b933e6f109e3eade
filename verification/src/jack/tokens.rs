//! The tokens of the Jack language and their printed forms.
use vstd::prelude::*;
use crate::text::{decimal, decimal_string, push_char, str_eq};

verus! {

/// A variable scope or VM segment (the first three from keywords, the rest VM segments).
#[derive(Debug, Clone, Copy, PartialEq, Eq, Structural)]
pub enum Scope {
    Static,
    Field,
    Var,
    Arg,
    Const,
    This,
    That,
    Pointer,
    Temp,
}

/// How a `Scope` prints.
pub open spec fn scope_text(x: Scope) -> Seq<char> {
    match x {
        Scope::Static => "static"@,
        Scope::Field => "field"@,
        Scope::Var => "var"@,
        Scope::Arg => "argument"@,
        Scope::Const => "constant"@,
        Scope::This => "this"@,
        Scope::That => "that"@,
        Scope::Pointer => "pointer"@,
        Scope::Temp => "temp"@,
    }
}

impl Scope {
    /// How it prints.
    pub fn text(&self) -> (r: &'static str)
        ensures
            r@ == scope_text(*self),
    {
        match self {
            Scope::Static => "static",
            Scope::Field => "field",
            Scope::Var => "var",
            Scope::Arg => "argument",
            Scope::Const => "constant",
            Scope::This => "this",
            Scope::That => "that",
            Scope::Pointer => "pointer",
            Scope::Temp => "temp",
        }
    }
}

/// Statement keywords.
#[derive(Debug, Clone, Copy, PartialEq, Eq, Structural)]
pub enum Action {
    Let,
    Do,
    If,
    Else,
    While,
    Return,
}

/// How a `Action` prints.
pub open spec fn action_text(x: Action) -> Seq<char> {
    match x {
        Action::Let => "let"@,
        Action::Do => "do"@,
        Action::If => "if"@,
        Action::Else => "else"@,
        Action::While => "while"@,
        Action::Return => "return"@,
    }
}

impl Action {
    /// How it prints.
    pub fn text(&self) -> (r: &'static str)
        ensures
            r@ == action_text(*self),
    {
        match self {
            Action::Let => "let",
            Action::Do => "do",
            Action::If => "if",
            Action::Else => "else",
            Action::While => "while",
            Action::Return => "return",
        }
    }
}

/// Primitive types.
#[derive(Debug, Clone, Copy, PartialEq, Eq, Structural)]
pub enum Primitive {
    Int,
    Char,
    Bool,
    Void,
}

/// How a `Primitive` prints.
pub open spec fn primitive_text(x: Primitive) -> Seq<char> {
    match x {
        Primitive::Int => "int"@,
        Primitive::Char => "char"@,
        Primitive::Bool => "boolean"@,
        Primitive::Void => "void"@,
    }
}

impl Primitive {
    /// How it prints.
    pub fn text(&self) -> (r: &'static str)
        ensures
            r@ == primitive_text(*self),
    {
        match self {
            Primitive::Int => "int",
            Primitive::Char => "char",
            Primitive::Bool => "boolean",
            Primitive::Void => "void",
        }
    }
}

/// Subroutine kinds.
#[derive(Debug, Clone, Copy, PartialEq, Eq, Structural)]
pub enum Routine {
    Constructor,
    Function,
    Method,
}

/// How a `Routine` prints.
pub open spec fn routine_text(x: Routine) -> Seq<char> {
    match x {
        Routine::Constructor => "constructor"@,
        Routine::Function => "function"@,
        Routine::Method => "method"@,
    }
}

impl Routine {
    /// How it prints.
    pub fn text(&self) -> (r: &'static str)
        ensures
            r@ == routine_text(*self),
    {
        match self {
            Routine::Constructor => "constructor",
            Routine::Function => "function",
            Routine::Method => "method",
        }
    }
}

/// Keyword constants.
#[derive(Debug, Clone, Copy, PartialEq, Eq, Structural)]
pub enum Const {
    True,
    False,
    Null,
    This,
}

/// How a `Const` prints.
pub open spec fn const_text(x: Const) -> Seq<char> {
    match x {
        Const::True => "true"@,
        Const::False => "false"@,
        Const::Null => "null"@,
        Const::This => "this"@,
    }
}

impl Const {
    /// How it prints.
    pub fn text(&self) -> (r: &'static str)
        ensures
            r@ == const_text(*self),
    {
        match self {
            Const::True => "true",
            Const::False => "false",
            Const::Null => "null",
            Const::This => "this",
        }
    }
}

/// Operator symbols.
#[derive(Debug, Clone, Copy, PartialEq, Eq, Structural)]
pub enum Operator {
    Add,
    Sub,
    Mult,
    Divide,
    And,
    Or,
    Lesser,
    Greater,
    Equal,
    Not,
}

/// How a `Operator` prints.
pub open spec fn operator_text(x: Operator) -> Seq<char> {
    match x {
        Operator::Add => "+"@,
        Operator::Sub => "-"@,
        Operator::Mult => "*"@,
        Operator::Divide => "/"@,
        Operator::And => "&"@,
        Operator::Or => "|"@,
        Operator::Lesser => "<"@,
        Operator::Greater => ">"@,
        Operator::Equal => "="@,
        Operator::Not => "~"@,
    }
}

impl Operator {
    /// How it prints.
    pub fn text(&self) -> (r: &'static str)
        ensures
            r@ == operator_text(*self),
    {
        match self {
            Operator::Add => "+",
            Operator::Sub => "-",
            Operator::Mult => "*",
            Operator::Divide => "/",
            Operator::And => "&",
            Operator::Or => "|",
            Operator::Lesser => "<",
            Operator::Greater => ">",
            Operator::Equal => "=",
            Operator::Not => "~",
        }
    }
}

/// Delimiter symbols.
#[derive(Debug, Clone, Copy, PartialEq, Eq, Structural)]
pub enum Delimiter {
    OpenBrace,
    CloseBrace,
    OpenParen,
    CloseParen,
    OpenBracket,
    CloseBracket,
    Dot,
    Comma,
    Semicolon,
}

/// How a `Delimiter` prints.
pub open spec fn delimiter_text(x: Delimiter) -> Seq<char> {
    match x {
        Delimiter::OpenBrace => "{"@,
        Delimiter::CloseBrace => "}"@,
        Delimiter::OpenParen => "("@,
        Delimiter::CloseParen => ")"@,
        Delimiter::OpenBracket => "["@,
        Delimiter::CloseBracket => "]"@,
        Delimiter::Dot => "."@,
        Delimiter::Comma => ","@,
        Delimiter::Semicolon => ";"@,
    }
}

impl Delimiter {
    /// How it prints.
    pub fn text(&self) -> (r: &'static str)
        ensures
            r@ == delimiter_text(*self),
    {
        match self {
            Delimiter::OpenBrace => "{",
            Delimiter::CloseBrace => "}",
            Delimiter::OpenParen => "(",
            Delimiter::CloseParen => ")",
            Delimiter::OpenBracket => "[",
            Delimiter::CloseBracket => "]",
            Delimiter::Dot => ".",
            Delimiter::Comma => ",",
            Delimiter::Semicolon => ";",
        }
    }
}

/// Keywords.
#[derive(Debug, Clone, Copy, PartialEq, Eq, Structural)]
pub enum Keyword {
    Prim(Primitive),
    Scope(Scope),
    Action(Action),
    Routine(Routine),
    Const(Const),
    Class,
}

/// Symbols.
#[derive(Debug, Clone, Copy, PartialEq, Eq, Structural)]
pub enum Symbol {
    Op(Operator),
    Delim(Delimiter),
}

/// How a keyword prints.
pub open spec fn keyword_text(k: Keyword) -> Seq<char> {
    match k {
        Keyword::Prim(p) => primitive_text(p),
        Keyword::Scope(s) => scope_text(s),
        Keyword::Action(a) => action_text(a),
        Keyword::Routine(r) => routine_text(r),
        Keyword::Const(c) => const_text(c),
        Keyword::Class => "class"@,
    }
}

/// How a symbol prints.
pub open spec fn symbol_text(s: Symbol) -> Seq<char> {
    match s {
        Symbol::Op(o) => operator_text(o),
        Symbol::Delim(d) => delimiter_text(d),
    }
}

/// The keyword a word stands for, where it is one.
pub open spec fn keyword_of(s: Seq<char>) -> Option<Keyword> {
    if s == "int"@ {
        Some(Keyword::Prim(Primitive::Int))
    } else if s == "char"@ {
        Some(Keyword::Prim(Primitive::Char))
    } else if s == "boolean"@ {
        Some(Keyword::Prim(Primitive::Bool))
    } else if s == "void"@ {
        Some(Keyword::Prim(Primitive::Void))
    } else if s == "static"@ {
        Some(Keyword::Scope(Scope::Static))
    } else if s == "field"@ {
        Some(Keyword::Scope(Scope::Field))
    } else if s == "var"@ {
        Some(Keyword::Scope(Scope::Var))
    } else if s == "let"@ {
        Some(Keyword::Action(Action::Let))
    } else if s == "do"@ {
        Some(Keyword::Action(Action::Do))
    } else if s == "if"@ {
        Some(Keyword::Action(Action::If))
    } else if s == "else"@ {
        Some(Keyword::Action(Action::Else))
    } else if s == "while"@ {
        Some(Keyword::Action(Action::While))
    } else if s == "return"@ {
        Some(Keyword::Action(Action::Return))
    } else if s == "constructor"@ {
        Some(Keyword::Routine(Routine::Constructor))
    } else if s == "function"@ {
        Some(Keyword::Routine(Routine::Function))
    } else if s == "method"@ {
        Some(Keyword::Routine(Routine::Method))
    } else if s == "true"@ {
        Some(Keyword::Const(Const::True))
    } else if s == "false"@ {
        Some(Keyword::Const(Const::False))
    } else if s == "null"@ {
        Some(Keyword::Const(Const::Null))
    } else if s == "this"@ {
        Some(Keyword::Const(Const::This))
    } else if s == "class"@ {
        Some(Keyword::Class)
    } else {
        None
    }
}

/// The symbol a character stands for, where it is one.
pub open spec fn symbol_of(c: char) -> Option<Symbol> {
    match c {
        '{' => Some(Symbol::Delim(Delimiter::OpenBrace)),
        '}' => Some(Symbol::Delim(Delimiter::CloseBrace)),
        '(' => Some(Symbol::Delim(Delimiter::OpenParen)),
        ')' => Some(Symbol::Delim(Delimiter::CloseParen)),
        '[' => Some(Symbol::Delim(Delimiter::OpenBracket)),
        ']' => Some(Symbol::Delim(Delimiter::CloseBracket)),
        '.' => Some(Symbol::Delim(Delimiter::Dot)),
        ',' => Some(Symbol::Delim(Delimiter::Comma)),
        ';' => Some(Symbol::Delim(Delimiter::Semicolon)),
        '+' => Some(Symbol::Op(Operator::Add)),
        '-' => Some(Symbol::Op(Operator::Sub)),
        '*' => Some(Symbol::Op(Operator::Mult)),
        '/' => Some(Symbol::Op(Operator::Divide)),
        '&' => Some(Symbol::Op(Operator::And)),
        '|' => Some(Symbol::Op(Operator::Or)),
        '<' => Some(Symbol::Op(Operator::Lesser)),
        '>' => Some(Symbol::Op(Operator::Greater)),
        '=' => Some(Symbol::Op(Operator::Equal)),
        '~' => Some(Symbol::Op(Operator::Not)),
        _ => None,
    }
}

// ---------------------------------------------------------------------------
// Laws of the printed forms
// ---------------------------------------------------------------------------

/// Whether a keyword is one of the language's own (not a VM segment name
/// that only the compiler writes).
pub open spec fn is_source_keyword(k: Keyword) -> bool {
    match k {
        Keyword::Scope(s) => s == Scope::Static || s == Scope::Field || s == Scope::Var,
        _ => true,
    }
}

/// Every keyword of the language reads back from its printed form.
pub proof fn lemma_keyword_round_trip(k: Keyword)
    requires
        is_source_keyword(k),
    ensures
        keyword_of(keyword_text(k)) == Some(k),
{
    reveal_strlit("int");
    assert("int"@.len() == 3 && "int"@[0] == 'i' && "int"@[2] == 't');
    reveal_strlit("char");
    assert("char"@.len() == 4 && "char"@[0] == 'c' && "char"@[3] == 'r');
    reveal_strlit("boolean");
    assert("boolean"@.len() == 7 && "boolean"@[0] == 'b' && "boolean"@[6] == 'n');
    reveal_strlit("void");
    assert("void"@.len() == 4 && "void"@[0] == 'v' && "void"@[3] == 'd');
    reveal_strlit("static");
    assert("static"@.len() == 6 && "static"@[0] == 's' && "static"@[5] == 'c');
    reveal_strlit("field");
    assert("field"@.len() == 5 && "field"@[0] == 'f' && "field"@[4] == 'd');
    reveal_strlit("var");
    assert("var"@.len() == 3 && "var"@[0] == 'v' && "var"@[2] == 'r');
    reveal_strlit("let");
    assert("let"@.len() == 3 && "let"@[0] == 'l' && "let"@[2] == 't');
    reveal_strlit("do");
    assert("do"@.len() == 2 && "do"@[0] == 'd' && "do"@[1] == 'o');
    reveal_strlit("if");
    assert("if"@.len() == 2 && "if"@[0] == 'i' && "if"@[1] == 'f');
    reveal_strlit("else");
    assert("else"@.len() == 4 && "else"@[0] == 'e' && "else"@[3] == 'e');
    reveal_strlit("while");
    assert("while"@.len() == 5 && "while"@[0] == 'w' && "while"@[4] == 'e');
    reveal_strlit("return");
    assert("return"@.len() == 6 && "return"@[0] == 'r' && "return"@[5] == 'n');
    reveal_strlit("constructor");
    assert("constructor"@.len() == 11 && "constructor"@[0] == 'c' && "constructor"@[10] == 'r');
    reveal_strlit("function");
    assert("function"@.len() == 8 && "function"@[0] == 'f' && "function"@[7] == 'n');
    reveal_strlit("method");
    assert("method"@.len() == 6 && "method"@[0] == 'm' && "method"@[5] == 'd');
    reveal_strlit("true");
    assert("true"@.len() == 4 && "true"@[0] == 't' && "true"@[3] == 'e');
    reveal_strlit("false");
    assert("false"@.len() == 5 && "false"@[0] == 'f' && "false"@[4] == 'e');
    reveal_strlit("null");
    assert("null"@.len() == 4 && "null"@[0] == 'n' && "null"@[3] == 'l');
    reveal_strlit("this");
    assert("this"@.len() == 4 && "this"@[0] == 't' && "this"@[3] == 's');
    reveal_strlit("class");
    assert("class"@.len() == 5 && "class"@[0] == 'c' && "class"@[4] == 's');
}

/// A word that reads as a keyword is that keyword's printed form.
pub proof fn lemma_keyword_of_prints_back(s: Seq<char>)
    ensures
        keyword_of(s) matches Some(k) ==> keyword_text(k) == s,
{
}

/// Every symbol prints as one character, which reads back as the symbol.
pub proof fn lemma_symbol_round_trip(s: Symbol)
    ensures
        symbol_text(s).len() == 1,
        symbol_of(symbol_text(s)[0]) == Some(s),
{
    reveal_strlit("{");
    reveal_strlit("}");
    reveal_strlit("(");
    reveal_strlit(")");
    reveal_strlit("[");
    reveal_strlit("]");
    reveal_strlit(".");
    reveal_strlit(",");
    reveal_strlit(";");
    reveal_strlit("+");
    reveal_strlit("-");
    reveal_strlit("*");
    reveal_strlit("/");
    reveal_strlit("&");
    reveal_strlit("|");
    reveal_strlit("<");
    reveal_strlit(">");
    reveal_strlit("=");
    reveal_strlit("~");
}

/// A character that reads as a symbol is that symbol's printed form.
pub proof fn lemma_symbol_of_prints_back(c: char)
    ensures
        symbol_of(c) matches Some(s) ==> symbol_text(s) == seq![c],
{
    reveal_strlit("{");
    reveal_strlit("}");
    reveal_strlit("(");
    reveal_strlit(")");
    reveal_strlit("[");
    reveal_strlit("]");
    reveal_strlit(".");
    reveal_strlit(",");
    reveal_strlit(";");
    reveal_strlit("+");
    reveal_strlit("-");
    reveal_strlit("*");
    reveal_strlit("/");
    reveal_strlit("&");
    reveal_strlit("|");
    reveal_strlit("<");
    reveal_strlit(">");
    reveal_strlit("=");
    reveal_strlit("~");
    if let Some(s) = symbol_of(c) {
        assert(symbol_text(s) =~= seq![c]);
    }
}

impl Keyword {
    /// The keyword that `s` spells, where it spells one.
    pub fn from_str(s: &str) -> (r: Option<Keyword>)
        ensures
            r == keyword_of(s@),
    {
        if str_eq(s, "int") {
            Some(Keyword::Prim(Primitive::Int))
        } else if str_eq(s, "char") {
            Some(Keyword::Prim(Primitive::Char))
        } else if str_eq(s, "boolean") {
            Some(Keyword::Prim(Primitive::Bool))
        } else if str_eq(s, "void") {
            Some(Keyword::Prim(Primitive::Void))
        } else if str_eq(s, "static") {
            Some(Keyword::Scope(Scope::Static))
        } else if str_eq(s, "field") {
            Some(Keyword::Scope(Scope::Field))
        } else if str_eq(s, "var") {
            Some(Keyword::Scope(Scope::Var))
        } else if str_eq(s, "let") {
            Some(Keyword::Action(Action::Let))
        } else if str_eq(s, "do") {
            Some(Keyword::Action(Action::Do))
        } else if str_eq(s, "if") {
            Some(Keyword::Action(Action::If))
        } else if str_eq(s, "else") {
            Some(Keyword::Action(Action::Else))
        } else if str_eq(s, "while") {
            Some(Keyword::Action(Action::While))
        } else if str_eq(s, "return") {
            Some(Keyword::Action(Action::Return))
        } else if str_eq(s, "constructor") {
            Some(Keyword::Routine(Routine::Constructor))
        } else if str_eq(s, "function") {
            Some(Keyword::Routine(Routine::Function))
        } else if str_eq(s, "method") {
            Some(Keyword::Routine(Routine::Method))
        } else if str_eq(s, "true") {
            Some(Keyword::Const(Const::True))
        } else if str_eq(s, "false") {
            Some(Keyword::Const(Const::False))
        } else if str_eq(s, "null") {
            Some(Keyword::Const(Const::Null))
        } else if str_eq(s, "this") {
            Some(Keyword::Const(Const::This))
        } else if str_eq(s, "class") {
            Some(Keyword::Class)
        } else {
            None
        }
    }

    /// How it prints.
    pub fn text(&self) -> (r: &'static str)
        ensures
            r@ == keyword_text(*self),
    {
        match self {
            Keyword::Prim(p) => p.text(),
            Keyword::Scope(s) => s.text(),
            Keyword::Action(a) => a.text(),
            Keyword::Routine(r) => r.text(),
            Keyword::Const(c) => c.text(),
            Keyword::Class => "class",
        }
    }
}

impl Symbol {
    /// The symbol that `c` is, where it is one.
    pub fn from_char(c: char) -> (r: Option<Symbol>)
        ensures
            r == symbol_of(c),
    {
        match c {
            '{' => Some(Symbol::Delim(Delimiter::OpenBrace)),
            '}' => Some(Symbol::Delim(Delimiter::CloseBrace)),
            '(' => Some(Symbol::Delim(Delimiter::OpenParen)),
            ')' => Some(Symbol::Delim(Delimiter::CloseParen)),
            '[' => Some(Symbol::Delim(Delimiter::OpenBracket)),
            ']' => Some(Symbol::Delim(Delimiter::CloseBracket)),
            '.' => Some(Symbol::Delim(Delimiter::Dot)),
            ',' => Some(Symbol::Delim(Delimiter::Comma)),
            ';' => Some(Symbol::Delim(Delimiter::Semicolon)),
            '+' => Some(Symbol::Op(Operator::Add)),
            '-' => Some(Symbol::Op(Operator::Sub)),
            '*' => Some(Symbol::Op(Operator::Mult)),
            '/' => Some(Symbol::Op(Operator::Divide)),
            '&' => Some(Symbol::Op(Operator::And)),
            '|' => Some(Symbol::Op(Operator::Or)),
            '<' => Some(Symbol::Op(Operator::Lesser)),
            '>' => Some(Symbol::Op(Operator::Greater)),
            '=' => Some(Symbol::Op(Operator::Equal)),
            '~' => Some(Symbol::Op(Operator::Not)),
            _ => None,
        }
    }

    /// How it prints.
    pub fn text(&self) -> (r: &'static str)
        ensures
            r@ == symbol_text(*self),
    {
        match self {
            Symbol::Op(o) => o.text(),
            Symbol::Delim(d) => d.text(),
        }
    }
}

/// What a token is.
#[derive(Debug, Clone)]
pub enum TokenType {
    Keywd(Keyword),
    Symbol(Symbol),
    Id(String),
    IntConst(usize),
    StrgConst(String),
}

/// A token and the line it starts on.
#[derive(Debug, Clone)]
pub struct Token {
    pub value: TokenType,
    pub line: usize,
}

/// A token type with its texts as character sequences.
pub enum TokenTypeModel {
    Keywd(Keyword),
    Symbol(Symbol),
    Id(Seq<char>),
    IntConst(usize),
    StrgConst(Seq<char>),
}

/// A token with its texts as character sequences.
pub struct TokenModel {
    pub value: TokenTypeModel,
    pub line: usize,
}

impl View for TokenType {
    type V = TokenTypeModel;

    open spec fn view(&self) -> TokenTypeModel {
        match self {
            TokenType::Keywd(k) => TokenTypeModel::Keywd(*k),
            TokenType::Symbol(s) => TokenTypeModel::Symbol(*s),
            TokenType::Id(s) => TokenTypeModel::Id(s@),
            TokenType::IntConst(n) => TokenTypeModel::IntConst(*n),
            TokenType::StrgConst(s) => TokenTypeModel::StrgConst(s@),
        }
    }
}

impl View for Token {
    type V = TokenModel;

    open spec fn view(&self) -> TokenModel {
        TokenModel { value: self.value@, line: self.line }
    }
}

/// How a token prints: keywords and symbols as written, identifiers as
/// they are, integers in decimal, strings between double quotes.
pub open spec fn token_text(t: TokenTypeModel) -> Seq<char> {
    match t {
        TokenTypeModel::Keywd(k) => keyword_text(k),
        TokenTypeModel::Symbol(s) => symbol_text(s),
        TokenTypeModel::Id(s) => s,
        TokenTypeModel::IntConst(n) => decimal(n as nat),
        TokenTypeModel::StrgConst(s) => seq!['"'] + s + seq!['"'],
    }
}

impl TokenType {
    /// How it prints.
    pub fn text(&self) -> (r: String)
        ensures
            r@ == token_text(self@),
    {
        match self {
            TokenType::Keywd(k) => String::from_str(k.text()),
            TokenType::Symbol(s) => String::from_str(s.text()),
            TokenType::Id(s) => s.clone(),
            TokenType::IntConst(n) => decimal_string(*n as u64),
            TokenType::StrgConst(s) => {
                let mut r = String::new();
                push_char(&mut r, '"');
                r.append(s.as_str());
                push_char(&mut r, '"');
                r
            },
        }
    }
}

impl TokenType {
    /// A copy of the token type.
    pub fn copy(&self) -> (r: TokenType)
        ensures
            r@ == self@,
    {
        match self {
            TokenType::Keywd(k) => TokenType::Keywd(*k),
            TokenType::Symbol(s) => TokenType::Symbol(*s),
            TokenType::Id(s) => TokenType::Id(s.clone()),
            TokenType::IntConst(n) => TokenType::IntConst(*n),
            TokenType::StrgConst(s) => TokenType::StrgConst(s.clone()),
        }
    }
}

impl Token {
    /// A copy of the token.
    pub fn copy(&self) -> (r: Token)
        ensures
            r@ == self@,
    {
        Token { value: self.value.copy(), line: self.line }
    }

    /// How it prints: as its value.
    pub fn text(&self) -> (r: String)
        ensures
            r@ == token_text(self@.value),
    {
        self.value.text()
    }
}

} // verus!
