//! Reading of VM commands: one command per line, `//` comments, words
//! separated by white space, command words and segments in any case.
use vstd::prelude::*;
use crate::text::{
    chars_of, concat2, concat3, decimal, decimal_string, parse_u32, parse_u32_exec, split_words,
    str_eq, words, ascii_lower_all,
};
use vstd::utf8::is_ascii_chars;
use crate::hack::parser::comment_from;

verus! {

// ---------------------------------------------------------------------------
// Outside calls into std
// ---------------------------------------------------------------------------

/// What std's `str::to_lowercase` gives for a string (full Unicode case
/// mapping, which a few lines cannot state).
pub uninterp spec fn lowercase(s: Seq<char>) -> Seq<char>;

/// Calls std's `str::to_lowercase`; the result is the Unicode lower-case
/// form of `s`, named `lowercase`. On an ASCII string it is the ASCII
/// lower-case form (Unicode maps `A`..`Z` to `a`..`z` and leaves the other
/// ASCII characters alone); beyond ASCII nothing more is stated.
#[verifier::external_body]
fn to_lowercase(s: &str) -> (r: String)
    ensures
        r@ == lowercase(s@),
        is_ascii_chars(s@) ==> r@ == ascii_lower_all(s@),
{
    s.to_lowercase()
}

// ---------------------------------------------------------------------------
// Commands
// ---------------------------------------------------------------------------

/// A VM command.
#[derive(Debug, Clone)]
pub enum Cmd {
    /// Arithmetic and logic on the stack.
    Math(Math),
    /// Push the value at an offset of a segment.
    Push(Segment, u32),
    /// Pop into an offset of a segment.
    Pop(Segment, u32),
    /// Program flow.
    Label(String),
    Goto(String),
    If(String),
    /// Function with its number of local variables.
    Function(String, u32),
    Return,
    /// Call with the number of arguments.
    Call(String, u32),
}

/// A memory segment of the VM.
#[derive(Debug, Clone, Copy, PartialEq, Eq, Structural)]
pub enum Segment {
    Argument,
    Local,
    Static,
    Constant,
    This,
    That,
    Pointer,
    Temp,
}

/// Arithmetic commands.
#[derive(Debug, Clone, Copy, PartialEq, Eq, Structural)]
pub enum Math {
    Neg(Neg),
    Bin(Bin),
    Comp(Comp),
}

/// Unary commands.
#[derive(Debug, Clone, Copy, PartialEq, Eq, Structural)]
pub enum Neg {
    Not,
    Neg,
}

/// Binary commands.
#[derive(Debug, Clone, Copy, PartialEq, Eq, Structural)]
pub enum Bin {
    Add,
    Sub,
    And,
    Or,
}

/// Comparisons.
#[derive(Debug, Clone, Copy, PartialEq, Eq, Structural)]
pub enum Comp {
    Eq,
    Gt,
    Lt,
}

/// A command with its names as character sequences.
pub enum CmdModel {
    Math(Math),
    Push(Segment, u32),
    Pop(Segment, u32),
    Label(Seq<char>),
    Goto(Seq<char>),
    If(Seq<char>),
    Function(Seq<char>, u32),
    Return,
    Call(Seq<char>, u32),
}

impl View for Cmd {
    type V = CmdModel;

    open spec fn view(&self) -> CmdModel {
        match self {
            Cmd::Math(m) => CmdModel::Math(*m),
            Cmd::Push(s, i) => CmdModel::Push(*s, *i),
            Cmd::Pop(s, i) => CmdModel::Pop(*s, *i),
            Cmd::Label(l) => CmdModel::Label(l@),
            Cmd::Goto(l) => CmdModel::Goto(l@),
            Cmd::If(l) => CmdModel::If(l@),
            Cmd::Function(n, k) => CmdModel::Function(n@, *k),
            Cmd::Return => CmdModel::Return,
            Cmd::Call(n, k) => CmdModel::Call(n@, *k),
        }
    }
}

// ---------------------------------------------------------------------------
// Segments
// ---------------------------------------------------------------------------

/// The segment whose lower-case name is `l` (`name` as written) with its
/// offset, or the error for an unknown name or an offset beyond what the
/// segment holds.
pub open spec fn segment_by(l: Seq<char>, name: Seq<char>, offset: u32) -> Result<(Segment, u32), Seq<char>> {
    if l == "argument"@ {
        Ok((Segment::Argument, offset))
    } else if l == "local"@ {
        Ok((Segment::Local, offset))
    } else if l == "static"@ {
        if offset > 239 {
            Err("Static offset out of bounds: "@ + decimal(offset as nat))
        } else {
            Ok((Segment::Static, offset))
        }
    } else if l == "constant"@ {
        if offset > 32768 {
            Err("Overflow exception"@)
        } else {
            Ok((Segment::Constant, offset))
        }
    } else if l == "this"@ {
        Ok((Segment::This, offset))
    } else if l == "that"@ {
        Ok((Segment::That, offset))
    } else if l == "pointer"@ {
        if offset > 1 {
            Err("Pointer cache overflow"@)
        } else {
            Ok((Segment::Pointer, offset))
        }
    } else if l == "temp"@ {
        if offset > 7 {
            Err("Overflow exception"@)
        } else {
            Ok((Segment::Temp, offset))
        }
    } else {
        Err("Invalid segment name: '"@ + name + "'"@)
    }
}

/// The segment named by `name` (any case) with its offset, or the error for
/// an unknown name or an offset beyond what the segment holds.
pub open spec fn segment_of(name: Seq<char>, offset: u32) -> Result<(Segment, u32), Seq<char>> {
    segment_by(lowercase(name), name, offset)
}

/// `segment_of` for an ASCII name, whose lower-case form is the ASCII one.
pub open spec fn ascii_segment_of(name: Seq<char>, offset: u32) -> Result<(Segment, u32), Seq<char>> {
    segment_by(ascii_lower_all(name), name, offset)
}

/// Whether every word of `ws` is ASCII.
pub open spec fn all_ascii(ws: Seq<Seq<char>>) -> bool {
    forall|i: int| 0 <= i < ws.len() ==> is_ascii_chars(#[trigger] ws[i])
}

/// A segment name (in any case) is accepted with an offset up to the
/// segment's limit: 239 for `static`, 32768 for `constant`, 1 for
/// `pointer`, 7 for `temp`, any offset for the others; the offset is kept.
pub proof fn lemma_segment_limits(name: Seq<char>, offset: u32)
    ensures
        segment_of(name, offset) is Ok <==> {
            let l = lowercase(name);
            ||| l == "argument"@ || l == "local"@ || l == "this"@ || l == "that"@
            ||| l == "static"@ && offset <= 239
            ||| l == "constant"@ && offset <= 32768
            ||| l == "pointer"@ && offset <= 1
            ||| l == "temp"@ && offset <= 7
        },
        segment_of(name, offset) matches Ok((_, o)) ==> o == offset,
{
    reveal_strlit("argument");
    assert("argument"@.len() == 8 && "argument"@[0] == 'a' && "argument"@[7] == 't');
    reveal_strlit("local");
    assert("local"@.len() == 5 && "local"@[0] == 'l' && "local"@[4] == 'l');
    reveal_strlit("static");
    assert("static"@.len() == 6 && "static"@[0] == 's' && "static"@[5] == 'c');
    reveal_strlit("constant");
    assert("constant"@.len() == 8 && "constant"@[0] == 'c' && "constant"@[7] == 't');
    reveal_strlit("this");
    assert("this"@.len() == 4 && "this"@[0] == 't' && "this"@[3] == 's');
    reveal_strlit("that");
    assert("that"@.len() == 4 && "that"@[0] == 't' && "that"@[3] == 't');
    reveal_strlit("pointer");
    assert("pointer"@.len() == 7 && "pointer"@[0] == 'p' && "pointer"@[6] == 'r');
    reveal_strlit("temp");
    assert("temp"@.len() == 4 && "temp"@[0] == 't' && "temp"@[3] == 'p');
}

/// Resolves a segment name (any case) and checks the offset against it.
pub fn define_segment(segment: &str, offset: u32) -> (r: Result<(Segment, u32), String>)
    ensures
        match r {
            Ok(p) => segment_of(segment@, offset) == Ok::<(Segment, u32), Seq<char>>(p)
                && (is_ascii_chars(segment@) ==> ascii_segment_of(segment@, offset) == Ok::<
                (Segment, u32),
                Seq<char>,
            >(p)),
            Err(e) => segment_of(segment@, offset) == Err::<(Segment, u32), Seq<char>>(e@)
                && (is_ascii_chars(segment@) ==> ascii_segment_of(segment@, offset) == Err::<
                (Segment, u32),
                Seq<char>,
            >(e@)),
        },
{
    let low = to_lowercase(segment);
    let l = low.as_str();
    if str_eq(l, "argument") {
        Ok((Segment::Argument, offset))
    } else if str_eq(l, "local") {
        Ok((Segment::Local, offset))
    } else if str_eq(l, "static") {
        if offset > 239 {
            let d = decimal_string(offset as u64);
            Err(concat2("Static offset out of bounds: ", d.as_str()))
        } else {
            Ok((Segment::Static, offset))
        }
    } else if str_eq(l, "constant") {
        if offset > 32768 {
            Err(String::from_str("Overflow exception"))
        } else {
            Ok((Segment::Constant, offset))
        }
    } else if str_eq(l, "this") {
        Ok((Segment::This, offset))
    } else if str_eq(l, "that") {
        Ok((Segment::That, offset))
    } else if str_eq(l, "pointer") {
        if offset > 1 {
            Err(String::from_str("Pointer cache overflow"))
        } else {
            Ok((Segment::Pointer, offset))
        }
    } else if str_eq(l, "temp") {
        if offset > 7 {
            Err(String::from_str("Overflow exception"))
        } else {
            Ok((Segment::Temp, offset))
        }
    } else {
        Err(concat3("Invalid segment name: '", segment, "'"))
    }
}

// ---------------------------------------------------------------------------
// Lines
// ---------------------------------------------------------------------------

/// The command of a push or pop with argument words `args`.
pub open spec fn access_of(args: Seq<Seq<char>>, push: bool) -> Result<CmdModel, Seq<char>> {
    access_by(args, push, false)
}

/// The command of a push or pop, its segment name read as ASCII where
/// `ascii` holds.
pub open spec fn access_by(args: Seq<Seq<char>>, push: bool, ascii: bool) -> Result<CmdModel, Seq<char>> {
    if args.len() < 1 {
        Err("Missing segment argument"@)
    } else if args.len() < 2 {
        Err("Missing index argument"@)
    } else if parse_u32(args[1]) is None {
        Err("Invalid index number"@)
    } else {
        let seg = if ascii {
            ascii_segment_of(args[0], parse_u32(args[1]).unwrap() as u32)
        } else {
            segment_of(args[0], parse_u32(args[1]).unwrap() as u32)
        };
        match seg {
            Err(e) => Err(e),
            Ok((s, o)) => Ok(if push { CmdModel::Push(s, o) } else { CmdModel::Pop(s, o) }),
        }
    }
}

/// The command of a `function` or `call` with argument words `args`.
pub open spec fn named_count_of(args: Seq<Seq<char>>, function: bool) -> Result<CmdModel, Seq<char>> {
    if args.len() < 1 {
        Err("Missing function name"@)
    } else if args.len() < 2 {
        Err(if function { "Missing var count"@ } else { "Missing arg count"@ })
    } else if parse_u32(args[1]) is None {
        Err(if function { "Invalid var count"@ } else { "Invalid arg count"@ })
    } else if function {
        Ok(CmdModel::Function(args[0], parse_u32(args[1]).unwrap() as u32))
    } else {
        Ok(CmdModel::Call(args[0], parse_u32(args[1]).unwrap() as u32))
    }
}

/// The command that a command word (any case) and its argument words stand
/// for; words beyond those a command takes are ignored.
pub open spec fn command_of(word: Seq<char>, args: Seq<Seq<char>>) -> Result<CmdModel, Seq<char>> {
    command_by(lowercase(word), word, args, false)
}

/// `command_of` for ASCII words, whose lower-case forms are the ASCII ones.
pub open spec fn ascii_command_of(word: Seq<char>, args: Seq<Seq<char>>) -> Result<CmdModel, Seq<char>> {
    command_by(ascii_lower_all(word), word, args, true)
}

/// The command whose lower-case command word is `w` (`word` as written).
pub open spec fn command_by(w: Seq<char>, word: Seq<char>, args: Seq<Seq<char>>, ascii: bool) -> Result<
    CmdModel,
    Seq<char>,
> {
    if w == "not"@ {
        Ok(CmdModel::Math(Math::Neg(Neg::Not)))
    } else if w == "neg"@ {
        Ok(CmdModel::Math(Math::Neg(Neg::Neg)))
    } else if w == "add"@ {
        Ok(CmdModel::Math(Math::Bin(Bin::Add)))
    } else if w == "sub"@ {
        Ok(CmdModel::Math(Math::Bin(Bin::Sub)))
    } else if w == "and"@ {
        Ok(CmdModel::Math(Math::Bin(Bin::And)))
    } else if w == "or"@ {
        Ok(CmdModel::Math(Math::Bin(Bin::Or)))
    } else if w == "eq"@ {
        Ok(CmdModel::Math(Math::Comp(Comp::Eq)))
    } else if w == "gt"@ {
        Ok(CmdModel::Math(Math::Comp(Comp::Gt)))
    } else if w == "lt"@ {
        Ok(CmdModel::Math(Math::Comp(Comp::Lt)))
    } else if w == "push"@ {
        access_by(args, true, ascii)
    } else if w == "pop"@ {
        access_by(args, false, ascii)
    } else if w == "label"@ {
        if args.len() < 1 { Err("Missing label name"@) } else { Ok(CmdModel::Label(args[0])) }
    } else if w == "goto"@ {
        if args.len() < 1 { Err("Missing goto label"@) } else { Ok(CmdModel::Goto(args[0])) }
    } else if w == "if-goto"@ {
        if args.len() < 1 { Err("Missing if-goto label"@) } else { Ok(CmdModel::If(args[0])) }
    } else if w == "function"@ {
        named_count_of(args, true)
    } else if w == "call"@ {
        named_count_of(args, false)
    } else if w == "return"@ {
        Ok(CmdModel::Return)
    } else {
        Err("Unknown command: "@ + word)
    }
}

/// The command word that names an arithmetic or logic command.
pub open spec fn math_name(m: Math) -> Seq<char> {
    match m {
        Math::Neg(Neg::Not) => "not"@,
        Math::Neg(Neg::Neg) => "neg"@,
        Math::Bin(Bin::Add) => "add"@,
        Math::Bin(Bin::Sub) => "sub"@,
        Math::Bin(Bin::And) => "and"@,
        Math::Bin(Bin::Or) => "or"@,
        Math::Comp(Comp::Eq) => "eq"@,
        Math::Comp(Comp::Gt) => "gt"@,
        Math::Comp(Comp::Lt) => "lt"@,
    }
}

/// A (lower-cased) command word reads as an arithmetic or logic command
/// exactly when it is that command's name: `and` is `and`, `or` is `or`,
/// and so on, whatever argument words follow.
#[verifier::rlimit(40)]
pub proof fn lemma_math_words(w: Seq<char>, word: Seq<char>, args: Seq<Seq<char>>, ascii: bool, m: Math)
    ensures
        command_by(w, word, args, ascii) == Ok::<CmdModel, Seq<char>>(CmdModel::Math(m)) <==> w == math_name(m),
{
    reveal_strlit("not");
    assert("not"@.len() == 3 && "not"@[0] == 'n' && "not"@[1] == 'o' && "not"@[2] == 't');
    reveal_strlit("neg");
    assert("neg"@.len() == 3 && "neg"@[0] == 'n' && "neg"@[1] == 'e' && "neg"@[2] == 'g');
    reveal_strlit("add");
    assert("add"@.len() == 3 && "add"@[0] == 'a' && "add"@[1] == 'd' && "add"@[2] == 'd');
    reveal_strlit("sub");
    assert("sub"@.len() == 3 && "sub"@[0] == 's' && "sub"@[1] == 'u' && "sub"@[2] == 'b');
    reveal_strlit("and");
    assert("and"@.len() == 3 && "and"@[0] == 'a' && "and"@[1] == 'n' && "and"@[2] == 'd');
    reveal_strlit("or");
    assert("or"@.len() == 2 && "or"@[0] == 'o' && "or"@[1] == 'r');
    reveal_strlit("eq");
    assert("eq"@.len() == 2 && "eq"@[0] == 'e' && "eq"@[1] == 'q');
    reveal_strlit("gt");
    assert("gt"@.len() == 2 && "gt"@[0] == 'g' && "gt"@[1] == 't');
    reveal_strlit("lt");
    assert("lt"@.len() == 2 && "lt"@[0] == 'l' && "lt"@[1] == 't');
    reveal_strlit("push");
    assert("push"@.len() == 4 && "push"@[0] == 'p' && "push"@[1] == 'u' && "push"@[2] == 's' && "push"@[3] == 'h');
    reveal_strlit("pop");
    assert("pop"@.len() == 3 && "pop"@[0] == 'p' && "pop"@[1] == 'o' && "pop"@[2] == 'p');
    reveal_strlit("label");
    assert("label"@.len() == 5 && "label"@[0] == 'l' && "label"@[1] == 'a' && "label"@[2] == 'b' && "label"@[3] == 'e' && "label"@[4] == 'l');
    reveal_strlit("goto");
    assert("goto"@.len() == 4 && "goto"@[0] == 'g' && "goto"@[1] == 'o' && "goto"@[2] == 't' && "goto"@[3] == 'o');
    reveal_strlit("if-goto");
    assert("if-goto"@.len() == 7 && "if-goto"@[0] == 'i' && "if-goto"@[1] == 'f' && "if-goto"@[2] == '-' && "if-goto"@[3] == 'g' && "if-goto"@[4] == 'o' && "if-goto"@[5] == 't' && "if-goto"@[6] == 'o');
    reveal_strlit("function");
    assert("function"@.len() == 8 && "function"@[0] == 'f' && "function"@[1] == 'u' && "function"@[2] == 'n' && "function"@[3] == 'c' && "function"@[4] == 't' && "function"@[5] == 'i' && "function"@[6] == 'o' && "function"@[7] == 'n');
    reveal_strlit("call");
    assert("call"@.len() == 4 && "call"@[0] == 'c' && "call"@[1] == 'a' && "call"@[2] == 'l' && "call"@[3] == 'l');
    reveal_strlit("return");
    assert("return"@.len() == 6 && "return"@[0] == 'r' && "return"@[1] == 'e' && "return"@[2] == 't' && "return"@[3] == 'u' && "return"@[4] == 'r' && "return"@[5] == 'n');
}

/// The word that names a segment.
pub open spec fn segment_word(seg: Segment) -> Seq<char> {
    match seg {
        Segment::Argument => "argument"@,
        Segment::Local => "local"@,
        Segment::Static => "static"@,
        Segment::Constant => "constant"@,
        Segment::This => "this"@,
        Segment::That => "that"@,
        Segment::Pointer => "pointer"@,
        Segment::Temp => "temp"@,
    }
}

/// A (lower-cased) segment word reads as the segment of that name, with
/// the offset as given: `local` is the local segment, `this` the this
/// segment, and so on.
#[verifier::rlimit(40)]
pub proof fn lemma_segment_words(l: Seq<char>, name: Seq<char>, offset: u32)
    ensures
        segment_by(l, name, offset) matches Ok((seg, o)) ==> l == segment_word(seg) && o == offset,
{
    reveal_strlit("argument");
    assert("argument"@.len() == 8 && "argument"@[0] == 'a' && "argument"@[1] == 'r' && "argument"@[2] == 'g' && "argument"@[3] == 'u' && "argument"@[4] == 'm' && "argument"@[5] == 'e' && "argument"@[6] == 'n' && "argument"@[7] == 't');
    reveal_strlit("local");
    assert("local"@.len() == 5 && "local"@[0] == 'l' && "local"@[1] == 'o' && "local"@[2] == 'c' && "local"@[3] == 'a' && "local"@[4] == 'l');
    reveal_strlit("static");
    assert("static"@.len() == 6 && "static"@[0] == 's' && "static"@[1] == 't' && "static"@[2] == 'a' && "static"@[3] == 't' && "static"@[4] == 'i' && "static"@[5] == 'c');
    reveal_strlit("constant");
    assert("constant"@.len() == 8 && "constant"@[0] == 'c' && "constant"@[1] == 'o' && "constant"@[2] == 'n' && "constant"@[3] == 's' && "constant"@[4] == 't' && "constant"@[5] == 'a' && "constant"@[6] == 'n' && "constant"@[7] == 't');
    reveal_strlit("this");
    assert("this"@.len() == 4 && "this"@[0] == 't' && "this"@[1] == 'h' && "this"@[2] == 'i' && "this"@[3] == 's');
    reveal_strlit("that");
    assert("that"@.len() == 4 && "that"@[0] == 't' && "that"@[1] == 'h' && "that"@[2] == 'a' && "that"@[3] == 't');
    reveal_strlit("pointer");
    assert("pointer"@.len() == 7 && "pointer"@[0] == 'p' && "pointer"@[1] == 'o' && "pointer"@[2] == 'i' && "pointer"@[3] == 'n' && "pointer"@[4] == 't' && "pointer"@[5] == 'e' && "pointer"@[6] == 'r');
    reveal_strlit("temp");
    assert("temp"@.len() == 4 && "temp"@[0] == 't' && "temp"@[1] == 'e' && "temp"@[2] == 'm' && "temp"@[3] == 'p');
}

/// The word that names a command.
pub open spec fn command_name(c: CmdModel) -> Seq<char> {
    match c {
        CmdModel::Math(m) => math_name(m),
        CmdModel::Push(_, _) => "push"@,
        CmdModel::Pop(_, _) => "pop"@,
        CmdModel::Label(_) => "label"@,
        CmdModel::Goto(_) => "goto"@,
        CmdModel::If(_) => "if-goto"@,
        CmdModel::Function(_, _) => "function"@,
        CmdModel::Call(_, _) => "call"@,
        CmdModel::Return => "return"@,
    }
}

/// A command read from a (lower-cased) command word is the command of that
/// name: `push` gives a push, `if-goto` a conditional jump, and so on.
#[verifier::rlimit(40)]
pub proof fn lemma_command_words(w: Seq<char>, word: Seq<char>, args: Seq<Seq<char>>, ascii: bool)
    ensures
        command_by(w, word, args, ascii) matches Ok(c) ==> w == command_name(c),
{
    reveal_strlit("not");
    assert("not"@.len() == 3 && "not"@[0] == 'n' && "not"@[1] == 'o' && "not"@[2] == 't');
    reveal_strlit("neg");
    assert("neg"@.len() == 3 && "neg"@[0] == 'n' && "neg"@[1] == 'e' && "neg"@[2] == 'g');
    reveal_strlit("add");
    assert("add"@.len() == 3 && "add"@[0] == 'a' && "add"@[1] == 'd' && "add"@[2] == 'd');
    reveal_strlit("sub");
    assert("sub"@.len() == 3 && "sub"@[0] == 's' && "sub"@[1] == 'u' && "sub"@[2] == 'b');
    reveal_strlit("and");
    assert("and"@.len() == 3 && "and"@[0] == 'a' && "and"@[1] == 'n' && "and"@[2] == 'd');
    reveal_strlit("or");
    assert("or"@.len() == 2 && "or"@[0] == 'o' && "or"@[1] == 'r');
    reveal_strlit("eq");
    assert("eq"@.len() == 2 && "eq"@[0] == 'e' && "eq"@[1] == 'q');
    reveal_strlit("gt");
    assert("gt"@.len() == 2 && "gt"@[0] == 'g' && "gt"@[1] == 't');
    reveal_strlit("lt");
    assert("lt"@.len() == 2 && "lt"@[0] == 'l' && "lt"@[1] == 't');
    reveal_strlit("push");
    assert("push"@.len() == 4 && "push"@[0] == 'p' && "push"@[1] == 'u' && "push"@[2] == 's' && "push"@[3] == 'h');
    reveal_strlit("pop");
    assert("pop"@.len() == 3 && "pop"@[0] == 'p' && "pop"@[1] == 'o' && "pop"@[2] == 'p');
    reveal_strlit("label");
    assert("label"@.len() == 5 && "label"@[0] == 'l' && "label"@[1] == 'a' && "label"@[2] == 'b' && "label"@[3] == 'e' && "label"@[4] == 'l');
    reveal_strlit("goto");
    assert("goto"@.len() == 4 && "goto"@[0] == 'g' && "goto"@[1] == 'o' && "goto"@[2] == 't' && "goto"@[3] == 'o');
    reveal_strlit("if-goto");
    assert("if-goto"@.len() == 7 && "if-goto"@[0] == 'i' && "if-goto"@[1] == 'f' && "if-goto"@[2] == '-' && "if-goto"@[3] == 'g' && "if-goto"@[4] == 'o' && "if-goto"@[5] == 't' && "if-goto"@[6] == 'o');
    reveal_strlit("function");
    assert("function"@.len() == 8 && "function"@[0] == 'f' && "function"@[1] == 'u' && "function"@[2] == 'n' && "function"@[3] == 'c' && "function"@[4] == 't' && "function"@[5] == 'i' && "function"@[6] == 'o' && "function"@[7] == 'n');
    reveal_strlit("call");
    assert("call"@.len() == 4 && "call"@[0] == 'c' && "call"@[1] == 'a' && "call"@[2] == 'l' && "call"@[3] == 'l');
    reveal_strlit("return");
    assert("return"@.len() == 6 && "return"@[0] == 'r' && "return"@[1] == 'e' && "return"@[2] == 't' && "return"@[3] == 'u' && "return"@[4] == 'r' && "return"@[5] == 'n');
}

/// The texts of a vector of strings.
pub open spec fn texts(v: Seq<String>) -> Seq<Seq<char>> {
    v.map_values(|s: String| s@)
}

fn access_exec(args: &Vec<String>, push: bool) -> (r: Result<Cmd, String>)
    ensures
        match r {
            Ok(c) => access_of(texts(args@), push) == Ok::<CmdModel, Seq<char>>(c@) && (all_ascii(
                texts(args@),
            ) ==> access_by(texts(args@), push, true) == Ok::<CmdModel, Seq<char>>(c@)),
            Err(e) => access_of(texts(args@), push) == Err::<CmdModel, Seq<char>>(e@) && (all_ascii(
                texts(args@),
            ) ==> access_by(texts(args@), push, true) == Err::<CmdModel, Seq<char>>(e@)),
        },
{
    if args.len() < 1 {
        return Err(String::from_str("Missing segment argument"));
    }
    if args.len() < 2 {
        return Err(String::from_str("Missing index argument"));
    }
    let idx = match parse_u32_exec(args[1].as_str()) {
        Some(i) => i,
        None => return Err(String::from_str("Invalid index number")),
    };
    assert(texts(args@)[0] == args@[0]@);
    match define_segment(args[0].as_str(), idx) {
        Err(e) => Err(e),
        Ok((s, o)) => Ok(if push { Cmd::Push(s, o) } else { Cmd::Pop(s, o) }),
    }
}

fn named_count_exec(args: &Vec<String>, function: bool) -> (r: Result<Cmd, String>)
    ensures
        match r {
            Ok(c) => named_count_of(texts(args@), function) == Ok::<CmdModel, Seq<char>>(c@),
            Err(e) => named_count_of(texts(args@), function) == Err::<CmdModel, Seq<char>>(e@),
        },
{
    if args.len() < 1 {
        return Err(String::from_str("Missing function name"));
    }
    if args.len() < 2 {
        return Err(String::from_str(if function { "Missing var count" } else { "Missing arg count" }));
    }
    let n = match parse_u32_exec(args[1].as_str()) {
        Some(i) => i,
        None => return Err(
            String::from_str(if function { "Invalid var count" } else { "Invalid arg count" }),
        ),
    };
    let name = args[0].clone();
    if function {
        Ok(Cmd::Function(name, n))
    } else {
        Ok(Cmd::Call(name, n))
    }
}

fn single_arg(args: &Vec<String>, missing: &str) -> (r: Result<String, String>)
    ensures
        match r {
            Ok(a) => args@.len() >= 1 && a@ == args@[0]@,
            Err(e) => args@.len() < 1 && e@ == missing@,
        },
{
    if args.len() < 1 {
        Err(String::from_str(missing))
    } else {
        Ok(args[0].clone())
    }
}

/// Reads one command from its command word and the words after it.
pub fn parse_line(command_word: &str, args: &Vec<String>) -> (r: Result<Cmd, String>)
    ensures
        match r {
            Ok(c) => command_of(command_word@, texts(args@)) == Ok::<CmdModel, Seq<char>>(c@) && (
            is_ascii_chars(command_word@) && all_ascii(texts(args@)) ==> ascii_command_of(
                command_word@,
                texts(args@),
            ) == Ok::<CmdModel, Seq<char>>(c@)),
            Err(e) => command_of(command_word@, texts(args@)) == Err::<CmdModel, Seq<char>>(e@) && (
            is_ascii_chars(command_word@) && all_ascii(texts(args@)) ==> ascii_command_of(
                command_word@,
                texts(args@),
            ) == Err::<CmdModel, Seq<char>>(e@)),
        },
{
    let low = to_lowercase(command_word);
    let w = low.as_str();
    if str_eq(w, "not") {
        Ok(Cmd::Math(Math::Neg(Neg::Not)))
    } else if str_eq(w, "neg") {
        Ok(Cmd::Math(Math::Neg(Neg::Neg)))
    } else if str_eq(w, "add") {
        Ok(Cmd::Math(Math::Bin(Bin::Add)))
    } else if str_eq(w, "sub") {
        Ok(Cmd::Math(Math::Bin(Bin::Sub)))
    } else if str_eq(w, "and") {
        Ok(Cmd::Math(Math::Bin(Bin::And)))
    } else if str_eq(w, "or") {
        Ok(Cmd::Math(Math::Bin(Bin::Or)))
    } else if str_eq(w, "eq") {
        Ok(Cmd::Math(Math::Comp(Comp::Eq)))
    } else if str_eq(w, "gt") {
        Ok(Cmd::Math(Math::Comp(Comp::Gt)))
    } else if str_eq(w, "lt") {
        Ok(Cmd::Math(Math::Comp(Comp::Lt)))
    } else if str_eq(w, "push") {
        access_exec(args, true)
    } else if str_eq(w, "pop") {
        access_exec(args, false)
    } else if str_eq(w, "label") {
        match single_arg(args, "Missing label name") {
            Ok(a) => Ok(Cmd::Label(a)),
            Err(e) => Err(e),
        }
    } else if str_eq(w, "goto") {
        match single_arg(args, "Missing goto label") {
            Ok(a) => Ok(Cmd::Goto(a)),
            Err(e) => Err(e),
        }
    } else if str_eq(w, "if-goto") {
        match single_arg(args, "Missing if-goto label") {
            Ok(a) => Ok(Cmd::If(a)),
            Err(e) => Err(e),
        }
    } else if str_eq(w, "function") {
        named_count_exec(args, true)
    } else if str_eq(w, "call") {
        named_count_exec(args, false)
    } else if str_eq(w, "return") {
        Ok(Cmd::Return)
    } else {
        Err(concat2("Unknown command: ", command_word))
    }
}

/// What a source line holds: nothing (blank or comment), a command, or an
/// error message.
pub open spec fn line_words(line: Seq<char>) -> Seq<Seq<char>> {
    words(line.take(comment_from(line, 0)))
}

/// The command on a source line, `None` for a line without one.
pub open spec fn line_command(line: Seq<char>) -> Option<Result<CmdModel, Seq<char>>> {
    let ws = line_words(line);
    if ws.len() == 0 {
        None
    } else {
        Some(command_of(ws[0], ws.skip(1)))
    }
}

/// `line_command` for an ASCII line, whose words are read as ASCII.
pub open spec fn ascii_line_command(line: Seq<char>) -> Option<Result<CmdModel, Seq<char>>> {
    let ws = line_words(line);
    if ws.len() == 0 {
        None
    } else {
        Some(ascii_command_of(ws[0], ws.skip(1)))
    }
}

/// Reads the command on one source line: `None` where the line holds only
/// white space or a comment.
pub fn read_line(line: &str) -> (r: Option<Result<Cmd, String>>)
    ensures
        match r {
            None => line_command(line@) is None,
            Some(Ok(c)) => line_command(line@) == Some(Ok::<CmdModel, Seq<char>>(c@)),
            Some(Err(e)) => line_command(line@) == Some(Err::<CmdModel, Seq<char>>(e@)),
        },
        is_ascii_chars(line@) ==> match r {
            None => ascii_line_command(line@) is None,
            Some(Ok(c)) => ascii_line_command(line@) == Some(Ok::<CmdModel, Seq<char>>(c@)),
            Some(Err(e)) => ascii_line_command(line@) == Some(Err::<CmdModel, Seq<char>>(e@)),
        },
{
    let v = chars_of(line);
    let end = comment_end_from_start(&v);
    let mut ws = split_words(v.as_slice(), end);
    if ws.len() == 0 {
        return None;
    }
    let ghost all = texts(ws@);
    proof {
        if is_ascii_chars(line@) {
            crate::hack::parser::lemma_comment_from_bounds(line@, 0);
            let t = v@.take(end as int);
            assert forall|i: int| 0 <= i < t.len() implies '\0' <= #[trigger] t[i] <= '\u{7f}' by {
                assert(t[i] == line@[i]);
            }
            crate::text::lemma_words_from_ascii(t, 0, Seq::empty(), Seq::empty());
        }
    }
    let first = ws.remove(0);
    assert(texts(ws@) =~= all.skip(1));
    assert(is_ascii_chars(line@) ==> is_ascii_chars(first@) && all_ascii(texts(ws@))) by {
        if is_ascii_chars(line@) {
            assert(first@ == all[0]);
            assert forall|i: int| 0 <= i < texts(ws@).len() implies is_ascii_chars(#[trigger] texts(ws@)[i]) by {
                assert(texts(ws@)[i] == all[i + 1]);
            }
        }
    }
    Some(parse_line(first.as_str(), &ws))
}

/// The position of the first `//` in `v`, or its length.
fn comment_end_from_start(v: &Vec<char>) -> (r: usize)
    ensures
        r == comment_from(v@, 0),
        r <= v@.len(),
{
    let n = v.len();
    let mut i: usize = 0;
    while n > 0 && i < n - 1 && !(v[i] == '/' && v[i + 1] == '/')
        invariant
            i <= n == v@.len(),
            comment_from(v@, 0) == comment_from(v@, i as int),
        decreases n - i,
    {
        i = i + 1;
    }
    if n > 0 && i < n - 1 {
        i
    } else {
        n
    }
}

/// The error a translation stops on: a line that does not read as a
/// command, or a command the writer refuses.
#[derive(Debug)]
pub enum TranslateError {
    Parse(String),
    Write(String),
}

/// The message for an unreadable line `n`.
pub open spec fn line_error(n: nat, msg: Seq<char>) -> Seq<char> {
    "Line "@ + decimal(n) + ": "@ + msg
}

/// The message for line number `n` (counted from 1) with message `msg`.
pub fn line_error_string(n: usize, msg: &str) -> (r: String)
    ensures
        r@ == line_error(n as nat, msg@),
{
    let d = decimal_string(n as u64);
    let mut r = String::from_str("Line ");
    r.append(d.as_str());
    r.append(": ");
    r.append(msg);
    r
}

} // verus!
