use nand2tetris::jack::comp_engine::CompilationEngine;
use nand2tetris::jack::registry::ClassRegistry;
use nand2tetris::jack::symbol_table::{SymbolTable, TypeDescriptor};
use nand2tetris::jack::tokenizer::JackTokenizer;
use nand2tetris::jack::tokens::{
    Action, Const, Delimiter, Keyword, Operator, Primitive, Routine, Scope, Symbol, TokenType,
};

fn all_tokens(src: &str) -> Vec<Result<(String, usize), String>> {
    let mut t = JackTokenizer::new(src);
    let mut out = Vec::new();
    while let Some(r) = t.next_token() {
        let stop = r.is_err();
        out.push(r.map(|tok| (tok.text(), tok.line)));
        if stop {
            break;
        }
    }
    out
}

fn compile(src: &str) -> (Result<(), String>, Vec<String>) {
    let mut engine = CompilationEngine::new(JackTokenizer::new(src));
    let r = engine.compile_class();
    (r, engine.output().clone())
}

fn strings(src: &[&str]) -> Vec<String> {
    src.iter().map(|s| s.to_string()).collect()
}

#[test]
fn keywords_from_words() {
    assert_eq!(Keyword::from_str("class"), Some(Keyword::Class));
    assert_eq!(Keyword::from_str("boolean"), Some(Keyword::Prim(Primitive::Bool)));
    assert_eq!(Keyword::from_str("field"), Some(Keyword::Scope(Scope::Field)));
    assert_eq!(Keyword::from_str("else"), Some(Keyword::Action(Action::Else)));
    assert_eq!(Keyword::from_str("method"), Some(Keyword::Routine(Routine::Method)));
    assert_eq!(Keyword::from_str("this"), Some(Keyword::Const(Const::This)));
    assert_eq!(Keyword::from_str("argument"), None);
    assert_eq!(Keyword::from_str("Class"), None);
    assert_eq!(Keyword::Const(Const::Null).text(), "null");
    assert_eq!(Keyword::Scope(Scope::Arg).text(), "argument");
}

#[test]
fn symbols_from_chars() {
    assert_eq!(Symbol::from_char('{'), Some(Symbol::Delim(Delimiter::OpenBrace)));
    assert_eq!(Symbol::from_char('~'), Some(Symbol::Op(Operator::Not)));
    assert_eq!(Symbol::from_char('<'), Some(Symbol::Op(Operator::Lesser)));
    assert_eq!(Symbol::from_char('#'), None);
    assert_eq!(Symbol::Op(Operator::And).text(), "&");
    assert_eq!(Symbol::Delim(Delimiter::Semicolon).text(), ";");
}

#[test]
fn tokenizer_reads_tokens_and_lines() {
    let toks = all_tokens("let x = 42; // note\n  \"two words\" /* a\nb */ _Foo9 /");
    let expect: Vec<Result<(String, usize), String>> = vec![
        Ok(("let".to_string(), 1)),
        Ok(("x".to_string(), 1)),
        Ok(("=".to_string(), 1)),
        Ok(("42".to_string(), 1)),
        Ok((";".to_string(), 1)),
        Ok(("\"two words\"".to_string(), 2)),
        Ok(("_Foo9".to_string(), 3)),
        Ok(("/".to_string(), 3)),
    ];
    assert_eq!(toks, expect);
}

#[test]
fn tokenizer_token_values() {
    let mut t = JackTokenizer::new("while count");
    let first = t.next_token().unwrap().unwrap();
    assert!(matches!(first.value, TokenType::Keywd(Keyword::Action(Action::While))));
    let second = t.next_token().unwrap().unwrap();
    match second.value {
        TokenType::Id(s) => assert_eq!(s, "count"),
        other => panic!("unexpected {:?}", other),
    }
    assert!(t.next_token().is_none());
}

#[test]
fn tokenizer_errors() {
    assert_eq!(all_tokens("\"abc"), vec![Err("1: Unterminated string literal".to_string())]);
    assert_eq!(
        all_tokens("x\n\"a\nb\""),
        vec![Ok(("x".to_string(), 1)), Err("2: Newline in string literal".to_string())]
    );
    assert_eq!(
        all_tokens("/* open\n\n"),
        vec![Err("Unclosed block comment starting at line 3".to_string())]
    );
    assert_eq!(all_tokens("#"), vec![Err("#: Unexpected char '1'".to_string())]);
    assert_eq!(
        all_tokens("99999999999999999999999"),
        vec![Err("1: Int constant too large (must be <= 32767)".to_string())]
    );
}

#[test]
fn symbol_table_indices_and_flush() {
    let mut t = SymbolTable::new();
    let int = TypeDescriptor::Primitive(Primitive::Int);
    let point = TypeDescriptor::Class("Point".to_string());
    t.define("count", &int, Scope::Static);
    t.define("x", &int, Scope::Field);
    t.define("y", &int, Scope::Field);
    t.define("p", &point, Scope::Arg);
    t.define("i", &int, Scope::Var);
    assert_eq!(t.index_of("y"), Some(1));
    assert_eq!(t.kind_of("p"), Some(Scope::Arg));
    assert!(matches!(t.type_of("p"), Some(TypeDescriptor::Class(c)) if c == "Point"));
    assert_eq!(t.arg_count(), 1);
    assert_eq!(t.field_count(), 2);
    t.flush_subroutine();
    assert_eq!(t.index_of("x"), None);
    assert_eq!(t.kind_of("y"), None);
    assert_eq!(t.kind_of("p"), None);
    assert_eq!(t.index_of("i"), Some(0));
    assert_eq!(t.kind_of("i"), Some(Scope::Var));
    assert_eq!(t.kind_of("count"), Some(Scope::Static));
    assert_eq!(t.arg_count(), 0);
    assert_eq!(t.local_count(), 1);
    assert_eq!(t.field_count(), 0);
    t.define("q", &int, Scope::Arg);
    assert_eq!(t.index_of("q"), Some(0));
    t.define("j", &int, Scope::Var);
    assert_eq!(t.index_of("j"), Some(1));
}

#[test]
fn registry_definitions_win_over_requests() {
    let mut r = ClassRegistry::new();
    r.request_method("Math", "max");
    assert_eq!(r.get_method_arg_count("Math", "max"), None);
    r.define_method("Math", "max", 2);
    assert_eq!(r.get_method_arg_count("Math", "max"), Some(2));
    r.request_method("Math", "max");
    assert_eq!(r.get_method_arg_count("Math", "max"), Some(2));
    r.declare_class("Main");
    r.define_method("Main", "main", 0);
    assert_eq!(r.get_method_arg_count("Main", "main"), Some(0));
    assert_eq!(r.get_method_arg_count("Main", "other"), None);
    assert_eq!(r.get_method_arg_count("Nope", "main"), None);
}

#[test]
fn compiles_smallest_class() {
    let (r, out) = compile("class Main { function void main() { return; } }");
    assert_eq!(r, Ok(()));
    assert_eq!(out, strings(&["function Main.main 0", "push constant 0", "return"]));
}

#[test]
fn compiles_statements() {
    let src = "class Main {
        static int count;
        function int add(int a, int b) {
            var int s;
            let s = a + b;
            if (s > 10) { let count = 1; } else { let count = 2; }
            while (s < 20) { let s = s + 1; }
            do Output.printInt(s);
            return s;
        }
    }";
    let (r, out) = compile(src);
    assert_eq!(r, Ok(()));
    assert_eq!(
        out,
        strings(&[
            "function Main.add 1",
            "push argument 0",
            "push argument 1",
            "add",
            "pop local 0",
            "push local 0",
            "push constant 10",
            "gt",
            "if-goto IF_TRUE0",
            "goto IF_FALSE0",
            "label IF_TRUE0",
            "push constant 1",
            "pop static 0",
            "goto IF_END0",
            "label IF_FALSE0",
            "push constant 2",
            "pop static 0",
            "label IF_END0",
            "label WHILE_EXP1",
            "push local 0",
            "push constant 20",
            "lt",
            "not",
            "if-goto WHILE_END1",
            "push local 0",
            "push constant 1",
            "add",
            "pop local 0",
            "goto WHILE_EXP1",
            "label WHILE_END1",
            "push local 0",
            "call Output.printInt 1",
            "pop temp 0",
            "push local 0",
            "return",
        ])
    );
}

#[test]
fn compiles_strings_arrays_and_unary() {
    let src = "class Main {
        function void f(Array a) {
            do Output.printString(\"Hi\");
            let a[1] = -a[0];
            return ~true;
        }
    }";
    let (r, out) = compile(src);
    assert_eq!(r, Ok(()));
    assert_eq!(
        out,
        strings(&[
            "function Main.f 0",
            "push constant 2",
            "call String.new 1",
            "push constant 72",
            "call String.append 2",
            "push constant 105",
            "call String.append 2",
            "call Output.printString 1",
            "pop temp 0",
            "push argument 0",
            "push constant 1",
            "add",
            "push argument 0",
            "push constant 0",
            "add",
            "pop pointer 1",
            "push that 0",
            "neg",
            "pop temp 0",
            "pop pointer 1",
            "push temp 0",
            "pop that 0",
            "push constant 0",
            "not",
            "not",
            "return",
        ])
    );
}

#[test]
fn compiles_methods_and_calls_on_objects() {
    let src = "class Ball {
        method void move(int dx) {
            var Point p;
            do p.shift(dx, 1);
            do draw();
            return;
        }
    }";
    let (r, out) = compile(src);
    assert_eq!(r, Ok(()));
    assert_eq!(
        out,
        strings(&[
            "pop pointer 0",
            "function Ball.move 1",
            "push local 0",
            "push argument 0",
            "push constant 1",
            "call Point.shift 3",
            "pop temp 0",
            "push pointer 0",
            "call Ball.draw 1",
            "pop temp 0",
            "push constant 0",
            "return",
        ])
    );
}

#[test]
fn compile_errors() {
    let (r, _) = compile("foo");
    assert_eq!(r, Err("1: Expected 'class' declaration, found 'foo'".to_string()));
    let (r, _) = compile("class");
    assert_eq!(r, Err("Unexpected EOF".to_string()));
    let (r, _) = compile("class Main { function void f() { let x = 1; return; } }");
    assert_eq!(r, Err("Undefined var".to_string()));
    let (r, _) = compile("class Main { function void f() { return y; } }");
    assert_eq!(r, Err("Undefined variable: y".to_string()));
    let (r, _) = compile("class Main { function void f() { else } }");
    assert_eq!(r, Err("1: Unexpected 'else'".to_string()));
    let (r, _) = compile("class Main { function void f() { return 1 ~ 2; } }");
    assert_eq!(r, Err("1: 'Not' operator cannot be used as a binary operator".to_string()));
    let (r, _) = compile("class Main { constructor Other() { return this; } }");
    assert_eq!(r, Err("1: Constructor name must match class name".to_string()));
    let (r, _) = compile("class Main { int x; }");
    assert_eq!(r, Err("1: Expected symbol '}', found 'int'".to_string()));
}

#[test]
fn compiles_constructor() {
    let src = "class Point { constructor Point(int ax) { return this; } }";
    let (r, out) = compile(src);
    assert_eq!(r, Ok(()));
    assert_eq!(
        out,
        strings(&[
            "function Point.new 0",
            "push constant 0",
            "call Memory.alloc 1",
            "pop pointer 0",
            "push pointer 0",
            "return",
        ])
    );
}

#[test]
fn keyword_texts_read_back() {
    let all = [
        Keyword::Prim(Primitive::Int),
        Keyword::Prim(Primitive::Char),
        Keyword::Prim(Primitive::Bool),
        Keyword::Prim(Primitive::Void),
        Keyword::Scope(Scope::Static),
        Keyword::Scope(Scope::Field),
        Keyword::Scope(Scope::Var),
        Keyword::Action(Action::Let),
        Keyword::Action(Action::Do),
        Keyword::Action(Action::If),
        Keyword::Action(Action::Else),
        Keyword::Action(Action::While),
        Keyword::Action(Action::Return),
        Keyword::Routine(Routine::Constructor),
        Keyword::Routine(Routine::Function),
        Keyword::Routine(Routine::Method),
        Keyword::Const(Const::True),
        Keyword::Const(Const::False),
        Keyword::Const(Const::Null),
        Keyword::Const(Const::This),
        Keyword::Class,
    ];
    for k in all {
        assert_eq!(Keyword::from_str(k.text()), Some(k));
    }
    // The segment names that only the compiler writes are no keywords.
    assert_eq!(Keyword::from_str(Keyword::Scope(Scope::Arg).text()), None);
    assert_eq!(
        Keyword::from_str(Keyword::Scope(Scope::This).text()),
        Some(Keyword::Const(Const::This))
    );
}

#[test]
fn symbol_texts_read_back() {
    for c in "{}()[].,;+-*/&|<>=~".chars() {
        let s = Symbol::from_char(c).unwrap();
        assert_eq!(s.text().len(), 1);
        assert_eq!(s.text().chars().next(), Some(c));
    }
}

#[test]
fn compiling_appends_to_the_output() {
    let src = "class A { function void f() { return; } }";
    let mut engine = CompilationEngine::new(JackTokenizer::new(src));
    assert!(engine.output().is_empty());
    engine.compile_class().unwrap();
    let first = engine.output().clone();
    let r = engine.compile_class();
    assert_eq!(r, Err("Unexpected EOF".to_string()));
    assert_eq!(engine.output(), &first);
}

#[test]
fn broken_string_does_not_count_its_newline() {
    let mut t = JackTokenizer::new("\"a\nb c\nd");
    assert_eq!(t.next_token().unwrap().unwrap_err(), "1: Newline in string literal");
    let b = t.next_token().unwrap().unwrap();
    assert_eq!((b.text(), b.line), ("b".to_string(), 1));
    let c = t.next_token().unwrap().unwrap();
    assert_eq!((c.text(), c.line), ("c".to_string(), 1));
    let d = t.next_token().unwrap().unwrap();
    assert_eq!((d.text(), d.line), ("d".to_string(), 2));
}

#[test]
fn function_command_counts_locals() {
    let src = "class Main { function int f(int a, int b) { var int x, y, z; return a; } }";
    let (r, out) = compile(src);
    assert_eq!(r, Ok(()));
    assert_eq!(out, strings(&["function Main.f 3", "push argument 0", "return"]));
}

#[test]
fn locals_accumulate_and_fields_are_flushed() {
    let src = "class P {
        field int x;
        constructor P() { var int a; let a = 1; return this; }
        function void g() { var int b, c; let c = 2; return; }
    }";
    let (r, out) = compile(src);
    assert_eq!(r, Ok(()));
    assert_eq!(
        out,
        strings(&[
            "function P.new 1",
            "push constant 0",
            "call Memory.alloc 1",
            "pop pointer 0",
            "push constant 1",
            "pop local 0",
            "push pointer 0",
            "return",
            "function P.g 3",
            "push constant 2",
            "pop local 2",
            "push constant 0",
            "return",
        ])
    );
    let (r, _) = compile("class P { field int x; method void m() { let x = 1; return; } }");
    assert_eq!(r, Err("Undefined var".to_string()));
}

#[test]
fn indices_count_earlier_declarations_of_the_same_scope() {
    let mut t = SymbolTable::new();
    let int = TypeDescriptor::Primitive(Primitive::Int);
    t.define("a", &int, Scope::Arg);
    t.define("s", &int, Scope::Static);
    t.define("b", &int, Scope::Arg);
    t.define("v", &int, Scope::Var);
    t.define("c", &int, Scope::Arg);
    t.define("w", &int, Scope::Var);
    t.define("f", &int, Scope::Field);
    assert_eq!(t.index_of("a"), Some(0));
    assert_eq!(t.index_of("b"), Some(1));
    assert_eq!(t.index_of("c"), Some(2));
    assert_eq!(t.index_of("v"), Some(0));
    assert_eq!(t.index_of("w"), Some(1));
    assert_eq!(t.index_of("s"), Some(0));
    assert_eq!(t.index_of("f"), Some(0));
    assert_eq!(t.arg_count(), 3);
    assert_eq!(t.local_count(), 2);
}

#[test]
fn labels_of_a_class_are_distinct() {
    let src = "class Main {
        function void f(int n) {
            while (n > 0) {
                if (n = 3) { let n = n - 1; } else { while (n > 5) { let n = n - 2; } }
                let n = n - 1;
            }
            return;
        }
        function void g() {
            if (true) { if (false) { return; } }
            return;
        }
    }";
    let (r, out) = compile(src);
    assert!(r.is_ok());
    let labels: Vec<&String> = out.iter().filter(|l| l.starts_with("label ")).collect();
    assert_eq!(labels.len(), 11);
    for (i, a) in labels.iter().enumerate() {
        for b in &labels[i + 1..] {
            assert_ne!(a, b);
        }
    }
    // Each jump finds its label among the lines of its own function.
    let mut start = 0;
    for (i, l) in out.iter().enumerate() {
        if l.starts_with("function ") {
            start = i;
        }
        if let Some(target) = l.strip_prefix("goto ").or_else(|| l.strip_prefix("if-goto ")) {
            let end = out[start + 1..].iter().position(|x| x.starts_with("function ")).map_or(out.len(), |k| start + 1 + k);
            assert!(out[start..end].iter().any(|x| x.as_str() == format!("label {}", target)));
        }
    }
    assert!(out[0].starts_with("function "));
}

#[test]
fn a_method_takes_this_before_its_function_line() {
    let (r, out) = compile("class A { method int get() { return 1; } function void f() { return; } }");
    assert_eq!(r, Ok(()));
    assert_eq!(
        out,
        strings(&[
            "pop pointer 0",
            "function A.get 0",
            "push constant 1",
            "return",
            "function A.f 0",
            "push constant 0",
            "return",
        ])
    );
}
