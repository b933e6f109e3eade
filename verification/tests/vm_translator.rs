use nand2tetris::hack::assembler::assemble;
use nand2tetris::vm::codewriter::CodeWriter;
use nand2tetris::vm::parser::{
    define_segment, line_error_string, parse_line, read_line, Bin, Cmd, Comp, Math, Segment,
    TranslateError,
};
use nand2tetris::vm::sources::{default_filename, has_vm_extension, unique_sources, validate_vm};
use nand2tetris::vm::translator::{translate_file, translate_program};

fn strings(src: &[&str]) -> Vec<String> {
    src.iter().map(|s| s.to_string()).collect()
}

#[test]
fn segments_and_their_limits() {
    assert_eq!(define_segment("temp", 7), Ok((Segment::Temp, 7)));
    assert_eq!(define_segment("temp", 8), Err("Overflow exception".to_string()));
    assert_eq!(define_segment("pointer", 1), Ok((Segment::Pointer, 1)));
    assert_eq!(define_segment("pointer", 2), Err("Pointer cache overflow".to_string()));
    assert_eq!(define_segment("static", 239), Ok((Segment::Static, 239)));
    assert_eq!(
        define_segment("static", 240),
        Err("Static offset out of bounds: 240".to_string())
    );
    assert_eq!(define_segment("constant", 32768), Ok((Segment::Constant, 32768)));
    assert_eq!(define_segment("constant", 32769), Err("Overflow exception".to_string()));
    assert_eq!(define_segment("LOCAL", 3), Ok((Segment::Local, 3)));
    assert_eq!(define_segment("Argument", 100000), Ok((Segment::Argument, 100000)));
    assert_eq!(define_segment("foo", 1), Err("Invalid segment name: 'foo'".to_string()));
}

#[test]
fn lines_read_as_commands() {
    assert!(read_line("").is_none());
    assert!(read_line("   // just a comment").is_none());
    assert!(matches!(
        read_line("  push constant 7 // seven"),
        Some(Ok(Cmd::Push(Segment::Constant, 7)))
    ));
    assert!(matches!(read_line("POP local 2"), Some(Ok(Cmd::Pop(Segment::Local, 2)))));
    assert!(matches!(read_line("add"), Some(Ok(Cmd::Math(Math::Bin(Bin::Add))))));
    assert!(matches!(read_line("lt extra words"), Some(Ok(Cmd::Math(Math::Comp(Comp::Lt))))));
    match read_line("function Main.main 2") {
        Some(Ok(Cmd::Function(name, n))) => {
            assert_eq!(name, "Main.main");
            assert_eq!(n, 2);
        },
        other => panic!("unexpected {:?}", other),
    }
    match read_line("if-goto LOOP") {
        Some(Ok(Cmd::If(l))) => assert_eq!(l, "LOOP"),
        other => panic!("unexpected {:?}", other),
    }
    assert!(matches!(read_line("return"), Some(Ok(Cmd::Return))));
}

#[test]
fn line_errors() {
    assert_eq!(read_line("bogus 1").unwrap().unwrap_err(), "Unknown command: bogus");
    assert_eq!(read_line("push").unwrap().unwrap_err(), "Missing segment argument");
    assert_eq!(read_line("push constant").unwrap().unwrap_err(), "Missing index argument");
    assert_eq!(read_line("push constant x").unwrap().unwrap_err(), "Invalid index number");
    assert_eq!(read_line("call Math.add").unwrap().unwrap_err(), "Missing arg count");
    assert_eq!(read_line("function f x").unwrap().unwrap_err(), "Invalid var count");
    assert_eq!(read_line("label").unwrap().unwrap_err(), "Missing label name");
    assert_eq!(read_line("pop temp 9").unwrap().unwrap_err(), "Overflow exception");
    let args = strings(&["argument", "1"]);
    assert!(matches!(parse_line("push", &args), Ok(Cmd::Push(Segment::Argument, 1))));
    assert_eq!(line_error_string(12, "Missing label name"), "Line 12: Missing label name");
}

#[test]
fn writer_push_constant() {
    let mut w = CodeWriter::new();
    w.command(Cmd::Push(Segment::Constant, 7)).unwrap();
    assert_eq!(w.lines(), &strings(&["@7", "D=A", "@SP", "A=M", "M=D", "@SP", "M=M+1"]));
}

#[test]
fn writer_static_uses_file_name() {
    let mut w = CodeWriter::new();
    w.set_file_name("Foo");
    w.command(Cmd::Pop(Segment::Static, 3)).unwrap();
    assert_eq!(w.lines(), &strings(&["@SP", "AM=M-1", "D=M", "@Foo.3", "M=D"]));
}

#[test]
fn writer_refuses_pop_constant() {
    let mut w = CodeWriter::new();
    assert_eq!(w.command(Cmd::Pop(Segment::Constant, 0)), Err("Cannot pop constant".to_string()));
    assert!(w.lines().is_empty());
}

#[test]
fn comparisons_take_fresh_labels() {
    let mut w = CodeWriter::new();
    w.command(Cmd::Math(Math::Comp(Comp::Eq))).unwrap();
    w.command(Cmd::Math(Math::Comp(Comp::Gt))).unwrap();
    assert_eq!(
        w.lines(),
        &strings(&[
            "@COMP_RTRN0",
            "D=A",
            "@ENTER_EQ",
            "0;JMP",
            "(COMP_RTRN0)",
            "@COMP_RTRN1",
            "D=A",
            "@ENTER_GT",
            "0;JMP",
            "(COMP_RTRN1)",
        ])
    );
}

#[test]
fn labels_belong_to_the_function() {
    let mut w = CodeWriter::new();
    w.command(Cmd::Function("Main.loop".to_string(), 0)).unwrap();
    w.command(Cmd::Label("TOP".to_string())).unwrap();
    w.command(Cmd::Goto("TOP".to_string())).unwrap();
    assert_eq!(w.lines(), &strings(&["(Main.loop)", "(Main.loop$TOP)", "@Main.loop$TOP", "0;JMP"]));
}

#[test]
fn bootstrap_sets_stack_and_calls_sys_init() {
    let out = translate_program(&vec![]).unwrap();
    assert_eq!(&out[..3], &strings(&["@256", "D=A", "@SP"])[..]);
    assert_eq!(out[3], "M=D");
    assert!(out.contains(&"(BOOTED)".to_string()));
    assert!(out.contains(&"@Sys.init".to_string()));
    assert_eq!(out.last().unwrap(), "(RTRN_CALL0)");
}

#[test]
fn translates_files_in_order() {
    let empty = translate_program(&vec![]).unwrap();
    let files = vec![
        ("A".to_string(), strings(&["push static 1", "// nothing"])),
        ("B".to_string(), strings(&["", "pop static 2"])),
    ];
    let out = translate_program(&files).unwrap();
    assert_eq!(&out[..empty.len()], &empty[..]);
    let rest: Vec<String> = out[empty.len()..].to_vec();
    assert_eq!(
        rest,
        strings(&[
            "@A.1", "D=M", "@SP", "A=M", "M=D", "@SP", "M=M+1", "@SP", "AM=M-1", "D=M", "@B.2",
            "M=D",
        ])
    );
}

#[test]
fn translation_errors_name_file_and_line() {
    let files = vec![
        ("A".to_string(), strings(&["push constant 1"])),
        ("B".to_string(), strings(&["add", "", "push nowhere 1"])),
    ];
    match translate_program(&files) {
        Err((1, TranslateError::Parse(m))) => {
            assert_eq!(m, "Line 3: Invalid segment name: 'nowhere'")
        },
        other => panic!("unexpected {:?}", other.err()),
    }
    let files = vec![("C".to_string(), strings(&["pop constant 0"]))];
    match translate_program(&files) {
        Err((0, TranslateError::Write(m))) => assert_eq!(m, "Cannot pop constant"),
        other => panic!("unexpected {:?}", other.err()),
    }
}

#[test]
fn translate_one_file_into_a_writer() {
    let mut w = CodeWriter::new();
    translate_file(&mut w, "X", &strings(&["push temp 2"])).unwrap();
    assert_eq!(w.lines(), &strings(&["@7", "D=M", "@SP", "A=M", "M=D", "@SP", "M=M+1"]));
}

#[test]
fn sources_are_read_once_each() {
    let keys = vec![
        Some("/p/Main.vm".to_string()),
        None,
        Some("/p/Sys.vm".to_string()),
        Some("/p/Main.vm".to_string()),
        Some("/p/Other.vm".to_string()),
        Some("/p/Sys.vm".to_string()),
    ];
    assert_eq!(unique_sources(&keys), vec![0, 2, 4]);
    assert_eq!(unique_sources(&vec![]), Vec::<usize>::new());
}

#[test]
fn default_output_names() {
    assert_eq!(default_filename(true, Some("FibonacciElement"), "x/FibonacciElement"), "FibonacciElement");
    assert_eq!(default_filename(true, None, ".."), "..");
    assert_eq!(default_filename(false, Some("Main.vm"), "Main.vm"), "a");
}

#[test]
fn blank_and_comment_lines_write_nothing() {
    let plain = vec![("M".to_string(), strings(&["push constant 1", "neg"]))];
    let spaced = vec![(
        "M".to_string(),
        strings(&["", "// header", "push constant 1   // one", "   ", "neg"]),
    )];
    assert_eq!(translate_program(&plain).unwrap(), translate_program(&spaced).unwrap());
}

#[test]
fn calls_take_fresh_return_labels() {
    let mut w = CodeWriter::new();
    w.command(Cmd::Call("Math.max".to_string(), 2)).unwrap();
    w.command(Cmd::Call("Math.min".to_string(), 2)).unwrap();
    let labels: Vec<&String> = w.lines().iter().filter(|l| l.starts_with("(RTRN_CALL")).collect();
    assert_eq!(labels, vec!["(RTRN_CALL0)", "(RTRN_CALL1)"]);
}

#[test]
fn if_goto_jumps_on_zero() {
    let mut w = CodeWriter::new();
    w.command(Cmd::Function("Main.f".to_string(), 0)).unwrap();
    w.command(Cmd::If("END".to_string())).unwrap();
    assert_eq!(
        w.lines(),
        &strings(&["(Main.f)", "@SP", "AM=M-1", "D=M", "@Main.f$END", "D;JEQ"])
    );
}

#[test]
fn function_allocates_zeroed_locals() {
    let mut w = CodeWriter::new();
    w.command(Cmd::Function("Main.g".to_string(), 2)).unwrap();
    assert_eq!(
        w.lines(),
        &strings(&[
            "(Main.g)", "@0", "D=A", "@SP", "A=M", "M=D", "@SP", "M=M+1", "@0", "D=A", "@SP", "A=M",
            "M=D", "@SP", "M=M+1",
        ])
    );
}

#[test]
fn only_vm_files_are_read() {
    assert!(has_vm_extension(Some("vm")));
    assert!(!has_vm_extension(Some("VM")));
    assert!(!has_vm_extension(Some("asm")));
    assert!(!has_vm_extension(None));
    assert_eq!(validate_vm("dir/Main.vm", Some("vm")), Ok("dir/Main.vm".to_string()));
    assert_eq!(
        validate_vm("dir/Main.jack", Some("jack")),
        Err("Error: 'dir/Main.jack' is not a .vm file".to_string())
    );
    assert_eq!(validate_vm("Makefile", None), Err("Error: 'Makefile' is not a .vm file".to_string()));
}

#[test]
fn ascii_words_in_any_case() {
    assert!(matches!(
        parse_line("PuSh", &strings(&["ConStant", "7"])),
        Ok(Cmd::Push(Segment::Constant, 7))
    ));
    assert!(matches!(parse_line("IF-GOTO", &strings(&["L"])), Ok(Cmd::If(l)) if l == "L"));
    assert_eq!(define_segment("THAT", 2), Ok((Segment::That, 2)));
}

/// Runs Hack machine words from ROM address 0 for `steps` instructions.
fn run_hack(words: &[String], steps: usize) -> Vec<u16> {
    let rom: Vec<u16> = words.iter().map(|w| u16::from_str_radix(w, 2).unwrap()).collect();
    let mut ram = vec![0u16; 32768];
    let (mut a, mut d, mut pc) = (0u16, 0u16, 0usize);
    for _ in 0..steps {
        if pc >= rom.len() {
            break;
        }
        let w = rom[pc];
        if w & 0x8000 == 0 {
            a = w;
            pc += 1;
            continue;
        }
        let bit = |k: u16| (w >> k) & 1 == 1;
        let mut x = d;
        let mut y = if bit(12) { ram[a as usize] } else { a };
        if bit(11) { x = 0; }
        if bit(10) { x = !x; }
        if bit(9) { y = 0; }
        if bit(8) { y = !y; }
        let mut out = if bit(7) { x.wrapping_add(y) } else { x & y };
        if bit(6) { out = !out; }
        let addr = a as usize;
        if bit(3) { ram[addr] = out; }
        if bit(5) { a = out; }
        if bit(4) { d = out; }
        let neg = out & 0x8000 != 0;
        let jump = (bit(2) && neg) || (bit(1) && out == 0) || (bit(0) && !neg && out != 0);
        pc = if jump { addr } else { pc + 1 };
    }
    ram
}

/// `Main.sum n` adds `n`, `n - 1`, .., `1`, leaving its loop through
/// `if-goto`, which jumps where the popped value is zero.
#[test]
fn translated_program_runs_on_the_hack_machine() {
    let files = vec![
        (
            "Sys".to_string(),
            strings(&[
                "function Sys.init 0",
                "push constant 7",
                "push constant 8",
                "call Main.add 2",
                "pop temp 0",
                "push constant 5",
                "call Main.sum 1",
                "pop temp 1",
                "push constant 3",
                "push constant 4",
                "lt",
                "pop temp 2",
                "push constant 9",
                "neg",
                "push constant 2",
                "gt",
                "pop temp 3",
                "push constant 12",
                "pop static 0",
                "push static 0",
                "push constant 5",
                "sub",
                "pop temp 4",
                "label END",
                "goto END",
            ]),
        ),
        (
            "Main".to_string(),
            strings(&[
                "function Main.add 0",
                "push argument 0",
                "push argument 1",
                "add",
                "return",
                "function Main.sum 1",
                "label LOOP",
                "push argument 0",
                "if-goto DONE",
                "push local 0",
                "push argument 0",
                "add",
                "pop local 0",
                "push argument 0",
                "push constant 1",
                "sub",
                "pop argument 0",
                "goto LOOP",
                "label DONE",
                "push local 0",
                "return",
            ]),
        ),
    ];
    let listing = translate_program(&files).unwrap();
    let words = assemble(&listing).unwrap();
    let ram = run_hack(&words, 200_000);
    assert_eq!(ram[5], 15);
    assert_eq!(ram[6], 15);
    assert_eq!(ram[7], 0xffff);
    assert_eq!(ram[8], 0);
    assert_eq!(ram[9], 7);
    // Sys.init's frame sits at 256..261; its working stack is empty again.
    assert_eq!(ram[0], 261);
}

#[test]
fn call_and_return_restore_the_caller() {
    let files = vec![
        (
            "Sys".to_string(),
            strings(&[
                "function Sys.init 2",
                "push constant 11",
                "pop local 1",
                "push constant 3000",
                "pop pointer 0",
                "push constant 4000",
                "pop pointer 1",
                "push constant 1",
                "call Main.f 1",
                "pop temp 0",
                "push local 1",
                "pop temp 1",
                "push pointer 0",
                "pop temp 2",
                "push pointer 1",
                "pop temp 3",
                "label END",
                "goto END",
            ]),
        ),
        (
            "Main".to_string(),
            strings(&[
                "function Main.f 3",
                "push constant 5000",
                "pop pointer 0",
                "push constant 6000",
                "pop pointer 1",
                "push argument 0",
                "push constant 41",
                "add",
                "return",
            ]),
        ),
    ];
    let listing = translate_program(&files).unwrap();
    let words = assemble(&listing).unwrap();
    let ram = run_hack(&words, 100_000);
    assert_eq!(ram[5], 42);
    assert_eq!(ram[6], 11);
    assert_eq!(ram[7], 3000);
    assert_eq!(ram[8], 4000);
    // LCL of Sys.init: its frame of five cells starts at 256.
    assert_eq!(ram[1], 261);
    assert_eq!(ram[0], 263);
}
