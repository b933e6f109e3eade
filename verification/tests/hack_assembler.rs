use nand2tetris::hack::assembler::{assemble, clean_program, parse_i32_exec, validate_asm, word_string};
use nand2tetris::hack::code::{comp, comp_checked, dest, jump, jump_checked};
use nand2tetris::hack::parser::{clean_line, instruction_ok, parse_instruction, Command};
use nand2tetris::hack::symboltable::SymbolTable;

fn lines(src: &[&str]) -> Vec<String> {
    src.iter().map(|s| s.to_string()).collect()
}

#[test]
fn comp_table_values() {
    assert_eq!(comp("0"), "0101010");
    assert_eq!(comp("D+A"), "0000010");
    assert_eq!(comp("A+D"), "0000010");
    assert_eq!(comp("M-D"), "1000111");
    assert_eq!(comp("D|M"), "1010101");
    assert_eq!(comp("1+M"), "1110111");
    assert_eq!(comp_checked("D*A"), None);
}

#[test]
fn jump_table_values() {
    assert_eq!(jump(None), "000");
    assert_eq!(jump(Some("JGT")), "001");
    assert_eq!(jump(Some("JMP")), "111");
    assert_eq!(jump_checked(Some("JXX")), None);
}

#[test]
fn dest_bits_in_any_order() {
    assert_eq!(dest(None), "000");
    assert_eq!(dest(Some("M")), "001");
    assert_eq!(dest(Some("D")), "010");
    assert_eq!(dest(Some("AMD")), "111");
    assert_eq!(dest(Some("DA")), "110");
}

#[test]
fn clean_line_cuts_comments_and_space() {
    assert_eq!(clean_line("   D=M   // load"), "D=M");
    assert_eq!(clean_line("// only a comment"), "");
    assert_eq!(clean_line("\t@sum\t"), "@sum");
    assert_eq!(clean_line("  D = M + 1 // inc"), "D=M+1");
    assert_eq!(clean_line("( LOOP )"), "(LOOP)");
}

#[test]
fn instructions_are_classified() {
    match parse_instruction("@LOOP") {
        Command::A(s) => assert_eq!(s, "LOOP"),
        other => panic!("unexpected {:?}", other),
    }
    match parse_instruction("(END)") {
        Command::L(s) => assert_eq!(s, "END"),
        other => panic!("unexpected {:?}", other),
    }
    match parse_instruction("am=m+1;jgt") {
        Command::C(d, c, j) => {
            assert_eq!(d.as_deref(), Some("AM"));
            assert_eq!(c, "M+1");
            assert_eq!(j.as_deref(), Some("JGT"));
        },
        other => panic!("unexpected {:?}", other),
    }
    match parse_instruction("0;JMP") {
        Command::C(d, c, j) => {
            assert_eq!(d, None);
            assert_eq!(c, "0");
            assert_eq!(j.as_deref(), Some("JMP"));
        },
        other => panic!("unexpected {:?}", other),
    }
    assert!(!instruction_ok("D=M=A"));
    assert!(!instruction_ok("D;JMP;JMP"));
}

#[test]
fn predefined_symbols_in_any_case() {
    let t = SymbolTable::new();
    assert!(t.contains("SCREEN"));
    assert_eq!(t.get_address("SCREEN"), 16384);
    assert_eq!(t.get_address("kbd"), 24576);
    assert_eq!(t.get_address("THAT"), 4);
    assert_eq!(t.get_address("r1"), 1);
    assert_eq!(t.get_address("R05"), 5);
    assert_eq!(t.get_address("R15"), 15);
    assert!(!t.contains("R16"));
    assert!(!t.contains("loop"));
}

#[test]
fn entries_read_back() {
    let mut t = SymbolTable::new();
    t.add_entry(&"counter".to_string(), 16);
    assert!(t.contains("counter"));
    assert_eq!(t.get_address("counter"), 16);
    t.add_entry(&"counter".to_string(), 17);
    assert_eq!(t.get_address("counter"), 17);
}

#[test]
fn words_are_sixteen_bits() {
    assert_eq!(word_string(0), "0000000000000000");
    assert_eq!(word_string(5), "0000000000000101");
    assert_eq!(word_string(32767), "0111111111111111");
    assert_eq!(word_string(-1), "11111111111111111111111111111111");
    assert_eq!(parse_i32_exec("+12"), Some(12));
    assert_eq!(parse_i32_exec("-12"), Some(-12));
    assert_eq!(parse_i32_exec("2147483648"), None);
    assert_eq!(parse_i32_exec("x1"), None);
}

#[test]
fn assembles_add_program() {
    let src = lines(&[
        "// Computes R0 = 2 + 3",
        "@2",
        "D=A",
        "@3",
        "D=D+A",
        "",
        "@0",
        "M=D   // store",
    ]);
    let out = assemble(&src).unwrap();
    assert_eq!(
        out,
        lines(&[
            "0000000000000010",
            "1110110000010000",
            "0000000000000011",
            "1110000010010000",
            "0000000000000000",
            "1110001100001000",
        ])
    );
}

#[test]
fn labels_and_variables() {
    let src = lines(&["@i", "M=1", "(LOOP)", "@i", "d=m", "@j", "@LOOP", "0;JMP", "@i"]);
    let out = assemble(&src).unwrap();
    assert_eq!(
        out,
        lines(&[
            "0000000000010000",
            "1110111111001000",
            "0000000000010000",
            "1111110000010000",
            "0000000000010001",
            "0000000000000010",
            "1110101010000111",
            "0000000000010000",
        ])
    );
}

#[test]
fn label_declared_after_use() {
    let src = lines(&["@END", "0;JMP", "(END)", "@END", "0;JMP"]);
    let out = assemble(&src).unwrap();
    assert_eq!(out[0], "0000000000000010");
    assert_eq!(out[2], "0000000000000010");
}

#[test]
fn assembler_errors() {
    assert_eq!(
        assemble(&lines(&["@1", "D=M=A"])),
        Err("Syntax Error: Multiple '=' in C-Command".to_string())
    );
    assert_eq!(
        assemble(&lines(&["D;JMP;JMP"])),
        Err("Syntax Error: Multiple ';' in C-Command".to_string())
    );
    assert_eq!(assemble(&lines(&["D=Q"])), Err("Invalid comp instruction: Q".to_string()));
    assert_eq!(assemble(&lines(&["0;JXX"])), Err("Invalid jump instruction: JXX".to_string()));
}

#[test]
fn input_must_be_asm() {
    assert_eq!(validate_asm("prog/Add.asm", Some("asm")), Ok("prog/Add.asm".to_string()));
    assert_eq!(
        validate_asm("prog/Add.txt", Some("txt")),
        Err("Input file 'prog/Add.txt' must have an .asm extension.".to_string())
    );
    assert_eq!(
        validate_asm("Makefile", None),
        Err("Input file 'Makefile' must have an .asm extension.".to_string())
    );
}

#[test]
fn words_read_back_as_their_values() {
    let mut v: i32 = 0;
    while v < 0x1_0000 {
        let w = word_string(v);
        assert_eq!(w.len(), 16);
        assert_eq!(i32::from_str_radix(&w, 2).unwrap(), v);
        v += 257;
    }
    assert_eq!(word_string(65535), "1111111111111111");
}

#[test]
fn c_words_are_sixteen_bits() {
    let out = assemble(&lines(&["AMD=D|M;JLE", "0", "M=-1;JNE"])).unwrap();
    for w in &out {
        assert_eq!(w.len(), 16);
        assert!(w.starts_with("111"));
        assert!(w.chars().all(|c| c == '0' || c == '1'));
    }
    assert_eq!(out[0], "1111010101111110");
}

#[test]
fn predefined_symbols_assemble_to_their_addresses() {
    let out = assemble(&lines(&["@SP", "@LCL", "@ARG", "@THIS", "@THAT", "@R13", "@SCREEN", "@KBD"]))
        .unwrap();
    assert_eq!(
        out,
        lines(&[
            "0000000000000000",
            "0000000000000001",
            "0000000000000010",
            "0000000000000011",
            "0000000000000100",
            "0000000000001101",
            "0100000000000000",
            "0110000000000000",
        ])
    );
}

#[test]
fn spaces_inside_instructions_are_removed() {
    let prog = clean_program(&lines(&["D = M + 1", "  @ 5 ", "0 ; JMP"]));
    assert_eq!(prog, lines(&["D=M+1", "@5", "0;JMP"]));
    match parse_instruction(&prog[0]) {
        Command::C(d, c, j) => {
            assert_eq!(d.as_deref(), Some("D"));
            assert_eq!(c, "M+1");
            assert_eq!(j, None);
        },
        other => panic!("unexpected {:?}", other),
    }
    assert_eq!(
        assemble(&lines(&["D = M + 1", "0 ; JMP"])).unwrap(),
        lines(&["1111110111010000", "1110101010000111"])
    );
}

#[test]
fn only_the_a_bit_tells_memory_from_register() {
    for (m, a) in [("M", "A"), ("M+1", "A+1"), ("D&M", "D&A"), ("M-D", "A-D"), ("!M", "!A")] {
        let with_m = comp(m);
        let with_a = comp(a);
        assert!(with_m.starts_with('1'));
        assert!(with_a.starts_with('0'));
        assert_eq!(&with_m[1..], &with_a[1..]);
    }
    assert!(comp("D+1").starts_with('0'));
}

#[test]
fn adding_an_entry_keeps_other_names() {
    let mut t = SymbolTable::new();
    t.add_entry(&"loop".to_string(), 20);
    assert_eq!(t.get_address("loop"), 20);
    assert_eq!(t.get_address("sp"), 0);
    assert_eq!(t.get_address("R13"), 13);
    assert!(!t.contains("LOOP"));
    t.add_entry(&"SP".to_string(), 7);
    assert_eq!(t.get_address("sp"), 7);
    assert_eq!(t.get_address("loop"), 20);
}
