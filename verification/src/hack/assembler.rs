//! The two passes of the assembler: labels first, then translation of each
//! instruction into a 16-bit binary word, with variables allocated from
//! RAM address 16 on.
use vstd::prelude::*;
use crate::text::{
    chars_of, concat2, concat3, str_eq, push_char, all_digits, digits_value, is_digit, digit_value,
    lemma_digits_value_prefix_le,
};
use crate::hack::code::{comp, comp_bits, dest, dest_bits, is_bits, jump, jump_bits};
use crate::hack::parser::{
    ascii_instruction, clean, clean_line, count_eq, instruction, instruction_ok, parse_instruction,
    strip_comment, without_ws, Command, CommandModel, uppercase,
};
use crate::text::ascii_upper_all;
use vstd::utf8::is_ascii_chars;
use crate::hack::symboltable::{lookup_key, predefined_table, resolve, SymbolTable};

verus! {

/// The texts of a vector of strings.
pub open spec fn views(v: Seq<String>) -> Seq<Seq<char>> {
    v.map_values(|s: String| s@)
}

// ---------------------------------------------------------------------------
// Numbers
// ---------------------------------------------------------------------------

/// What std's `str::parse::<i32>` gives: an optional sign and at least one
/// digit, within the range of `i32`.
pub open spec fn parse_i32(s: Seq<char>) -> Option<int> {
    let neg = s.len() > 0 && s[0] == '-';
    let body = if s.len() > 0 && (s[0] == '-' || s[0] == '+') { s.skip(1) } else { s };
    if body.len() == 0 || !all_digits(body) {
        None
    } else if neg {
        if digits_value(body) <= 0x8000_0000 { Some(-(digits_value(body) as int)) } else { None }
    } else {
        if digits_value(body) <= 0x7fff_ffff { Some(digits_value(body) as int) } else { None }
    }
}

proof fn lemma_digits_value_push(s: Seq<char>, c: char)
    ensures
        digits_value(s.push(c)) == digits_value(s) * 10 + digit_value(c),
{
    assert(s.push(c).drop_last() =~= s);
}

/// Parses a decimal `i32` as std's `str::parse::<i32>` does.
pub fn parse_i32_exec(s: &str) -> (r: Option<i32>)
    ensures
        match r {
            Some(v) => parse_i32(s@) == Some(v as int),
            None => parse_i32(s@) is None,
        },
{
    let v = chars_of(s);
    let n = v.len();
    let neg = n > 0 && v[0] == '-';
    let start: usize = if n > 0 && (v[0] == '-' || v[0] == '+') { 1 } else { 0 };
    let ghost body = v@.skip(start as int);
    assert(body == (if s@.len() > 0 && (s@[0] == '-' || s@[0] == '+') { s@.skip(1) } else { s@ })) by {
        if start == 0 {
            assert(v@.skip(0) =~= v@);
        }
    }
    if start == n {
        return None;
    }
    let limit: u64 = if neg { 0x8000_0000 } else { 0x7fff_ffff };
    let mut acc: u64 = 0;
    let mut i: usize = start;
    while i < n
        invariant
            start <= i <= n == v@.len(),
            v@ == s@,
            body == v@.skip(start as int),
            body == (if s@.len() > 0 && (s@[0] == '-' || s@[0] == '+') { s@.skip(1) } else { s@ }),
            neg == (s@.len() > 0 && s@[0] == '-'),
            limit == (if neg { 0x8000_0000u64 } else { 0x7fff_ffffu64 }),
            start < n,
            all_digits(v@.subrange(start as int, i as int)),
            acc == digits_value(v@.subrange(start as int, i as int)),
            acc <= limit,
        decreases n - i,
    {
        let c = v[i];
        if !('0' <= c && c <= '9') {
            assert(!is_digit(body[i - start]));
            return None;
        }
        proof {
            lemma_digits_value_push(v@.subrange(start as int, i as int), c);
            assert(v@.subrange(start as int, i + 1) =~= v@.subrange(start as int, i as int).push(c));
        }
        acc = acc * 10 + ((c as u8) - 48) as u64;
        if acc > limit {
            proof {
                lemma_digits_value_prefix_le(body, (i + 1 - start) as int);
                assert(body.take(i + 1 - start) =~= v@.subrange(start as int, i + 1));
            }
            return None;
        }
        i = i + 1;
    }
    assert(v@.subrange(start as int, n as int) =~= body);
    if neg {
        Some((0 - (acc as i64)) as i32)
    } else {
        Some(acc as i32)
    }
}

/// The binary digits of `n`, without leading zeros (`"0"` for zero).
pub open spec fn binary(n: nat) -> Seq<char>
    decreases n,
{
    if n < 2 {
        seq![if n == 0 { '0' } else { '1' }]
    } else {
        binary(n / 2).push(if n % 2 == 0 { '0' } else { '1' })
    }
}

/// `s` padded on the left with `0` to at least 16 characters.
pub open spec fn pad16(s: Seq<char>) -> Seq<char> {
    if s.len() >= 16 {
        s
    } else {
        Seq::new((16 - s.len()) as nat, |i: int| '0') + s
    }
}

/// How `{:016b}` writes an `i32`: its two's-complement bits (32 of them
/// where it is negative), padded to 16 digits.
pub open spec fn word(v: int) -> Seq<char> {
    pad16(binary(if v < 0 { (v + 0x1_0000_0000) as nat } else { v as nat }))
}

// ---------------------------------------------------------------------------
// Laws of the machine words
// ---------------------------------------------------------------------------

/// The number that a string of binary digits stands for.
pub open spec fn bits_value(s: Seq<char>) -> nat
    decreases s.len(),
{
    if s.len() == 0 {
        0
    } else {
        2 * bits_value(s.drop_last()) + if s.last() == '1' { 1nat } else { 0nat }
    }
}

/// `2` to the power `k`.
pub open spec fn two_to(k: nat) -> nat
    decreases k,
{
    if k == 0 {
        1
    } else {
        2 * two_to((k - 1) as nat)
    }
}

proof fn lemma_binary(n: nat, k: nat)
    requires
        n < two_to(k),
        k >= 1,
    ensures
        is_bits(binary(n)),
        bits_value(binary(n)) == n,
        1 <= binary(n).len() <= k,
    decreases n,
{
    if n >= 2 {
        assert(k >= 2) by {
            if k == 1 {
                assert(two_to(1) == 2) by {
                    reveal_with_fuel(two_to, 2);
                }
            }
        }
        lemma_binary(n / 2, (k - 1) as nat);
        let b = binary(n);
        assert(b.drop_last() =~= binary(n / 2));
        assert(bits_value(b) == 2 * (n / 2) + n % 2);
        assert(2 * (n / 2) + n % 2 == n);
    } else {
        assert(binary(n).drop_last() =~= Seq::<char>::empty());
        assert(bits_value(binary(n).drop_last()) == 0);
        assert(bits_value(binary(n)) == n);
    }
}

proof fn lemma_zeros_value(z: Seq<char>, s: Seq<char>)
    requires
        forall|i: int| 0 <= i < z.len() ==> #[trigger] z[i] == '0',
    ensures
        bits_value(z + s) == bits_value(s),
    decreases s.len() + z.len(),
{
    if s.len() == 0 {
        assert(z + s =~= z);
        if z.len() > 0 {
            lemma_zeros_value(z.drop_last(), s);
            assert(z.drop_last() + s =~= z.drop_last());
        }
    } else {
        assert((z + s).drop_last() =~= z + s.drop_last());
        lemma_zeros_value(z, s.drop_last());
    }
}

proof fn lemma_leading_one(s: Seq<char>)
    requires
        s.len() >= 1,
        is_bits(s),
        s[0] == '1',
    ensures
        bits_value(s) >= two_to((s.len() - 1) as nat),
    decreases s.len(),
{
    if s.len() > 1 {
        let d = s.drop_last();
        assert(d[0] == '1');
        assert forall|i: int| 0 <= i < d.len() implies #[trigger] d[i] == '0' || d[i] == '1' by {
            assert(d[i] == s[i]);
        }
        lemma_leading_one(d);
    } else {
        assert(s.drop_last().len() == 0);
    }
}

/// An A-instruction's value below 32768 is written `0vvvvvvvvvvvvvvv`: a
/// leading zero and fifteen binary digits of the value.
pub proof fn lemma_address_word(v: int)
    requires
        0 <= v < 0x8000,
    ensures
        word(v).len() == 16,
        word(v)[0] == '0',
        is_bits(word(v)),
        bits_value(word(v)) == v,
{
    lemma_word_is_sixteen_bits(v);
    if word(v)[0] == '1' {
        lemma_leading_one(word(v));
        assert(two_to(15) == 0x8000) by {
            reveal_with_fuel(two_to, 16);
        }
    }
}

/// An A-instruction's value from 0 to 65535 is written as exactly sixteen
/// binary digits that stand for that value.
pub proof fn lemma_word_is_sixteen_bits(v: int)
    requires
        0 <= v < 0x1_0000,
    ensures
        word(v).len() == 16,
        is_bits(word(v)),
        bits_value(word(v)) == v,
{
    assert(two_to(16) == 0x1_0000) by {
        reveal_with_fuel(two_to, 17);
    }
    lemma_binary(v as nat, 16);
    let b = binary(v as nat);
    if b.len() < 16 {
        let z = Seq::new((16 - b.len()) as nat, |i: int| '0');
        lemma_zeros_value(z, b);
        assert(word(v) == z + b);
    }
}

fn binary_string(n: u64) -> (r: String)
    ensures
        r@ == binary(n as nat),
    decreases n,
{
    if n < 2 {
        let mut r = String::new();
        push_char(&mut r, if n == 0 { '0' } else { '1' });
        assert(r@ =~= binary(n as nat));
        r
    } else {
        let mut r = binary_string(n / 2);
        push_char(&mut r, if n % 2 == 0 { '0' } else { '1' });
        r
    }
}

/// The 16-digit binary word of an A-instruction's value.
pub fn word_string(v: i32) -> (r: String)
    ensures
        r@ == word(v as int),
{
    let u: u64 = if v < 0 { (v as i64 + 0x1_0000_0000i64) as u64 } else { v as u64 };
    let b = binary_string(u);
    let len = b.as_str().unicode_len();
    if len >= 16 {
        b
    } else {
        let mut r = String::new();
        let mut i: usize = 0;
        while i < 16 - len
            invariant
                len < 16,
                i <= 16 - len,
                r@ == Seq::new(i as nat, |k: int| '0'),
            decreases 16 - len - i,
        {
            push_char(&mut r, '0');
            assert(r@ =~= Seq::new((i + 1) as nat, |k: int| '0'));
            i = i + 1;
        }
        r.append(b.as_str());
        r
    }
}

// ---------------------------------------------------------------------------
// The program
// ---------------------------------------------------------------------------

/// The cleaned, nonempty lines of a source file, in order.
pub open spec fn program(lines: Seq<Seq<char>>) -> Seq<Seq<char>>
    decreases lines.len(),
{
    if lines.len() == 0 {
        Seq::empty()
    } else if clean(lines.last()).len() > 0 {
        program(lines.drop_last()).push(clean(lines.last()))
    } else {
        program(lines.drop_last())
    }
}

/// What the assembler reports on a line that `instruction` rejects; where
/// `ascii` holds, the line is read as ASCII (upper-cased the ASCII way).
pub open spec fn syntax_error_by(s: Seq<char>, ascii: bool) -> Seq<char> {
    let u = if ascii { ascii_upper_all(s) } else { uppercase(s) };
    if crate::text::count_char(u, '=') > 1 {
        "Syntax Error: Multiple '=' in C-Command"@
    } else {
        "Syntax Error: Multiple ';' in C-Command"@
    }
}

/// What the assembler reports on a line that `instruction` rejects.
pub open spec fn syntax_error(s: Seq<char>) -> Seq<char> {
    syntax_error_by(s, false)
}

/// The commands of the program's lines, or the error of its first
/// malformed line; where `ascii` holds, the lines are read as ASCII.
pub open spec fn commands_by(prog: Seq<Seq<char>>, ascii: bool) -> Result<Seq<CommandModel>, Seq<char>>
    decreases prog.len(),
{
    if prog.len() == 0 {
        Ok(Seq::empty())
    } else {
        match commands_by(prog.drop_last(), ascii) {
            Err(e) => Err(e),
            Ok(cs) => match (if ascii { ascii_instruction(prog.last()) } else { instruction(prog.last()) }) {
                Some(c) => Ok(cs.push(c)),
                None => Err(syntax_error_by(prog.last(), ascii)),
            },
        }
    }
}

/// The commands of the program's lines, or the error of its first malformed line.
pub open spec fn commands(prog: Seq<Seq<char>>) -> Result<Seq<CommandModel>, Seq<char>> {
    commands_by(prog, false)
}

/// Whether every line of `ls` is ASCII.
pub open spec fn all_ascii(ls: Seq<Seq<char>>) -> bool {
    forall|i: int| 0 <= i < ls.len() ==> is_ascii_chars(#[trigger] ls[i])
}

/// The first pass: the table with every label bound to the ROM address of
/// the instruction that follows it, and the number of instructions.
pub open spec fn label_pass(cs: Seq<CommandModel>) -> (Map<Seq<char>, i32>, int)
    decreases cs.len(),
{
    if cs.len() == 0 {
        (predefined_table(), 0)
    } else {
        let (m, rom) = label_pass(cs.drop_last());
        match cs.last() {
            CommandModel::L(l) => (m.insert(l, rom as i32), rom),
            _ => (m, rom + 1),
        }
    }
}

/// The state of the second pass: words written, table, next free RAM address.
pub type PassState = (Seq<Seq<char>>, Map<Seq<char>, i32>, int);

/// One step of the second pass.
pub open spec fn translate(st: PassState, c: CommandModel) -> Result<PassState, Seq<char>> {
    let (out, m, ram) = st;
    match c {
        CommandModel::L(_) => Ok(st),
        CommandModel::C(d, cm, j) => if comp_bits(cm) is None {
            Err("Invalid comp instruction: "@ + cm)
        } else if jump_bits(j) is None {
            Err("Invalid jump instruction: "@ + j.unwrap())
        } else {
            Ok(
                (
                    out.push("111"@ + comp_bits(cm).unwrap() + dest_bits(d) + jump_bits(j).unwrap()),
                    m,
                    ram,
                ),
            )
        },
        CommandModel::A(sym) => match parse_i32(sym) {
            Some(v) => Ok((out.push(word(v)), m, ram)),
            None => if m.contains_key(lookup_key(sym)) {
                Ok((out.push(word(m[lookup_key(sym)] as int)), m, ram))
            } else {
                Ok((out.push(word(ram)), m.insert(sym, ram as i32), ram + 1))
            },
        },
    }
}

/// The second pass over the commands, from a given table.
pub open spec fn code_pass(cs: Seq<CommandModel>, m: Map<Seq<char>, i32>) -> Result<
    PassState,
    Seq<char>,
>
    decreases cs.len(),
{
    if cs.len() == 0 {
        Ok((Seq::empty(), m, 16))
    } else {
        match code_pass(cs.drop_last(), m) {
            Err(e) => Err(e),
            Ok(st) => translate(st, cs.last()),
        }
    }
}

/// The binary words of a whole source file (one per A- or C-instruction),
/// or the error on which the assembler stops.
pub open spec fn assembly(lines: Seq<Seq<char>>) -> Result<Seq<Seq<char>>, Seq<char>> {
    assembly_by(lines, false)
}

/// `assembly` for a source file of ASCII lines, which are read as ASCII.
pub open spec fn ascii_assembly(lines: Seq<Seq<char>>) -> Result<Seq<Seq<char>>, Seq<char>> {
    assembly_by(lines, true)
}

/// The binary words of a source file, its lines read as ASCII where
/// `ascii` holds.
pub open spec fn assembly_by(lines: Seq<Seq<char>>, ascii: bool) -> Result<Seq<Seq<char>>, Seq<char>> {
    match commands_by(program(lines), ascii) {
        Err(e) => Err(e),
        Ok(cs) => match code_pass(cs, label_pass(cs).0) {
            Err(e) => Err(e),
            Ok(st) => Ok(st.0),
        },
    }
}

/// The number of A- and C-instructions among the commands.
pub open spec fn rom_count(cs: Seq<CommandModel>) -> nat
    decreases cs.len(),
{
    if cs.len() == 0 {
        0
    } else {
        rom_count(cs.drop_last()) + if cs.last() is L { 0nat } else { 1nat }
    }
}

proof fn lemma_label_pass_count(cs: Seq<CommandModel>)
    ensures
        label_pass(cs).1 == rom_count(cs),
        rom_count(cs) <= cs.len(),
    decreases cs.len(),
{
    if cs.len() > 0 {
        lemma_label_pass_count(cs.drop_last());
    }
}

/// The second pass writes one word per A- or C-instruction, and none for a
/// label.
pub proof fn lemma_one_word_per_instruction(cs: Seq<CommandModel>, m: Map<Seq<char>, i32>)
    ensures
        code_pass(cs, m) matches Ok(st) ==> st.0.len() == rom_count(cs),
    decreases cs.len(),
{
    if cs.len() > 0 {
        lemma_one_word_per_instruction(cs.drop_last(), m);
    }
}

/// A label is bound to the ROM address of the instruction that follows it,
/// the number of instructions before it, unless the same label is declared
/// again later.
pub proof fn lemma_label_binding(cs: Seq<CommandModel>, l: Seq<char>, rest: Seq<CommandModel>)
    requires
        forall|i: int| 0 <= i < rest.len() ==> rest[i] != CommandModel::L(l),
        cs.len() + 1 + rest.len() < 0x7000_0000,
    ensures
        label_pass(cs.push(CommandModel::L(l)) + rest).0.contains_key(l),
        label_pass(cs.push(CommandModel::L(l)) + rest).0[l] == rom_count(cs),
    decreases rest.len(),
{
    let all = cs.push(CommandModel::L(l)) + rest;
    if rest.len() == 0 {
        assert(all =~= cs.push(CommandModel::L(l)));
        assert(all.drop_last() =~= cs);
        lemma_label_pass_count(cs);
    } else {
        assert(all.drop_last() =~= cs.push(CommandModel::L(l)) + rest.drop_last());
        assert(all.last() == rest.last());
        lemma_label_binding(cs, l, rest.drop_last());
    }
}

/// A symbol that is neither a number nor a name of the table takes the next
/// free RAM address; when it appears again it gives back the same address.
pub proof fn lemma_new_variable(st: PassState, sym: Seq<char>)
    requires
        parse_i32(sym) is None,
        resolve(sym) is None,
        !st.1.contains_key(sym),
        16 <= st.2 < 0x7fff_ffff,
    ensures
        translate(st, CommandModel::A(sym)) == Ok::<PassState, Seq<char>>(
            (st.0.push(word(st.2)), st.1.insert(sym, st.2 as i32), st.2 + 1),
        ),
        translate(
            (st.0.push(word(st.2)), st.1.insert(sym, st.2 as i32), st.2 + 1),
            CommandModel::A(sym),
        ) == Ok::<PassState, Seq<char>>(
            (st.0.push(word(st.2)).push(word(st.2)), st.1.insert(sym, st.2 as i32), st.2 + 1),
        ),
{
}

/// The first variable of a program is placed at RAM address 16.
pub proof fn lemma_first_variable_at_sixteen(m: Map<Seq<char>, i32>, sym: Seq<char>)
    requires
        parse_i32(sym) is None,
        !m.contains_key(lookup_key(sym)),
    ensures
        code_pass(seq![CommandModel::A(sym)], m) == Ok::<PassState, Seq<char>>(
            (seq![word(16)], m.insert(sym, 16i32), 17),
        ),
{
    let cs = seq![CommandModel::A(sym)];
    assert(cs.drop_last() =~= Seq::<CommandModel>::empty());
    assert(code_pass(cs.drop_last(), m) == Ok::<PassState, Seq<char>>((Seq::empty(), m, 16)));
    assert(Seq::<Seq<char>>::empty().push(word(16)) =~= seq![word(16)]);
}

/// The cleaned, nonempty lines of a source file.
pub fn clean_program(lines: &Vec<String>) -> (r: Vec<String>)
    ensures
        views(r@) == program(views(lines@)),
        r@.len() <= lines@.len(),
{
    let ghost lv = views(lines@);
    let mut prog: Vec<String> = Vec::new();
    let mut i: usize = 0;
    assert(lv.take(0) =~= Seq::<Seq<char>>::empty());
    assert(views(prog@) =~= Seq::<Seq<char>>::empty());
    while i < lines.len()
        invariant
            i <= lines@.len(),
            lv == views(lines@),
            views(prog@) == program(lv.take(i as int)),
            prog@.len() <= i,
        decreases lines@.len() - i,
    {
        let c = clean_line(lines[i].as_str());
        assert(lv.take(i + 1).drop_last() =~= lv.take(i as int));
        assert(lv[i as int] == lines@[i as int]@);
        if c.as_str().unicode_len() > 0 {
            prog.push(c);
            assert(views(prog@) =~= program(lv.take(i as int)).push(clean(lv[i as int])));
        }
        i = i + 1;
    }
    assert(lv.take(lines@.len() as int) =~= lv);
    prog
}

/// The views of a vector of commands.
pub open spec fn command_views(v: Seq<Command>) -> Seq<CommandModel> {
    v.map_values(|c: Command| c@)
}

/// Classifies every cleaned line, stopping at the first malformed one.
pub fn parse_program(prog: &Vec<String>) -> (r: Result<Vec<Command>, String>)
    ensures
        match r {
            Ok(cs) => commands(views(prog@)) == Ok::<Seq<CommandModel>, Seq<char>>(command_views(cs@))
                && cs@.len() == prog@.len() && (all_ascii(views(prog@)) ==> commands_by(views(prog@), true)
                == Ok::<Seq<CommandModel>, Seq<char>>(command_views(cs@))),
            Err(e) => commands(views(prog@)) == Err::<Seq<CommandModel>, Seq<char>>(e@) && (all_ascii(
                views(prog@),
            ) ==> commands_by(views(prog@), true) == Err::<Seq<CommandModel>, Seq<char>>(e@)),
        },
{
    let ghost pv = views(prog@);
    let mut cmds: Vec<Command> = Vec::new();
    let mut k: usize = 0;
    assert(pv.take(0) =~= Seq::<Seq<char>>::empty());
    assert(command_views(cmds@) =~= Seq::<CommandModel>::empty());
    while k < prog.len()
        invariant
            k <= prog@.len(),
            pv == views(prog@),
            cmds@.len() == k,
            commands(pv.take(k as int)) == Ok::<Seq<CommandModel>, Seq<char>>(command_views(cmds@)),
            all_ascii(pv) ==> commands_by(pv.take(k as int), true) == Ok::<Seq<CommandModel>, Seq<char>>(
                command_views(cmds@),
            ),
        decreases prog@.len() - k,
    {
        assert(pv.take(k + 1).drop_last() =~= pv.take(k as int));
        assert(pv[k as int] == prog@[k as int]@);
        assert(pv.take(k + 1).last() == pv[k as int]);
        if !instruction_ok(prog[k].as_str()) {
            let e = if count_eq(prog[k].as_str()) > 1 {
                String::from_str("Syntax Error: Multiple '=' in C-Command")
            } else {
                String::from_str("Syntax Error: Multiple ';' in C-Command")
            };
            proof {
                lemma_commands_err_stays(pv, (k + 1) as int, false);
                if all_ascii(pv) {
                    assert(is_ascii_chars(pv[k as int]));
                    lemma_commands_err_stays(pv, (k + 1) as int, true);
                }
            }
            return Err(e);
        }
        let c = parse_instruction(prog[k].as_str());
        let ghost before = command_views(cmds@);
        let ghost cm = c@;
        cmds.push(c);
        assert(command_views(cmds@) =~= before.push(cm));
        assert(instruction(pv[k as int]) == Some(cm));
        assert(commands(pv.take(k + 1)) == Ok::<Seq<CommandModel>, Seq<char>>(before.push(cm)));
        assert(all_ascii(pv) ==> commands_by(pv.take(k + 1), true) == Ok::<Seq<CommandModel>, Seq<char>>(
            before.push(cm),
        )) by {
            if all_ascii(pv) {
                assert(is_ascii_chars(pv[k as int]));
            }
        }
        k = k + 1;
    }
    assert(pv.take(prog@.len() as int) =~= pv);
    Ok(cmds)
}

/// The first pass: binds every label to the ROM address of the instruction
/// after it.
pub fn first_pass(cmds: &Vec<Command>) -> (r: SymbolTable)
    requires
        cmds@.len() < 0x7000_0000,
    ensures
        r.wf(),
        r@ == label_pass(command_views(cmds@)).0,
{
    let ghost cv = command_views(cmds@);
    let mut table = SymbolTable::new();
    let mut rom: i32 = 0;
    let mut j: usize = 0;
    assert(cv.take(0) =~= Seq::<CommandModel>::empty());
    while j < cmds.len()
        invariant
            j <= cmds@.len(),
            cmds@.len() < 0x7000_0000,
            cv == command_views(cmds@),
            table.wf(),
            label_pass(cv.take(j as int)) == (table@, rom as int),
            0 <= rom <= j,
        decreases cmds@.len() - j,
    {
        assert(cv.take(j + 1).drop_last() =~= cv.take(j as int));
        assert(cv[j as int] == cmds@[j as int]@);
        match &cmds[j] {
            Command::L(label) => {
                table.add_entry(label, rom);
            },
            _ => {
                rom = rom + 1;
            },
        }
        j = j + 1;
    }
    assert(cv.take(cmds@.len() as int) =~= cv);
    table
}

/// The second pass: the binary word of every A- and C-instruction, with
/// variables allocated from 16 on.
pub fn second_pass(cmds: &Vec<Command>, table: &mut SymbolTable) -> (r: Result<Vec<String>, String>)
    requires
        cmds@.len() < 0x7000_0000,
        old(table).wf(),
    ensures
        final(table).wf(),
        match r {
            Ok(out) => code_pass(command_views(cmds@), old(table)@) matches Ok(st) && st.0 == views(out@)
                && st.1 == final(table)@,
            Err(e) => code_pass(command_views(cmds@), old(table)@) == Err::<PassState, Seq<char>>(e@),
        },
{
    let ghost cv = command_views(cmds@);
    let ghost m0 = table@;
    let mut out: Vec<String> = Vec::new();
    let mut ram: i32 = 16;
    let mut t: usize = 0;
    assert(cv.take(0) =~= Seq::<CommandModel>::empty());
    assert(views(out@) =~= Seq::<Seq<char>>::empty());
    while t < cmds.len()
        invariant
            t <= cmds@.len(),
            cmds@.len() < 0x7000_0000,
            cv == command_views(cmds@),
            m0 == old(table)@,
            table.wf(),
            code_pass(cv.take(t as int), m0) == Ok::<PassState, Seq<char>>(
                (views(out@), table@, ram as int),
            ),
            16 <= ram <= 16 + t,
        decreases cmds@.len() - t,
    {
        assert(cv.take(t + 1).drop_last() =~= cv.take(t as int));
        assert(cv.take(t + 1).last() == cmds@[t as int]@);
        proof {
            lemma_code_pass_err_stays(cv, m0, (t + 1) as int);
        }
        let ghost st0: PassState = (views(out@), table@, ram as int);
        let ghost before = out@;
        match &cmds[t] {
            Command::L(_) => {},
            Command::C(d, cm, jp) => {
                if !comp_known(cm.as_str()) {
                    return Err(concat2("Invalid comp instruction: ", cm.as_str()));
                }
                let jv: Option<&str> = match jp {
                    Some(s) => Some(s.as_str()),
                    None => None,
                };
                if !jump_known(jv) {
                    let js = match jp {
                        Some(s) => s.as_str(),
                        None => "",
                    };
                    return Err(concat2("Invalid jump instruction: ", js));
                }
                let dv: Option<&str> = match d {
                    Some(s) => Some(s.as_str()),
                    None => None,
                };
                let mut w = String::from_str("111");
                w.append(comp(cm.as_str()));
                let db = dest(dv);
                w.append(db.as_str());
                w.append(jump(jv));
                let ghost wv = w@;
                out.push(w);
                assert(views(out@) =~= views(before).push(wv));
            },
            Command::A(sym) => {
                let val = match parse_i32_exec(sym.as_str()) {
                    Some(v) => v,
                    None => if table.contains(sym.as_str()) {
                        table.get_address(sym.as_str())
                    } else {
                        table.add_entry(sym, ram);
                        let v = ram;
                        ram = ram + 1;
                        v
                    },
                };
                let w = word_string(val);
                let ghost wv = w@;
                out.push(w);
                assert(views(out@) =~= views(before).push(wv));
            },
        }
        assert(translate(st0, cv[t as int]) == Ok::<PassState, Seq<char>>(
            (views(out@), table@, ram as int),
        ));
        t = t + 1;
    }
    assert(cv.take(cmds@.len() as int) =~= cv);
    Ok(out)
}

/// Assembles a source file given as its lines: the binary words in order,
/// or the message on which the assembler stops (a repeated `=` or `;`, an
/// unknown comp or jump mnemonic).
pub fn assemble(lines: &Vec<String>) -> (r: Result<Vec<String>, String>)
    requires
        lines@.len() < 0x7000_0000,
    ensures
        match r {
            Ok(out) => assembly(views(lines@)) == Ok::<Seq<Seq<char>>, Seq<char>>(views(out@)) && (
            all_ascii(views(lines@)) ==> ascii_assembly(views(lines@)) == Ok::<Seq<Seq<char>>, Seq<char>>(
                views(out@),
            )),
            Err(e) => assembly(views(lines@)) == Err::<Seq<Seq<char>>, Seq<char>>(e@) && (all_ascii(
                views(lines@),
            ) ==> ascii_assembly(views(lines@)) == Err::<Seq<Seq<char>>, Seq<char>>(e@)),
        },
{
    let prog = clean_program(lines);
    proof {
        lemma_program_ascii(views(lines@));
    }
    let cmds = match parse_program(&prog) {
        Ok(c) => c,
        Err(e) => return Err(e),
    };
    let mut table = first_pass(&cmds);
    second_pass(&cmds, &mut table)
}

proof fn lemma_without_ws_ascii(s: Seq<char>)
    requires
        is_ascii_chars(s),
    ensures
        is_ascii_chars(without_ws(s)),
    decreases s.len(),
{
    if s.len() > 0 {
        assert(is_ascii_chars(s.drop_last()));
        lemma_without_ws_ascii(s.drop_last());
        assert(is_ascii_chars(s.drop_last()) && '\0' <= s[s.len() - 1] <= '\u{7f}');
    }
}

/// The cleaned lines of an ASCII source file are ASCII.
proof fn lemma_program_ascii(lines: Seq<Seq<char>>)
    ensures
        all_ascii(lines) ==> all_ascii(program(lines)),
    decreases lines.len(),
{
    if lines.len() > 0 && all_ascii(lines) {
        let p = lines.drop_last();
        assert(all_ascii(p)) by {
            assert forall|i: int| 0 <= i < p.len() implies is_ascii_chars(#[trigger] p[i]) by {
                assert(p[i] == lines[i]);
            }
        }
        lemma_program_ascii(p);
        let l = lines.last();
        assert(is_ascii_chars(lines[lines.len() - 1]));
        assert(is_ascii_chars(strip_comment(l))) by {
            crate::hack::parser::lemma_comment_from_bounds(l, 0);
            let c = crate::hack::parser::comment_from(l, 0);
            assert forall|i: int| 0 <= i < strip_comment(l).len() implies '\0' <= #[trigger] strip_comment(l)[i] <= '\u{7f}' by {
                assert(strip_comment(l)[i] == l[i]);
            }
        }
        lemma_without_ws_ascii(strip_comment(l));
        let q = program(p);
        if clean(l).len() > 0 {
            assert forall|i: int| 0 <= i < q.push(clean(l)).len() implies is_ascii_chars(
                #[trigger] q.push(clean(l))[i],
            ) by {
                if i < q.len() {
                    assert(q.push(clean(l))[i] == q[i]);
                }
            }
        }
    }
}

proof fn lemma_commands_err_stays(p: Seq<Seq<char>>, k: int, ascii: bool)
    requires
        0 <= k <= p.len(),
        commands_by(p.take(k), ascii) is Err,
    ensures
        commands_by(p, ascii) == commands_by(p.take(k), ascii),
    decreases p.len() - k,
{
    if k < p.len() {
        assert(p.take(k + 1).drop_last() =~= p.take(k));
        lemma_commands_err_stays(p, k + 1, ascii);
    } else {
        assert(p.take(k) =~= p);
    }
}

proof fn lemma_code_pass_err_stays(cs: Seq<CommandModel>, m: Map<Seq<char>, i32>, k: int)
    requires
        0 <= k <= cs.len(),
    ensures
        code_pass(cs.take(k), m) is Err ==> code_pass(cs, m) == code_pass(cs.take(k), m),
    decreases cs.len() - k,
{
    if k < cs.len() {
        assert(cs.take(k + 1).drop_last() =~= cs.take(k));
        lemma_code_pass_err_stays(cs, m, k + 1);
    } else {
        assert(cs.take(k) =~= cs);
    }
}

/// Whether `m` is an ALU mnemonic of the Hack table.
pub fn comp_known(m: &str) -> (r: bool)
    ensures
        r == (comp_bits(m@) is Some),
{
    crate::hack::code::comp_checked(m).is_some()
}

/// Whether `m` is absent or a jump mnemonic of the Hack table.
pub fn jump_known(m: Option<&str>) -> (r: bool)
    ensures
        r == (jump_bits(match m { Some(s) => Some(s@), None => None }) is Some),
{
    crate::hack::code::jump_checked(m).is_some()
}

/// Accepts an input path whose extension is `asm`; otherwise the message
/// that names the path.
pub open spec fn asm_input(path: Seq<char>, extension: Option<Seq<char>>) -> Result<Seq<char>, Seq<char>> {
    if extension == Some("asm"@) {
        Ok(path)
    } else {
        Err("Input file '"@ + path + "' must have an .asm extension."@)
    }
}

/// Checks that the input file has the `.asm` extension (`extension` is the
/// path's extension, where it has one).
pub fn validate_asm(path: &str, extension: Option<&str>) -> (r: Result<String, String>)
    ensures
        rv_string(r) == asm_input(
            path@,
            match extension {
                Some(e) => Some(e@),
                None => None,
            },
        ),
{
    let ok = match extension {
        Some(e) => str_eq(e, "asm"),
        None => false,
    };
    if ok {
        Ok(String::from_str(path))
    } else {
        Err(concat3("Input file '", path, "' must have an .asm extension."))
    }
}

/// The texts of a result of strings.
pub open spec fn rv_string(r: Result<String, String>) -> Result<Seq<char>, Seq<char>> {
    match r {
        Ok(s) => Ok(s@),
        Err(e) => Err(e@),
    }
}

} // verus!
