//! The assembler's symbol table: predefined symbols, labels and variables.
use vstd::prelude::*;
use crate::name_map::NameMap;
use crate::text::{chars_of, all_digits, digit_value, digits_value, is_digit, ascii_lower, ascii_upper, eq_ignore_ascii_case};

verus! {

fn to_ascii_lower(c: char) -> (r: char)
    ensures
        r == ascii_lower(c),
{
    if 'A' <= c && c <= 'Z' {
        ((c as u8) + 32) as char
    } else {
        c
    }
}

fn eq_ignore_case_str(a: &Vec<char>, b: &str) -> (r: bool)
    ensures
        r == eq_ignore_ascii_case(a@, b@),
{
    let n = b.unicode_len();
    if a.len() != n {
        return false;
    }
    let mut i: usize = 0;
    while i < n
        invariant
            n == b@.len(),
            a@.len() == n,
            i <= n,
            forall|j: int| 0 <= j < i ==> ascii_lower(#[trigger] a@[j]) == ascii_lower(b@[j]),
        decreases n - i,
    {
        if to_ascii_lower(a[i]) != to_ascii_lower(b.get_char(i)) {
            return false;
        }
        i = i + 1;
    }
    true
}

/// What std's `str::parse::<usize>` gives for a short text (at most two
/// characters, so that no value overflows): an optional `+` and at least
/// one digit.
pub open spec fn parse_short_unsigned(t: Seq<char>) -> Option<nat> {
    if t.len() == 0 {
        None
    } else if t[0] == '+' {
        if t.len() > 1 && all_digits(t.skip(1)) {
            Some(digits_value(t.skip(1)))
        } else {
            None
        }
    } else if all_digits(t) {
        Some(digits_value(t))
    } else {
        None
    }
}

/// The register name `Rk` for `k < 16`.
pub open spec fn register_name(k: nat) -> Seq<char> {
    if k == 0 {
        "R0"@
    } else if k == 1 {
        "R1"@
    } else if k == 2 {
        "R2"@
    } else if k == 3 {
        "R3"@
    } else if k == 4 {
        "R4"@
    } else if k == 5 {
        "R5"@
    } else if k == 6 {
        "R6"@
    } else if k == 7 {
        "R7"@
    } else if k == 8 {
        "R8"@
    } else if k == 9 {
        "R9"@
    } else if k == 10 {
        "R10"@
    } else if k == 11 {
        "R11"@
    } else if k == 12 {
        "R12"@
    } else if k == 13 {
        "R13"@
    } else if k == 14 {
        "R14"@
    } else if k == 15 {
        "R15"@
    } else {
        Seq::empty()
    }
}

fn register_name_exec(k: usize) -> (r: &'static str)
    requires
        k < 16,
    ensures
        r@ == register_name(k as nat),
{
    match k {
        0 => "R0",
        1 => "R1",
        2 => "R2",
        3 => "R3",
        4 => "R4",
        5 => "R5",
        6 => "R6",
        7 => "R7",
        8 => "R8",
        9 => "R9",
        10 => "R10",
        11 => "R11",
        12 => "R12",
        13 => "R13",
        14 => "R14",
        15 => "R15",
        _ => "",
    }
}

/// The canonical predefined name that `s` stands for, where it stands for
/// one: a predefined name in any ASCII case, or `R`/`r` followed by a
/// register number below 16.
pub open spec fn resolve(s: Seq<char>) -> Option<Seq<char>> {
    if eq_ignore_ascii_case(s, "SCREEN"@) {
        Some("SCREEN"@)
    } else if eq_ignore_ascii_case(s, "KBD"@) {
        Some("KBD"@)
    } else if eq_ignore_ascii_case(s, "SP"@) {
        Some("SP"@)
    } else if eq_ignore_ascii_case(s, "LCL"@) {
        Some("LCL"@)
    } else if eq_ignore_ascii_case(s, "ARG"@) {
        Some("ARG"@)
    } else if eq_ignore_ascii_case(s, "THIS"@) {
        Some("THIS"@)
    } else if eq_ignore_ascii_case(s, "THAT"@) {
        Some("THAT"@)
    } else if 1 < s.len() <= 3 && ascii_upper(s[0]) == 'R' && parse_short_unsigned(s.skip(1)) is Some
        && parse_short_unsigned(s.skip(1)).unwrap() < 16 {
        Some(register_name(parse_short_unsigned(s.skip(1)).unwrap()))
    } else {
        None
    }
}

/// The key under which the table looks `s` up.
pub open spec fn lookup_key(s: Seq<char>) -> Seq<char> {
    match resolve(s) {
        Some(n) => n,
        None => s,
    }
}

/// The table that the assembler starts from: `R0`..`R15`, then the named
/// predefined symbols.
pub open spec fn predefined_table() -> Map<Seq<char>, i32> {
    Map::empty().insert("R0"@, 0i32).insert("R1"@, 1i32).insert("R2"@, 2i32).insert("R3"@, 3i32).insert("R4"@, 4i32).insert("R5"@, 5i32).insert("R6"@, 6i32).insert("R7"@, 7i32).insert("R8"@, 8i32).insert("R9"@, 9i32).insert("R10"@, 10i32).insert("R11"@, 11i32).insert("R12"@, 12i32).insert("R13"@, 13i32).insert("R14"@, 14i32).insert("R15"@, 15i32).insert("SCREEN"@, 16384i32).insert("KBD"@, 24576i32).insert("SP"@, 0i32).insert("LCL"@, 1i32).insert("ARG"@, 2i32).insert("THIS"@, 3i32).insert("THAT"@, 4i32)
}

/// The literal names of the predefined table, spelled out.
proof fn lemma_predefined_names()
    ensures
        "R0"@ == seq!['R', '0'] && "R0"@.len() == 2,
        "R1"@ == seq!['R', '1'] && "R1"@.len() == 2,
        "R2"@ == seq!['R', '2'] && "R2"@.len() == 2,
        "R3"@ == seq!['R', '3'] && "R3"@.len() == 2,
        "R4"@ == seq!['R', '4'] && "R4"@.len() == 2,
        "R5"@ == seq!['R', '5'] && "R5"@.len() == 2,
        "R6"@ == seq!['R', '6'] && "R6"@.len() == 2,
        "R7"@ == seq!['R', '7'] && "R7"@.len() == 2,
        "R8"@ == seq!['R', '8'] && "R8"@.len() == 2,
        "R9"@ == seq!['R', '9'] && "R9"@.len() == 2,
        "R10"@ == seq!['R', '1', '0'] && "R10"@.len() == 3,
        "R11"@ == seq!['R', '1', '1'] && "R11"@.len() == 3,
        "R12"@ == seq!['R', '1', '2'] && "R12"@.len() == 3,
        "R13"@ == seq!['R', '1', '3'] && "R13"@.len() == 3,
        "R14"@ == seq!['R', '1', '4'] && "R14"@.len() == 3,
        "R15"@ == seq!['R', '1', '5'] && "R15"@.len() == 3,
        "SCREEN"@ == seq!['S', 'C', 'R', 'E', 'E', 'N'] && "SCREEN"@.len() == 6,
        "KBD"@ == seq!['K', 'B', 'D'] && "KBD"@.len() == 3,
        "SP"@ == seq!['S', 'P'] && "SP"@.len() == 2,
        "LCL"@ == seq!['L', 'C', 'L'] && "LCL"@.len() == 3,
        "ARG"@ == seq!['A', 'R', 'G'] && "ARG"@.len() == 3,
        "THIS"@ == seq!['T', 'H', 'I', 'S'] && "THIS"@.len() == 4,
        "THAT"@ == seq!['T', 'H', 'A', 'T'] && "THAT"@.len() == 4,
{
    reveal_strlit("R0");
    assert("R0"@.len() == 2 && "R0"@[0] == 'R' && "R0"@[1] == '0');
    reveal_strlit("R1");
    assert("R1"@.len() == 2 && "R1"@[0] == 'R' && "R1"@[1] == '1');
    reveal_strlit("R2");
    assert("R2"@.len() == 2 && "R2"@[0] == 'R' && "R2"@[1] == '2');
    reveal_strlit("R3");
    assert("R3"@.len() == 2 && "R3"@[0] == 'R' && "R3"@[1] == '3');
    reveal_strlit("R4");
    assert("R4"@.len() == 2 && "R4"@[0] == 'R' && "R4"@[1] == '4');
    reveal_strlit("R5");
    assert("R5"@.len() == 2 && "R5"@[0] == 'R' && "R5"@[1] == '5');
    reveal_strlit("R6");
    assert("R6"@.len() == 2 && "R6"@[0] == 'R' && "R6"@[1] == '6');
    reveal_strlit("R7");
    assert("R7"@.len() == 2 && "R7"@[0] == 'R' && "R7"@[1] == '7');
    reveal_strlit("R8");
    assert("R8"@.len() == 2 && "R8"@[0] == 'R' && "R8"@[1] == '8');
    reveal_strlit("R9");
    assert("R9"@.len() == 2 && "R9"@[0] == 'R' && "R9"@[1] == '9');
    reveal_strlit("R10");
    assert("R10"@.len() == 3 && "R10"@[0] == 'R' && "R10"@[1] == '1' && "R10"@[2] == '0');
    reveal_strlit("R11");
    assert("R11"@.len() == 3 && "R11"@[0] == 'R' && "R11"@[1] == '1' && "R11"@[2] == '1');
    reveal_strlit("R12");
    assert("R12"@.len() == 3 && "R12"@[0] == 'R' && "R12"@[1] == '1' && "R12"@[2] == '2');
    reveal_strlit("R13");
    assert("R13"@.len() == 3 && "R13"@[0] == 'R' && "R13"@[1] == '1' && "R13"@[2] == '3');
    reveal_strlit("R14");
    assert("R14"@.len() == 3 && "R14"@[0] == 'R' && "R14"@[1] == '1' && "R14"@[2] == '4');
    reveal_strlit("R15");
    assert("R15"@.len() == 3 && "R15"@[0] == 'R' && "R15"@[1] == '1' && "R15"@[2] == '5');
    reveal_strlit("SCREEN");
    assert("SCREEN"@.len() == 6 && "SCREEN"@[0] == 'S' && "SCREEN"@[1] == 'C' && "SCREEN"@[2] == 'R' && "SCREEN"@[3] == 'E' && "SCREEN"@[4] == 'E' && "SCREEN"@[5] == 'N');
    reveal_strlit("KBD");
    assert("KBD"@.len() == 3 && "KBD"@[0] == 'K' && "KBD"@[1] == 'B' && "KBD"@[2] == 'D');
    reveal_strlit("SP");
    assert("SP"@.len() == 2 && "SP"@[0] == 'S' && "SP"@[1] == 'P');
    reveal_strlit("LCL");
    assert("LCL"@.len() == 3 && "LCL"@[0] == 'L' && "LCL"@[1] == 'C' && "LCL"@[2] == 'L');
    reveal_strlit("ARG");
    assert("ARG"@.len() == 3 && "ARG"@[0] == 'A' && "ARG"@[1] == 'R' && "ARG"@[2] == 'G');
    reveal_strlit("THIS");
    assert("THIS"@.len() == 4 && "THIS"@[0] == 'T' && "THIS"@[1] == 'H' && "THIS"@[2] == 'I' && "THIS"@[3] == 'S');
    reveal_strlit("THAT");
    assert("THAT"@.len() == 4 && "THAT"@[0] == 'T' && "THAT"@[1] == 'H' && "THAT"@[2] == 'A' && "THAT"@[3] == 'T');
    assert("R0"@ =~= seq!['R', '0']);
    assert("R1"@ =~= seq!['R', '1']);
    assert("R2"@ =~= seq!['R', '2']);
    assert("R3"@ =~= seq!['R', '3']);
    assert("R4"@ =~= seq!['R', '4']);
    assert("R5"@ =~= seq!['R', '5']);
    assert("R6"@ =~= seq!['R', '6']);
    assert("R7"@ =~= seq!['R', '7']);
    assert("R8"@ =~= seq!['R', '8']);
    assert("R9"@ =~= seq!['R', '9']);
    assert("R10"@ =~= seq!['R', '1', '0']);
    assert("R11"@ =~= seq!['R', '1', '1']);
    assert("R12"@ =~= seq!['R', '1', '2']);
    assert("R13"@ =~= seq!['R', '1', '3']);
    assert("R14"@ =~= seq!['R', '1', '4']);
    assert("R15"@ =~= seq!['R', '1', '5']);
    assert("SCREEN"@ =~= seq!['S', 'C', 'R', 'E', 'E', 'N']);
    assert("KBD"@ =~= seq!['K', 'B', 'D']);
    assert("SP"@ =~= seq!['S', 'P']);
    assert("LCL"@ =~= seq!['L', 'C', 'L']);
    assert("ARG"@ =~= seq!['A', 'R', 'G']);
    assert("THIS"@ =~= seq!['T', 'H', 'I', 'S']);
    assert("THAT"@ =~= seq!['T', 'H', 'A', 'T']);
}

/// Every symbol that stands for a predefined name has an address in the
/// table the assembler starts from.
pub proof fn lemma_predefined_known(s: Seq<char>)
    requires
        resolve(s) is Some,
    ensures
        predefined_table().contains_key(lookup_key(s)),
{
    if !(eq_ignore_ascii_case(s, "SCREEN"@) || eq_ignore_ascii_case(s, "KBD"@) || eq_ignore_ascii_case(s, "SP"@)
        || eq_ignore_ascii_case(s, "LCL"@) || eq_ignore_ascii_case(s, "ARG"@) || eq_ignore_ascii_case(s, "THIS"@)
        || eq_ignore_ascii_case(s, "THAT"@)) {
        let k = parse_short_unsigned(s.skip(1)).unwrap();
        assert(k < 16);
    }
}

/// The predefined addresses: `R0`..`R15` are 0..15, `SP`, `LCL`, `ARG`,
/// `THIS` and `THAT` are 0..4, `SCREEN` is 16384 and `KBD` 24576.
pub proof fn lemma_predefined_addresses(k: nat)
    requires
        k < 16,
    ensures
        predefined_table()[register_name(k)] == k as i32,
        predefined_table()["SP"@] == 0i32,
        predefined_table()["LCL"@] == 1i32,
        predefined_table()["ARG"@] == 2i32,
        predefined_table()["THIS"@] == 3i32,
        predefined_table()["THAT"@] == 4i32,
        predefined_table()["SCREEN"@] == 16384i32,
        predefined_table()["KBD"@] == 24576i32,
{
    lemma_predefined_names();
    if k == 0 {
        assert(predefined_table()[register_name(k)] == 0i32);
    } else if k == 1 {
        assert(predefined_table()[register_name(k)] == 1i32);
    } else if k == 2 {
        assert(predefined_table()[register_name(k)] == 2i32);
    } else if k == 3 {
        assert(predefined_table()[register_name(k)] == 3i32);
    } else if k == 4 {
        assert(predefined_table()[register_name(k)] == 4i32);
    } else if k == 5 {
        assert(predefined_table()[register_name(k)] == 5i32);
    } else if k == 6 {
        assert(predefined_table()[register_name(k)] == 6i32);
    } else if k == 7 {
        assert(predefined_table()[register_name(k)] == 7i32);
    } else if k == 8 {
        assert(predefined_table()[register_name(k)] == 8i32);
    } else if k == 9 {
        assert(predefined_table()[register_name(k)] == 9i32);
    } else if k == 10 {
        assert(predefined_table()[register_name(k)] == 10i32);
    } else if k == 11 {
        assert(predefined_table()[register_name(k)] == 11i32);
    } else if k == 12 {
        assert(predefined_table()[register_name(k)] == 12i32);
    } else if k == 13 {
        assert(predefined_table()[register_name(k)] == 13i32);
    } else if k == 14 {
        assert(predefined_table()[register_name(k)] == 14i32);
    } else if k == 15 {
        assert(predefined_table()[register_name(k)] == 15i32);
    }
}

/// A symbol bound as written, and not standing for a predefined name, is
/// found again with the address it was bound to.
pub proof fn lemma_entry_read_back(m: Map<Seq<char>, i32>, s: Seq<char>, a: i32)
    requires
        resolve(s) is None,
    ensures
        m.insert(s, a).contains_key(lookup_key(s)),
        m.insert(s, a)[lookup_key(s)] == a,
{
}

fn short_digits(v: &Vec<char>, from: usize) -> (r: Option<usize>)
    requires
        from <= v@.len() <= from + 2,
    ensures
        match r {
            Some(k) => all_digits(v@.skip(from as int)) && v@.len() > from && k == digits_value(v@.skip(from as int)),
            None => !(all_digits(v@.skip(from as int)) && v@.len() > from),
        },
{
    let n = v.len();
    if n == from {
        return None;
    }
    let ghost t = v@.skip(from as int);
    if !('0' <= v[from] && v[from] <= '9') {
        assert(!is_digit(t[0]));
        return None;
    }
    let d0 = (v[from] as u8 - 48) as usize;
    if n == from + 1 {
        assert(t.drop_last().len() == 0);
        assert(digits_value(t.drop_last()) == 0);
        return Some(d0);
    }
    if !('0' <= v[from + 1] && v[from + 1] <= '9') {
        assert(!is_digit(t[1]));
        return None;
    }
    let d1 = (v[from + 1] as u8 - 48) as usize;
    let ghost w = t.drop_last();
    assert(w.drop_last().len() == 0);
    assert(w.last() == t[0]);
    assert(digits_value(w.drop_last()) == 0);
    assert(digits_value(w) == d0);
    Some(d0 * 10 + d1)
}

/// Every canonical predefined name stands for itself.
#[verifier::rlimit(60)]
proof fn lemma_names_resolve()
    ensures
        resolve("SCREEN"@) == Some("SCREEN"@),
        resolve("KBD"@) == Some("KBD"@),
        resolve("SP"@) == Some("SP"@),
        resolve("LCL"@) == Some("LCL"@),
        resolve("ARG"@) == Some("ARG"@),
        resolve("THIS"@) == Some("THIS"@),
        resolve("THAT"@) == Some("THAT"@),
        forall|k: nat| k < 16 ==> #[trigger] resolve(register_name(k)) == Some(register_name(k)),
{
    reveal_strlit("SCREEN");
    assert("SCREEN"@.len() == 6 && "SCREEN"@[0] == 'S' && "SCREEN"@[1] == 'C' && "SCREEN"@[2] == 'R' && "SCREEN"@[3] == 'E' && "SCREEN"@[4] == 'E' && "SCREEN"@[5] == 'N');
    reveal_strlit("KBD");
    assert("KBD"@.len() == 3 && "KBD"@[0] == 'K' && "KBD"@[1] == 'B' && "KBD"@[2] == 'D');
    reveal_strlit("SP");
    assert("SP"@.len() == 2 && "SP"@[0] == 'S' && "SP"@[1] == 'P');
    reveal_strlit("LCL");
    assert("LCL"@.len() == 3 && "LCL"@[0] == 'L' && "LCL"@[1] == 'C' && "LCL"@[2] == 'L');
    reveal_strlit("ARG");
    assert("ARG"@.len() == 3 && "ARG"@[0] == 'A' && "ARG"@[1] == 'R' && "ARG"@[2] == 'G');
    reveal_strlit("THIS");
    assert("THIS"@.len() == 4 && "THIS"@[0] == 'T' && "THIS"@[1] == 'H' && "THIS"@[2] == 'I' && "THIS"@[3] == 'S');
    reveal_strlit("THAT");
    assert("THAT"@.len() == 4 && "THAT"@[0] == 'T' && "THAT"@[1] == 'H' && "THAT"@[2] == 'A' && "THAT"@[3] == 'T');
    reveal_strlit("R0");
    assert("R0"@.len() == 2 && "R0"@[0] == 'R' && "R0"@[1] == '0');
    reveal_strlit("R1");
    assert("R1"@.len() == 2 && "R1"@[0] == 'R' && "R1"@[1] == '1');
    reveal_strlit("R2");
    assert("R2"@.len() == 2 && "R2"@[0] == 'R' && "R2"@[1] == '2');
    reveal_strlit("R3");
    assert("R3"@.len() == 2 && "R3"@[0] == 'R' && "R3"@[1] == '3');
    reveal_strlit("R4");
    assert("R4"@.len() == 2 && "R4"@[0] == 'R' && "R4"@[1] == '4');
    reveal_strlit("R5");
    assert("R5"@.len() == 2 && "R5"@[0] == 'R' && "R5"@[1] == '5');
    reveal_strlit("R6");
    assert("R6"@.len() == 2 && "R6"@[0] == 'R' && "R6"@[1] == '6');
    reveal_strlit("R7");
    assert("R7"@.len() == 2 && "R7"@[0] == 'R' && "R7"@[1] == '7');
    reveal_strlit("R8");
    assert("R8"@.len() == 2 && "R8"@[0] == 'R' && "R8"@[1] == '8');
    reveal_strlit("R9");
    assert("R9"@.len() == 2 && "R9"@[0] == 'R' && "R9"@[1] == '9');
    reveal_strlit("R10");
    assert("R10"@.len() == 3 && "R10"@[0] == 'R' && "R10"@[1] == '1' && "R10"@[2] == '0');
    reveal_strlit("R11");
    assert("R11"@.len() == 3 && "R11"@[0] == 'R' && "R11"@[1] == '1' && "R11"@[2] == '1');
    reveal_strlit("R12");
    assert("R12"@.len() == 3 && "R12"@[0] == 'R' && "R12"@[1] == '1' && "R12"@[2] == '2');
    reveal_strlit("R13");
    assert("R13"@.len() == 3 && "R13"@[0] == 'R' && "R13"@[1] == '1' && "R13"@[2] == '3');
    reveal_strlit("R14");
    assert("R14"@.len() == 3 && "R14"@[0] == 'R' && "R14"@[1] == '1' && "R14"@[2] == '4');
    reveal_strlit("R15");
    assert("R15"@.len() == 3 && "R15"@[0] == 'R' && "R15"@[1] == '1' && "R15"@[2] == '5');
    assert(resolve("SCREEN"@) == Some("SCREEN"@));
    assert(resolve("KBD"@) == Some("KBD"@));
    assert(resolve("SP"@) == Some("SP"@));
    assert(ascii_lower("LCL"@[0]) != ascii_lower("KBD"@[0]));
    assert(resolve("LCL"@) == Some("LCL"@));
    assert(ascii_lower("ARG"@[0]) != ascii_lower("KBD"@[0]));
    assert(ascii_lower("ARG"@[0]) != ascii_lower("LCL"@[0]));
    assert(resolve("ARG"@) == Some("ARG"@));
    assert(resolve("THIS"@) == Some("THIS"@));
    assert(ascii_lower("THAT"@[2]) != ascii_lower("THIS"@[2]));
    assert(resolve("THAT"@) == Some("THAT"@));
    assert(ascii_lower("R0"@[0]) != ascii_lower("SP"@[0]));
    assert("R0"@.skip(1) =~= seq!['0']);
    assert("R0"@.skip(1).len() == 1 && "R0"@.skip(1)[0] == "R0"@[1] && "R0"@.skip(1).last() == '0');
    assert("R0"@.skip(1).drop_last() =~= Seq::<char>::empty());
    assert(digits_value(Seq::<char>::empty()) == 0);
    assert(digit_value('0') == 0);
    assert(digits_value("R0"@.skip(1)) == digits_value("R0"@.skip(1).drop_last()) * 10 + digit_value("R0"@.skip(1).last()));
    assert(is_digit("R0"@.skip(1)[0]) && digits_value("R0"@.skip(1)) == 0);
    assert(all_digits("R0"@.skip(1)));
    assert(parse_short_unsigned("R0"@.skip(1)) == Some(0nat));
    assert(register_name(0) == "R0"@);
    assert(resolve("R0"@) == Some("R0"@));
    assert(ascii_lower("R1"@[0]) != ascii_lower("SP"@[0]));
    assert("R1"@.skip(1) =~= seq!['1']);
    assert("R1"@.skip(1).len() == 1 && "R1"@.skip(1)[0] == "R1"@[1] && "R1"@.skip(1).last() == '1');
    assert("R1"@.skip(1).drop_last() =~= Seq::<char>::empty());
    assert(digits_value(Seq::<char>::empty()) == 0);
    assert(digit_value('1') == 1);
    assert(digits_value("R1"@.skip(1)) == digits_value("R1"@.skip(1).drop_last()) * 10 + digit_value("R1"@.skip(1).last()));
    assert(is_digit("R1"@.skip(1)[0]) && digits_value("R1"@.skip(1)) == 1);
    assert(all_digits("R1"@.skip(1)));
    assert(parse_short_unsigned("R1"@.skip(1)) == Some(1nat));
    assert(register_name(1) == "R1"@);
    assert(resolve("R1"@) == Some("R1"@));
    assert(ascii_lower("R2"@[0]) != ascii_lower("SP"@[0]));
    assert("R2"@.skip(1) =~= seq!['2']);
    assert("R2"@.skip(1).len() == 1 && "R2"@.skip(1)[0] == "R2"@[1] && "R2"@.skip(1).last() == '2');
    assert("R2"@.skip(1).drop_last() =~= Seq::<char>::empty());
    assert(digits_value(Seq::<char>::empty()) == 0);
    assert(digit_value('2') == 2);
    assert(digits_value("R2"@.skip(1)) == digits_value("R2"@.skip(1).drop_last()) * 10 + digit_value("R2"@.skip(1).last()));
    assert(is_digit("R2"@.skip(1)[0]) && digits_value("R2"@.skip(1)) == 2);
    assert(all_digits("R2"@.skip(1)));
    assert(parse_short_unsigned("R2"@.skip(1)) == Some(2nat));
    assert(register_name(2) == "R2"@);
    assert(resolve("R2"@) == Some("R2"@));
    assert(ascii_lower("R3"@[0]) != ascii_lower("SP"@[0]));
    assert("R3"@.skip(1) =~= seq!['3']);
    assert("R3"@.skip(1).len() == 1 && "R3"@.skip(1)[0] == "R3"@[1] && "R3"@.skip(1).last() == '3');
    assert("R3"@.skip(1).drop_last() =~= Seq::<char>::empty());
    assert(digits_value(Seq::<char>::empty()) == 0);
    assert(digit_value('3') == 3);
    assert(digits_value("R3"@.skip(1)) == digits_value("R3"@.skip(1).drop_last()) * 10 + digit_value("R3"@.skip(1).last()));
    assert(is_digit("R3"@.skip(1)[0]) && digits_value("R3"@.skip(1)) == 3);
    assert(all_digits("R3"@.skip(1)));
    assert(parse_short_unsigned("R3"@.skip(1)) == Some(3nat));
    assert(register_name(3) == "R3"@);
    assert(resolve("R3"@) == Some("R3"@));
    assert(ascii_lower("R4"@[0]) != ascii_lower("SP"@[0]));
    assert("R4"@.skip(1) =~= seq!['4']);
    assert("R4"@.skip(1).len() == 1 && "R4"@.skip(1)[0] == "R4"@[1] && "R4"@.skip(1).last() == '4');
    assert("R4"@.skip(1).drop_last() =~= Seq::<char>::empty());
    assert(digits_value(Seq::<char>::empty()) == 0);
    assert(digit_value('4') == 4);
    assert(digits_value("R4"@.skip(1)) == digits_value("R4"@.skip(1).drop_last()) * 10 + digit_value("R4"@.skip(1).last()));
    assert(is_digit("R4"@.skip(1)[0]) && digits_value("R4"@.skip(1)) == 4);
    assert(all_digits("R4"@.skip(1)));
    assert(parse_short_unsigned("R4"@.skip(1)) == Some(4nat));
    assert(register_name(4) == "R4"@);
    assert(resolve("R4"@) == Some("R4"@));
    assert(ascii_lower("R5"@[0]) != ascii_lower("SP"@[0]));
    assert("R5"@.skip(1) =~= seq!['5']);
    assert("R5"@.skip(1).len() == 1 && "R5"@.skip(1)[0] == "R5"@[1] && "R5"@.skip(1).last() == '5');
    assert("R5"@.skip(1).drop_last() =~= Seq::<char>::empty());
    assert(digits_value(Seq::<char>::empty()) == 0);
    assert(digit_value('5') == 5);
    assert(digits_value("R5"@.skip(1)) == digits_value("R5"@.skip(1).drop_last()) * 10 + digit_value("R5"@.skip(1).last()));
    assert(is_digit("R5"@.skip(1)[0]) && digits_value("R5"@.skip(1)) == 5);
    assert(all_digits("R5"@.skip(1)));
    assert(parse_short_unsigned("R5"@.skip(1)) == Some(5nat));
    assert(register_name(5) == "R5"@);
    assert(resolve("R5"@) == Some("R5"@));
    assert(ascii_lower("R6"@[0]) != ascii_lower("SP"@[0]));
    assert("R6"@.skip(1) =~= seq!['6']);
    assert("R6"@.skip(1).len() == 1 && "R6"@.skip(1)[0] == "R6"@[1] && "R6"@.skip(1).last() == '6');
    assert("R6"@.skip(1).drop_last() =~= Seq::<char>::empty());
    assert(digits_value(Seq::<char>::empty()) == 0);
    assert(digit_value('6') == 6);
    assert(digits_value("R6"@.skip(1)) == digits_value("R6"@.skip(1).drop_last()) * 10 + digit_value("R6"@.skip(1).last()));
    assert(is_digit("R6"@.skip(1)[0]) && digits_value("R6"@.skip(1)) == 6);
    assert(all_digits("R6"@.skip(1)));
    assert(parse_short_unsigned("R6"@.skip(1)) == Some(6nat));
    assert(register_name(6) == "R6"@);
    assert(resolve("R6"@) == Some("R6"@));
    assert(ascii_lower("R7"@[0]) != ascii_lower("SP"@[0]));
    assert("R7"@.skip(1) =~= seq!['7']);
    assert("R7"@.skip(1).len() == 1 && "R7"@.skip(1)[0] == "R7"@[1] && "R7"@.skip(1).last() == '7');
    assert("R7"@.skip(1).drop_last() =~= Seq::<char>::empty());
    assert(digits_value(Seq::<char>::empty()) == 0);
    assert(digit_value('7') == 7);
    assert(digits_value("R7"@.skip(1)) == digits_value("R7"@.skip(1).drop_last()) * 10 + digit_value("R7"@.skip(1).last()));
    assert(is_digit("R7"@.skip(1)[0]) && digits_value("R7"@.skip(1)) == 7);
    assert(all_digits("R7"@.skip(1)));
    assert(parse_short_unsigned("R7"@.skip(1)) == Some(7nat));
    assert(register_name(7) == "R7"@);
    assert(resolve("R7"@) == Some("R7"@));
    assert(ascii_lower("R8"@[0]) != ascii_lower("SP"@[0]));
    assert("R8"@.skip(1) =~= seq!['8']);
    assert("R8"@.skip(1).len() == 1 && "R8"@.skip(1)[0] == "R8"@[1] && "R8"@.skip(1).last() == '8');
    assert("R8"@.skip(1).drop_last() =~= Seq::<char>::empty());
    assert(digits_value(Seq::<char>::empty()) == 0);
    assert(digit_value('8') == 8);
    assert(digits_value("R8"@.skip(1)) == digits_value("R8"@.skip(1).drop_last()) * 10 + digit_value("R8"@.skip(1).last()));
    assert(is_digit("R8"@.skip(1)[0]) && digits_value("R8"@.skip(1)) == 8);
    assert(all_digits("R8"@.skip(1)));
    assert(parse_short_unsigned("R8"@.skip(1)) == Some(8nat));
    assert(register_name(8) == "R8"@);
    assert(resolve("R8"@) == Some("R8"@));
    assert(ascii_lower("R9"@[0]) != ascii_lower("SP"@[0]));
    assert("R9"@.skip(1) =~= seq!['9']);
    assert("R9"@.skip(1).len() == 1 && "R9"@.skip(1)[0] == "R9"@[1] && "R9"@.skip(1).last() == '9');
    assert("R9"@.skip(1).drop_last() =~= Seq::<char>::empty());
    assert(digits_value(Seq::<char>::empty()) == 0);
    assert(digit_value('9') == 9);
    assert(digits_value("R9"@.skip(1)) == digits_value("R9"@.skip(1).drop_last()) * 10 + digit_value("R9"@.skip(1).last()));
    assert(is_digit("R9"@.skip(1)[0]) && digits_value("R9"@.skip(1)) == 9);
    assert(all_digits("R9"@.skip(1)));
    assert(parse_short_unsigned("R9"@.skip(1)) == Some(9nat));
    assert(register_name(9) == "R9"@);
    assert(resolve("R9"@) == Some("R9"@));
    assert(ascii_lower("R10"@[0]) != ascii_lower("KBD"@[0]));
    assert(ascii_lower("R10"@[0]) != ascii_lower("LCL"@[0]));
    assert(ascii_lower("R10"@[0]) != ascii_lower("ARG"@[0]));
    assert("R10"@.skip(1) =~= seq!['1', '0']);
    assert(seq!['1', '0'].drop_last() =~= seq!['1']);
    assert("R10"@.skip(1).len() == 2 && "R10"@.skip(1)[0] == "R10"@[1] && "R10"@.skip(1)[1] == "R10"@[2] && "R10"@.skip(1).last() == '0');
    assert("R10"@.skip(1).drop_last() =~= seq!['1']);
    assert(seq!['1'].drop_last() =~= Seq::<char>::empty() && seq!['1'].last() == '1');
    assert("R10"@.skip(1).drop_last().drop_last() =~= Seq::<char>::empty());
    assert(digits_value(Seq::<char>::empty()) == 0);
    assert(digit_value('1') == 1 && digit_value('0') == 0);
    assert(digits_value(seq!['1']) == digits_value(seq!['1'].drop_last()) * 10 + digit_value(seq!['1'].last()));
    assert(digits_value("R10"@.skip(1)) == digits_value("R10"@.skip(1).drop_last()) * 10 + digit_value("R10"@.skip(1).last()));
    assert(digits_value("R10"@.skip(1).drop_last()) == 1);
    assert(is_digit("R10"@.skip(1)[0]) && is_digit("R10"@.skip(1)[1]) && digits_value("R10"@.skip(1)) == 10);
    assert(all_digits("R10"@.skip(1)));
    assert(parse_short_unsigned("R10"@.skip(1)) == Some(10nat));
    assert(register_name(10) == "R10"@);
    assert(resolve("R10"@) == Some("R10"@));
    assert(ascii_lower("R11"@[0]) != ascii_lower("KBD"@[0]));
    assert(ascii_lower("R11"@[0]) != ascii_lower("LCL"@[0]));
    assert(ascii_lower("R11"@[0]) != ascii_lower("ARG"@[0]));
    assert("R11"@.skip(1) =~= seq!['1', '1']);
    assert(seq!['1', '1'].drop_last() =~= seq!['1']);
    assert("R11"@.skip(1).len() == 2 && "R11"@.skip(1)[0] == "R11"@[1] && "R11"@.skip(1)[1] == "R11"@[2] && "R11"@.skip(1).last() == '1');
    assert("R11"@.skip(1).drop_last() =~= seq!['1']);
    assert(seq!['1'].drop_last() =~= Seq::<char>::empty() && seq!['1'].last() == '1');
    assert("R11"@.skip(1).drop_last().drop_last() =~= Seq::<char>::empty());
    assert(digits_value(Seq::<char>::empty()) == 0);
    assert(digit_value('1') == 1 && digit_value('1') == 1);
    assert(digits_value(seq!['1']) == digits_value(seq!['1'].drop_last()) * 10 + digit_value(seq!['1'].last()));
    assert(digits_value("R11"@.skip(1)) == digits_value("R11"@.skip(1).drop_last()) * 10 + digit_value("R11"@.skip(1).last()));
    assert(digits_value("R11"@.skip(1).drop_last()) == 1);
    assert(is_digit("R11"@.skip(1)[0]) && is_digit("R11"@.skip(1)[1]) && digits_value("R11"@.skip(1)) == 11);
    assert(all_digits("R11"@.skip(1)));
    assert(parse_short_unsigned("R11"@.skip(1)) == Some(11nat));
    assert(register_name(11) == "R11"@);
    assert(resolve("R11"@) == Some("R11"@));
    assert(ascii_lower("R12"@[0]) != ascii_lower("KBD"@[0]));
    assert(ascii_lower("R12"@[0]) != ascii_lower("LCL"@[0]));
    assert(ascii_lower("R12"@[0]) != ascii_lower("ARG"@[0]));
    assert("R12"@.skip(1) =~= seq!['1', '2']);
    assert(seq!['1', '2'].drop_last() =~= seq!['1']);
    assert("R12"@.skip(1).len() == 2 && "R12"@.skip(1)[0] == "R12"@[1] && "R12"@.skip(1)[1] == "R12"@[2] && "R12"@.skip(1).last() == '2');
    assert("R12"@.skip(1).drop_last() =~= seq!['1']);
    assert(seq!['1'].drop_last() =~= Seq::<char>::empty() && seq!['1'].last() == '1');
    assert("R12"@.skip(1).drop_last().drop_last() =~= Seq::<char>::empty());
    assert(digits_value(Seq::<char>::empty()) == 0);
    assert(digit_value('1') == 1 && digit_value('2') == 2);
    assert(digits_value(seq!['1']) == digits_value(seq!['1'].drop_last()) * 10 + digit_value(seq!['1'].last()));
    assert(digits_value("R12"@.skip(1)) == digits_value("R12"@.skip(1).drop_last()) * 10 + digit_value("R12"@.skip(1).last()));
    assert(digits_value("R12"@.skip(1).drop_last()) == 1);
    assert(is_digit("R12"@.skip(1)[0]) && is_digit("R12"@.skip(1)[1]) && digits_value("R12"@.skip(1)) == 12);
    assert(all_digits("R12"@.skip(1)));
    assert(parse_short_unsigned("R12"@.skip(1)) == Some(12nat));
    assert(register_name(12) == "R12"@);
    assert(resolve("R12"@) == Some("R12"@));
    assert(ascii_lower("R13"@[0]) != ascii_lower("KBD"@[0]));
    assert(ascii_lower("R13"@[0]) != ascii_lower("LCL"@[0]));
    assert(ascii_lower("R13"@[0]) != ascii_lower("ARG"@[0]));
    assert("R13"@.skip(1) =~= seq!['1', '3']);
    assert(seq!['1', '3'].drop_last() =~= seq!['1']);
    assert("R13"@.skip(1).len() == 2 && "R13"@.skip(1)[0] == "R13"@[1] && "R13"@.skip(1)[1] == "R13"@[2] && "R13"@.skip(1).last() == '3');
    assert("R13"@.skip(1).drop_last() =~= seq!['1']);
    assert(seq!['1'].drop_last() =~= Seq::<char>::empty() && seq!['1'].last() == '1');
    assert("R13"@.skip(1).drop_last().drop_last() =~= Seq::<char>::empty());
    assert(digits_value(Seq::<char>::empty()) == 0);
    assert(digit_value('1') == 1 && digit_value('3') == 3);
    assert(digits_value(seq!['1']) == digits_value(seq!['1'].drop_last()) * 10 + digit_value(seq!['1'].last()));
    assert(digits_value("R13"@.skip(1)) == digits_value("R13"@.skip(1).drop_last()) * 10 + digit_value("R13"@.skip(1).last()));
    assert(digits_value("R13"@.skip(1).drop_last()) == 1);
    assert(is_digit("R13"@.skip(1)[0]) && is_digit("R13"@.skip(1)[1]) && digits_value("R13"@.skip(1)) == 13);
    assert(all_digits("R13"@.skip(1)));
    assert(parse_short_unsigned("R13"@.skip(1)) == Some(13nat));
    assert(register_name(13) == "R13"@);
    assert(resolve("R13"@) == Some("R13"@));
    assert(ascii_lower("R14"@[0]) != ascii_lower("KBD"@[0]));
    assert(ascii_lower("R14"@[0]) != ascii_lower("LCL"@[0]));
    assert(ascii_lower("R14"@[0]) != ascii_lower("ARG"@[0]));
    assert("R14"@.skip(1) =~= seq!['1', '4']);
    assert(seq!['1', '4'].drop_last() =~= seq!['1']);
    assert("R14"@.skip(1).len() == 2 && "R14"@.skip(1)[0] == "R14"@[1] && "R14"@.skip(1)[1] == "R14"@[2] && "R14"@.skip(1).last() == '4');
    assert("R14"@.skip(1).drop_last() =~= seq!['1']);
    assert(seq!['1'].drop_last() =~= Seq::<char>::empty() && seq!['1'].last() == '1');
    assert("R14"@.skip(1).drop_last().drop_last() =~= Seq::<char>::empty());
    assert(digits_value(Seq::<char>::empty()) == 0);
    assert(digit_value('1') == 1 && digit_value('4') == 4);
    assert(digits_value(seq!['1']) == digits_value(seq!['1'].drop_last()) * 10 + digit_value(seq!['1'].last()));
    assert(digits_value("R14"@.skip(1)) == digits_value("R14"@.skip(1).drop_last()) * 10 + digit_value("R14"@.skip(1).last()));
    assert(digits_value("R14"@.skip(1).drop_last()) == 1);
    assert(is_digit("R14"@.skip(1)[0]) && is_digit("R14"@.skip(1)[1]) && digits_value("R14"@.skip(1)) == 14);
    assert(all_digits("R14"@.skip(1)));
    assert(parse_short_unsigned("R14"@.skip(1)) == Some(14nat));
    assert(register_name(14) == "R14"@);
    assert(resolve("R14"@) == Some("R14"@));
    assert(ascii_lower("R15"@[0]) != ascii_lower("KBD"@[0]));
    assert(ascii_lower("R15"@[0]) != ascii_lower("LCL"@[0]));
    assert(ascii_lower("R15"@[0]) != ascii_lower("ARG"@[0]));
    assert("R15"@.skip(1) =~= seq!['1', '5']);
    assert(seq!['1', '5'].drop_last() =~= seq!['1']);
    assert("R15"@.skip(1).len() == 2 && "R15"@.skip(1)[0] == "R15"@[1] && "R15"@.skip(1)[1] == "R15"@[2] && "R15"@.skip(1).last() == '5');
    assert("R15"@.skip(1).drop_last() =~= seq!['1']);
    assert(seq!['1'].drop_last() =~= Seq::<char>::empty() && seq!['1'].last() == '1');
    assert("R15"@.skip(1).drop_last().drop_last() =~= Seq::<char>::empty());
    assert(digits_value(Seq::<char>::empty()) == 0);
    assert(digit_value('1') == 1 && digit_value('5') == 5);
    assert(digits_value(seq!['1']) == digits_value(seq!['1'].drop_last()) * 10 + digit_value(seq!['1'].last()));
    assert(digits_value("R15"@.skip(1)) == digits_value("R15"@.skip(1).drop_last()) * 10 + digit_value("R15"@.skip(1).last()));
    assert(digits_value("R15"@.skip(1).drop_last()) == 1);
    assert(is_digit("R15"@.skip(1)[0]) && is_digit("R15"@.skip(1)[1]) && digits_value("R15"@.skip(1)) == 15);
    assert(all_digits("R15"@.skip(1)));
    assert(parse_short_unsigned("R15"@.skip(1)) == Some(15nat));
    assert(register_name(15) == "R15"@);
    assert(resolve("R15"@) == Some("R15"@));
    assert forall|k: nat| k < 16 implies #[trigger] resolve(register_name(k)) == Some(register_name(k)) by {
        if k == 0 {} else if k == 1 {} else if k == 2 {} else if k == 3 {} else if k == 4 {}
        else if k == 5 {} else if k == 6 {} else if k == 7 {} else if k == 8 {} else if k == 9 {}
        else if k == 10 {} else if k == 11 {} else if k == 12 {} else if k == 13 {} else if k == 14 {}
        else {}
    }
}

/// A name that stands for a predefined name stands for one that stands
/// for itself.
pub proof fn lemma_resolve_canonical(u: Seq<char>)
    ensures
        resolve(u) matches Some(n) ==> resolve(n) == Some(n),
{
    lemma_names_resolve();
    if !(eq_ignore_ascii_case(u, "SCREEN"@) || eq_ignore_ascii_case(u, "KBD"@) || eq_ignore_ascii_case(u, "SP"@)
        || eq_ignore_ascii_case(u, "LCL"@) || eq_ignore_ascii_case(u, "ARG"@) || eq_ignore_ascii_case(u, "THIS"@)
        || eq_ignore_ascii_case(u, "THAT"@)) {
        if resolve(u) is Some {
            let k = parse_short_unsigned(u.skip(1)).unwrap();
            assert(resolve(register_name(k)) == Some(register_name(k)));
        }
    }
}

/// Adding a symbol that stands for no predefined name binds it alone: no
/// other name is looked up under it, so every other name keeps its answer
/// (present or absent, and its address), and the symbol reads back the
/// address.
pub proof fn lemma_add_entry_binds_only_the_symbol(t: Map<Seq<char>, i32>, symbol: Seq<char>, address: i32, name: Seq<char>)
    requires
        resolve(symbol) is None,
    ensures
        lookup_key(symbol) == symbol,
        t.insert(symbol, address).contains_key(lookup_key(symbol)),
        t.insert(symbol, address)[lookup_key(symbol)] == address,
        name != symbol ==> lookup_key(name) != symbol,
        name != symbol ==> t.insert(symbol, address).contains_key(lookup_key(name)) == t.contains_key(
            lookup_key(name),
        ),
        name != symbol && t.contains_key(lookup_key(name)) ==> t.insert(symbol, address)[lookup_key(name)]
            == t[lookup_key(name)],
{
    lemma_resolve_canonical(name);
}

/// Binding `symbol` to `address` answers that address for every name that
/// is looked up under `symbol`, and leaves the answer for every other name
/// (present or absent, and its address) as it was.
pub proof fn lemma_add_entry_keeps_other_names(t: Map<Seq<char>, i32>, symbol: Seq<char>, address: i32, name: Seq<char>)
    ensures
        lookup_key(name) == symbol ==> t.insert(symbol, address).contains_key(lookup_key(name))
            && t.insert(symbol, address)[lookup_key(name)] == address,
        lookup_key(name) != symbol ==> t.insert(symbol, address).contains_key(lookup_key(name))
            == t.contains_key(lookup_key(name)),
        lookup_key(name) != symbol && t.contains_key(lookup_key(name)) ==> t.insert(symbol, address)[lookup_key(name)]
            == t[lookup_key(name)],
{
}

/// The assembler's symbol table.
pub struct SymbolTable {
    table: NameMap<i32>,
}

impl View for SymbolTable {
    type V = Map<Seq<char>, i32>;

    closed spec fn view(&self) -> Map<Seq<char>, i32> {
        self.table@
    }
}

impl SymbolTable {
    /// The table is well formed.
    pub closed spec fn wf(&self) -> bool {
        self.table.wf()
    }

    /// A table holding the predefined symbols.
    pub fn new() -> (r: Self)
        ensures
            r.wf(),
            r@ == predefined_table(),
    {
        let mut table: NameMap<i32> = NameMap::new();
        table.insert(String::from_str("R0"), 0);
        table.insert(String::from_str("R1"), 1);
        table.insert(String::from_str("R2"), 2);
        table.insert(String::from_str("R3"), 3);
        table.insert(String::from_str("R4"), 4);
        table.insert(String::from_str("R5"), 5);
        table.insert(String::from_str("R6"), 6);
        table.insert(String::from_str("R7"), 7);
        table.insert(String::from_str("R8"), 8);
        table.insert(String::from_str("R9"), 9);
        table.insert(String::from_str("R10"), 10);
        table.insert(String::from_str("R11"), 11);
        table.insert(String::from_str("R12"), 12);
        table.insert(String::from_str("R13"), 13);
        table.insert(String::from_str("R14"), 14);
        table.insert(String::from_str("R15"), 15);
        table.insert(String::from_str("SCREEN"), 16384);
        table.insert(String::from_str("KBD"), 24576);
        table.insert(String::from_str("SP"), 0);
        table.insert(String::from_str("LCL"), 1);
        table.insert(String::from_str("ARG"), 2);
        table.insert(String::from_str("THIS"), 3);
        table.insert(String::from_str("THAT"), 4);
        SymbolTable { table }
    }

    /// Binds `symbol`, exactly as written, to `address`.
    pub fn add_entry(&mut self, symbol: &String, address: i32)
        requires
            old(self).wf(),
        ensures
            final(self).wf(),
            final(self)@ == old(self)@.insert(symbol@, address),
    {
        self.table.insert(symbol.clone(), address);
    }

    /// Whether `symbol` has an address; predefined symbols are found in any
    /// ASCII case, registers also as `r5`, `R05` or `R+5`.
    pub fn contains(&self, symbol: &str) -> (r: bool)
        requires
            self.wf(),
        ensures
            r == self@.contains_key(lookup_key(symbol@)),
    {
        match self.resolve_predefined(symbol) {
            Some(name) => self.table.contains_key(name),
            None => self.table.contains_key(symbol),
        }
    }

    /// The address of `symbol`, which must be in the table.
    pub fn get_address(&self, symbol: &str) -> (r: i32)
        requires
            self.wf(),
            self@.contains_key(lookup_key(symbol@)),
        ensures
            r == self@[lookup_key(symbol@)],
    {
        let found = match self.resolve_predefined(symbol) {
            Some(name) => self.table.get(name),
            None => self.table.get(symbol),
        };
        match found {
            Some(a) => *a,
            None => 0,
        }
    }

    /// The canonical predefined name that `symbol` stands for.
    fn resolve_predefined(&self, symbol: &str) -> (r: Option<&'static str>)
        ensures
            match r {
                Some(n) => resolve(symbol@) == Some(n@),
                None => resolve(symbol@) is None,
            },
    {
        let v = chars_of(symbol);
        if eq_ignore_case_str(&v, "SCREEN") {
        Some("SCREEN")
    } else if eq_ignore_case_str(&v, "KBD") {
        Some("KBD")
    } else if eq_ignore_case_str(&v, "SP") {
        Some("SP")
    } else if eq_ignore_case_str(&v, "LCL") {
        Some("LCL")
    } else if eq_ignore_case_str(&v, "ARG") {
        Some("ARG")
    } else if eq_ignore_case_str(&v, "THIS") {
        Some("THIS")
    } else if eq_ignore_case_str(&v, "THAT") {
        Some("THAT")
        } else if 1 < v.len() && v.len() <= 3 && (v[0] == 'R' || v[0] == 'r') {
            let ghost t = v@.skip(1);
            if v[1] == '+' {
                if v.len() == 2 {
                    return None;
                }
                let d = short_digits(&v, 2);
                assert(v@.skip(2) =~= t.skip(1));
                match d {
                    Some(k) => if k < 16 {
                        Some(register_name_exec(k))
                    } else {
                        None
                    },
                    None => None,
                }
            } else {
                match short_digits(&v, 1) {
                    Some(k) => if k < 16 {
                        Some(register_name_exec(k))
                    } else {
                        None
                    },
                    None => None,
                }
            }
        } else {
            None
        }
    }
}

} // verus!
