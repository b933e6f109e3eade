//! Translation of the symbolic fields of a C-instruction into bits.
use vstd::prelude::*;
use crate::text::{str_eq, contains_char, chars_of, push_char};

verus! {

/// The seven `a c1..c6` bits of an ALU mnemonic, where it names one.
pub open spec fn comp_bits(m: Seq<char>) -> Option<Seq<char>> {
    if m == "0"@ {
        Some("0101010"@)
    } else if m == "1"@ {
        Some("0111111"@)
    } else if m == "-1"@ {
        Some("0111010"@)
    } else if m == "D"@ {
        Some("0001100"@)
    } else if m == "!D"@ {
        Some("0001101"@)
    } else if m == "-D"@ {
        Some("0001111"@)
    } else if m == "D-1"@ {
        Some("0001110"@)
    } else if m == "D+1"@ || m == "1+D"@ {
        Some("0011111"@)
    } else if m == "A"@ {
        Some("0110000"@)
    } else if m == "!A"@ {
        Some("0110001"@)
    } else if m == "-A"@ {
        Some("0110011"@)
    } else if m == "A-1"@ {
        Some("0110010"@)
    } else if m == "A+1"@ || m == "1+A"@ {
        Some("0110111"@)
    } else if m == "M"@ {
        Some("1110000"@)
    } else if m == "!M"@ {
        Some("1110001"@)
    } else if m == "-M"@ {
        Some("1110011"@)
    } else if m == "M-1"@ {
        Some("1110010"@)
    } else if m == "M+1"@ || m == "1+M"@ {
        Some("1110111"@)
    } else if m == "D+A"@ || m == "A+D"@ {
        Some("0000010"@)
    } else if m == "D-A"@ {
        Some("0010011"@)
    } else if m == "A-D"@ {
        Some("0000111"@)
    } else if m == "D&A"@ || m == "A&D"@ {
        Some("0000000"@)
    } else if m == "D|A"@ || m == "A|D"@ {
        Some("0010101"@)
    } else if m == "D+M"@ || m == "M+D"@ {
        Some("1000010"@)
    } else if m == "D-M"@ {
        Some("1010011"@)
    } else if m == "M-D"@ {
        Some("1000111"@)
    } else if m == "D&M"@ || m == "M&D"@ {
        Some("1000000"@)
    } else if m == "D|M"@ || m == "M|D"@ {
        Some("1010101"@)
    } else {
        None
    }
}

/// The three jump bits of a jump mnemonic (`None`: no jump), where it names one.
pub open spec fn jump_bits(m: Option<Seq<char>>) -> Option<Seq<char>> {
    match m {
        None => Some("000"@),
        Some(s) => if s == "JGT"@ {
            Some("001"@)
        } else if s == "JEQ"@ {
            Some("010"@)
        } else if s == "JGE"@ {
            Some("011"@)
        } else if s == "JLT"@ {
            Some("100"@)
        } else if s == "JNE"@ {
            Some("101"@)
        } else if s == "JLE"@ {
            Some("110"@)
        } else if s == "JMP"@ {
            Some("111"@)
        } else {
            None
        },
    }
}

/// `'1'` where `b` holds, else `'0'`.
pub open spec fn bit(b: bool) -> char {
    if b { '1' } else { '0' }
}

/// The three destination bits: A, D and M in that order, each set where the
/// destination field names that register anywhere in it.
pub open spec fn dest_bits(d: Option<Seq<char>>) -> Seq<char> {
    match d {
        None => seq!['0', '0', '0'],
        Some(s) => seq![bit(s.contains('A')), bit(s.contains('D')), bit(s.contains('M'))],
    }
}

/// Whether every character of `s` is a binary digit.
pub open spec fn is_bits(s: Seq<char>) -> bool {
    forall|i: int| 0 <= i < s.len() ==> #[trigger] s[i] == '0' || s[i] == '1'
}

/// The comp field of every mnemonic in the table is seven binary digits.
pub proof fn lemma_comp_bits_shape(m: Seq<char>)
    ensures
        comp_bits(m) matches Some(b) ==> b.len() == 7 && is_bits(b),
{
    reveal_strlit("0000000");
    assert("0000000"@.len() == 7 && "0000000"@[0] == '0' && "0000000"@[1] == '0' && "0000000"@[2] == '0' && "0000000"@[3] == '0' && "0000000"@[4] == '0' && "0000000"@[5] == '0' && "0000000"@[6] == '0');
    reveal_strlit("0000010");
    assert("0000010"@.len() == 7 && "0000010"@[0] == '0' && "0000010"@[1] == '0' && "0000010"@[2] == '0' && "0000010"@[3] == '0' && "0000010"@[4] == '0' && "0000010"@[5] == '1' && "0000010"@[6] == '0');
    reveal_strlit("0000111");
    assert("0000111"@.len() == 7 && "0000111"@[0] == '0' && "0000111"@[1] == '0' && "0000111"@[2] == '0' && "0000111"@[3] == '0' && "0000111"@[4] == '1' && "0000111"@[5] == '1' && "0000111"@[6] == '1');
    reveal_strlit("0001100");
    assert("0001100"@.len() == 7 && "0001100"@[0] == '0' && "0001100"@[1] == '0' && "0001100"@[2] == '0' && "0001100"@[3] == '1' && "0001100"@[4] == '1' && "0001100"@[5] == '0' && "0001100"@[6] == '0');
    reveal_strlit("0001101");
    assert("0001101"@.len() == 7 && "0001101"@[0] == '0' && "0001101"@[1] == '0' && "0001101"@[2] == '0' && "0001101"@[3] == '1' && "0001101"@[4] == '1' && "0001101"@[5] == '0' && "0001101"@[6] == '1');
    reveal_strlit("0001110");
    assert("0001110"@.len() == 7 && "0001110"@[0] == '0' && "0001110"@[1] == '0' && "0001110"@[2] == '0' && "0001110"@[3] == '1' && "0001110"@[4] == '1' && "0001110"@[5] == '1' && "0001110"@[6] == '0');
    reveal_strlit("0001111");
    assert("0001111"@.len() == 7 && "0001111"@[0] == '0' && "0001111"@[1] == '0' && "0001111"@[2] == '0' && "0001111"@[3] == '1' && "0001111"@[4] == '1' && "0001111"@[5] == '1' && "0001111"@[6] == '1');
    reveal_strlit("0010011");
    assert("0010011"@.len() == 7 && "0010011"@[0] == '0' && "0010011"@[1] == '0' && "0010011"@[2] == '1' && "0010011"@[3] == '0' && "0010011"@[4] == '0' && "0010011"@[5] == '1' && "0010011"@[6] == '1');
    reveal_strlit("0010101");
    assert("0010101"@.len() == 7 && "0010101"@[0] == '0' && "0010101"@[1] == '0' && "0010101"@[2] == '1' && "0010101"@[3] == '0' && "0010101"@[4] == '1' && "0010101"@[5] == '0' && "0010101"@[6] == '1');
    reveal_strlit("0011111");
    assert("0011111"@.len() == 7 && "0011111"@[0] == '0' && "0011111"@[1] == '0' && "0011111"@[2] == '1' && "0011111"@[3] == '1' && "0011111"@[4] == '1' && "0011111"@[5] == '1' && "0011111"@[6] == '1');
    reveal_strlit("0101010");
    assert("0101010"@.len() == 7 && "0101010"@[0] == '0' && "0101010"@[1] == '1' && "0101010"@[2] == '0' && "0101010"@[3] == '1' && "0101010"@[4] == '0' && "0101010"@[5] == '1' && "0101010"@[6] == '0');
    reveal_strlit("0110000");
    assert("0110000"@.len() == 7 && "0110000"@[0] == '0' && "0110000"@[1] == '1' && "0110000"@[2] == '1' && "0110000"@[3] == '0' && "0110000"@[4] == '0' && "0110000"@[5] == '0' && "0110000"@[6] == '0');
    reveal_strlit("0110001");
    assert("0110001"@.len() == 7 && "0110001"@[0] == '0' && "0110001"@[1] == '1' && "0110001"@[2] == '1' && "0110001"@[3] == '0' && "0110001"@[4] == '0' && "0110001"@[5] == '0' && "0110001"@[6] == '1');
    reveal_strlit("0110010");
    assert("0110010"@.len() == 7 && "0110010"@[0] == '0' && "0110010"@[1] == '1' && "0110010"@[2] == '1' && "0110010"@[3] == '0' && "0110010"@[4] == '0' && "0110010"@[5] == '1' && "0110010"@[6] == '0');
    reveal_strlit("0110011");
    assert("0110011"@.len() == 7 && "0110011"@[0] == '0' && "0110011"@[1] == '1' && "0110011"@[2] == '1' && "0110011"@[3] == '0' && "0110011"@[4] == '0' && "0110011"@[5] == '1' && "0110011"@[6] == '1');
    reveal_strlit("0110111");
    assert("0110111"@.len() == 7 && "0110111"@[0] == '0' && "0110111"@[1] == '1' && "0110111"@[2] == '1' && "0110111"@[3] == '0' && "0110111"@[4] == '1' && "0110111"@[5] == '1' && "0110111"@[6] == '1');
    reveal_strlit("0111010");
    assert("0111010"@.len() == 7 && "0111010"@[0] == '0' && "0111010"@[1] == '1' && "0111010"@[2] == '1' && "0111010"@[3] == '1' && "0111010"@[4] == '0' && "0111010"@[5] == '1' && "0111010"@[6] == '0');
    reveal_strlit("0111111");
    assert("0111111"@.len() == 7 && "0111111"@[0] == '0' && "0111111"@[1] == '1' && "0111111"@[2] == '1' && "0111111"@[3] == '1' && "0111111"@[4] == '1' && "0111111"@[5] == '1' && "0111111"@[6] == '1');
    reveal_strlit("1000000");
    assert("1000000"@.len() == 7 && "1000000"@[0] == '1' && "1000000"@[1] == '0' && "1000000"@[2] == '0' && "1000000"@[3] == '0' && "1000000"@[4] == '0' && "1000000"@[5] == '0' && "1000000"@[6] == '0');
    reveal_strlit("1000010");
    assert("1000010"@.len() == 7 && "1000010"@[0] == '1' && "1000010"@[1] == '0' && "1000010"@[2] == '0' && "1000010"@[3] == '0' && "1000010"@[4] == '0' && "1000010"@[5] == '1' && "1000010"@[6] == '0');
    reveal_strlit("1000111");
    assert("1000111"@.len() == 7 && "1000111"@[0] == '1' && "1000111"@[1] == '0' && "1000111"@[2] == '0' && "1000111"@[3] == '0' && "1000111"@[4] == '1' && "1000111"@[5] == '1' && "1000111"@[6] == '1');
    reveal_strlit("1010011");
    assert("1010011"@.len() == 7 && "1010011"@[0] == '1' && "1010011"@[1] == '0' && "1010011"@[2] == '1' && "1010011"@[3] == '0' && "1010011"@[4] == '0' && "1010011"@[5] == '1' && "1010011"@[6] == '1');
    reveal_strlit("1010101");
    assert("1010101"@.len() == 7 && "1010101"@[0] == '1' && "1010101"@[1] == '0' && "1010101"@[2] == '1' && "1010101"@[3] == '0' && "1010101"@[4] == '1' && "1010101"@[5] == '0' && "1010101"@[6] == '1');
    reveal_strlit("1110000");
    assert("1110000"@.len() == 7 && "1110000"@[0] == '1' && "1110000"@[1] == '1' && "1110000"@[2] == '1' && "1110000"@[3] == '0' && "1110000"@[4] == '0' && "1110000"@[5] == '0' && "1110000"@[6] == '0');
    reveal_strlit("1110001");
    assert("1110001"@.len() == 7 && "1110001"@[0] == '1' && "1110001"@[1] == '1' && "1110001"@[2] == '1' && "1110001"@[3] == '0' && "1110001"@[4] == '0' && "1110001"@[5] == '0' && "1110001"@[6] == '1');
    reveal_strlit("1110010");
    assert("1110010"@.len() == 7 && "1110010"@[0] == '1' && "1110010"@[1] == '1' && "1110010"@[2] == '1' && "1110010"@[3] == '0' && "1110010"@[4] == '0' && "1110010"@[5] == '1' && "1110010"@[6] == '0');
    reveal_strlit("1110011");
    assert("1110011"@.len() == 7 && "1110011"@[0] == '1' && "1110011"@[1] == '1' && "1110011"@[2] == '1' && "1110011"@[3] == '0' && "1110011"@[4] == '0' && "1110011"@[5] == '1' && "1110011"@[6] == '1');
    reveal_strlit("1110111");
    assert("1110111"@.len() == 7 && "1110111"@[0] == '1' && "1110111"@[1] == '1' && "1110111"@[2] == '1' && "1110111"@[3] == '0' && "1110111"@[4] == '1' && "1110111"@[5] == '1' && "1110111"@[6] == '1');
}

/// Only the `a` bit tells the memory forms from the register forms: the
/// first comp bit is 1 exactly for the mnemonics that read `M`.
pub proof fn lemma_comp_a_bit(m: Seq<char>)
    ensures
        comp_bits(m) matches Some(b) ==> (b[0] == '1' <==> m.contains('M')),
{
    reveal_strlit("0");
    assert("0"@ =~= seq!['0']);
    reveal_strlit("1");
    assert("1"@ =~= seq!['1']);
    reveal_strlit("-1");
    assert("-1"@ =~= seq!['-', '1']);
    reveal_strlit("D");
    assert("D"@ =~= seq!['D']);
    reveal_strlit("!D");
    assert("!D"@ =~= seq!['!', 'D']);
    reveal_strlit("-D");
    assert("-D"@ =~= seq!['-', 'D']);
    reveal_strlit("D-1");
    assert("D-1"@ =~= seq!['D', '-', '1']);
    reveal_strlit("D+1");
    assert("D+1"@ =~= seq!['D', '+', '1']);
    reveal_strlit("1+D");
    assert("1+D"@ =~= seq!['1', '+', 'D']);
    reveal_strlit("A");
    assert("A"@ =~= seq!['A']);
    reveal_strlit("!A");
    assert("!A"@ =~= seq!['!', 'A']);
    reveal_strlit("-A");
    assert("-A"@ =~= seq!['-', 'A']);
    reveal_strlit("A-1");
    assert("A-1"@ =~= seq!['A', '-', '1']);
    reveal_strlit("A+1");
    assert("A+1"@ =~= seq!['A', '+', '1']);
    reveal_strlit("1+A");
    assert("1+A"@ =~= seq!['1', '+', 'A']);
    reveal_strlit("M");
    assert("M"@ =~= seq!['M']);
    assert("M"@[0] == 'M');
    reveal_strlit("!M");
    assert("!M"@ =~= seq!['!', 'M']);
    assert("!M"@[1] == 'M');
    reveal_strlit("-M");
    assert("-M"@ =~= seq!['-', 'M']);
    assert("-M"@[1] == 'M');
    reveal_strlit("M-1");
    assert("M-1"@ =~= seq!['M', '-', '1']);
    assert("M-1"@[0] == 'M');
    reveal_strlit("M+1");
    assert("M+1"@ =~= seq!['M', '+', '1']);
    assert("M+1"@[0] == 'M');
    reveal_strlit("1+M");
    assert("1+M"@ =~= seq!['1', '+', 'M']);
    assert("1+M"@[2] == 'M');
    reveal_strlit("D+A");
    assert("D+A"@ =~= seq!['D', '+', 'A']);
    reveal_strlit("A+D");
    assert("A+D"@ =~= seq!['A', '+', 'D']);
    reveal_strlit("D-A");
    assert("D-A"@ =~= seq!['D', '-', 'A']);
    reveal_strlit("A-D");
    assert("A-D"@ =~= seq!['A', '-', 'D']);
    reveal_strlit("D&A");
    assert("D&A"@ =~= seq!['D', '&', 'A']);
    reveal_strlit("A&D");
    assert("A&D"@ =~= seq!['A', '&', 'D']);
    reveal_strlit("D|A");
    assert("D|A"@ =~= seq!['D', '|', 'A']);
    reveal_strlit("A|D");
    assert("A|D"@ =~= seq!['A', '|', 'D']);
    reveal_strlit("D+M");
    assert("D+M"@ =~= seq!['D', '+', 'M']);
    assert("D+M"@[2] == 'M');
    reveal_strlit("M+D");
    assert("M+D"@ =~= seq!['M', '+', 'D']);
    assert("M+D"@[0] == 'M');
    reveal_strlit("D-M");
    assert("D-M"@ =~= seq!['D', '-', 'M']);
    assert("D-M"@[2] == 'M');
    reveal_strlit("M-D");
    assert("M-D"@ =~= seq!['M', '-', 'D']);
    assert("M-D"@[0] == 'M');
    reveal_strlit("D&M");
    assert("D&M"@ =~= seq!['D', '&', 'M']);
    assert("D&M"@[2] == 'M');
    reveal_strlit("M&D");
    assert("M&D"@ =~= seq!['M', '&', 'D']);
    assert("M&D"@[0] == 'M');
    reveal_strlit("D|M");
    assert("D|M"@ =~= seq!['D', '|', 'M']);
    assert("D|M"@[2] == 'M');
    reveal_strlit("M|D");
    assert("M|D"@ =~= seq!['M', '|', 'D']);
    assert("M|D"@[0] == 'M');
    reveal_strlit("0101010");
    assert("0101010"@.len() == 7 && "0101010"@[0] == '0');
    reveal_strlit("0111111");
    assert("0111111"@.len() == 7 && "0111111"@[0] == '0');
    reveal_strlit("0111010");
    assert("0111010"@.len() == 7 && "0111010"@[0] == '0');
    reveal_strlit("0001100");
    assert("0001100"@.len() == 7 && "0001100"@[0] == '0');
    reveal_strlit("0001101");
    assert("0001101"@.len() == 7 && "0001101"@[0] == '0');
    reveal_strlit("0001111");
    assert("0001111"@.len() == 7 && "0001111"@[0] == '0');
    reveal_strlit("0001110");
    assert("0001110"@.len() == 7 && "0001110"@[0] == '0');
    reveal_strlit("0011111");
    assert("0011111"@.len() == 7 && "0011111"@[0] == '0');
    reveal_strlit("0110000");
    assert("0110000"@.len() == 7 && "0110000"@[0] == '0');
    reveal_strlit("0110001");
    assert("0110001"@.len() == 7 && "0110001"@[0] == '0');
    reveal_strlit("0110011");
    assert("0110011"@.len() == 7 && "0110011"@[0] == '0');
    reveal_strlit("0110010");
    assert("0110010"@.len() == 7 && "0110010"@[0] == '0');
    reveal_strlit("0110111");
    assert("0110111"@.len() == 7 && "0110111"@[0] == '0');
    reveal_strlit("1110000");
    assert("1110000"@.len() == 7 && "1110000"@[0] == '1');
    reveal_strlit("1110001");
    assert("1110001"@.len() == 7 && "1110001"@[0] == '1');
    reveal_strlit("1110011");
    assert("1110011"@.len() == 7 && "1110011"@[0] == '1');
    reveal_strlit("1110010");
    assert("1110010"@.len() == 7 && "1110010"@[0] == '1');
    reveal_strlit("1110111");
    assert("1110111"@.len() == 7 && "1110111"@[0] == '1');
    reveal_strlit("0000010");
    assert("0000010"@.len() == 7 && "0000010"@[0] == '0');
    reveal_strlit("0010011");
    assert("0010011"@.len() == 7 && "0010011"@[0] == '0');
    reveal_strlit("0000111");
    assert("0000111"@.len() == 7 && "0000111"@[0] == '0');
    reveal_strlit("0000000");
    assert("0000000"@.len() == 7 && "0000000"@[0] == '0');
    reveal_strlit("0010101");
    assert("0010101"@.len() == 7 && "0010101"@[0] == '0');
    reveal_strlit("1000010");
    assert("1000010"@.len() == 7 && "1000010"@[0] == '1');
    reveal_strlit("1010011");
    assert("1010011"@.len() == 7 && "1010011"@[0] == '1');
    reveal_strlit("1000111");
    assert("1000111"@.len() == 7 && "1000111"@[0] == '1');
    reveal_strlit("1000000");
    assert("1000000"@.len() == 7 && "1000000"@[0] == '1');
    reveal_strlit("1010101");
    assert("1010101"@.len() == 7 && "1010101"@[0] == '1');
}

/// `m` with every `M` read as `A`.
pub open spec fn m_to_a(m: Seq<char>) -> Seq<char> {
    m.map_values(|c: char| if c == 'M' { 'A' } else { c })
}

/// Reading `M` in place of `A` changes only the `a` bit: a table
/// mnemonic with every `M` replaced by `A` is a table mnemonic, and its
/// other six bits are the same.
#[verifier::rlimit(50)]
pub proof fn lemma_comp_m_to_a(m: Seq<char>)
    ensures
        comp_bits(m) matches Some(b) ==> comp_bits(m_to_a(m)) matches Some(b2) && b.subrange(1, 7)
            == b2.subrange(1, 7),
{
    reveal_strlit("0");
    assert("0"@.len() == 1 && "0"@[0] == '0');
    reveal_strlit("1");
    assert("1"@.len() == 1 && "1"@[0] == '1');
    reveal_strlit("-1");
    assert("-1"@.len() == 2 && "-1"@[0] == '-' && "-1"@[1] == '1');
    reveal_strlit("D");
    assert("D"@.len() == 1 && "D"@[0] == 'D');
    reveal_strlit("!D");
    assert("!D"@.len() == 2 && "!D"@[0] == '!' && "!D"@[1] == 'D');
    reveal_strlit("-D");
    assert("-D"@.len() == 2 && "-D"@[0] == '-' && "-D"@[1] == 'D');
    reveal_strlit("D-1");
    assert("D-1"@.len() == 3 && "D-1"@[0] == 'D' && "D-1"@[1] == '-' && "D-1"@[2] == '1');
    reveal_strlit("D+1");
    assert("D+1"@.len() == 3 && "D+1"@[0] == 'D' && "D+1"@[1] == '+' && "D+1"@[2] == '1');
    reveal_strlit("1+D");
    assert("1+D"@.len() == 3 && "1+D"@[0] == '1' && "1+D"@[1] == '+' && "1+D"@[2] == 'D');
    reveal_strlit("A");
    assert("A"@.len() == 1 && "A"@[0] == 'A');
    reveal_strlit("!A");
    assert("!A"@.len() == 2 && "!A"@[0] == '!' && "!A"@[1] == 'A');
    reveal_strlit("-A");
    assert("-A"@.len() == 2 && "-A"@[0] == '-' && "-A"@[1] == 'A');
    reveal_strlit("A-1");
    assert("A-1"@.len() == 3 && "A-1"@[0] == 'A' && "A-1"@[1] == '-' && "A-1"@[2] == '1');
    reveal_strlit("A+1");
    assert("A+1"@.len() == 3 && "A+1"@[0] == 'A' && "A+1"@[1] == '+' && "A+1"@[2] == '1');
    reveal_strlit("1+A");
    assert("1+A"@.len() == 3 && "1+A"@[0] == '1' && "1+A"@[1] == '+' && "1+A"@[2] == 'A');
    reveal_strlit("M");
    assert("M"@.len() == 1 && "M"@[0] == 'M');
    reveal_strlit("!M");
    assert("!M"@.len() == 2 && "!M"@[0] == '!' && "!M"@[1] == 'M');
    reveal_strlit("-M");
    assert("-M"@.len() == 2 && "-M"@[0] == '-' && "-M"@[1] == 'M');
    reveal_strlit("M-1");
    assert("M-1"@.len() == 3 && "M-1"@[0] == 'M' && "M-1"@[1] == '-' && "M-1"@[2] == '1');
    reveal_strlit("M+1");
    assert("M+1"@.len() == 3 && "M+1"@[0] == 'M' && "M+1"@[1] == '+' && "M+1"@[2] == '1');
    reveal_strlit("1+M");
    assert("1+M"@.len() == 3 && "1+M"@[0] == '1' && "1+M"@[1] == '+' && "1+M"@[2] == 'M');
    reveal_strlit("D+A");
    assert("D+A"@.len() == 3 && "D+A"@[0] == 'D' && "D+A"@[1] == '+' && "D+A"@[2] == 'A');
    reveal_strlit("A+D");
    assert("A+D"@.len() == 3 && "A+D"@[0] == 'A' && "A+D"@[1] == '+' && "A+D"@[2] == 'D');
    reveal_strlit("D-A");
    assert("D-A"@.len() == 3 && "D-A"@[0] == 'D' && "D-A"@[1] == '-' && "D-A"@[2] == 'A');
    reveal_strlit("A-D");
    assert("A-D"@.len() == 3 && "A-D"@[0] == 'A' && "A-D"@[1] == '-' && "A-D"@[2] == 'D');
    reveal_strlit("D&A");
    assert("D&A"@.len() == 3 && "D&A"@[0] == 'D' && "D&A"@[1] == '&' && "D&A"@[2] == 'A');
    reveal_strlit("A&D");
    assert("A&D"@.len() == 3 && "A&D"@[0] == 'A' && "A&D"@[1] == '&' && "A&D"@[2] == 'D');
    reveal_strlit("D|A");
    assert("D|A"@.len() == 3 && "D|A"@[0] == 'D' && "D|A"@[1] == '|' && "D|A"@[2] == 'A');
    reveal_strlit("A|D");
    assert("A|D"@.len() == 3 && "A|D"@[0] == 'A' && "A|D"@[1] == '|' && "A|D"@[2] == 'D');
    reveal_strlit("D+M");
    assert("D+M"@.len() == 3 && "D+M"@[0] == 'D' && "D+M"@[1] == '+' && "D+M"@[2] == 'M');
    reveal_strlit("M+D");
    assert("M+D"@.len() == 3 && "M+D"@[0] == 'M' && "M+D"@[1] == '+' && "M+D"@[2] == 'D');
    reveal_strlit("D-M");
    assert("D-M"@.len() == 3 && "D-M"@[0] == 'D' && "D-M"@[1] == '-' && "D-M"@[2] == 'M');
    reveal_strlit("M-D");
    assert("M-D"@.len() == 3 && "M-D"@[0] == 'M' && "M-D"@[1] == '-' && "M-D"@[2] == 'D');
    reveal_strlit("D&M");
    assert("D&M"@.len() == 3 && "D&M"@[0] == 'D' && "D&M"@[1] == '&' && "D&M"@[2] == 'M');
    reveal_strlit("M&D");
    assert("M&D"@.len() == 3 && "M&D"@[0] == 'M' && "M&D"@[1] == '&' && "M&D"@[2] == 'D');
    reveal_strlit("D|M");
    assert("D|M"@.len() == 3 && "D|M"@[0] == 'D' && "D|M"@[1] == '|' && "D|M"@[2] == 'M');
    reveal_strlit("M|D");
    assert("M|D"@.len() == 3 && "M|D"@[0] == 'M' && "M|D"@[1] == '|' && "M|D"@[2] == 'D');
    reveal_strlit("0000000");
    assert("0000000"@.len() == 7 && "0000000"@[0] == '0' && "0000000"@[1] == '0' && "0000000"@[2] == '0' && "0000000"@[3] == '0' && "0000000"@[4] == '0' && "0000000"@[5] == '0' && "0000000"@[6] == '0');
    reveal_strlit("0000010");
    assert("0000010"@.len() == 7 && "0000010"@[0] == '0' && "0000010"@[1] == '0' && "0000010"@[2] == '0' && "0000010"@[3] == '0' && "0000010"@[4] == '0' && "0000010"@[5] == '1' && "0000010"@[6] == '0');
    reveal_strlit("0000111");
    assert("0000111"@.len() == 7 && "0000111"@[0] == '0' && "0000111"@[1] == '0' && "0000111"@[2] == '0' && "0000111"@[3] == '0' && "0000111"@[4] == '1' && "0000111"@[5] == '1' && "0000111"@[6] == '1');
    reveal_strlit("0001100");
    assert("0001100"@.len() == 7 && "0001100"@[0] == '0' && "0001100"@[1] == '0' && "0001100"@[2] == '0' && "0001100"@[3] == '1' && "0001100"@[4] == '1' && "0001100"@[5] == '0' && "0001100"@[6] == '0');
    reveal_strlit("0001101");
    assert("0001101"@.len() == 7 && "0001101"@[0] == '0' && "0001101"@[1] == '0' && "0001101"@[2] == '0' && "0001101"@[3] == '1' && "0001101"@[4] == '1' && "0001101"@[5] == '0' && "0001101"@[6] == '1');
    reveal_strlit("0001110");
    assert("0001110"@.len() == 7 && "0001110"@[0] == '0' && "0001110"@[1] == '0' && "0001110"@[2] == '0' && "0001110"@[3] == '1' && "0001110"@[4] == '1' && "0001110"@[5] == '1' && "0001110"@[6] == '0');
    reveal_strlit("0001111");
    assert("0001111"@.len() == 7 && "0001111"@[0] == '0' && "0001111"@[1] == '0' && "0001111"@[2] == '0' && "0001111"@[3] == '1' && "0001111"@[4] == '1' && "0001111"@[5] == '1' && "0001111"@[6] == '1');
    reveal_strlit("0010011");
    assert("0010011"@.len() == 7 && "0010011"@[0] == '0' && "0010011"@[1] == '0' && "0010011"@[2] == '1' && "0010011"@[3] == '0' && "0010011"@[4] == '0' && "0010011"@[5] == '1' && "0010011"@[6] == '1');
    reveal_strlit("0010101");
    assert("0010101"@.len() == 7 && "0010101"@[0] == '0' && "0010101"@[1] == '0' && "0010101"@[2] == '1' && "0010101"@[3] == '0' && "0010101"@[4] == '1' && "0010101"@[5] == '0' && "0010101"@[6] == '1');
    reveal_strlit("0011111");
    assert("0011111"@.len() == 7 && "0011111"@[0] == '0' && "0011111"@[1] == '0' && "0011111"@[2] == '1' && "0011111"@[3] == '1' && "0011111"@[4] == '1' && "0011111"@[5] == '1' && "0011111"@[6] == '1');
    reveal_strlit("0101010");
    assert("0101010"@.len() == 7 && "0101010"@[0] == '0' && "0101010"@[1] == '1' && "0101010"@[2] == '0' && "0101010"@[3] == '1' && "0101010"@[4] == '0' && "0101010"@[5] == '1' && "0101010"@[6] == '0');
    reveal_strlit("0110000");
    assert("0110000"@.len() == 7 && "0110000"@[0] == '0' && "0110000"@[1] == '1' && "0110000"@[2] == '1' && "0110000"@[3] == '0' && "0110000"@[4] == '0' && "0110000"@[5] == '0' && "0110000"@[6] == '0');
    reveal_strlit("0110001");
    assert("0110001"@.len() == 7 && "0110001"@[0] == '0' && "0110001"@[1] == '1' && "0110001"@[2] == '1' && "0110001"@[3] == '0' && "0110001"@[4] == '0' && "0110001"@[5] == '0' && "0110001"@[6] == '1');
    reveal_strlit("0110010");
    assert("0110010"@.len() == 7 && "0110010"@[0] == '0' && "0110010"@[1] == '1' && "0110010"@[2] == '1' && "0110010"@[3] == '0' && "0110010"@[4] == '0' && "0110010"@[5] == '1' && "0110010"@[6] == '0');
    reveal_strlit("0110011");
    assert("0110011"@.len() == 7 && "0110011"@[0] == '0' && "0110011"@[1] == '1' && "0110011"@[2] == '1' && "0110011"@[3] == '0' && "0110011"@[4] == '0' && "0110011"@[5] == '1' && "0110011"@[6] == '1');
    reveal_strlit("0110111");
    assert("0110111"@.len() == 7 && "0110111"@[0] == '0' && "0110111"@[1] == '1' && "0110111"@[2] == '1' && "0110111"@[3] == '0' && "0110111"@[4] == '1' && "0110111"@[5] == '1' && "0110111"@[6] == '1');
    reveal_strlit("0111010");
    assert("0111010"@.len() == 7 && "0111010"@[0] == '0' && "0111010"@[1] == '1' && "0111010"@[2] == '1' && "0111010"@[3] == '1' && "0111010"@[4] == '0' && "0111010"@[5] == '1' && "0111010"@[6] == '0');
    reveal_strlit("0111111");
    assert("0111111"@.len() == 7 && "0111111"@[0] == '0' && "0111111"@[1] == '1' && "0111111"@[2] == '1' && "0111111"@[3] == '1' && "0111111"@[4] == '1' && "0111111"@[5] == '1' && "0111111"@[6] == '1');
    reveal_strlit("1000000");
    assert("1000000"@.len() == 7 && "1000000"@[0] == '1' && "1000000"@[1] == '0' && "1000000"@[2] == '0' && "1000000"@[3] == '0' && "1000000"@[4] == '0' && "1000000"@[5] == '0' && "1000000"@[6] == '0');
    reveal_strlit("1000010");
    assert("1000010"@.len() == 7 && "1000010"@[0] == '1' && "1000010"@[1] == '0' && "1000010"@[2] == '0' && "1000010"@[3] == '0' && "1000010"@[4] == '0' && "1000010"@[5] == '1' && "1000010"@[6] == '0');
    reveal_strlit("1000111");
    assert("1000111"@.len() == 7 && "1000111"@[0] == '1' && "1000111"@[1] == '0' && "1000111"@[2] == '0' && "1000111"@[3] == '0' && "1000111"@[4] == '1' && "1000111"@[5] == '1' && "1000111"@[6] == '1');
    reveal_strlit("1010011");
    assert("1010011"@.len() == 7 && "1010011"@[0] == '1' && "1010011"@[1] == '0' && "1010011"@[2] == '1' && "1010011"@[3] == '0' && "1010011"@[4] == '0' && "1010011"@[5] == '1' && "1010011"@[6] == '1');
    reveal_strlit("1010101");
    assert("1010101"@.len() == 7 && "1010101"@[0] == '1' && "1010101"@[1] == '0' && "1010101"@[2] == '1' && "1010101"@[3] == '0' && "1010101"@[4] == '1' && "1010101"@[5] == '0' && "1010101"@[6] == '1');
    reveal_strlit("1110000");
    assert("1110000"@.len() == 7 && "1110000"@[0] == '1' && "1110000"@[1] == '1' && "1110000"@[2] == '1' && "1110000"@[3] == '0' && "1110000"@[4] == '0' && "1110000"@[5] == '0' && "1110000"@[6] == '0');
    reveal_strlit("1110001");
    assert("1110001"@.len() == 7 && "1110001"@[0] == '1' && "1110001"@[1] == '1' && "1110001"@[2] == '1' && "1110001"@[3] == '0' && "1110001"@[4] == '0' && "1110001"@[5] == '0' && "1110001"@[6] == '1');
    reveal_strlit("1110010");
    assert("1110010"@.len() == 7 && "1110010"@[0] == '1' && "1110010"@[1] == '1' && "1110010"@[2] == '1' && "1110010"@[3] == '0' && "1110010"@[4] == '0' && "1110010"@[5] == '1' && "1110010"@[6] == '0');
    reveal_strlit("1110011");
    assert("1110011"@.len() == 7 && "1110011"@[0] == '1' && "1110011"@[1] == '1' && "1110011"@[2] == '1' && "1110011"@[3] == '0' && "1110011"@[4] == '0' && "1110011"@[5] == '1' && "1110011"@[6] == '1');
    reveal_strlit("1110111");
    assert("1110111"@.len() == 7 && "1110111"@[0] == '1' && "1110111"@[1] == '1' && "1110111"@[2] == '1' && "1110111"@[3] == '0' && "1110111"@[4] == '1' && "1110111"@[5] == '1' && "1110111"@[6] == '1');
    if m == "M"@ {
        assert(m_to_a(m) =~= "A"@);
        assert(comp_bits(m_to_a(m)) == Some("0110000"@));
        assert("1110000"@.subrange(1, 7) =~= "0110000"@.subrange(1, 7));
    } else if m == "!M"@ {
        assert(m_to_a(m) =~= "!A"@);
        assert(comp_bits(m_to_a(m)) == Some("0110001"@));
        assert("1110001"@.subrange(1, 7) =~= "0110001"@.subrange(1, 7));
    } else if m == "-M"@ {
        assert(m_to_a(m) =~= "-A"@);
        assert(comp_bits(m_to_a(m)) == Some("0110011"@));
        assert("1110011"@.subrange(1, 7) =~= "0110011"@.subrange(1, 7));
    } else if m == "M-1"@ {
        assert(m_to_a(m) =~= "A-1"@);
        assert(comp_bits(m_to_a(m)) == Some("0110010"@));
        assert("1110010"@.subrange(1, 7) =~= "0110010"@.subrange(1, 7));
    } else if m == "M+1"@ {
        assert(m_to_a(m) =~= "A+1"@);
        assert(comp_bits(m_to_a(m)) == Some("0110111"@));
        assert("1110111"@.subrange(1, 7) =~= "0110111"@.subrange(1, 7));
    } else if m == "1+M"@ {
        assert(m_to_a(m) =~= "1+A"@);
        assert(comp_bits(m_to_a(m)) == Some("0110111"@));
        assert("1110111"@.subrange(1, 7) =~= "0110111"@.subrange(1, 7));
    } else if m == "D+M"@ {
        assert(m_to_a(m) =~= "D+A"@);
        assert(comp_bits(m_to_a(m)) == Some("0000010"@));
        assert("1000010"@.subrange(1, 7) =~= "0000010"@.subrange(1, 7));
    } else if m == "M+D"@ {
        assert(m_to_a(m) =~= "A+D"@);
        assert(comp_bits(m_to_a(m)) == Some("0000010"@));
        assert("1000010"@.subrange(1, 7) =~= "0000010"@.subrange(1, 7));
    } else if m == "D-M"@ {
        assert(m_to_a(m) =~= "D-A"@);
        assert(comp_bits(m_to_a(m)) == Some("0010011"@));
        assert("1010011"@.subrange(1, 7) =~= "0010011"@.subrange(1, 7));
    } else if m == "M-D"@ {
        assert(m_to_a(m) =~= "A-D"@);
        assert(comp_bits(m_to_a(m)) == Some("0000111"@));
        assert("1000111"@.subrange(1, 7) =~= "0000111"@.subrange(1, 7));
    } else if m == "D&M"@ {
        assert(m_to_a(m) =~= "D&A"@);
        assert(comp_bits(m_to_a(m)) == Some("0000000"@));
        assert("1000000"@.subrange(1, 7) =~= "0000000"@.subrange(1, 7));
    } else if m == "M&D"@ {
        assert(m_to_a(m) =~= "A&D"@);
        assert(comp_bits(m_to_a(m)) == Some("0000000"@));
        assert("1000000"@.subrange(1, 7) =~= "0000000"@.subrange(1, 7));
    } else if m == "D|M"@ {
        assert(m_to_a(m) =~= "D|A"@);
        assert(comp_bits(m_to_a(m)) == Some("0010101"@));
        assert("1010101"@.subrange(1, 7) =~= "0010101"@.subrange(1, 7));
    } else if m == "M|D"@ {
        assert(m_to_a(m) =~= "A|D"@);
        assert(comp_bits(m_to_a(m)) == Some("0010101"@));
        assert("1010101"@.subrange(1, 7) =~= "0010101"@.subrange(1, 7));
    } else if comp_bits(m) is Some {
        assert(!m.contains('M')) by {
            lemma_comp_a_bit(m);
            assert(comp_bits(m).unwrap()[0] == '0');
        }
        assert(m_to_a(m) =~= m);
    }
}

/// The Hack ALU: the `zx nx zy ny f no` control bits applied to the
/// operands `x` (D) and `y` (A or M).
pub open spec fn alu(zx: bool, nx: bool, zy: bool, ny: bool, f: bool, no: bool, x: u16, y: u16) -> u16 {
    let x1: u16 = if zx { 0u16 } else { x };
    let x2: u16 = if nx { !x1 } else { x1 };
    let y1: u16 = if zy { 0u16 } else { y };
    let y2: u16 = if ny { !y1 } else { y1 };
    let o: u16 = if f { (x2 + y2) as u16 } else { x2 & y2 };
    if no { !o } else { o }
}

/// What the ALU computes for seven comp bits `a c1..c6`, from D, A and M:
/// the `a` bit chooses M over A as the second operand.
pub open spec fn bits_alu(b: Seq<char>, d: u16, a: u16, m: u16) -> u16 {
    alu(b[1] == '1', b[2] == '1', b[3] == '1', b[4] == '1', b[5] == '1', b[6] == '1', d, if b[0] == '1' { m } else { a })
}

/// The value a comp operand names: a constant 0 or 1, or a register.
pub open spec fn operand(c: char, d: u16, a: u16, m: u16) -> Option<u16> {
    if c == '0' {
        Some(0u16)
    } else if c == '1' {
        Some(1u16)
    } else if c == 'D' {
        Some(d)
    } else if c == 'A' {
        Some(a)
    } else if c == 'M' {
        Some(m)
    } else {
        None
    }
}

/// The value that a comp mnemonic names, read as an expression: an
/// operand, `!` or `-` of an operand, or two operands joined by `+`, `-`,
/// `&` or `|` (16-bit arithmetic).
pub open spec fn mnemonic_value(s: Seq<char>, d: u16, a: u16, m: u16) -> Option<u16> {
    if s.len() == 1 {
        operand(s[0], d, a, m)
    } else if s.len() == 2 {
        match operand(s[1], d, a, m) {
            Some(v) => if s[0] == '!' {
                Some(!v)
            } else if s[0] == '-' {
                Some((0 - v) as u16)
            } else {
                None
            },
            None => None,
        }
    } else if s.len() == 3 {
        match (operand(s[0], d, a, m), operand(s[2], d, a, m)) {
            (Some(u), Some(v)) => if s[1] == '+' {
                Some((u + v) as u16)
            } else if s[1] == '-' {
                Some((u - v) as u16)
            } else if s[1] == '&' {
                Some(u & v)
            } else if s[1] == '|' {
                Some(u | v)
            } else {
                None
            },
            _ => None,
        }
    } else {
        None
    }
}

proof fn lemma_alu_identities(x: u16, y: u16)
    by (bit_vector)
    ensures
        alu(true, false, true, false, true, false, x, y) == 0u16,
        alu(true, true, true, true, true, true, x, y) == 1u16,
        alu(true, true, true, false, true, false, x, y) == (0 - 1u16) as u16,
        alu(false, false, true, true, false, false, x, y) == x,
        alu(true, true, false, false, false, false, x, y) == y,
        alu(false, false, true, true, false, true, x, y) == !x,
        alu(true, true, false, false, false, true, x, y) == !y,
        alu(false, false, true, true, true, true, x, y) == (0 - x) as u16,
        alu(true, true, false, false, true, true, x, y) == (0 - y) as u16,
        alu(false, true, true, true, true, true, x, y) == (x + 1) as u16,
        alu(true, true, false, true, true, true, x, y) == (y + 1) as u16,
        alu(false, false, true, true, true, false, x, y) == (x - 1) as u16,
        alu(true, true, false, false, true, false, x, y) == (y - 1) as u16,
        alu(false, false, false, false, true, false, x, y) == (x + y) as u16,
        alu(false, true, false, false, true, true, x, y) == (x - y) as u16,
        alu(false, false, false, true, true, true, x, y) == (y - x) as u16,
        alu(false, false, false, false, false, false, x, y) == x & y,
        alu(false, true, false, true, false, true, x, y) == x | y,
        x & y == y & x,
        x | y == y | x,
{
}

/// Every entry of the comp table makes the ALU compute what its mnemonic
/// names: run through the ALU, the bits of `D-1` give D minus one, those
/// of `D|M` give D or M, and so on, for all values of D, A and M.
#[verifier::rlimit(80)]
pub proof fn lemma_comp_computes(m: Seq<char>, d: u16, a: u16, mm: u16)
    ensures
        comp_bits(m) matches Some(b) ==> mnemonic_value(m, d, a, mm) == Some(bits_alu(b, d, a, mm)),
{
    lemma_alu_identities(d, a);
    lemma_alu_identities(d, mm);
    reveal_strlit("0");
    assert("0"@.len() == 1 && "0"@[0] == '0');
    reveal_strlit("1");
    assert("1"@.len() == 1 && "1"@[0] == '1');
    reveal_strlit("-1");
    assert("-1"@.len() == 2 && "-1"@[0] == '-' && "-1"@[1] == '1');
    reveal_strlit("D");
    assert("D"@.len() == 1 && "D"@[0] == 'D');
    reveal_strlit("!D");
    assert("!D"@.len() == 2 && "!D"@[0] == '!' && "!D"@[1] == 'D');
    reveal_strlit("-D");
    assert("-D"@.len() == 2 && "-D"@[0] == '-' && "-D"@[1] == 'D');
    reveal_strlit("D-1");
    assert("D-1"@.len() == 3 && "D-1"@[0] == 'D' && "D-1"@[1] == '-' && "D-1"@[2] == '1');
    reveal_strlit("D+1");
    assert("D+1"@.len() == 3 && "D+1"@[0] == 'D' && "D+1"@[1] == '+' && "D+1"@[2] == '1');
    reveal_strlit("1+D");
    assert("1+D"@.len() == 3 && "1+D"@[0] == '1' && "1+D"@[1] == '+' && "1+D"@[2] == 'D');
    reveal_strlit("A");
    assert("A"@.len() == 1 && "A"@[0] == 'A');
    reveal_strlit("!A");
    assert("!A"@.len() == 2 && "!A"@[0] == '!' && "!A"@[1] == 'A');
    reveal_strlit("-A");
    assert("-A"@.len() == 2 && "-A"@[0] == '-' && "-A"@[1] == 'A');
    reveal_strlit("A-1");
    assert("A-1"@.len() == 3 && "A-1"@[0] == 'A' && "A-1"@[1] == '-' && "A-1"@[2] == '1');
    reveal_strlit("A+1");
    assert("A+1"@.len() == 3 && "A+1"@[0] == 'A' && "A+1"@[1] == '+' && "A+1"@[2] == '1');
    reveal_strlit("1+A");
    assert("1+A"@.len() == 3 && "1+A"@[0] == '1' && "1+A"@[1] == '+' && "1+A"@[2] == 'A');
    reveal_strlit("M");
    assert("M"@.len() == 1 && "M"@[0] == 'M');
    reveal_strlit("!M");
    assert("!M"@.len() == 2 && "!M"@[0] == '!' && "!M"@[1] == 'M');
    reveal_strlit("-M");
    assert("-M"@.len() == 2 && "-M"@[0] == '-' && "-M"@[1] == 'M');
    reveal_strlit("M-1");
    assert("M-1"@.len() == 3 && "M-1"@[0] == 'M' && "M-1"@[1] == '-' && "M-1"@[2] == '1');
    reveal_strlit("M+1");
    assert("M+1"@.len() == 3 && "M+1"@[0] == 'M' && "M+1"@[1] == '+' && "M+1"@[2] == '1');
    reveal_strlit("1+M");
    assert("1+M"@.len() == 3 && "1+M"@[0] == '1' && "1+M"@[1] == '+' && "1+M"@[2] == 'M');
    reveal_strlit("D+A");
    assert("D+A"@.len() == 3 && "D+A"@[0] == 'D' && "D+A"@[1] == '+' && "D+A"@[2] == 'A');
    reveal_strlit("A+D");
    assert("A+D"@.len() == 3 && "A+D"@[0] == 'A' && "A+D"@[1] == '+' && "A+D"@[2] == 'D');
    reveal_strlit("D-A");
    assert("D-A"@.len() == 3 && "D-A"@[0] == 'D' && "D-A"@[1] == '-' && "D-A"@[2] == 'A');
    reveal_strlit("A-D");
    assert("A-D"@.len() == 3 && "A-D"@[0] == 'A' && "A-D"@[1] == '-' && "A-D"@[2] == 'D');
    reveal_strlit("D&A");
    assert("D&A"@.len() == 3 && "D&A"@[0] == 'D' && "D&A"@[1] == '&' && "D&A"@[2] == 'A');
    reveal_strlit("A&D");
    assert("A&D"@.len() == 3 && "A&D"@[0] == 'A' && "A&D"@[1] == '&' && "A&D"@[2] == 'D');
    reveal_strlit("D|A");
    assert("D|A"@.len() == 3 && "D|A"@[0] == 'D' && "D|A"@[1] == '|' && "D|A"@[2] == 'A');
    reveal_strlit("A|D");
    assert("A|D"@.len() == 3 && "A|D"@[0] == 'A' && "A|D"@[1] == '|' && "A|D"@[2] == 'D');
    reveal_strlit("D+M");
    assert("D+M"@.len() == 3 && "D+M"@[0] == 'D' && "D+M"@[1] == '+' && "D+M"@[2] == 'M');
    reveal_strlit("M+D");
    assert("M+D"@.len() == 3 && "M+D"@[0] == 'M' && "M+D"@[1] == '+' && "M+D"@[2] == 'D');
    reveal_strlit("D-M");
    assert("D-M"@.len() == 3 && "D-M"@[0] == 'D' && "D-M"@[1] == '-' && "D-M"@[2] == 'M');
    reveal_strlit("M-D");
    assert("M-D"@.len() == 3 && "M-D"@[0] == 'M' && "M-D"@[1] == '-' && "M-D"@[2] == 'D');
    reveal_strlit("D&M");
    assert("D&M"@.len() == 3 && "D&M"@[0] == 'D' && "D&M"@[1] == '&' && "D&M"@[2] == 'M');
    reveal_strlit("M&D");
    assert("M&D"@.len() == 3 && "M&D"@[0] == 'M' && "M&D"@[1] == '&' && "M&D"@[2] == 'D');
    reveal_strlit("D|M");
    assert("D|M"@.len() == 3 && "D|M"@[0] == 'D' && "D|M"@[1] == '|' && "D|M"@[2] == 'M');
    reveal_strlit("M|D");
    assert("M|D"@.len() == 3 && "M|D"@[0] == 'M' && "M|D"@[1] == '|' && "M|D"@[2] == 'D');
    reveal_strlit("0000000");
    assert("0000000"@.len() == 7 && "0000000"@[0] == '0' && "0000000"@[1] == '0' && "0000000"@[2] == '0' && "0000000"@[3] == '0' && "0000000"@[4] == '0' && "0000000"@[5] == '0' && "0000000"@[6] == '0');
    reveal_strlit("0000010");
    assert("0000010"@.len() == 7 && "0000010"@[0] == '0' && "0000010"@[1] == '0' && "0000010"@[2] == '0' && "0000010"@[3] == '0' && "0000010"@[4] == '0' && "0000010"@[5] == '1' && "0000010"@[6] == '0');
    reveal_strlit("0000111");
    assert("0000111"@.len() == 7 && "0000111"@[0] == '0' && "0000111"@[1] == '0' && "0000111"@[2] == '0' && "0000111"@[3] == '0' && "0000111"@[4] == '1' && "0000111"@[5] == '1' && "0000111"@[6] == '1');
    reveal_strlit("0001100");
    assert("0001100"@.len() == 7 && "0001100"@[0] == '0' && "0001100"@[1] == '0' && "0001100"@[2] == '0' && "0001100"@[3] == '1' && "0001100"@[4] == '1' && "0001100"@[5] == '0' && "0001100"@[6] == '0');
    reveal_strlit("0001101");
    assert("0001101"@.len() == 7 && "0001101"@[0] == '0' && "0001101"@[1] == '0' && "0001101"@[2] == '0' && "0001101"@[3] == '1' && "0001101"@[4] == '1' && "0001101"@[5] == '0' && "0001101"@[6] == '1');
    reveal_strlit("0001110");
    assert("0001110"@.len() == 7 && "0001110"@[0] == '0' && "0001110"@[1] == '0' && "0001110"@[2] == '0' && "0001110"@[3] == '1' && "0001110"@[4] == '1' && "0001110"@[5] == '1' && "0001110"@[6] == '0');
    reveal_strlit("0001111");
    assert("0001111"@.len() == 7 && "0001111"@[0] == '0' && "0001111"@[1] == '0' && "0001111"@[2] == '0' && "0001111"@[3] == '1' && "0001111"@[4] == '1' && "0001111"@[5] == '1' && "0001111"@[6] == '1');
    reveal_strlit("0010011");
    assert("0010011"@.len() == 7 && "0010011"@[0] == '0' && "0010011"@[1] == '0' && "0010011"@[2] == '1' && "0010011"@[3] == '0' && "0010011"@[4] == '0' && "0010011"@[5] == '1' && "0010011"@[6] == '1');
    reveal_strlit("0010101");
    assert("0010101"@.len() == 7 && "0010101"@[0] == '0' && "0010101"@[1] == '0' && "0010101"@[2] == '1' && "0010101"@[3] == '0' && "0010101"@[4] == '1' && "0010101"@[5] == '0' && "0010101"@[6] == '1');
    reveal_strlit("0011111");
    assert("0011111"@.len() == 7 && "0011111"@[0] == '0' && "0011111"@[1] == '0' && "0011111"@[2] == '1' && "0011111"@[3] == '1' && "0011111"@[4] == '1' && "0011111"@[5] == '1' && "0011111"@[6] == '1');
    reveal_strlit("0101010");
    assert("0101010"@.len() == 7 && "0101010"@[0] == '0' && "0101010"@[1] == '1' && "0101010"@[2] == '0' && "0101010"@[3] == '1' && "0101010"@[4] == '0' && "0101010"@[5] == '1' && "0101010"@[6] == '0');
    reveal_strlit("0110000");
    assert("0110000"@.len() == 7 && "0110000"@[0] == '0' && "0110000"@[1] == '1' && "0110000"@[2] == '1' && "0110000"@[3] == '0' && "0110000"@[4] == '0' && "0110000"@[5] == '0' && "0110000"@[6] == '0');
    reveal_strlit("0110001");
    assert("0110001"@.len() == 7 && "0110001"@[0] == '0' && "0110001"@[1] == '1' && "0110001"@[2] == '1' && "0110001"@[3] == '0' && "0110001"@[4] == '0' && "0110001"@[5] == '0' && "0110001"@[6] == '1');
    reveal_strlit("0110010");
    assert("0110010"@.len() == 7 && "0110010"@[0] == '0' && "0110010"@[1] == '1' && "0110010"@[2] == '1' && "0110010"@[3] == '0' && "0110010"@[4] == '0' && "0110010"@[5] == '1' && "0110010"@[6] == '0');
    reveal_strlit("0110011");
    assert("0110011"@.len() == 7 && "0110011"@[0] == '0' && "0110011"@[1] == '1' && "0110011"@[2] == '1' && "0110011"@[3] == '0' && "0110011"@[4] == '0' && "0110011"@[5] == '1' && "0110011"@[6] == '1');
    reveal_strlit("0110111");
    assert("0110111"@.len() == 7 && "0110111"@[0] == '0' && "0110111"@[1] == '1' && "0110111"@[2] == '1' && "0110111"@[3] == '0' && "0110111"@[4] == '1' && "0110111"@[5] == '1' && "0110111"@[6] == '1');
    reveal_strlit("0111010");
    assert("0111010"@.len() == 7 && "0111010"@[0] == '0' && "0111010"@[1] == '1' && "0111010"@[2] == '1' && "0111010"@[3] == '1' && "0111010"@[4] == '0' && "0111010"@[5] == '1' && "0111010"@[6] == '0');
    reveal_strlit("0111111");
    assert("0111111"@.len() == 7 && "0111111"@[0] == '0' && "0111111"@[1] == '1' && "0111111"@[2] == '1' && "0111111"@[3] == '1' && "0111111"@[4] == '1' && "0111111"@[5] == '1' && "0111111"@[6] == '1');
    reveal_strlit("1000000");
    assert("1000000"@.len() == 7 && "1000000"@[0] == '1' && "1000000"@[1] == '0' && "1000000"@[2] == '0' && "1000000"@[3] == '0' && "1000000"@[4] == '0' && "1000000"@[5] == '0' && "1000000"@[6] == '0');
    reveal_strlit("1000010");
    assert("1000010"@.len() == 7 && "1000010"@[0] == '1' && "1000010"@[1] == '0' && "1000010"@[2] == '0' && "1000010"@[3] == '0' && "1000010"@[4] == '0' && "1000010"@[5] == '1' && "1000010"@[6] == '0');
    reveal_strlit("1000111");
    assert("1000111"@.len() == 7 && "1000111"@[0] == '1' && "1000111"@[1] == '0' && "1000111"@[2] == '0' && "1000111"@[3] == '0' && "1000111"@[4] == '1' && "1000111"@[5] == '1' && "1000111"@[6] == '1');
    reveal_strlit("1010011");
    assert("1010011"@.len() == 7 && "1010011"@[0] == '1' && "1010011"@[1] == '0' && "1010011"@[2] == '1' && "1010011"@[3] == '0' && "1010011"@[4] == '0' && "1010011"@[5] == '1' && "1010011"@[6] == '1');
    reveal_strlit("1010101");
    assert("1010101"@.len() == 7 && "1010101"@[0] == '1' && "1010101"@[1] == '0' && "1010101"@[2] == '1' && "1010101"@[3] == '0' && "1010101"@[4] == '1' && "1010101"@[5] == '0' && "1010101"@[6] == '1');
    reveal_strlit("1110000");
    assert("1110000"@.len() == 7 && "1110000"@[0] == '1' && "1110000"@[1] == '1' && "1110000"@[2] == '1' && "1110000"@[3] == '0' && "1110000"@[4] == '0' && "1110000"@[5] == '0' && "1110000"@[6] == '0');
    reveal_strlit("1110001");
    assert("1110001"@.len() == 7 && "1110001"@[0] == '1' && "1110001"@[1] == '1' && "1110001"@[2] == '1' && "1110001"@[3] == '0' && "1110001"@[4] == '0' && "1110001"@[5] == '0' && "1110001"@[6] == '1');
    reveal_strlit("1110010");
    assert("1110010"@.len() == 7 && "1110010"@[0] == '1' && "1110010"@[1] == '1' && "1110010"@[2] == '1' && "1110010"@[3] == '0' && "1110010"@[4] == '0' && "1110010"@[5] == '1' && "1110010"@[6] == '0');
    reveal_strlit("1110011");
    assert("1110011"@.len() == 7 && "1110011"@[0] == '1' && "1110011"@[1] == '1' && "1110011"@[2] == '1' && "1110011"@[3] == '0' && "1110011"@[4] == '0' && "1110011"@[5] == '1' && "1110011"@[6] == '1');
    reveal_strlit("1110111");
    assert("1110111"@.len() == 7 && "1110111"@[0] == '1' && "1110111"@[1] == '1' && "1110111"@[2] == '1' && "1110111"@[3] == '0' && "1110111"@[4] == '1' && "1110111"@[5] == '1' && "1110111"@[6] == '1');
    if m == "0"@ {
        assert(comp_bits(m) == Some("0101010"@));
        assert(mnemonic_value(m, d, a, mm) == Some(0u16));
        assert(bits_alu("0101010"@, d, a, mm) == alu(true, false, true, false, true, false, d, a));
    } else if m == "1"@ {
        assert(comp_bits(m) == Some("0111111"@));
        assert(mnemonic_value(m, d, a, mm) == Some(1u16));
        assert(bits_alu("0111111"@, d, a, mm) == alu(true, true, true, true, true, true, d, a));
    } else if m == "-1"@ {
        assert(comp_bits(m) == Some("0111010"@));
        assert(mnemonic_value(m, d, a, mm) == Some((0 - 1u16) as u16));
        assert(bits_alu("0111010"@, d, a, mm) == alu(true, true, true, false, true, false, d, a));
    } else if m == "D"@ {
        assert(comp_bits(m) == Some("0001100"@));
        assert(mnemonic_value(m, d, a, mm) == Some(d));
        assert(bits_alu("0001100"@, d, a, mm) == alu(false, false, true, true, false, false, d, a));
    } else if m == "!D"@ {
        assert(comp_bits(m) == Some("0001101"@));
        assert(mnemonic_value(m, d, a, mm) == Some(!d));
        assert(bits_alu("0001101"@, d, a, mm) == alu(false, false, true, true, false, true, d, a));
    } else if m == "-D"@ {
        assert(comp_bits(m) == Some("0001111"@));
        assert(mnemonic_value(m, d, a, mm) == Some((0 - d) as u16));
        assert(bits_alu("0001111"@, d, a, mm) == alu(false, false, true, true, true, true, d, a));
    } else if m == "D-1"@ {
        assert(comp_bits(m) == Some("0001110"@));
        assert(mnemonic_value(m, d, a, mm) == Some((d - 1u16) as u16));
        assert(bits_alu("0001110"@, d, a, mm) == alu(false, false, true, true, true, false, d, a));
    } else if m == "D+1"@ {
        assert(comp_bits(m) == Some("0011111"@));
        assert(mnemonic_value(m, d, a, mm) == Some((d + 1u16) as u16));
        assert(bits_alu("0011111"@, d, a, mm) == alu(false, true, true, true, true, true, d, a));
    } else if m == "1+D"@ {
        assert(comp_bits(m) == Some("0011111"@));
        assert(mnemonic_value(m, d, a, mm) == Some((1u16 + d) as u16));
        assert(bits_alu("0011111"@, d, a, mm) == alu(false, true, true, true, true, true, d, a));
    } else if m == "A"@ {
        assert(comp_bits(m) == Some("0110000"@));
        assert(mnemonic_value(m, d, a, mm) == Some(a));
        assert(bits_alu("0110000"@, d, a, mm) == alu(true, true, false, false, false, false, d, a));
    } else if m == "!A"@ {
        assert(comp_bits(m) == Some("0110001"@));
        assert(mnemonic_value(m, d, a, mm) == Some(!a));
        assert(bits_alu("0110001"@, d, a, mm) == alu(true, true, false, false, false, true, d, a));
    } else if m == "-A"@ {
        assert(comp_bits(m) == Some("0110011"@));
        assert(mnemonic_value(m, d, a, mm) == Some((0 - a) as u16));
        assert(bits_alu("0110011"@, d, a, mm) == alu(true, true, false, false, true, true, d, a));
    } else if m == "A-1"@ {
        assert(comp_bits(m) == Some("0110010"@));
        assert(mnemonic_value(m, d, a, mm) == Some((a - 1u16) as u16));
        assert(bits_alu("0110010"@, d, a, mm) == alu(true, true, false, false, true, false, d, a));
    } else if m == "A+1"@ {
        assert(comp_bits(m) == Some("0110111"@));
        assert(mnemonic_value(m, d, a, mm) == Some((a + 1u16) as u16));
        assert(bits_alu("0110111"@, d, a, mm) == alu(true, true, false, true, true, true, d, a));
    } else if m == "1+A"@ {
        assert(comp_bits(m) == Some("0110111"@));
        assert(mnemonic_value(m, d, a, mm) == Some((1u16 + a) as u16));
        assert(bits_alu("0110111"@, d, a, mm) == alu(true, true, false, true, true, true, d, a));
    } else if m == "M"@ {
        assert(comp_bits(m) == Some("1110000"@));
        assert(mnemonic_value(m, d, a, mm) == Some(mm));
        assert(bits_alu("1110000"@, d, a, mm) == alu(true, true, false, false, false, false, d, mm));
    } else if m == "!M"@ {
        assert(comp_bits(m) == Some("1110001"@));
        assert(mnemonic_value(m, d, a, mm) == Some(!mm));
        assert(bits_alu("1110001"@, d, a, mm) == alu(true, true, false, false, false, true, d, mm));
    } else if m == "-M"@ {
        assert(comp_bits(m) == Some("1110011"@));
        assert(mnemonic_value(m, d, a, mm) == Some((0 - mm) as u16));
        assert(bits_alu("1110011"@, d, a, mm) == alu(true, true, false, false, true, true, d, mm));
    } else if m == "M-1"@ {
        assert(comp_bits(m) == Some("1110010"@));
        assert(mnemonic_value(m, d, a, mm) == Some((mm - 1u16) as u16));
        assert(bits_alu("1110010"@, d, a, mm) == alu(true, true, false, false, true, false, d, mm));
    } else if m == "M+1"@ {
        assert(comp_bits(m) == Some("1110111"@));
        assert(mnemonic_value(m, d, a, mm) == Some((mm + 1u16) as u16));
        assert(bits_alu("1110111"@, d, a, mm) == alu(true, true, false, true, true, true, d, mm));
    } else if m == "1+M"@ {
        assert(comp_bits(m) == Some("1110111"@));
        assert(mnemonic_value(m, d, a, mm) == Some((1u16 + mm) as u16));
        assert(bits_alu("1110111"@, d, a, mm) == alu(true, true, false, true, true, true, d, mm));
    } else if m == "D+A"@ {
        assert(comp_bits(m) == Some("0000010"@));
        assert(mnemonic_value(m, d, a, mm) == Some((d + a) as u16));
        assert(bits_alu("0000010"@, d, a, mm) == alu(false, false, false, false, true, false, d, a));
    } else if m == "A+D"@ {
        assert(comp_bits(m) == Some("0000010"@));
        assert(mnemonic_value(m, d, a, mm) == Some((a + d) as u16));
        assert(bits_alu("0000010"@, d, a, mm) == alu(false, false, false, false, true, false, d, a));
    } else if m == "D-A"@ {
        assert(comp_bits(m) == Some("0010011"@));
        assert(mnemonic_value(m, d, a, mm) == Some((d - a) as u16));
        assert(bits_alu("0010011"@, d, a, mm) == alu(false, true, false, false, true, true, d, a));
    } else if m == "A-D"@ {
        assert(comp_bits(m) == Some("0000111"@));
        assert(mnemonic_value(m, d, a, mm) == Some((a - d) as u16));
        assert(bits_alu("0000111"@, d, a, mm) == alu(false, false, false, true, true, true, d, a));
    } else if m == "D&A"@ {
        assert(comp_bits(m) == Some("0000000"@));
        assert(mnemonic_value(m, d, a, mm) == Some(d & a));
        assert(bits_alu("0000000"@, d, a, mm) == alu(false, false, false, false, false, false, d, a));
    } else if m == "A&D"@ {
        assert(comp_bits(m) == Some("0000000"@));
        assert(mnemonic_value(m, d, a, mm) == Some(a & d));
        assert(bits_alu("0000000"@, d, a, mm) == alu(false, false, false, false, false, false, d, a));
    } else if m == "D|A"@ {
        assert(comp_bits(m) == Some("0010101"@));
        assert(mnemonic_value(m, d, a, mm) == Some(d | a));
        assert(bits_alu("0010101"@, d, a, mm) == alu(false, true, false, true, false, true, d, a));
    } else if m == "A|D"@ {
        assert(comp_bits(m) == Some("0010101"@));
        assert(mnemonic_value(m, d, a, mm) == Some(a | d));
        assert(bits_alu("0010101"@, d, a, mm) == alu(false, true, false, true, false, true, d, a));
    } else if m == "D+M"@ {
        assert(comp_bits(m) == Some("1000010"@));
        assert(mnemonic_value(m, d, a, mm) == Some((d + mm) as u16));
        assert(bits_alu("1000010"@, d, a, mm) == alu(false, false, false, false, true, false, d, mm));
    } else if m == "M+D"@ {
        assert(comp_bits(m) == Some("1000010"@));
        assert(mnemonic_value(m, d, a, mm) == Some((mm + d) as u16));
        assert(bits_alu("1000010"@, d, a, mm) == alu(false, false, false, false, true, false, d, mm));
    } else if m == "D-M"@ {
        assert(comp_bits(m) == Some("1010011"@));
        assert(mnemonic_value(m, d, a, mm) == Some((d - mm) as u16));
        assert(bits_alu("1010011"@, d, a, mm) == alu(false, true, false, false, true, true, d, mm));
    } else if m == "M-D"@ {
        assert(comp_bits(m) == Some("1000111"@));
        assert(mnemonic_value(m, d, a, mm) == Some((mm - d) as u16));
        assert(bits_alu("1000111"@, d, a, mm) == alu(false, false, false, true, true, true, d, mm));
    } else if m == "D&M"@ {
        assert(comp_bits(m) == Some("1000000"@));
        assert(mnemonic_value(m, d, a, mm) == Some(d & mm));
        assert(bits_alu("1000000"@, d, a, mm) == alu(false, false, false, false, false, false, d, mm));
    } else if m == "M&D"@ {
        assert(comp_bits(m) == Some("1000000"@));
        assert(mnemonic_value(m, d, a, mm) == Some(mm & d));
        assert(bits_alu("1000000"@, d, a, mm) == alu(false, false, false, false, false, false, d, mm));
    } else if m == "D|M"@ {
        assert(comp_bits(m) == Some("1010101"@));
        assert(mnemonic_value(m, d, a, mm) == Some(d | mm));
        assert(bits_alu("1010101"@, d, a, mm) == alu(false, true, false, true, false, true, d, mm));
    } else if m == "M|D"@ {
        assert(comp_bits(m) == Some("1010101"@));
        assert(mnemonic_value(m, d, a, mm) == Some(mm | d));
        assert(bits_alu("1010101"@, d, a, mm) == alu(false, true, false, true, false, true, d, mm));
    }
}

/// Whether the CPU jumps, for three jump bits `j1 j2 j3` and the ALU's
/// output `v` (as a signed value): `j1` jumps on a negative output, `j2` on
/// zero, `j3` on a positive one.
pub open spec fn bits_jump(b: Seq<char>, v: int) -> bool {
    (b[0] == '1' && v < 0) || (b[1] == '1' && v == 0) || (b[2] == '1' && v > 0)
}

/// The condition that a jump mnemonic names (no mnemonic: never jump).
pub open spec fn mnemonic_jump(m: Option<Seq<char>>, v: int) -> bool {
    match m {
        None => false,
        Some(s) => if s == "JGT"@ {
            v > 0
        } else if s == "JEQ"@ {
            v == 0
        } else if s == "JGE"@ {
            v >= 0
        } else if s == "JLT"@ {
            v < 0
        } else if s == "JNE"@ {
            v != 0
        } else if s == "JLE"@ {
            v <= 0
        } else {
            true
        },
    }
}

/// Every jump mnemonic's bits make the CPU jump exactly when the ALU's
/// output meets the condition the mnemonic names.
pub proof fn lemma_jump_computes(m: Option<Seq<char>>, v: int)
    ensures
        jump_bits(m) matches Some(b) ==> bits_jump(b, v) == mnemonic_jump(m, v),
{
    reveal_strlit("JGT");
    assert("JGT"@.len() == 3 && "JGT"@[0] == 'J' && "JGT"@[1] == 'G' && "JGT"@[2] == 'T');
    reveal_strlit("001");
    assert("001"@.len() == 3 && "001"@[0] == '0' && "001"@[1] == '0' && "001"@[2] == '1');
    reveal_strlit("JEQ");
    assert("JEQ"@.len() == 3 && "JEQ"@[0] == 'J' && "JEQ"@[1] == 'E' && "JEQ"@[2] == 'Q');
    reveal_strlit("010");
    assert("010"@.len() == 3 && "010"@[0] == '0' && "010"@[1] == '1' && "010"@[2] == '0');
    reveal_strlit("JGE");
    assert("JGE"@.len() == 3 && "JGE"@[0] == 'J' && "JGE"@[1] == 'G' && "JGE"@[2] == 'E');
    reveal_strlit("011");
    assert("011"@.len() == 3 && "011"@[0] == '0' && "011"@[1] == '1' && "011"@[2] == '1');
    reveal_strlit("JLT");
    assert("JLT"@.len() == 3 && "JLT"@[0] == 'J' && "JLT"@[1] == 'L' && "JLT"@[2] == 'T');
    reveal_strlit("100");
    assert("100"@.len() == 3 && "100"@[0] == '1' && "100"@[1] == '0' && "100"@[2] == '0');
    reveal_strlit("JNE");
    assert("JNE"@.len() == 3 && "JNE"@[0] == 'J' && "JNE"@[1] == 'N' && "JNE"@[2] == 'E');
    reveal_strlit("101");
    assert("101"@.len() == 3 && "101"@[0] == '1' && "101"@[1] == '0' && "101"@[2] == '1');
    reveal_strlit("JLE");
    assert("JLE"@.len() == 3 && "JLE"@[0] == 'J' && "JLE"@[1] == 'L' && "JLE"@[2] == 'E');
    reveal_strlit("110");
    assert("110"@.len() == 3 && "110"@[0] == '1' && "110"@[1] == '1' && "110"@[2] == '0');
    reveal_strlit("JMP");
    assert("JMP"@.len() == 3 && "JMP"@[0] == 'J' && "JMP"@[1] == 'M' && "JMP"@[2] == 'P');
    reveal_strlit("111");
    assert("111"@.len() == 3 && "111"@[0] == '1' && "111"@[1] == '1' && "111"@[2] == '1');
    reveal_strlit("000");
    assert("000"@.len() == 3 && "000"@[0] == '0' && "000"@[1] == '0' && "000"@[2] == '0');
}

/// The jump field is three binary digits.
pub proof fn lemma_jump_bits_shape(m: Option<Seq<char>>)
    ensures
        jump_bits(m) matches Some(b) ==> b.len() == 3 && is_bits(b),
{
    reveal_strlit("000");
    assert("000"@.len() == 3 && "000"@[0] == '0' && "000"@[1] == '0' && "000"@[2] == '0');
    reveal_strlit("001");
    assert("001"@.len() == 3 && "001"@[0] == '0' && "001"@[1] == '0' && "001"@[2] == '1');
    reveal_strlit("010");
    assert("010"@.len() == 3 && "010"@[0] == '0' && "010"@[1] == '1' && "010"@[2] == '0');
    reveal_strlit("011");
    assert("011"@.len() == 3 && "011"@[0] == '0' && "011"@[1] == '1' && "011"@[2] == '1');
    reveal_strlit("100");
    assert("100"@.len() == 3 && "100"@[0] == '1' && "100"@[1] == '0' && "100"@[2] == '0');
    reveal_strlit("101");
    assert("101"@.len() == 3 && "101"@[0] == '1' && "101"@[1] == '0' && "101"@[2] == '1');
    reveal_strlit("110");
    assert("110"@.len() == 3 && "110"@[0] == '1' && "110"@[1] == '1' && "110"@[2] == '0');
    reveal_strlit("111");
    assert("111"@.len() == 3 && "111"@[0] == '1' && "111"@[1] == '1' && "111"@[2] == '1');
}

/// Every C-instruction that the table accepts is written as sixteen binary
/// digits, the first three of them `1`.
pub proof fn lemma_c_word_is_sixteen_bits(d: Option<Seq<char>>, cm: Seq<char>, j: Option<Seq<char>>)
    requires
        comp_bits(cm) is Some,
        jump_bits(j) is Some,
    ensures
        ("111"@ + comp_bits(cm).unwrap() + dest_bits(d) + jump_bits(j).unwrap()).len() == 16,
        is_bits("111"@ + comp_bits(cm).unwrap() + dest_bits(d) + jump_bits(j).unwrap()),
        ("111"@ + comp_bits(cm).unwrap() + dest_bits(d) + jump_bits(j).unwrap()).take(3) == "111"@,
{
    reveal_strlit("111");
    lemma_comp_bits_shape(cm);
    lemma_jump_bits_shape(j);
    let w = "111"@ + comp_bits(cm).unwrap() + dest_bits(d) + jump_bits(j).unwrap();
    assert(w.take(3) =~= "111"@);
    assert forall|i: int| 0 <= i < w.len() implies #[trigger] w[i] == '0' || w[i] == '1' by {
        if i >= 13 {
            assert(w[i] == jump_bits(j).unwrap()[i - 13]);
        } else if i >= 10 {
            assert(w[i] == dest_bits(d)[i - 10]);
        } else if i >= 3 {
            assert(w[i] == comp_bits(cm).unwrap()[i - 3]);
        }
    }
}

/// The comp bits of an ALU mnemonic. Mnemonics outside the Hack table are
/// not accepted.
pub fn comp(mnemonic: &str) -> (r: &'static str)
    requires
        comp_bits(mnemonic@) is Some,
    ensures
        Some(r@) == comp_bits(mnemonic@),
{
    match comp_checked(mnemonic) {
        Some(b) => b,
        None => "",
    }
}

/// The comp bits of an ALU mnemonic, or `None` for a mnemonic outside the table.
pub fn comp_checked(mnemonic: &str) -> (r: Option<&'static str>)
    ensures
        match r {
            Some(b) => comp_bits(mnemonic@) == Some(b@),
            None => comp_bits(mnemonic@) is None,
        },
{
    if str_eq(mnemonic, "0") {
        Some("0101010")
    } else if str_eq(mnemonic, "1") {
        Some("0111111")
    } else if str_eq(mnemonic, "-1") {
        Some("0111010")
    } else if str_eq(mnemonic, "D") {
        Some("0001100")
    } else if str_eq(mnemonic, "!D") {
        Some("0001101")
    } else if str_eq(mnemonic, "-D") {
        Some("0001111")
    } else if str_eq(mnemonic, "D-1") {
        Some("0001110")
    } else if str_eq(mnemonic, "D+1") || str_eq(mnemonic, "1+D") {
        Some("0011111")
    } else if str_eq(mnemonic, "A") {
        Some("0110000")
    } else if str_eq(mnemonic, "!A") {
        Some("0110001")
    } else if str_eq(mnemonic, "-A") {
        Some("0110011")
    } else if str_eq(mnemonic, "A-1") {
        Some("0110010")
    } else if str_eq(mnemonic, "A+1") || str_eq(mnemonic, "1+A") {
        Some("0110111")
    } else if str_eq(mnemonic, "M") {
        Some("1110000")
    } else if str_eq(mnemonic, "!M") {
        Some("1110001")
    } else if str_eq(mnemonic, "-M") {
        Some("1110011")
    } else if str_eq(mnemonic, "M-1") {
        Some("1110010")
    } else if str_eq(mnemonic, "M+1") || str_eq(mnemonic, "1+M") {
        Some("1110111")
    } else if str_eq(mnemonic, "D+A") || str_eq(mnemonic, "A+D") {
        Some("0000010")
    } else if str_eq(mnemonic, "D-A") {
        Some("0010011")
    } else if str_eq(mnemonic, "A-D") {
        Some("0000111")
    } else if str_eq(mnemonic, "D&A") || str_eq(mnemonic, "A&D") {
        Some("0000000")
    } else if str_eq(mnemonic, "D|A") || str_eq(mnemonic, "A|D") {
        Some("0010101")
    } else if str_eq(mnemonic, "D+M") || str_eq(mnemonic, "M+D") {
        Some("1000010")
    } else if str_eq(mnemonic, "D-M") {
        Some("1010011")
    } else if str_eq(mnemonic, "M-D") {
        Some("1000111")
    } else if str_eq(mnemonic, "D&M") || str_eq(mnemonic, "M&D") {
        Some("1000000")
    } else if str_eq(mnemonic, "D|M") || str_eq(mnemonic, "M|D") {
        Some("1010101")
    } else {
        None
    }
}

/// The jump bits of an optional jump mnemonic. Unknown mnemonics are not
/// accepted.
pub fn jump(mnemonic: Option<&str>) -> (r: &'static str)
    requires
        jump_bits(match mnemonic { Some(s) => Some(s@), None => None }) is Some,
    ensures
        Some(r@) == jump_bits(match mnemonic { Some(s) => Some(s@), None => None }),
{
    match jump_checked(mnemonic) {
        Some(b) => b,
        None => "",
    }
}

/// The jump bits of an optional jump mnemonic, or `None` for an unknown one.
pub fn jump_checked(mnemonic: Option<&str>) -> (r: Option<&'static str>)
    ensures
        match r {
            Some(b) => jump_bits(match mnemonic { Some(s) => Some(s@), None => None }) == Some(b@),
            None => jump_bits(match mnemonic { Some(s) => Some(s@), None => None }) is None,
        },
{
    match mnemonic {
        None => Some("000"),
        Some(s) => if str_eq(s, "JGT") {
            Some("001")
        } else if str_eq(s, "JEQ") {
            Some("010")
        } else if str_eq(s, "JGE") {
            Some("011")
        } else if str_eq(s, "JLT") {
            Some("100")
        } else if str_eq(s, "JNE") {
            Some("101")
        } else if str_eq(s, "JLE") {
            Some("110")
        } else if str_eq(s, "JMP") {
            Some("111")
        } else {
            None
        },
    }
}

/// The destination bits of an optional destination field (any order of
/// `A`, `D`, `M`).
pub fn dest(line: Option<&str>) -> (r: String)
    ensures
        r@ == dest_bits(match line { Some(s) => Some(s@), None => None }),
{
    let mut r = String::new();
    match line {
        None => {
            push_char(&mut r, '0');
            push_char(&mut r, '0');
            push_char(&mut r, '0');
        },
        Some(s) => {
            let v = chars_of(s);
            push_char(&mut r, if contains_char(v.as_slice(), 'A') { '1' } else { '0' });
            push_char(&mut r, if contains_char(v.as_slice(), 'D') { '1' } else { '0' });
            push_char(&mut r, if contains_char(v.as_slice(), 'M') { '1' } else { '0' });
        },
    }
    assert(r@ =~= dest_bits(match line { Some(s) => Some(s@), None => None }));
    r
}

} // verus!
