//! The Jack tokenizer: white space and comments skipped, keywords,
//! symbols, identifiers, integer and string constants read, each token with
//! the line it starts on.
use vstd::prelude::*;
use crate::text::{
    chars_of, count_char, decimal, decimal_string, digits_value, is_digit, is_whitespace, is_ws,
    push_char, string_of_range,
};
use crate::jack::tokens::{
    keyword_of, symbol_of, Keyword, Operator, Symbol, Token, TokenModel, TokenType, TokenTypeModel,
};

verus! {

// ---------------------------------------------------------------------------
// Outside calls into std
// ---------------------------------------------------------------------------

/// Whether a character has the Unicode `Alphabetic` property (std's
/// `char::is_alphabetic`).
pub uninterp spec fn alphabetic(c: char) -> bool;

/// Whether a character is `Alphabetic` or `Numeric` (std's
/// `char::is_alphanumeric`).
pub uninterp spec fn alphanumeric(c: char) -> bool;

/// Whether `c` is an ASCII letter.
pub open spec fn ascii_letter(c: char) -> bool {
    ('a' <= c && c <= 'z') || ('A' <= c && c <= 'Z')
}

/// Calls std's `char::is_alphabetic`: the result is named `alphabetic`;
/// among ASCII characters exactly the letters have the property.
#[verifier::external_body]
fn is_alphabetic(c: char) -> (r: bool)
    ensures
        r == alphabetic(c),
        (c as u32) < 128 ==> (r == ascii_letter(c)),
{
    c.is_alphabetic()
}

/// Calls std's `char::is_alphanumeric`: the result is named
/// `alphanumeric`; among ASCII characters exactly the letters and digits
/// have it.
#[verifier::external_body]
fn is_alphanumeric(c: char) -> (r: bool)
    ensures
        r == alphanumeric(c),
        (c as u32) < 128 ==> (r == (ascii_letter(c) || is_digit(c))),
{
    c.is_alphanumeric()
}

// ---------------------------------------------------------------------------
// The scanner, as a function of the source text
// ---------------------------------------------------------------------------

/// The end of the run of digits starting at `i`.
pub open spec fn digits_end(s: Seq<char>, i: int) -> int
    decreases s.len() - i,
{
    if i < 0 || i >= s.len() {
        s.len() as int
    } else if is_digit(s[i]) {
        digits_end(s, i + 1)
    } else {
        i
    }
}

/// Whether `c` continues an identifier.
pub open spec fn ident_char(c: char) -> bool {
    (if (c as u32) < 128 { ascii_letter(c) || is_digit(c) } else { alphanumeric(c) }) || c == '_'
}

/// Whether `c` starts an identifier or keyword: a letter (the ASCII ones,
/// and beyond ASCII what std calls alphabetic) or `_`.
pub open spec fn ident_start(c: char) -> bool {
    (if (c as u32) < 128 { ascii_letter(c) } else { alphabetic(c) }) || c == '_'
}

/// The end of the run of identifier characters starting at `i`.
pub open spec fn ident_end(s: Seq<char>, i: int) -> int
    decreases s.len() - i,
{
    if i < 0 || i >= s.len() {
        s.len() as int
    } else if ident_char(s[i]) {
        ident_end(s, i + 1)
    } else {
        i
    }
}

/// The first `"` or newline at or after `i`, or the end.
pub open spec fn string_end(s: Seq<char>, i: int) -> int
    decreases s.len() - i,
{
    if i < 0 || i >= s.len() {
        s.len() as int
    } else if s[i] == '"' || s[i] == '\n' {
        i
    } else {
        string_end(s, i + 1)
    }
}

/// The first newline at or after `i`, or the end.
pub open spec fn line_end(s: Seq<char>, i: int) -> int
    decreases s.len() - i,
{
    if i < 0 || i >= s.len() {
        s.len() as int
    } else if s[i] == '\n' {
        i
    } else {
        line_end(s, i + 1)
    }
}

/// The first `*` followed by `/` at or after `i`, or the end.
pub open spec fn block_end(s: Seq<char>, i: int) -> int
    decreases s.len() - i,
{
    if i < 0 || i >= s.len() {
        s.len() as int
    } else if s[i] == '*' && i + 1 < s.len() && s[i + 1] == '/' {
        i
    } else {
        block_end(s, i + 1)
    }
}

/// The number of newlines in `s[i..j]`.
pub open spec fn newlines(s: Seq<char>, i: int, j: int) -> int {
    count_char(s.subrange(i, j), '\n') as int
}

/// A token of type `v` on line `line`.
pub open spec fn tok(v: TokenTypeModel, line: int) -> TokenModel {
    TokenModel { value: v, line: line as usize }
}

/// The result of scanning one token: the token or error, and where the
/// scanner is then (position and line).
pub type Scan = (Option<Result<TokenModel, Seq<char>>>, int, int);

/// An integer constant whose first digit is at `pos`.
pub open spec fn scan_integer(s: Seq<char>, pos: int, line: int) -> Scan {
    let end = digits_end(s, pos + 1);
    let v = digits_value(s.subrange(pos, end));
    if v <= usize::MAX {
        (Some(Ok(tok(TokenTypeModel::IntConst(v as usize), line))), end, line)
    } else {
        (Some(Err(decimal(line as nat) + ": Int constant too large (must be <= 32767)"@)), end, line)
    }
}

/// A string constant whose opening quote is at `pos`.
pub open spec fn scan_string(s: Seq<char>, pos: int, line: int) -> Scan {
    let j = string_end(s, pos + 1);
    if j >= s.len() {
        (Some(Err(decimal(line as nat) + ": Unterminated string literal"@)), s.len() as int, line)
    } else if s[j] == '\n' {
        (Some(Err(decimal(line as nat) + ": Newline in string literal"@)), j + 1, line)
    } else {
        (Some(Ok(tok(TokenTypeModel::StrgConst(s.subrange(pos + 1, j)), line))), j + 1, line)
    }
}

/// A keyword or an identifier whose first character is at `pos`.
pub open spec fn scan_word(s: Seq<char>, pos: int, line: int) -> Scan {
    let end = ident_end(s, pos + 1);
    let w = s.subrange(pos, end);
    match keyword_of(w) {
        Some(k) => (Some(Ok(tok(TokenTypeModel::Keywd(k), line))), end, line),
        None => (Some(Ok(tok(TokenTypeModel::Id(w), line))), end, line),
    }
}

/// The next token of `s` from position `pos` on line `line`: white space
/// and comments are skipped; `None` at the end.
pub open spec fn scan(s: Seq<char>, pos: int, line: int) -> Scan
    decreases s.len() - pos,
{
    if pos < 0 || pos >= s.len() {
        (None, pos, line)
    } else {
        let c = s[pos];
        if is_ws(c) {
            scan(s, pos + 1, if c == '\n' { line + 1 } else { line })
        } else if c == '/' {
            if pos + 1 < s.len() && s[pos + 1] == '/' {
                let j = line_end(s, pos + 2);
                proof {
                    lemma_line_end(s, pos + 2);
                }
                if j < s.len() {
                    scan(s, j + 1, line + 1)
                } else {
                    scan(s, s.len() as int, line)
                }
            } else if pos + 1 < s.len() && s[pos + 1] == '*' {
                let j = block_end(s, pos + 2);
                proof {
                    lemma_block_end(s, pos + 2);
                }
                if j < s.len() {
                    scan(s, j + 2, line + newlines(s, pos + 2, j + 1))
                } else {
                    let l = line + newlines(s, pos + 2, s.len() as int);
                    (
                        Some(Err("Unclosed block comment starting at line "@ + decimal(l as nat))),
                        s.len() as int,
                        l,
                    )
                }
            } else {
                (
                    Some(Ok(tok(TokenTypeModel::Symbol(Symbol::Op(Operator::Divide)), line))),
                    pos + 1,
                    line,
                )
            }
        } else if is_digit(c) {
            scan_integer(s, pos, line)
        } else if c == '"' {
            scan_string(s, pos, line)
        } else if ident_start(c) {
            scan_word(s, pos, line)
        } else {
            match symbol_of(c) {
                Some(sym) => (Some(Ok(tok(TokenTypeModel::Symbol(sym), line))), pos + 1, line),
                None => (
                    Some(Err(seq![c] + ": Unexpected char '"@ + decimal(line as nat) + "'"@)),
                    pos + 1,
                    line,
                ),
            }
        }
    }
}

// ---------------------------------------------------------------------------
// Lemmas on the scan helpers
// ---------------------------------------------------------------------------

proof fn lemma_newlines_step(s: Seq<char>, i: int, j: int)
    requires
        0 <= i <= j < s.len(),
    ensures
        newlines(s, i, j + 1) == newlines(s, i, j) + (if s[j] == '\n' { 1int } else { 0int }),
{
    assert(s.subrange(i, j + 1).drop_last() =~= s.subrange(i, j));
}

pub proof fn lemma_newlines_bound(s: Seq<char>, i: int, j: int)
    requires
        0 <= i <= j <= s.len(),
    ensures
        0 <= newlines(s, i, j) <= j - i,
{
    crate::text::lemma_count_char_pos(s.subrange(i, j), '\n');
}

pub proof fn lemma_scan_pos(s: Seq<char>, pos: int, line: int)
    requires
        0 <= pos <= s.len(),
    ensures
        pos <= scan(s, pos, line).1 <= s.len(),
        line <= scan(s, pos, line).2 <= line + (scan(s, pos, line).1 - pos),
        scan(s, pos, line).0 is Some ==> pos < scan(s, pos, line).1,
    decreases s.len() - pos,
{
    if pos < s.len() {
        let c = s[pos];
        if is_ws(c) {
            lemma_scan_pos(s, pos + 1, if c == '\n' { line + 1 } else { line });
        } else if c == '/' {
            if pos + 1 < s.len() && s[pos + 1] == '/' {
                let j = line_end(s, pos + 2);
                lemma_line_end(s, pos + 2);
                if j < s.len() {
                    lemma_scan_pos(s, j + 1, line + 1);
                } else {
                    lemma_scan_pos(s, s.len() as int, line);
                }
            } else if pos + 1 < s.len() && s[pos + 1] == '*' {
                let j = block_end(s, pos + 2);
                lemma_block_end(s, pos + 2);
                if j < s.len() {
                    lemma_newlines_bound(s, pos + 2, j + 1);
                    lemma_scan_pos(s, j + 2, line + newlines(s, pos + 2, j + 1));
                } else {
                    lemma_newlines_bound(s, pos + 2, s.len() as int);
                }
            }
        } else if is_digit(c) {
            lemma_digits_end(s, pos + 1);
        } else if c == '"' {
            lemma_string_end(s, pos + 1);
        } else if ident_start(c) {
            lemma_ident_end(s, pos + 1);
        }
    }
}

proof fn lemma_newlines_split(s: Seq<char>, a: int, b: int, c: int)
    requires
        0 <= a <= b <= c <= s.len(),
    ensures
        newlines(s, a, c) == newlines(s, a, b) + newlines(s, b, c),
    decreases c - b,
{
    if c == b {
        assert(s.subrange(b, c) =~= Seq::<char>::empty());
    } else {
        lemma_newlines_split(s, a, b, c - 1);
        lemma_newlines_step(s, a, c - 1);
        lemma_newlines_step(s, b, c - 1);
    }
}

proof fn lemma_no_newlines(s: Seq<char>, a: int, b: int)
    requires
        0 <= a <= b <= s.len(),
        forall|k: int| a <= k < b ==> s[k] != '\n',
    ensures
        newlines(s, a, b) == 0,
    decreases b - a,
{
    if a == b {
        assert(s.subrange(a, b) =~= Seq::<char>::empty());
    } else {
        lemma_no_newlines(s, a, b - 1);
        lemma_newlines_step(s, a, b - 1);
    }
}

/// The scanner keeps count of lines: after a step, the line it is on is
/// the line it started on plus the newlines it passed (except on a string
/// broken by a newline, whose newline is not counted), and a token's line
/// is that line.
pub proof fn lemma_scan_counts_lines(s: Seq<char>, pos: int, line: int)
    requires
        0 <= pos <= s.len(),
        0 <= line,
        line + (s.len() - pos) < usize::MAX,
    ensures
        scan(s, pos, line).0 != Some(
            Err::<TokenModel, Seq<char>>(
                decimal(scan(s, pos, line).2 as nat) + ": Newline in string literal"@,
            ),
        ) ==> scan(s, pos, line).2 == line + newlines(s, pos, scan(s, pos, line).1),
        scan(s, pos, line).0 matches Some(Ok(t)) ==> t.line == scan(s, pos, line).2,
    decreases s.len() - pos,
{
    lemma_scan_pos(s, pos, line);
    if pos < s.len() {
        let c = s[pos];
        let p = scan(s, pos, line).1;
        lemma_newlines_step(s, pos, pos);
        assert(s.subrange(pos, pos) =~= Seq::<char>::empty());
        if is_ws(c) {
            let l1 = if c == '\n' { line + 1 } else { line };
            lemma_scan_pos(s, pos + 1, l1);
            lemma_newlines_bound(s, pos, pos + 1);
            lemma_scan_counts_lines(s, pos + 1, l1);
            lemma_newlines_split(s, pos, pos + 1, p);
        } else if c == '/' {
            if pos + 1 < s.len() && s[pos + 1] == '/' {
                let j = line_end(s, pos + 2);
                lemma_line_end(s, pos + 2);
                lemma_no_newlines(s, pos, j);
                if j < s.len() {
                    lemma_newlines_step(s, pos, j);
                    lemma_scan_pos(s, j + 1, line + 1);
                    lemma_scan_counts_lines(s, j + 1, line + 1);
                    lemma_newlines_split(s, pos, j + 1, p);
                } else {
                    lemma_scan_counts_lines(s, s.len() as int, line);
                }
            } else if pos + 1 < s.len() && s[pos + 1] == '*' {
                let j = block_end(s, pos + 2);
                lemma_block_end(s, pos + 2);
                if j < s.len() {
                    let l1 = line + newlines(s, pos + 2, j + 1);
                    lemma_newlines_bound(s, pos + 2, j + 1);
                    lemma_newlines_bound(s, pos, j + 2);
                    lemma_scan_pos(s, j + 2, l1);
                    lemma_scan_counts_lines(s, j + 2, l1);
                    lemma_no_newlines(s, pos, pos + 2);
                    lemma_no_newlines(s, j + 1, j + 2);
                    lemma_newlines_split(s, pos, pos + 2, j + 1);
                    lemma_newlines_split(s, pos, j + 1, j + 2);
                    lemma_newlines_split(s, pos, j + 2, p);
                } else {
                    lemma_no_newlines(s, pos, pos + 2);
                    lemma_newlines_split(s, pos, pos + 2, s.len() as int);
                }
            } else {
                lemma_no_newlines(s, pos, pos + 1);
            }
        } else if is_digit(c) {
            lemma_digits_end(s, pos + 1);
            lemma_no_newlines(s, pos, digits_end(s, pos + 1));
        } else if c == '"' {
            let j = string_end(s, pos + 1);
            lemma_string_end(s, pos + 1);
            if j < s.len() && s[j] == '"' {
                lemma_no_newlines(s, pos, j + 1);
            } else if j >= s.len() {
                lemma_no_newlines(s, pos, s.len() as int);
            }
        } else if ident_start(c) {
            lemma_ident_end(s, pos + 1);
            assert forall|k: int| pos <= k < ident_end(s, pos + 1) implies s[k] != '\n' by {
                if k > pos {
                    assert(ident_char(s[k]));
                }
            }
            lemma_no_newlines(s, pos, ident_end(s, pos + 1));
        } else {
            lemma_no_newlines(s, pos, pos + 1);
        }
    }
}

pub proof fn lemma_digits_end(s: Seq<char>, i: int)
    requires
        0 <= i <= s.len(),
    ensures
        i <= digits_end(s, i) <= s.len(),
        forall|k: int| i <= k < digits_end(s, i) ==> is_digit(s[k]),
        digits_end(s, i) < s.len() ==> !is_digit(s[digits_end(s, i)]),
    decreases s.len() - i,
{
    if i < s.len() && is_digit(s[i]) {
        lemma_digits_end(s, i + 1);
    }
}

/// A character that belongs to a word (identifier or keyword): a letter,
/// a digit or `_` (beyond ASCII, what std calls alphanumeric).
pub open spec fn word_char(c: char) -> bool {
    ||| c == '_'
    ||| 'a' <= c <= 'z'
    ||| 'A' <= c <= 'Z'
    ||| '0' <= c <= '9'
    ||| (c as u32) >= 128 && alphanumeric(c)
}

/// A word read where an ASCII letter or `_` stands is the longest run of
/// word characters from there: it takes every following letter, digit and
/// `_`, and stops only before a character that is none of these. An
/// identifier's text is that run.
pub proof fn lemma_word_token(s: Seq<char>, pos: int, line: int)
    requires
        0 <= pos < s.len(),
        s[pos] == '_' || 'a' <= s[pos] <= 'z' || 'A' <= s[pos] <= 'Z',
    ensures
        ({
            let (t, end, l) = scan(s, pos, line);
            &&& pos < end <= s.len()
            &&& l == line
            &&& forall|k: int| pos <= k < end ==> word_char(#[trigger] s[k])
            &&& end < s.len() ==> !word_char(s[end])
            &&& t matches Some(Ok(tk)) && (tk.value matches TokenTypeModel::Id(w) ==> w == s.subrange(pos, end))
        }),
{
    let c = s[pos];
    assert(!is_ws(c) && c != '/' && !is_digit(c) && c != '"' && ident_start(c));
    lemma_ident_end(s, pos + 1);
    let end = ident_end(s, pos + 1);
    assert forall|k: int| pos <= k < end implies word_char(#[trigger] s[k]) by {
        if k > pos {
            assert(ident_char(s[k]));
        }
    }
    if end < s.len() {
        assert(!ident_char(s[end]));
    }
}

pub proof fn lemma_ident_end(s: Seq<char>, i: int)
    requires
        0 <= i <= s.len(),
    ensures
        i <= ident_end(s, i) <= s.len(),
        ident_end(s, i) < s.len() ==> !ident_char(s[ident_end(s, i)]),
        forall|k: int| i <= k < ident_end(s, i) ==> ident_char(s[k]),
    decreases s.len() - i,
{
    if i < s.len() && ident_char(s[i]) {
        lemma_ident_end(s, i + 1);
    }
}

pub proof fn lemma_string_end(s: Seq<char>, i: int)
    requires
        0 <= i <= s.len(),
    ensures
        i <= string_end(s, i) <= s.len(),
        string_end(s, i) < s.len() ==> (s[string_end(s, i)] == '"' || s[string_end(s, i)] == '\n'),
        forall|k: int| i <= k < string_end(s, i) ==> s[k] != '"' && s[k] != '\n',
    decreases s.len() - i,
{
    if i < s.len() && !(s[i] == '"' || s[i] == '\n') {
        lemma_string_end(s, i + 1);
    }
}

pub proof fn lemma_line_end(s: Seq<char>, i: int)
    requires
        0 <= i <= s.len(),
    ensures
        i <= line_end(s, i) <= s.len(),
        line_end(s, i) < s.len() ==> s[line_end(s, i)] == '\n',
        forall|k: int| i <= k < line_end(s, i) ==> s[k] != '\n',
    decreases s.len() - i,
{
    if i < s.len() && s[i] != '\n' {
        lemma_line_end(s, i + 1);
    }
}

pub proof fn lemma_block_end(s: Seq<char>, i: int)
    requires
        0 <= i <= s.len(),
    ensures
        i <= block_end(s, i) <= s.len(),
        block_end(s, i) < s.len() ==> block_end(s, i) + 1 < s.len() && s[block_end(s, i)] == '*'
            && s[block_end(s, i) + 1] == '/',
    decreases s.len() - i,
{
    if i < s.len() && !(s[i] == '*' && i + 1 < s.len() && s[i + 1] == '/') {
        lemma_block_end(s, i + 1);
    }
}

// ---------------------------------------------------------------------------
// The tokenizer
// ---------------------------------------------------------------------------

/// Reads the tokens of a Jack source text one at a time.
pub struct JackTokenizer {
    source: Vec<char>,
    pos: usize,
    line_number: usize,
}

/// The scanner's state: source, position and line.
pub struct TokenizerModel {
    pub source: Seq<char>,
    pub pos: int,
    pub line: int,
}

impl View for JackTokenizer {
    type V = TokenizerModel;

    closed spec fn view(&self) -> TokenizerModel {
        TokenizerModel { source: self.source@, pos: self.pos as int, line: self.line_number as int }
    }
}

/// The views of an optional token result.
pub open spec fn scan_view(r: Option<Result<Token, String>>) -> Option<Result<TokenModel, Seq<char>>> {
    match r {
        None => None,
        Some(Ok(t)) => Some(Ok(t@)),
        Some(Err(e)) => Some(Err(e@)),
    }
}

impl JackTokenizer {
    /// The state is consistent: the position is within the source and the
    /// line count cannot overflow.
    pub open spec fn wf(&self) -> bool {
        &&& 0 <= self@.pos <= self@.source.len()
        &&& 1 <= self@.line
        &&& self@.line + (self@.source.len() - self@.pos) < usize::MAX
    }

    /// A tokenizer at the start of `source`, on line 1.
    pub fn new(source: &str) -> (r: Self)
        requires
            source@.len() < usize::MAX - 2,
        ensures
            r.wf(),
            r@ == (TokenizerModel { source: source@, pos: 0, line: 1 }),
    {
        JackTokenizer { source: chars_of(source), pos: 0, line_number: 1 }
    }

    fn skip_line_comment(&mut self)
        requires
            old(self).wf(),
        ensures
            final(self).wf(),
            final(self)@.source == old(self)@.source,
            ({
                let s = old(self)@.source;
                let j = line_end(s, old(self)@.pos);
                if j < s.len() {
                    final(self)@.pos == j + 1 && final(self)@.line == old(self)@.line + 1
                } else {
                    final(self)@.pos == s.len() && final(self)@.line == old(self)@.line
                }
            }),
    {
        let ghost s = self.source@;
        let p0 = self.pos;
        let n = self.source.len();
        let mut p = p0;
        let mut l = self.line_number;
        let mut done = false;
        proof {
            lemma_line_end(s, p0 as int);
        }
        while !done && p < n
            invariant
                n == s.len(),
                s == self.source@,
                p0 <= p <= n,
                self.line_number + (n - p0) < usize::MAX,
                !done ==> p <= line_end(s, p0 as int) && line_end(s, p0 as int) == line_end(s, p as int)
                    && l == self.line_number,
                done ==> line_end(s, p0 as int) < n && p == line_end(s, p0 as int) + 1 && l
                    == self.line_number + 1,
            decreases n - p,
        {
            let c = self.source[p];
            proof {
                lemma_line_end(s, p + 1);
            }
            p = p + 1;
            if c == '\n' {
                l = l + 1;
                done = true;
            }
        }
        self.pos = p;
        self.line_number = l;
    }

    fn skip_block_comment(&mut self) -> (r: Result<(), String>)
        requires
            old(self).wf(),
        ensures
            final(self).wf(),
            final(self)@.source == old(self)@.source,
            ({
                let s = old(self)@.source;
                let p = old(self)@.pos;
                let j = block_end(s, p);
                if j < s.len() {
                    r is Ok && final(self)@.pos == j + 2 && final(self)@.line == old(self)@.line
                        + newlines(s, p, j + 1)
                } else {
                    let l = old(self)@.line + newlines(s, p, s.len() as int);
                    r is Err && r->Err_0@ == "Unclosed block comment starting at line "@ + decimal(
                        l as nat,
                    ) && final(self)@.pos == s.len() && final(self)@.line == l
                }
            }),
    {
        let ghost s = self.source@;
        let p0 = self.pos;
        let l0 = self.line_number;
        let n = self.source.len();
        let mut p = p0;
        let mut l = l0;
        let mut closed = false;
        proof {
            lemma_block_end(s, p0 as int);
            assert(s.subrange(p0 as int, p0 as int) =~= Seq::<char>::empty());
        }
        while !closed && p < n
            invariant
                n == s.len(),
                s == self.source@,
                l0 == self.line_number,
                l0 + (n - p0) < usize::MAX,
                p0 <= p <= n,
                l <= l0 + (p - p0),
                !closed ==> p <= block_end(s, p0 as int) && block_end(s, p0 as int) == block_end(
                    s,
                    p as int,
                ) && l == l0 + newlines(s, p0 as int, p as int),
                closed ==> block_end(s, p0 as int) < n && p == block_end(s, p0 as int) + 2 && l == l0
                    + newlines(s, p0 as int, block_end(s, p0 as int) + 1),
            decreases n - p,
        {
            let c = self.source[p];
            proof {
                lemma_newlines_step(s, p0 as int, p as int);
                lemma_newlines_bound(s, p0 as int, p + 1);
                lemma_block_end(s, p + 1);
            }
            p = p + 1;
            if c == '\n' {
                l = l + 1;
            }
            if c == '*' && p < n && self.source[p] == '/' {
                p = p + 1;
                closed = true;
            }
        }
        self.pos = p;
        self.line_number = l;
        if closed {
            Ok(())
        } else {
            let d = decimal_string(l as u64);
            let mut msg = String::from_str("Unclosed block comment starting at line ");
            msg.append(d.as_str());
            Err(msg)
        }
    }

    fn read_integer(&mut self, first_digit: char) -> (r: Result<Token, String>)
        requires
            old(self).wf(),
            1 <= old(self)@.pos,
            old(self)@.source[old(self)@.pos - 1] == first_digit,
            is_digit(first_digit),
        ensures
            final(self).wf(),
            final(self)@.source == old(self)@.source,
            (Some(match r { Ok(t) => Ok(t@), Err(e) => Err(e@) }), final(self)@.pos, final(self)@.line)
                == scan_integer(old(self)@.source, old(self)@.pos - 1, old(self)@.line),
    {
        let ghost s = self.source@;
        let n = self.source.len();
        let start = self.pos - 1;
        let line = self.line_number;
        let mut p = self.pos;
        let mut acc: usize = (first_digit as u32 - 48) as usize;
        let mut overflow = false;
        proof {
            lemma_digits_end(s, start + 1);
            let one_digit = s.subrange(start as int, start + 1);
            assert(one_digit.drop_last() =~= Seq::<char>::empty());
            assert(one_digit.last() == first_digit);
            assert(digits_value(one_digit.drop_last()) == 0);
            assert(digits_value(one_digit) == acc);
        }
        while p < n && '0' <= self.source[p] && self.source[p] <= '9'
            invariant
                n == s.len(),
                s == self.source@,
                start + 1 <= p <= digits_end(s, start + 1),
                digits_end(s, start + 1) == digits_end(s, p as int),
                overflow ==> digits_value(s.subrange(start as int, p as int)) > usize::MAX,
                !overflow ==> acc == digits_value(s.subrange(start as int, p as int)),
            decreases n - p,
        {
            let c = self.source[p];
            proof {
                lemma_digits_end(s, p + 1);
            }
            assert(s.subrange(start as int, p + 1).drop_last() =~= s.subrange(start as int, p as int));
            assert(s.subrange(start as int, p + 1).last() == c);
            if !overflow {
                match acc.checked_mul(10) {
                    Some(m) => match m.checked_add((c as u32 - 48) as usize) {
                        Some(v) => {
                            acc = v;
                        },
                        None => {
                            overflow = true;
                        },
                    },
                    None => {
                        overflow = true;
                    },
                }
            }
            p = p + 1;
        }
        self.pos = p;
        if overflow {
            let d = decimal_string(line as u64);
            let mut msg = d;
            msg.append(": Int constant too large (must be <= 32767)");
            Err(msg)
        } else {
            Ok(Token { value: TokenType::IntConst(acc), line })
        }
    }

    fn read_string(&mut self) -> (r: Result<Token, String>)
        requires
            old(self).wf(),
            1 <= old(self)@.pos,
            old(self)@.source[old(self)@.pos - 1] == '"',
        ensures
            final(self).wf(),
            final(self)@.source == old(self)@.source,
            (Some(match r { Ok(t) => Ok(t@), Err(e) => Err(e@) }), final(self)@.pos, final(self)@.line)
                == scan_string(old(self)@.source, old(self)@.pos - 1, old(self)@.line),
    {
        let ghost s = self.source@;
        let n = self.source.len();
        let start = self.pos;
        let line = self.line_number;
        let mut p = start;
        proof {
            lemma_string_end(s, start as int);
        }
        while p < n && self.source[p] != '"' && self.source[p] != '\n'
            invariant
                n == s.len(),
                s == self.source@,
                start <= p <= string_end(s, start as int),
                string_end(s, start as int) == string_end(s, p as int),
            decreases n - p,
        {
            proof {
                lemma_string_end(s, p + 1);
            }
            p = p + 1;
        }
        let d = decimal_string(line as u64);
        if p >= n {
            self.pos = p;
            let mut msg = d;
            msg.append(": Unterminated string literal");
            Err(msg)
        } else if self.source[p] == '\n' {
            self.pos = p + 1;
            let mut msg = d;
            msg.append(": Newline in string literal");
            Err(msg)
        } else {
            let val = string_of_range(self.source.as_slice(), start, p);
            self.pos = p + 1;
            Ok(Token { value: TokenType::StrgConst(val), line })
        }
    }

    fn read_identifier_or_keyword(&mut self, first_char: char) -> (r: Token)
        requires
            old(self).wf(),
            1 <= old(self)@.pos,
            old(self)@.source[old(self)@.pos - 1] == first_char,
        ensures
            final(self).wf(),
            final(self)@.source == old(self)@.source,
            (Some(Ok::<TokenModel, Seq<char>>(r@)), final(self)@.pos, final(self)@.line)
                == scan_word(old(self)@.source, old(self)@.pos - 1, old(self)@.line),
    {
        let ghost s = self.source@;
        let n = self.source.len();
        let start = self.pos - 1;
        let line = self.line_number;
        let mut p = self.pos;
        proof {
            lemma_ident_end(s, start + 1);
        }
        while p < n && (is_alphanumeric(self.source[p]) || self.source[p] == '_')
            invariant
                n == s.len(),
                s == self.source@,
                start + 1 <= p <= ident_end(s, start + 1),
                ident_end(s, start + 1) == ident_end(s, p as int),
            decreases n - p,
        {
            proof {
                lemma_ident_end(s, p + 1);
            }
            p = p + 1;
        }
        let val = string_of_range(self.source.as_slice(), start, p);
        self.pos = p;
        match Keyword::from_str(val.as_str()) {
            Some(k) => Token { value: TokenType::Keywd(k), line },
            None => Token { value: TokenType::Id(val), line },
        }
    }

    /// Skips white space and comments; the message of an unclosed block
    /// comment where one stops it.
    fn skip_trivia(&mut self) -> (r: Option<String>)
        requires
            old(self).wf(),
        ensures
            final(self).wf(),
            final(self)@.source == old(self)@.source,
            match r {
                Some(e) => scan(old(self)@.source, old(self)@.pos, old(self)@.line) == (
                    Some(Err::<TokenModel, Seq<char>>(e@)),
                    final(self)@.pos,
                    final(self)@.line,
                ),
                None => {
                    &&& scan(old(self)@.source, old(self)@.pos, old(self)@.line) == scan(
                        final(self)@.source,
                        final(self)@.pos,
                        final(self)@.line,
                    )
                    &&& final(self)@.pos < final(self)@.source.len() ==> {
                        let s = final(self)@.source;
                        let p = final(self)@.pos;
                        &&& !is_ws(s[p])
                        &&& !(s[p] == '/' && p + 1 < s.len() && (s[p + 1] == '/' || s[p + 1] == '*'))
                    }
                },
            },
    {
        let ghost s = self@.source;
        let ghost goal = scan(s, self@.pos, self@.line);
        let mut err: Option<String> = None;
        let mut stop = false;
        while !stop && self.pos < self.source.len()
            invariant
                self.wf(),
                self@.source == s,
                err is None ==> scan(s, self@.pos, self@.line) == goal,
                err is Some ==> stop && goal == (
                    Some(Err::<TokenModel, Seq<char>>(err->Some_0@)),
                    self@.pos,
                    self@.line,
                ),
                stop && err is None ==> self@.pos < s.len() && !is_ws(s[self@.pos]) && !(s[self@.pos]
                    == '/' && self@.pos + 1 < s.len() && (s[self@.pos + 1] == '/' || s[self@.pos
                    + 1] == '*')),
            decreases self@.source.len() - self@.pos + (if stop { 0int } else { 1int }),
        {
            let c = self.source[self.pos];
            let n = self.source.len();
            if is_whitespace(c) {
                if c == '\n' {
                    self.line_number = self.line_number + 1;
                }
                self.pos = self.pos + 1;
            } else if c == '/' && self.pos + 1 < n && self.source[self.pos + 1] == '/' {
                proof {
                    lemma_line_end(s, self@.pos + 2);
                }
                self.pos = self.pos + 2;
                self.skip_line_comment();
            } else if c == '/' && self.pos + 1 < n && self.source[self.pos + 1] == '*' {
                proof {
                    lemma_block_end(s, self@.pos + 2);
                    lemma_newlines_bound(s, self@.pos + 2, s.len() as int);
                }
                self.pos = self.pos + 2;
                match self.skip_block_comment() {
                    Ok(()) => {},
                    Err(e) => {
                        err = Some(e);
                        stop = true;
                    },
                }
            } else {
                stop = true;
            }
        }
        err
    }

    /// The next token, or the error that stops it; `None` at the end of the
    /// source.
    pub fn next_token(&mut self) -> (r: Option<Result<Token, String>>)
        requires
            old(self).wf(),
        ensures
            final(self).wf(),
            final(self)@.source == old(self)@.source,
            (scan_view(r), final(self)@.pos, final(self)@.line) == scan(
                old(self)@.source,
                old(self)@.pos,
                old(self)@.line,
            ),
    {
        if let Some(e) = self.skip_trivia() {
            return Some(Err(e));
        }
        if self.pos >= self.source.len() {
            return None;
        }
        let c = self.source[self.pos];
        if c == '/' {
            self.pos = self.pos + 1;
            return Some(
                Ok(
                    Token {
                        value: TokenType::Symbol(Symbol::Op(Operator::Divide)),
                        line: self.line_number,
                    },
                ),
            );
        }
        self.pos = self.pos + 1;
        if '0' <= c && c <= '9' {
            Some(self.read_integer(c))
        } else if c == '"' {
            Some(self.read_string())
        } else if is_alphabetic(c) || c == '_' {
            Some(Ok(self.read_identifier_or_keyword(c)))
        } else {
            match Symbol::from_char(c) {
                Some(sym) => Some(Ok(Token { value: TokenType::Symbol(sym), line: self.line_number })),
                None => {
                    let d = decimal_string(self.line_number as u64);
                    let mut msg = String::new();
                    push_char(&mut msg, c);
                    msg.append(": Unexpected char '");
                    msg.append(d.as_str());
                    msg.append("'");
                    Some(Err(msg))
                },
            }
        }
    }
}

} // verus!
