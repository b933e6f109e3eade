//! Cleaning of assembly source lines and their classification into
//! A-, C- and L-commands.
use vstd::prelude::*;
use crate::text::{
    chars_of, count_char, find_and_count, first_index_of, lemma_first_index_of, string_of,
    string_of_range, ascii_upper_all, is_ws, is_whitespace, push_char,
};
use vstd::utf8::is_ascii_chars;

verus! {

// ---------------------------------------------------------------------------
// Outside calls into std
// ---------------------------------------------------------------------------

/// What std's `str::to_uppercase` gives for a string (full Unicode case
/// mapping, which a few lines cannot state).
pub uninterp spec fn uppercase(s: Seq<char>) -> Seq<char>;

/// Calls std's `str::to_uppercase`; the result is the Unicode upper-case
/// form of `s`, named `uppercase`. On an ASCII string it is the ASCII
/// upper-case form (Unicode maps `a`..`z` to `A`..`Z` and leaves the other
/// ASCII characters alone); beyond ASCII nothing more is stated.
#[verifier::external_body]
fn to_uppercase(s: &str) -> (r: String)
    ensures
        r@ == uppercase(s@),
        is_ascii_chars(s@) ==> r@ == ascii_upper_all(s@),
{
    s.to_uppercase()
}

// ---------------------------------------------------------------------------
// Commands
// ---------------------------------------------------------------------------

/// One assembly command.
#[derive(Debug, Clone)]
pub enum Command {
    /// Address: `@sum` holds `sum`.
    A(String),
    /// Compute: destination, ALU mnemonic and jump.
    C(Option<String>, String, Option<String>),
    /// Label: `(LOOP)` holds `LOOP`.
    L(String),
}

/// A command with its texts as character sequences.
pub enum CommandModel {
    A(Seq<char>),
    C(Option<Seq<char>>, Seq<char>, Option<Seq<char>>),
    L(Seq<char>),
}

pub open spec fn opt_view(o: Option<String>) -> Option<Seq<char>> {
    match o {
        Some(s) => Some(s@),
        None => None,
    }
}

impl View for Command {
    type V = CommandModel;

    open spec fn view(&self) -> CommandModel {
        match self {
            Command::A(s) => CommandModel::A(s@),
            Command::C(d, c, j) => CommandModel::C(opt_view(*d), c@, opt_view(*j)),
            Command::L(s) => CommandModel::L(s@),
        }
    }
}

// ---------------------------------------------------------------------------
// Line cleaning
// ---------------------------------------------------------------------------

/// The position where a `//` comment starts in `s` at or after `i`, or
/// `s.len()` where there is none.
pub open spec fn comment_from(s: Seq<char>, i: int) -> int
    decreases s.len() - i,
{
    if i < 0 || i + 1 >= s.len() {
        s.len() as int
    } else if s[i] == '/' && s[i + 1] == '/' {
        i
    } else {
        comment_from(s, i + 1)
    }
}

/// `s` cut at its first `//`.
pub open spec fn strip_comment(s: Seq<char>) -> Seq<char> {
    s.take(comment_from(s, 0))
}

pub(crate) proof fn lemma_comment_from_bounds(s: Seq<char>, i: int)
    requires
        0 <= i,
    ensures
        i <= comment_from(s, i) <= s.len() || comment_from(s, i) == s.len(),
        0 <= comment_from(s, i) <= s.len(),
    decreases s.len() - i,
{
    if i + 1 < s.len() && !(s[i] == '/' && s[i + 1] == '/') {
        lemma_comment_from_bounds(s, i + 1);
    }
}

/// The end of the text before the first `//` in `v[lo..hi]`, as a position in `v`.
fn comment_end(v: &[char], lo: usize, hi: usize) -> (r: usize)
    requires
        lo <= hi <= v@.len(),
    ensures
        lo <= r <= hi,
        v@.subrange(lo as int, r as int) == strip_comment(v@.subrange(lo as int, hi as int)),
{
    let ghost s = v@.subrange(lo as int, hi as int);
    let mut i: usize = lo;
    while hi > 0 && i < hi - 1 && !(v[i] == '/' && v[i + 1] == '/')
        invariant
            lo <= i <= hi <= v@.len(),
            s == v@.subrange(lo as int, hi as int),
            comment_from(s, 0) == comment_from(s, i - lo),
        decreases hi - i,
    {
        i = i + 1;
    }
    let r = if hi > 0 && i < hi - 1 { i } else { hi };
    proof {
        lemma_comment_from_bounds(s, 0);
        assert(s.take(comment_from(s, 0)) =~= v@.subrange(lo as int, r as int));
    }
    r
}

/// `s` with every white-space character taken out.
pub open spec fn without_ws(s: Seq<char>) -> Seq<char>
    decreases s.len(),
{
    if s.len() == 0 {
        s
    } else if is_ws(s.last()) {
        without_ws(s.drop_last())
    } else {
        without_ws(s.drop_last()).push(s.last())
    }
}

/// A source line without its `//` comment and without any white space.
pub open spec fn clean(line: Seq<char>) -> Seq<char> {
    without_ws(strip_comment(line))
}

/// Cleans one source line: cuts its `//` comment and removes every
/// white-space character, so that `D = M + 1` reads as `D=M+1`.
pub fn clean_line(line: &str) -> (r: String)
    ensures
        r@ == clean(line@),
{
    let v = chars_of(line);
    let e = comment_end(v.as_slice(), 0, v.len());
    assert(v@.subrange(0, v@.len() as int) =~= v@);
    let mut r = String::new();
    let mut i: usize = 0;
    assert(v@.take(0) =~= Seq::<char>::empty());
    while i < e
        invariant
            e <= v@.len(),
            v@.subrange(0, e as int) == strip_comment(v@),
            i <= e,
            r@ == without_ws(v@.take(i as int)),
        decreases e - i,
    {
        assert(v@.take(i + 1).drop_last() =~= v@.take(i as int));
        if !is_whitespace(v[i]) {
            push_char(&mut r, v[i]);
        }
        i = i + 1;
    }
    assert(v@.take(e as int) =~= v@.subrange(0, e as int));
    r
}

// ---------------------------------------------------------------------------
// Classification
// ---------------------------------------------------------------------------

/// The split of an (upper-cased) compute instruction into destination,
/// comp and jump, or `None` where it holds more than one `=`, or more than
/// one `;` after its `=`.
pub open spec fn split_compute(u: Seq<char>) -> Option<CommandModel> {
    if count_char(u, '=') > 1 {
        None
    } else {
        let dest: Option<Seq<char>> = if count_char(u, '=') == 0 {
            None
        } else {
            Some(u.take(first_index_of(u, '=')))
        };
        let cj = if count_char(u, '=') == 0 {
            u
        } else {
            u.skip(first_index_of(u, '=') + 1)
        };
        if count_char(cj, ';') > 1 {
            None
        } else if count_char(cj, ';') == 1 {
            Some(
                CommandModel::C(
                    dest,
                    cj.take(first_index_of(cj, ';')),
                    Some(cj.skip(first_index_of(cj, ';') + 1)),
                ),
            )
        } else {
            Some(CommandModel::C(dest, cj, None))
        }
    }
}

/// The command that a cleaned instruction line stands for: `@x` is an
/// A-command, `(x)` a label, anything else a compute instruction, which is
/// read upper-cased. `None` where a compute instruction holds more than one
/// `=` or `;`.
pub open spec fn instruction(s: Seq<char>) -> Option<CommandModel> {
    if s.len() > 0 && s[0] == '@' {
        Some(CommandModel::A(s.skip(1)))
    } else if s.len() > 0 && s[0] == '(' && s.last() == ')' {
        Some(CommandModel::L(s.subrange(1, s.len() - 1)))
    } else {
        split_compute(uppercase(s))
    }
}

/// `instruction` for an ASCII line, whose upper-case form is the ASCII one.
pub open spec fn ascii_instruction(s: Seq<char>) -> Option<CommandModel> {
    if s.len() > 0 && s[0] == '@' {
        Some(CommandModel::A(s.skip(1)))
    } else if s.len() > 0 && s[0] == '(' && s.last() == ')' {
        Some(CommandModel::L(s.subrange(1, s.len() - 1)))
    } else {
        split_compute(ascii_upper_all(s))
    }
}

/// Splits an upper-cased compute instruction; `None` on a repeated `=` or `;`.
fn split_compute_exec(u: &[char]) -> (r: Option<Command>)
    ensures
        match r {
            Some(c) => split_compute(u@) == Some(c@),
            None => split_compute(u@) is None,
        },
{
    let (ie, ne) = find_and_count(u, '=');
    if ne > 1 {
        return None;
    }
    proof {
        lemma_first_index_of(u@, '=');
    }
    let (dest, start) = if ne == 0 {
        (None, 0usize)
    } else {
        assert(ie < u@.len());
        let _ = u.len();
        (Some(string_of_range(u, 0, ie)), ie + 1)
    };
    let cj: Vec<char> = slice_from(u, start);
    assert(cj@ == (if ne == 0 { u@ } else { u@.skip(ie + 1) })) by {
        if ne == 0 {
            assert(u@.subrange(0, u@.len() as int) =~= u@);
        }
    }
    let (is, ns) = find_and_count(cj.as_slice(), ';');
    if ns > 1 {
        return None;
    }
    proof {
        lemma_first_index_of(cj@, ';');
    }
    if ns == 1 {
        let comp = string_of_range(cj.as_slice(), 0, is);
        let jump = string_of_range(cj.as_slice(), is + 1, cj.len());
        assert(comp@ == cj@.take(is as int));
        assert(jump@ == cj@.skip(is + 1));
        Some(Command::C(dest, comp, Some(jump)))
    } else {
        let comp = string_of(cj.as_slice());
        Some(Command::C(dest, comp, None))
    }
}

/// `v[from..]` as a new vector.
fn slice_from(v: &[char], from: usize) -> (r: Vec<char>)
    requires
        from <= v@.len(),
    ensures
        r@ == v@.subrange(from as int, v@.len() as int),
{
    let mut r: Vec<char> = Vec::new();
    let mut i: usize = from;
    while i < v.len()
        invariant
            from <= i <= v@.len(),
            r@ == v@.subrange(from as int, i as int),
        decreases v@.len() - i,
    {
        r.push(v[i]);
        assert(v@.subrange(from as int, i + 1) =~= v@.subrange(from as int, i as int).push(
            v@[i as int],
        ));
        i = i + 1;
    }
    r
}

/// The number of `=` in the upper-cased form of `s`.
pub fn count_eq(s: &str) -> (r: usize)
    ensures
        r == count_char(uppercase(s@), '='),
        is_ascii_chars(s@) ==> r == count_char(ascii_upper_all(s@), '='),
{
    let u = to_uppercase(s);
    let uv = chars_of(u.as_str());
    let (_, n) = find_and_count(uv.as_slice(), '=');
    n
}

/// Whether a cleaned instruction line is well formed (`instruction` is
/// defined on it).
pub fn instruction_ok(line: &str) -> (r: bool)
    ensures
        r == (instruction(line@) is Some),
        is_ascii_chars(line@) ==> r == (ascii_instruction(line@) is Some),
{
    let v = chars_of(line);
    let n = v.len();
    if n > 0 && v[0] == '@' {
        true
    } else if n > 0 && v[0] == '(' && v[n - 1] == ')' {
        true
    } else {
        let u = to_uppercase(line);
        let uv = chars_of(u.as_str());
        split_compute_exec(uv.as_slice()).is_some()
    }
}

/// Classifies a cleaned instruction line (the categorisation step of the
/// assembly parser). A compute instruction with more than one `=` or `;`
/// is not accepted.
pub fn parse_instruction(line: &str) -> (r: Command)
    requires
        instruction(line@) is Some || is_ascii_chars(line@) && ascii_instruction(line@) is Some,
    ensures
        Some(r@) == instruction(line@),
        is_ascii_chars(line@) ==> Some(r@) == ascii_instruction(line@),
{
    let v = chars_of(line);
    let n = v.len();
    if n > 0 && v[0] == '@' {
        Command::A(string_of_range(v.as_slice(), 1, n))
    } else if n > 0 && v[0] == '(' && v[n - 1] == ')' {
        Command::L(string_of_range(v.as_slice(), 1, n - 1))
    } else {
        let u = to_uppercase(line);
        let uv = chars_of(u.as_str());
        match split_compute_exec(uv.as_slice()) {
            Some(c) => c,
            None => Command::L(String::new()),
        }
    }
}

} // verus!
