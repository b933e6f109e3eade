//! The shape of the VM code that the compiler writes: which lines are
//! labels, jumps and function headers, the number that an `if` or `while`
//! gives its labels, and what makes a stretch of output well formed.
use vstd::prelude::*;
use crate::text::{decimal, digit_char, is_digit, lemma_decimal_injective};
use crate::jack::tokens::{Operator, Scope};
use crate::jack::vm_model::{call_line, function_line, op_line, pop_line, push_line, string_lines, EngineModel};

verus! {

// ---------------------------------------------------------------------------
// Kinds of lines
// ---------------------------------------------------------------------------

/// A `label` line.
pub open spec fn is_label_line(l: Seq<char>) -> bool {
    l.len() >= 6 && l.take(6) == "label "@
}

/// A `goto` line.
pub open spec fn is_goto_line(l: Seq<char>) -> bool {
    l.len() >= 5 && l.take(5) == "goto "@
}

/// An `if-goto` line.
pub open spec fn is_if_line(l: Seq<char>) -> bool {
    l.len() >= 8 && l.take(8) == "if-goto "@
}

/// A `goto` or `if-goto` line.
pub open spec fn is_jump_line(l: Seq<char>) -> bool {
    is_goto_line(l) || is_if_line(l)
}

/// The `label` line that a jump line goes to.
pub open spec fn jump_label(l: Seq<char>) -> Seq<char> {
    "label "@ + (if is_goto_line(l) { l.skip(5) } else { l.skip(8) })
}

/// A `function` line.
pub open spec fn is_function_line(l: Seq<char>) -> bool {
    l.len() >= 9 && l.take(9) == "function "@
}

/// A line that is neither a label, nor a jump, nor a function header.
pub open spec fn plain(l: Seq<char>) -> bool {
    !is_label_line(l) && !is_jump_line(l) && !is_function_line(l)
}

/// The texts that an `if` or `while` puts before its number to make its
/// label lines.
pub open spec fn label_prefix(p: Seq<char>) -> bool {
    ||| p == "label IF_TRUE"@
    ||| p == "label IF_FALSE"@
    ||| p == "label IF_END"@
    ||| p == "label WHILE_EXP"@
    ||| p == "label WHILE_END"@
}

/// Whether `l` is the label line with prefix `p` and number `k`.
pub open spec fn numbered(l: Seq<char>, p: Seq<char>, k: nat) -> bool {
    label_prefix(p) && l == p + decimal(k)
}

/// Whether `l` is a label line of an `if` or `while` with number `k`.
pub open spec fn has_number(l: Seq<char>, k: nat) -> bool {
    exists|p: Seq<char>| #[trigger] numbered(l, p, k)
}

/// The number of a label line written by an `if` or `while`.
pub open spec fn label_num(l: Seq<char>) -> int {
    (choose|k: nat| has_number(l, k)) as int
}

// ---------------------------------------------------------------------------
// Well-formed output
// ---------------------------------------------------------------------------

/// No function header lies between positions `i` and `j` (both included).
pub open spec fn no_fn_between(out: Seq<Seq<char>>, i: int, j: int) -> bool {
    forall|m: int| (i <= m <= j || j <= m <= i) ==> !is_function_line(#[trigger] out[m])
}

/// The jump line at `i` has its label somewhere in `out`, with no function
/// header in between: it jumps within its own function.
pub open spec fn has_label(out: Seq<Seq<char>>, i: int) -> bool {
    exists|j: int| 0 <= j < out.len() && out[j] == jump_label(out[i]) && no_fn_between(out, i, j)
}

/// The lines written from `a` to `b` are plain, and the label counter
/// stayed.
pub open spec fn plain_ext(a: EngineModel, b: EngineModel) -> bool {
    &&& b.labels == a.labels
    &&& forall|i: int| a.out.len() <= i < b.out.len() ==> plain(#[trigger] b.out[i])
}

/// The lines written from `a` to `b` hold no function header.
pub open spec fn no_fn_ext(a: EngineModel, b: EngineModel) -> bool {
    forall|i: int| a.out.len() <= i < b.out.len() ==> !is_function_line(#[trigger] b.out[i])
}

/// The label lines written from `a` to `b` carry numbers the counter
/// passed over in between, and no two of the lines written are the same
/// label.
pub open spec fn labels_ext(a: EngineModel, b: EngineModel) -> bool {
    &&& forall|i: int| a.out.len() <= i < b.out.len() && is_label_line(#[trigger] b.out[i]) ==> a.labels
        <= label_num(b.out[i]) < b.labels
    &&& forall|i: int, j: int|
        a.out.len() <= i < b.out.len() && a.out.len() <= j < b.out.len() && i != j && is_label_line(
            #[trigger] b.out[i],
        ) ==> b.out[i] != #[trigger] b.out[j]
}

/// Every jump line written from `a` to `b` has its label, within its
/// function.
pub open spec fn jumps_ext(a: EngineModel, b: EngineModel) -> bool {
    forall|i: int| a.out.len() <= i < b.out.len() && is_jump_line(#[trigger] b.out[i]) ==> has_label(b.out, i)
}

/// What the code of statements written from `a` to `b` keeps: no function
/// header, fresh and distinct labels, every jump within reach.
pub open spec fn stmt_ext(a: EngineModel, b: EngineModel) -> bool {
    no_fn_ext(a, b) && labels_ext(a, b) && jumps_ext(a, b)
}

/// Before the first function header written from `a` to `b` only
/// `pop pointer 0` (a method's `this`) is written.
pub open spec fn prefix_ext(a: EngineModel, b: EngineModel) -> bool {
    forall|i: int|
        a.out.len() <= i < b.out.len() && (forall|m: int| a.out.len() <= m <= i ==> !is_function_line(
            #[trigger] b.out[m],
        )) ==> #[trigger] b.out[i] == "pop pointer 0"@
}

/// What the code of whole subroutines written from `a` to `b` keeps.
pub open spec fn unit_ext(a: EngineModel, b: EngineModel) -> bool {
    labels_ext(a, b) && jumps_ext(a, b) && prefix_ext(a, b)
}

/// Well-formed VM code of a class: no label is written twice, every jump
/// goes to a label of its own function, and before the first `function`
/// line only `pop pointer 0` may stand.
pub open spec fn vm_code_ok(out: Seq<Seq<char>>) -> bool {
    &&& forall|i: int, j: int|
        0 <= i < out.len() && 0 <= j < out.len() && i != j && is_label_line(#[trigger] out[i]) ==> out[i]
            != #[trigger] out[j]
    &&& forall|i: int| 0 <= i < out.len() && is_jump_line(#[trigger] out[i]) ==> has_label(out, i)
    &&& forall|i: int|
        0 <= i < out.len() && (forall|m: int| 0 <= m <= i ==> !is_function_line(#[trigger] out[m]))
            ==> #[trigger] out[i] == "pop pointer 0"@
}

// ---------------------------------------------------------------------------
// Lines
// ---------------------------------------------------------------------------

proof fn lemma_first_char(l: Seq<char>)
    ensures
        is_label_line(l) ==> l[0] == 'l' && l.len() >= 6,
        is_goto_line(l) ==> l[0] == 'g' && l.len() >= 5,
        is_if_line(l) ==> l[0] == 'i',
        is_function_line(l) ==> l[0] == 'f',
{
    reveal_strlit("label ");
    reveal_strlit("goto ");
    reveal_strlit("if-goto ");
    reveal_strlit("function ");
    if is_label_line(l) {
        assert(l.take(6)[0] == l[0]);
    }
    if is_goto_line(l) {
        assert(l.take(5)[0] == l[0]);
    }
    if is_if_line(l) {
        assert(l.take(8)[0] == l[0]);
    }
    if is_function_line(l) {
        assert(l.take(9)[0] == l[0]);
    }
}

proof fn lemma_plain_by_first(l: Seq<char>)
    requires
        l.len() >= 1,
        l[0] != 'l' || l.len() < 6,
        l[0] != 'g' || l.len() < 5,
        l[0] != 'i',
        l[0] != 'f',
    ensures
        plain(l),
{
    lemma_first_char(l);
}

/// Push, pop, call and operator lines are plain; a function line is a
/// function header.
pub proof fn lemma_plain_lines(s: Scope, k: nat, f: Seq<char>, op: Operator)
    ensures
        plain(push_line(s, k)),
        plain(pop_line(s, k)),
        plain(call_line(f, k)),
        plain(op_line(op)),
        plain("not"@),
        plain("neg"@),
        plain("return"@),
        is_function_line(function_line(f, k)),
        !is_label_line(function_line(f, k)) && !is_jump_line(function_line(f, k)),
        function_line(f, k) != "pop pointer 0"@,
{
    reveal_strlit("push ");
    reveal_strlit("pop ");
    reveal_strlit("call ");
    reveal_strlit("function ");
    reveal_strlit("not");
    reveal_strlit("neg");
    reveal_strlit("return");
    reveal_strlit("pop pointer 0");
    assert(push_line(s, k)[0] == 'p');
    lemma_plain_by_first(push_line(s, k));
    assert(pop_line(s, k)[0] == 'p');
    lemma_plain_by_first(pop_line(s, k));
    assert(call_line(f, k)[0] == 'c');
    lemma_plain_by_first(call_line(f, k));
    lemma_plain_by_first("not"@);
    lemma_plain_by_first("neg"@);
    lemma_plain_by_first("return"@);
    let fl = function_line(f, k);
    assert(fl.take(9) =~= "function "@);
    assert(fl[0] == 'f');
    lemma_first_char(fl);
    assert(fl[0] != "pop pointer 0"@[0]);
    match op {
        Operator::Add => {
            reveal_strlit("add");
            lemma_plain_by_first("add"@);
        },
        Operator::Sub => {
            reveal_strlit("sub");
            lemma_plain_by_first("sub"@);
        },
        Operator::Mult => {
            reveal_strlit("call Math.multiply 2");
            lemma_plain_by_first("call Math.multiply 2"@);
        },
        Operator::Divide => {
            reveal_strlit("call Math.divide 2");
            lemma_plain_by_first("call Math.divide 2"@);
        },
        Operator::And => {
            reveal_strlit("and");
            lemma_plain_by_first("and"@);
        },
        Operator::Or => {
            reveal_strlit("or");
            lemma_plain_by_first("or"@);
        },
        Operator::Lesser => {
            reveal_strlit("lt");
            lemma_plain_by_first("lt"@);
        },
        Operator::Greater => {
            reveal_strlit("gt");
            lemma_plain_by_first("gt"@);
        },
        Operator::Equal => {
            reveal_strlit("eq");
            lemma_plain_by_first("eq"@);
        },
        Operator::Not => {
            lemma_plain_by_first("not"@);
        },
    }
}

/// The lines that build a string constant are plain.
pub proof fn lemma_string_lines_plain(chars: Seq<char>)
    ensures
        forall|i: int| 0 <= i < string_lines(chars).len() ==> plain(#[trigger] string_lines(chars)[i]),
    decreases chars.len(),
{
    if chars.len() > 0 {
        lemma_string_lines_plain(chars.drop_last());
        lemma_plain_lines(Scope::Const, (chars.last() as u32) as nat, "String.append"@, Operator::Add);
        lemma_plain_lines(Scope::Const, 2, "String.append"@, Operator::Add);
        let p = string_lines(chars.drop_last());
        let q = p.push(push_line(Scope::Const, (chars.last() as u32) as nat));
        assert forall|i: int| 0 <= i < string_lines(chars).len() implies plain(#[trigger] string_lines(chars)[i]) by {
            if i < p.len() {
                assert(string_lines(chars)[i] == p[i]);
            } else if i < q.len() {
                assert(string_lines(chars)[i] == q[i]);
            }
        }
    }
}

proof fn lemma_decimal_digits(n: nat)
    ensures
        decimal(n).len() >= 1,
        forall|i: int| 0 <= i < decimal(n).len() ==> is_digit(#[trigger] decimal(n)[i]),
    decreases n,
{
    if n < 10 {
        assert(digit_char(n) as nat == n + 48);
    } else {
        lemma_decimal_digits(n / 10);
        let d = decimal(n / 10);
        assert(digit_char(n % 10) as nat == n % 10 + 48);
        assert forall|i: int| 0 <= i < decimal(n).len() implies is_digit(#[trigger] decimal(n)[i]) by {
            if i < d.len() {
                assert(decimal(n)[i] == d[i]);
            }
        }
    }
}

proof fn lemma_label_prefixes()
    ensures
        forall|p: Seq<char>| #[trigger] label_prefix(p) ==> p.len() >= 12 && !is_digit(p.last()) && p.take(6)
            == "label "@,
{
    reveal_strlit("label ");
    reveal_strlit("label IF_TRUE");
    reveal_strlit("label IF_FALSE");
    reveal_strlit("label IF_END");
    reveal_strlit("label WHILE_EXP");
    reveal_strlit("label WHILE_END");
    assert("label IF_TRUE"@.take(6) =~= "label "@);
    assert("label IF_FALSE"@.take(6) =~= "label "@);
    assert("label IF_END"@.take(6) =~= "label "@);
    assert("label WHILE_EXP"@.take(6) =~= "label "@);
    assert("label WHILE_END"@.take(6) =~= "label "@);
}

/// A label line of an `if` or `while` is a label line, neither a jump nor
/// a function header, and carries its number.
pub proof fn lemma_label_line(p: Seq<char>, k: nat)
    requires
        label_prefix(p),
    ensures
        is_label_line(p + decimal(k)),
        !is_jump_line(p + decimal(k)),
        !is_function_line(p + decimal(k)),
        label_num(p + decimal(k)) == k,
{
    lemma_label_prefixes();
    lemma_decimal_digits(k);
    let l = p + decimal(k);
    assert(l.take(6) =~= p.take(6));
    lemma_first_char(l);
    assert(l[0] == p[0]);
    assert(numbered(l, p, k));
    assert(has_number(l, k));
    let k2 = choose|k: nat| has_number(l, k);
    assert(label_num(l) == k2);
    let q = choose|q: Seq<char>| #[trigger] numbered(l, q, k2);
    lemma_decimal_digits(k2);
    if p.len() < q.len() {
        assert(l[q.len() - 1] == q.last());
        assert(l[q.len() - 1] == decimal(k)[q.len() - 1 - p.len()]);
    } else if q.len() < p.len() {
        assert(l[p.len() - 1] == p.last());
        assert(l[p.len() - 1] == decimal(k2)[p.len() - 1 - q.len()]);
    } else {
        assert(l.skip(p.len() as int) =~= decimal(k));
        assert(l.skip(q.len() as int) =~= decimal(k2));
        lemma_decimal_injective(k, k2);
    }
}

/// Two label prefixes of one `if` or `while` give different lines.
pub proof fn lemma_label_prefixes_differ(p1: Seq<char>, p2: Seq<char>, d: Seq<char>)
    requires
        label_prefix(p1),
        label_prefix(p2),
        p1 != p2,
    ensures
        p1 + d != p2 + d,
{
    if p1 + d == p2 + d {
        assert((p1 + d).len() == p1.len() + d.len());
        assert((p2 + d).len() == p2.len() + d.len());
        assert(p1.len() == p2.len());
        assert((p1 + d).take(p1.len() as int) =~= p1);
        assert((p2 + d).take(p2.len() as int) =~= p2);
        assert(false);
    }
}

/// The jump lines of an `if` and a `while`, and the labels they go to.
pub proof fn lemma_jump_lines(d: Seq<char>)
    ensures
        is_jump_line("if-goto IF_TRUE"@ + d) && jump_label("if-goto IF_TRUE"@ + d) == "label IF_TRUE"@ + d,
        is_jump_line("goto IF_FALSE"@ + d) && jump_label("goto IF_FALSE"@ + d) == "label IF_FALSE"@ + d,
        is_jump_line("goto IF_END"@ + d) && jump_label("goto IF_END"@ + d) == "label IF_END"@ + d,
        is_jump_line("if-goto WHILE_END"@ + d) && jump_label("if-goto WHILE_END"@ + d) == "label WHILE_END"@
            + d,
        is_jump_line("goto WHILE_EXP"@ + d) && jump_label("goto WHILE_EXP"@ + d) == "label WHILE_EXP"@ + d,
        !is_label_line("if-goto IF_TRUE"@ + d) && !is_function_line("if-goto IF_TRUE"@ + d),
        !is_label_line("goto IF_FALSE"@ + d) && !is_function_line("goto IF_FALSE"@ + d),
        !is_label_line("goto IF_END"@ + d) && !is_function_line("goto IF_END"@ + d),
        !is_label_line("if-goto WHILE_END"@ + d) && !is_function_line("if-goto WHILE_END"@ + d),
        !is_label_line("goto WHILE_EXP"@ + d) && !is_function_line("goto WHILE_EXP"@ + d),
{
    reveal_strlit("label ");
    reveal_strlit("goto ");
    reveal_strlit("if-goto ");
    reveal_strlit("if-goto IF_TRUE");
    reveal_strlit("goto IF_FALSE");
    reveal_strlit("goto IF_END");
    reveal_strlit("if-goto WHILE_END");
    reveal_strlit("goto WHILE_EXP");
    reveal_strlit("label IF_TRUE");
    reveal_strlit("label IF_FALSE");
    reveal_strlit("label IF_END");
    reveal_strlit("label WHILE_END");
    reveal_strlit("label WHILE_EXP");
    let a = "if-goto IF_TRUE"@ + d;
    assert(a.take(8) =~= "if-goto "@);
    assert(!is_goto_line(a)) by { lemma_first_char(a); assert(a[0] == 'i'); }
    assert("label "@ + a.skip(8) =~= "label IF_TRUE"@ + d);
    lemma_first_char(a);
    assert(a[0] == 'i');
    let b = "goto IF_FALSE"@ + d;
    assert(b.take(5) =~= "goto "@);
    assert("label "@ + b.skip(5) =~= "label IF_FALSE"@ + d);
    lemma_first_char(b);
    assert(b[0] == 'g');
    let c = "goto IF_END"@ + d;
    assert(c.take(5) =~= "goto "@);
    assert("label "@ + c.skip(5) =~= "label IF_END"@ + d);
    lemma_first_char(c);
    assert(c[0] == 'g');
    let e = "if-goto WHILE_END"@ + d;
    assert(e.take(8) =~= "if-goto "@);
    assert(!is_goto_line(e)) by { lemma_first_char(e); assert(e[0] == 'i'); }
    assert("label "@ + e.skip(8) =~= "label WHILE_END"@ + d);
    lemma_first_char(e);
    let g = "goto WHILE_EXP"@ + d;
    assert(g.take(5) =~= "goto "@);
    assert("label "@ + g.skip(5) =~= "label WHILE_EXP"@ + d);
    lemma_first_char(g);
    assert(g[0] == 'g');
}

// ---------------------------------------------------------------------------
// Putting stretches together
// ---------------------------------------------------------------------------

/// Whether `c` keeps the first `n` lines of `b`.
pub open spec fn extends(b: Seq<Seq<char>>, c: Seq<Seq<char>>) -> bool {
    b.len() <= c.len() && forall|i: int| 0 <= i < b.len() ==> #[trigger] c[i] == b[i]
}

/// A jump that has its label keeps it when more lines are written.
pub proof fn lemma_has_label_extends(b: Seq<Seq<char>>, c: Seq<Seq<char>>, i: int)
    requires
        extends(b, c),
        0 <= i < b.len(),
        has_label(b, i),
    ensures
        has_label(c, i),
{
    let j = choose|j: int| 0 <= j < b.len() && b[j] == jump_label(b[i]) && no_fn_between(b, i, j);
    assert(c[j] == b[j] && c[i] == b[i]);
    assert forall|m: int| (i <= m <= j || j <= m <= i) implies !is_function_line(#[trigger] c[m]) by {
        assert(c[m] == b[m]);
    }
}

/// Two stretches of statement code, one after the other, make one.
pub proof fn lemma_stmt_ext_trans(a: EngineModel, b: EngineModel, c: EngineModel)
    requires
        extends(a.out, b.out),
        extends(b.out, c.out),
        a.labels <= b.labels <= c.labels,
        stmt_ext(a, b),
        stmt_ext(b, c),
    ensures
        stmt_ext(a, c),
{
    lemma_labels_ext_trans(a, b, c);
    lemma_jumps_ext_trans(a, b, c);
}

/// Label facts of two stretches, one after the other.
pub proof fn lemma_labels_ext_trans(a: EngineModel, b: EngineModel, c: EngineModel)
    requires
        extends(a.out, b.out),
        extends(b.out, c.out),
        a.labels <= b.labels <= c.labels,
        labels_ext(a, b),
        labels_ext(b, c),
    ensures
        labels_ext(a, c),
{
    assert forall|i: int| a.out.len() <= i < c.out.len() && is_label_line(#[trigger] c.out[i]) implies a.labels
        <= label_num(c.out[i]) < c.labels by {
        if i < b.out.len() {
            assert(c.out[i] == b.out[i]);
        }
    }
    assert forall|i: int, j: int|
        a.out.len() <= i < c.out.len() && a.out.len() <= j < c.out.len() && i != j && is_label_line(
            #[trigger] c.out[i],
        ) implies c.out[i] != #[trigger] c.out[j] by {
        if i < b.out.len() {
            assert(c.out[i] == b.out[i]);
        }
        if j < b.out.len() {
            assert(c.out[j] == b.out[j]);
        }
        if i < b.out.len() && j >= b.out.len() && c.out[i] == c.out[j] {
            assert(is_label_line(c.out[j]));
        }
        if j < b.out.len() && i >= b.out.len() && c.out[i] == c.out[j] {
            assert(is_label_line(b.out[j]));
        }
    }
}

/// Jump facts of two stretches, one after the other.
pub proof fn lemma_jumps_ext_trans(a: EngineModel, b: EngineModel, c: EngineModel)
    requires
        extends(a.out, b.out),
        extends(b.out, c.out),
        jumps_ext(a, b),
        jumps_ext(b, c),
    ensures
        jumps_ext(a, c),
{
    assert forall|i: int| a.out.len() <= i < c.out.len() && is_jump_line(#[trigger] c.out[i]) implies has_label(
        c.out,
        i,
    ) by {
        if i < b.out.len() {
            assert(c.out[i] == b.out[i]);
            lemma_has_label_extends(b.out, c.out, i);
        }
    }
}


/// The lines `out[lo..hi]` hold no function header, their label lines are
/// distinct and carry numbers in `klo..khi`, and their jump lines have
/// their labels in `out`, within their function.
pub open spec fn region(out: Seq<Seq<char>>, lo: int, hi: int, klo: int, khi: int) -> bool {
    &&& 0 <= lo <= hi <= out.len()
    &&& forall|i: int| lo <= i < hi ==> !is_function_line(#[trigger] out[i])
    &&& forall|i: int| lo <= i < hi && is_label_line(#[trigger] out[i]) ==> klo <= label_num(out[i]) < khi
    &&& forall|i: int, j: int|
        lo <= i < hi && lo <= j < hi && i != j && is_label_line(#[trigger] out[i]) ==> out[i] != #[trigger] out[j]
    &&& forall|i: int| lo <= i < hi && is_jump_line(#[trigger] out[i]) ==> has_label(out, i)
}

/// A stretch of statement code, seen in the output it ends up in.
pub proof fn lemma_stmt_region(a: EngineModel, b: EngineModel, out: Seq<Seq<char>>)
    requires
        extends(a.out, b.out),
        extends(b.out, out),
        stmt_ext(a, b),
    ensures
        region(out, a.out.len() as int, b.out.len() as int, a.labels, b.labels),
{
    assert forall|i: int| a.out.len() <= i < b.out.len() && is_jump_line(#[trigger] out[i]) implies has_label(
        out,
        i,
    ) by {
        assert(out[i] == b.out[i]);
        lemma_has_label_extends(b.out, out, i);
    }
    assert forall|i: int| a.out.len() <= i < b.out.len() implies !is_function_line(#[trigger] out[i]) by {
        assert(out[i] == b.out[i]);
    }
    assert forall|i: int| a.out.len() <= i < b.out.len() && is_label_line(#[trigger] out[i]) implies a.labels
        <= label_num(out[i]) < b.labels by {
        assert(out[i] == b.out[i]);
    }
    assert forall|i: int, j: int|
        a.out.len() <= i < b.out.len() && a.out.len() <= j < b.out.len() && i != j && is_label_line(
            #[trigger] out[i],
        ) implies out[i] != #[trigger] out[j] by {
        assert(out[i] == b.out[i]);
        assert(out[j] == b.out[j]);
    }
}

/// A whole stretch of statement code gives its statement facts.
pub proof fn lemma_region_stmt(a: EngineModel, b: EngineModel)
    requires
        region(b.out, a.out.len() as int, b.out.len() as int, a.labels, b.labels),
    ensures
        stmt_ext(a, b),
{
}

proof fn lemma_label_prefixes_distinct()
    ensures
        "label IF_TRUE"@ != "label IF_FALSE"@,
        "label IF_TRUE"@ != "label IF_END"@,
        "label IF_FALSE"@ != "label IF_END"@,
        "label WHILE_EXP"@ != "label WHILE_END"@,
{
    reveal_strlit("label IF_TRUE");
    reveal_strlit("label IF_FALSE");
    reveal_strlit("label IF_END");
    reveal_strlit("label WHILE_EXP");
    reveal_strlit("label WHILE_END");
    assert("label IF_TRUE"@.len() == 13 && "label IF_FALSE"@.len() == 14 && "label IF_END"@.len() == 12);
    assert("label WHILE_EXP"@[13] == 'X' && "label WHILE_END"@[13] == 'N');
}

/// An `if` statement's code: the condition (plain lines), its jumps and
/// labels numbered `k`, and the code of its branches, whose labels have
/// higher numbers.
pub proof fn lemma_if_region(
    out: Seq<Seq<char>>,
    lo: int,
    p: int,
    q: int,
    r: int,
    k: nat,
    m1: int,
    m2: int,
    has_else: bool,
)
    requires
        0 <= lo <= p,
        p + 3 <= q,
        forall|i: int| lo <= i < p ==> plain(#[trigger] out[i]),
        out[p] == "if-goto IF_TRUE"@ + decimal(k),
        out[p + 1] == "goto IF_FALSE"@ + decimal(k),
        out[p + 2] == "label IF_TRUE"@ + decimal(k),
        region(out, p + 3, q, (k + 1) as int, m1),
        k + 1 <= m1,
        has_else ==> out[q] == "goto IF_END"@ + decimal(k) && out[q + 1] == "label IF_FALSE"@ + decimal(k)
            && q + 2 <= r && region(out, q + 2, r, m1, m2) && m1 <= m2 && out[r] == "label IF_END"@
            + decimal(k) && out.len() == r + 1,
        !has_else ==> out[q] == "label IF_FALSE"@ + decimal(k) && out.len() == q + 1,
    ensures
        region(out, lo, out.len() as int, k as int, if has_else { m2 } else { m1 }),
{
    let d = decimal(k);
    let hi = out.len() as int;
    let kh = if has_else { m2 } else { m1 };
    lemma_jump_lines(d);
    lemma_label_line("label IF_TRUE"@, k);
    lemma_label_line("label IF_FALSE"@, k);
    lemma_label_line("label IF_END"@, k);
    lemma_label_prefixes_distinct();
    let lf = if has_else { q + 1 } else { q };
    // the lines of the `if` itself

    assert forall|i: int| lo <= i < hi implies !is_function_line(#[trigger] out[i]) by {
        if lo <= i < p {
            assert(plain(out[i]));
        }
    }
    assert forall|i: int| lo <= i < hi && is_label_line(#[trigger] out[i]) implies k <= label_num(out[i]) < kh by {
        if lo <= i < p {
            assert(plain(out[i]));
        }
    }
    assert forall|i: int, j: int|
        lo <= i < hi && lo <= j < hi && i != j && is_label_line(#[trigger] out[i]) implies out[i] != #[trigger] out[j] by {
        if lo <= i < p {
            assert(plain(out[i]));
        }
        if out[i] == out[j] {
            if lo <= j < p {
                assert(plain(out[j]));
            }
            if i == p + 2 && j == lf || i == lf && j == p + 2 {
                lemma_label_prefixes_differ("label IF_TRUE"@, "label IF_FALSE"@, d);
            }
            if has_else && (i == p + 2 && j == r || i == r && j == p + 2) {
                lemma_label_prefixes_differ("label IF_TRUE"@, "label IF_END"@, d);
            }
            if has_else && (i == lf && j == r || i == r && j == lf) {
                lemma_label_prefixes_differ("label IF_FALSE"@, "label IF_END"@, d);
            }
        }
    }
    assert forall|i: int| lo <= i < hi && is_jump_line(#[trigger] out[i]) implies has_label(out, i) by {
        if lo <= i < p {
            assert(plain(out[i]));
        } else if i == p {
            assert(no_fn_between(out, p, p + 2));
            assert(out[p + 2] == jump_label(out[p]));
        } else if i == p + 1 {
            assert forall|m: int| (p + 1 <= m <= lf || lf <= m <= p + 1) implies !is_function_line(#[trigger] out[m]) by {
            }
            assert(out[lf] == jump_label(out[p + 1]));
        } else if has_else && i == q {
            assert forall|m: int| (q <= m <= r || r <= m <= q) implies !is_function_line(#[trigger] out[m]) by {
            }
            assert(out[r] == jump_label(out[q]));
        }
    }
}

/// A `while` statement's code: its first label, the condition (plain
/// lines), the exit test, the body, whose labels have higher numbers, and
/// the jump back before the last label.
pub proof fn lemma_while_region(out: Seq<Seq<char>>, lo: int, p: int, q: int, k: nat, m1: int)
    requires
        0 <= lo,
        lo + 1 <= p,
        p + 2 <= q,
        out[lo] == "label WHILE_EXP"@ + decimal(k),
        forall|i: int| lo + 1 <= i < p ==> plain(#[trigger] out[i]),
        plain(out[p]),
        out[p + 1] == "if-goto WHILE_END"@ + decimal(k),
        region(out, p + 2, q, (k + 1) as int, m1),
        k + 1 <= m1,
        out[q] == "goto WHILE_EXP"@ + decimal(k),
        out[q + 1] == "label WHILE_END"@ + decimal(k),
        out.len() == q + 2,
    ensures
        region(out, lo, out.len() as int, k as int, m1),
{
    let d = decimal(k);
    let hi = out.len() as int;
    lemma_jump_lines(d);
    lemma_label_line("label WHILE_EXP"@, k);
    lemma_label_line("label WHILE_END"@, k);
    lemma_label_prefixes_distinct();
    assert forall|i: int| lo <= i < hi implies !is_function_line(#[trigger] out[i]) by {
        if lo + 1 <= i < p {
            assert(plain(out[i]));
        }
    }
    assert forall|i: int| lo <= i < hi && is_label_line(#[trigger] out[i]) implies k <= label_num(out[i]) < m1 by {
        if lo + 1 <= i <= p {
            assert(plain(out[i]));
        }
    }
    assert forall|i: int, j: int|
        lo <= i < hi && lo <= j < hi && i != j && is_label_line(#[trigger] out[i]) implies out[i] != #[trigger] out[j] by {
        if lo + 1 <= i <= p {
            assert(plain(out[i]));
        }
        if out[i] == out[j] {
            if lo + 1 <= j <= p {
                assert(plain(out[j]));
            }
            if i == lo && j == q + 1 || i == q + 1 && j == lo {
                lemma_label_prefixes_differ("label WHILE_EXP"@, "label WHILE_END"@, d);
            }
        }
    }
    assert forall|i: int| lo <= i < hi && is_jump_line(#[trigger] out[i]) implies has_label(out, i) by {
        if lo + 1 <= i <= p {
            assert(plain(out[i]));
        } else if i == p + 1 {
            assert forall|m: int| (p + 1 <= m <= q + 1 || q + 1 <= m <= p + 1) implies !is_function_line(#[trigger] out[m]) by {
                if lo + 1 <= m <= p {
                    assert(plain(out[m]));
                }
            }
            assert(out[q + 1] == jump_label(out[p + 1]));
        } else if i == q {
            assert forall|m: int| (q <= m <= lo || lo <= m <= q) implies !is_function_line(#[trigger] out[m]) by {
                if lo + 1 <= m <= p {
                    assert(plain(out[m]));
                }
            }
            assert(out[lo] == jump_label(out[q]));
        }
    }
}


/// A subroutine's code: its entry lines (the `function` line first, or
/// after a method's `pop pointer 0`, then plain lines) and its statements.
pub proof fn lemma_body_unit(a: EngineModel, e: EngineModel, b: EngineModel)
    requires
        extends(a.out, e.out),
        extends(e.out, b.out),
        e.labels == a.labels,
        forall|i: int| a.out.len() <= i < e.out.len() ==> !is_label_line(#[trigger] e.out[i]) && !is_jump_line(
            e.out[i],
        ),
        a.out.len() < e.out.len(),
        is_function_line(e.out[a.out.len() as int]) || (e.out[a.out.len() as int] == "pop pointer 0"@
            && a.out.len() + 1 < e.out.len() && is_function_line(e.out[a.out.len() as int + 1])),
        stmt_ext(e, b),
    ensures
        unit_ext(a, b),
{
    let lo = a.out.len() as int;
    let mid = e.out.len() as int;
    assert(b.out[lo] == e.out[lo]);
    assert(mid > lo + 1 ==> b.out[lo + 1] == e.out[lo + 1]);
    assert forall|i: int| lo <= i < b.out.len() && is_label_line(#[trigger] b.out[i]) implies a.labels
        <= label_num(b.out[i]) < b.labels by {
        if i < mid {
            assert(b.out[i] == e.out[i]);
        }
    }
    assert forall|i: int, j: int|
        lo <= i < b.out.len() && lo <= j < b.out.len() && i != j && is_label_line(#[trigger] b.out[i]) implies b.out[i]
            != #[trigger] b.out[j] by {
        if i < mid {
            assert(b.out[i] == e.out[i]);
        }
        if j < mid {
            assert(b.out[j] == e.out[j]);
        }
    }
    assert forall|i: int| lo <= i < b.out.len() && is_jump_line(#[trigger] b.out[i]) implies has_label(b.out, i) by {
        if i < mid {
            assert(b.out[i] == e.out[i]);
        }
    }
    assert forall|i: int|
        lo <= i < b.out.len() && (forall|m: int| lo <= m <= i ==> !is_function_line(#[trigger] b.out[m])) implies #[trigger] b.out[i]
            == "pop pointer 0"@ by {
        if i > lo {
            assert(!is_function_line(b.out[lo]));
            assert(!is_function_line(b.out[lo + 1]));
        } else {
            assert(!is_function_line(b.out[lo]));
        }
    }
}

/// Two stretches of subroutine code, one after the other, make one.
pub proof fn lemma_unit_ext_trans(a: EngineModel, b: EngineModel, c: EngineModel)
    requires
        extends(a.out, b.out),
        extends(b.out, c.out),
        a.labels <= b.labels <= c.labels,
        unit_ext(a, b),
        unit_ext(b, c),
    ensures
        unit_ext(a, c),
{
    lemma_labels_ext_trans(a, b, c);
    lemma_jumps_ext_trans(a, b, c);
    assert forall|i: int|
        a.out.len() <= i < c.out.len() && (forall|m: int| a.out.len() <= m <= i ==> !is_function_line(
            #[trigger] c.out[m],
        )) implies #[trigger] c.out[i] == "pop pointer 0"@ by {
        if i < b.out.len() {
            assert(c.out[i] == b.out[i]);
            assert forall|m: int| a.out.len() <= m <= i implies !is_function_line(#[trigger] b.out[m]) by {
                assert(c.out[m] == b.out[m]);
            }
        } else {
            assert forall|m: int| b.out.len() <= m <= i implies !is_function_line(#[trigger] c.out[m]) by {
            }
        }
    }
}

/// The code of a class compiled from an empty output is well formed.
pub proof fn lemma_unit_code_ok(a: EngineModel, b: EngineModel)
    requires
        a.out.len() == 0,
        unit_ext(a, b),
    ensures
        vm_code_ok(b.out),
{
}


/// The line that takes a method's object as `this`.
pub proof fn lemma_pop_pointer_line()
    ensures
        pop_line(Scope::Pointer, 0) == "pop pointer 0"@,
{
    reveal_strlit("pop ");
    reveal_strlit("pointer");
    reveal_strlit(" ");
    reveal_strlit("pop pointer 0");
    assert(decimal(0) =~= seq!['0']) by {
        assert(digit_char(0) as nat == 48);
    }
    assert(pop_line(Scope::Pointer, 0) =~= "pop pointer 0"@);
}

} // verus!
