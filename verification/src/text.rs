//! Character-sequence helpers shared by the three translators: conversion
//! between `str`/`String` and `Vec<char>`, literal comparison, trimming,
//! decimal formatting and parsing.
use vstd::prelude::*;

verus! {

// ---------------------------------------------------------------------------
// Outside calls into std
// ---------------------------------------------------------------------------

/// Appends one character to a `String` (std's `String::push`): the text after
/// the call is the text before it followed by `c`.
#[verifier::external_body]
pub(crate) fn push_char(s: &mut String, c: char)
    ensures
        final(s)@ == old(s)@.push(c),
{
    s.push(c);
}

// ---------------------------------------------------------------------------
// Conversions
// ---------------------------------------------------------------------------

/// The characters of `s`, in order.
pub fn chars_of(s: &str) -> (r: Vec<char>)
    ensures
        r@ == s@,
{
    let n = s.unicode_len();
    let mut r: Vec<char> = Vec::new();
    let mut i: usize = 0;
    while i < n
        invariant
            n == s@.len(),
            i <= n,
            r@ == s@.take(i as int),
        decreases n - i,
    {
        let c = s.get_char(i);
        r.push(c);
        assert(s@.take(i + 1) =~= s@.take(i as int).push(c));
        i = i + 1;
    }
    assert(s@.take(n as int) =~= s@);
    r
}

/// A `String` holding the characters of `v[from..to]`.
pub fn string_of_range(v: &[char], from: usize, to: usize) -> (r: String)
    requires
        from <= to <= v@.len(),
    ensures
        r@ == v@.subrange(from as int, to as int),
{
    let mut r = String::new();
    let mut i: usize = from;
    while i < to
        invariant
            from <= i <= to <= v@.len(),
            r@ == v@.subrange(from as int, i as int),
        decreases to - i,
    {
        push_char(&mut r, v[i]);
        assert(v@.subrange(from as int, i + 1) =~= v@.subrange(from as int, i as int).push(v@[i as int]));
        i = i + 1;
    }
    r
}

/// A `String` holding the characters of `v`.
pub fn string_of(v: &[char]) -> (r: String)
    ensures
        r@ == v@,
{
    let r = string_of_range(v, 0, v.len());
    assert(v@.subrange(0, v@.len() as int) =~= v@);
    r
}

/// `a` followed by `b`, as a new `String`.
pub fn concat2(a: &str, b: &str) -> (r: String)
    ensures
        r@ == a@ + b@,
{
    let mut r = String::from_str(a);
    r.append(b);
    r
}

/// `a`, `b` and `c` one after another, as a new `String`.
pub fn concat3(a: &str, b: &str, c: &str) -> (r: String)
    ensures
        r@ == a@ + b@ + c@,
{
    let mut r = String::from_str(a);
    r.append(b);
    r.append(c);
    r
}

// ---------------------------------------------------------------------------
// ASCII case
// ---------------------------------------------------------------------------

/// ASCII lower-casing of one character.
pub open spec fn ascii_lower(c: char) -> char {
    if 'A' <= c && c <= 'Z' {
        ((c as u32) + 32) as char
    } else {
        c
    }
}

/// ASCII upper-casing of one character.
pub open spec fn ascii_upper(c: char) -> char {
    if 'a' <= c && c <= 'z' {
        ((c as u32) - 32) as char
    } else {
        c
    }
}

/// Equality up to ASCII case (std's `str::eq_ignore_ascii_case`).
pub open spec fn eq_ignore_ascii_case(a: Seq<char>, b: Seq<char>) -> bool {
    a.len() == b.len() && forall|i: int| 0 <= i < a.len() ==> ascii_lower(#[trigger] a[i]) == ascii_lower(b[i])
}

/// ASCII lower-casing of every character.
pub open spec fn ascii_lower_all(s: Seq<char>) -> Seq<char> {
    s.map_values(|c: char| ascii_lower(c))
}

/// ASCII upper-casing of every character.
pub open spec fn ascii_upper_all(s: Seq<char>) -> Seq<char> {
    s.map_values(|c: char| ascii_upper(c))
}

// ---------------------------------------------------------------------------
// Comparison and search
// ---------------------------------------------------------------------------

/// Whether the two strings hold the same characters.
pub fn str_eq(a: &str, b: &str) -> (r: bool)
    ensures
        r == (a@ == b@),
{
    let n = a.unicode_len();
    let m = b.unicode_len();
    if n != m {
        return false;
    }
    let mut i: usize = 0;
    while i < n
        invariant
            n == a@.len(),
            m == b@.len(),
            n == m,
            i <= n,
            forall|j: int| 0 <= j < i ==> a@[j] == b@[j],
        decreases n - i,
    {
        if a.get_char(i) != b.get_char(i) {
            return false;
        }
        i = i + 1;
    }
    assert(a@ =~= b@);
    true
}

/// Whether the characters `v` are those of `b`.
pub fn chars_eq_str(v: &[char], b: &str) -> (r: bool)
    ensures
        r == (v@ == b@),
{
    let m = b.unicode_len();
    if v.len() != m {
        return false;
    }
    let mut i: usize = 0;
    while i < m
        invariant
            m == b@.len(),
            v@.len() == m,
            i <= m,
            forall|j: int| 0 <= j < i ==> v@[j] == b@[j],
        decreases m - i,
    {
        if v[i] != b.get_char(i) {
            return false;
        }
        i = i + 1;
    }
    assert(v@ =~= b@);
    true
}

/// Whether `c` occurs in `v`.
pub fn contains_char(v: &[char], c: char) -> (r: bool)
    ensures
        r == v@.contains(c),
{
    let mut i: usize = 0;
    while i < v.len()
        invariant
            i <= v@.len(),
            forall|j: int| 0 <= j < i ==> v@[j] != c,
        decreases v@.len() - i,
    {
        if v[i] == c {
            assert(v@[i as int] == c);
            return true;
        }
        i = i + 1;
    }
    false
}

/// The number of occurrences of `c` in `s`.
pub open spec fn count_char(s: Seq<char>, c: char) -> nat
    decreases s.len(),
{
    if s.len() == 0 {
        0
    } else {
        count_char(s.drop_last(), c) + if s.last() == c { 1nat } else { 0nat }
    }
}

pub proof fn lemma_count_char_pos(s: Seq<char>, c: char)
    ensures
        (count_char(s, c) > 0) == s.contains(c),
        count_char(s, c) <= s.len(),
    decreases s.len(),
{
    if s.len() > 0 {
        lemma_count_char_pos(s.drop_last(), c);
        if s.drop_last().contains(c) {
            let k = choose|k: int| 0 <= k < s.drop_last().len() && s.drop_last()[k] == c;
            assert(s[k] == c);
        }
        if s.contains(c) && s.last() != c {
            let k = choose|k: int| 0 <= k < s.len() && s[k] == c;
            assert(s.drop_last()[k] == c);
        }
        if s.last() == c {
            assert(s[s.len() - 1] == c);
        }
    }
}

/// The index of the first occurrence of `c` in `s`, or `s.len()` where there is none.
pub open spec fn first_index_of(s: Seq<char>, c: char) -> int
    decreases s.len(),
{
    if s.len() == 0 {
        0
    } else if s[0] == c {
        0
    } else {
        1 + first_index_of(s.drop_first(), c)
    }
}

pub proof fn lemma_first_index_of(s: Seq<char>, c: char)
    ensures
        0 <= first_index_of(s, c) <= s.len(),
        forall|j: int| 0 <= j < first_index_of(s, c) ==> s[j] != c,
        first_index_of(s, c) < s.len() ==> s[first_index_of(s, c)] == c,
        (first_index_of(s, c) == s.len()) == !s.contains(c),
        (first_index_of(s, c) < s.len()) == (count_char(s, c) > 0),
    decreases s.len(),
{
    lemma_count_char_pos(s, c);
    if s.len() > 0 && s[0] != c {
        lemma_first_index_of(s.drop_first(), c);
        assert forall|j: int| 0 <= j < first_index_of(s, c) implies s[j] != c by {
            if j > 0 {
                assert(s[j] == s.drop_first()[j - 1]);
            }
        }
        if s.contains(c) {
            let k = choose|k: int| 0 <= k < s.len() && s[k] == c;
            assert(s.drop_first()[k - 1] == c);
        }
        if s.drop_first().contains(c) {
            let k = choose|k: int| 0 <= k < s.drop_first().len() && s.drop_first()[k] == c;
            assert(s[k + 1] == c);
        }
    }
    if s.len() > 0 && s[0] == c {
        assert(s.contains(c));
    }
}

/// The index of the first occurrence of `c` in `v`, and the number of its
/// occurrences.
pub fn find_and_count(v: &[char], c: char) -> (r: (usize, usize))
    ensures
        r.0 == first_index_of(v@, c),
        r.1 == count_char(v@, c),
{
    let mut first: usize = v.len();
    let mut count: usize = 0;
    let mut i: usize = 0;
    proof {
        lemma_first_index_of(v@, c);
    }
    while i < v.len()
        invariant
            i <= v@.len(),
            count <= i,
            count == count_char(v@.take(i as int), c),
            first == (if first_index_of(v@, c) < i { first_index_of(v@, c) } else { v@.len() as int }),
            0 <= first_index_of(v@, c) <= v@.len(),
            forall|j: int| 0 <= j < first_index_of(v@, c) ==> v@[j] != c,
            first_index_of(v@, c) < v@.len() ==> v@[first_index_of(v@, c)] == c,
        decreases v@.len() - i,
    {
        assert(v@.take(i + 1).drop_last() =~= v@.take(i as int));
        if v[i] == c {
            count = count + 1;
            if first == v.len() {
                first = i;
            }
        }
        i = i + 1;
    }
    assert(v@.take(v@.len() as int) =~= v@);
    (first, count)
}

// ---------------------------------------------------------------------------
// Whitespace and trimming
// ---------------------------------------------------------------------------

/// Unicode `White_Space`, the property that std's `char::is_whitespace` and
/// `str::trim` go by.
pub open spec fn is_ws(c: char) -> bool {
    ||| c == ' '
    ||| ('\u{9}' <= c && c <= '\u{d}')
    ||| c == '\u{85}'
    ||| c == '\u{a0}'
    ||| c == '\u{1680}'
    ||| ('\u{2000}' <= c && c <= '\u{200a}')
    ||| c == '\u{2028}'
    ||| c == '\u{2029}'
    ||| c == '\u{202f}'
    ||| c == '\u{205f}'
    ||| c == '\u{3000}'
}

/// Whether `c` is white space (Unicode `White_Space`).
pub fn is_whitespace(c: char) -> (r: bool)
    ensures
        r == is_ws(c),
{
    c == ' ' || ('\u{9}' <= c && c <= '\u{d}') || c == '\u{85}' || c == '\u{a0}' || c
        == '\u{1680}' || ('\u{2000}' <= c && c <= '\u{200a}') || c == '\u{2028}' || c
        == '\u{2029}' || c == '\u{202f}' || c == '\u{205f}' || c == '\u{3000}'
}

/// `s` without its leading white space.
pub open spec fn trim_start(s: Seq<char>) -> Seq<char>
    decreases s.len(),
{
    if s.len() > 0 && is_ws(s[0]) {
        trim_start(s.drop_first())
    } else {
        s
    }
}

/// `s` without its trailing white space.
pub open spec fn trim_end(s: Seq<char>) -> Seq<char>
    decreases s.len(),
{
    if s.len() > 0 && is_ws(s.last()) {
        trim_end(s.drop_last())
    } else {
        s
    }
}

/// `s` without leading and trailing white space (std's `str::trim`).
pub open spec fn trim(s: Seq<char>) -> Seq<char> {
    trim_end(trim_start(s))
}

/// The bounds `(from, to)` of `trim(v[lo..hi])` inside `v`.
pub fn trim_bounds(v: &[char], lo: usize, hi: usize) -> (r: (usize, usize))
    requires
        lo <= hi <= v@.len(),
    ensures
        lo <= r.0 <= r.1 <= hi,
        v@.subrange(r.0 as int, r.1 as int) == trim(v@.subrange(lo as int, hi as int)),
{
    let mut i: usize = lo;
    while i < hi && is_whitespace(v[i])
        invariant
            lo <= i <= hi <= v@.len(),
            trim_start(v@.subrange(lo as int, hi as int)) == trim_start(
                v@.subrange(i as int, hi as int),
            ),
        decreases hi - i,
    {
        assert(v@.subrange(i as int, hi as int).drop_first() =~= v@.subrange(i + 1, hi as int));
        i = i + 1;
    }
    if i < hi {
        assert(!is_ws(v@.subrange(i as int, hi as int)[0]));
    } else {
        assert(v@.subrange(i as int, hi as int).len() == 0);
    }
    assert(trim_start(v@.subrange(lo as int, hi as int)) == v@.subrange(i as int, hi as int));
    let mut j: usize = hi;
    while j > i && is_whitespace(v[j - 1])
        invariant
            lo <= i <= j <= hi <= v@.len(),
            trim(v@.subrange(lo as int, hi as int)) == trim_end(v@.subrange(i as int, j as int)),
        decreases j - i,
    {
        assert(v@.subrange(i as int, j as int).drop_last() =~= v@.subrange(i as int, j - 1));
        j = j - 1;
    }
    if j > i {
        assert(!is_ws(v@.subrange(i as int, j as int).last()));
    }
    (i, j)
}

// ---------------------------------------------------------------------------
// Decimal numbers
// ---------------------------------------------------------------------------

/// The ASCII digit for `d` (`0 <= d < 10`).
pub open spec fn digit_char(d: nat) -> char {
    ((d + 48) as u8) as char
}

/// Whether `c` is one of `0`..`9`.
pub open spec fn is_digit(c: char) -> bool {
    '0' <= c && c <= '9'
}

/// The value of an ASCII digit.
pub open spec fn digit_value(c: char) -> nat {
    (c as nat - 48) as nat
}

/// The decimal representation of `n`, without sign or leading zeros (`"0"` for zero).
pub open spec fn decimal(n: nat) -> Seq<char>
    decreases n,
{
    if n < 10 {
        seq![digit_char(n)]
    } else {
        decimal(n / 10).push(digit_char(n % 10))
    }
}

proof fn lemma_decimal_len(n: nat)
    ensures
        decimal(n).len() >= 1,
        n >= 10 ==> decimal(n).len() >= 2,
    decreases n,
{
    if n >= 10 {
        lemma_decimal_len(n / 10);
    }
}

/// Different numbers have different decimal forms.
pub proof fn lemma_decimal_injective(a: nat, b: nat)
    ensures
        decimal(a) == decimal(b) ==> a == b,
    decreases a,
{
    lemma_decimal_len(a);
    lemma_decimal_len(b);
    if decimal(a) == decimal(b) {
        if a < 10 && b < 10 {
            assert(decimal(a)[0] == decimal(b)[0]);
            assert(digit_char(a) as nat == a + 48);
            assert(digit_char(b) as nat == b + 48);
        } else if a >= 10 && b >= 10 {
            assert(decimal(a).drop_last() == decimal(b).drop_last());
            assert(decimal(a).drop_last() =~= decimal(a / 10));
            assert(decimal(b).drop_last() =~= decimal(b / 10));
            lemma_decimal_injective(a / 10, b / 10);
            assert(decimal(a).last() == decimal(b).last());
            assert(digit_char(a % 10) as nat == a % 10 + 48);
            assert(digit_char(b % 10) as nat == b % 10 + 48);
        }
    }
}

/// The decimal representation of `n`.
pub fn decimal_string(n: u64) -> (r: String)
    ensures
        r@ == decimal(n as nat),
    decreases n,
{
    if n < 10 {
        let mut r = String::new();
        push_char(&mut r, ((n as u8) + 48) as char);
        assert(r@ =~= seq![digit_char(n as nat)]);
        r
    } else {
        let mut r = decimal_string(n / 10);
        push_char(&mut r, (((n % 10) as u8) + 48) as char);
        r
    }
}

/// The value of a nonempty run of ASCII digits.
pub open spec fn digits_value(s: Seq<char>) -> nat
    decreases s.len(),
{
    if s.len() == 0 {
        0
    } else {
        digits_value(s.drop_last()) * 10 + digit_value(s.last())
    }
}

/// Whether every character of `s` is an ASCII digit.
pub open spec fn all_digits(s: Seq<char>) -> bool {
    forall|i: int| 0 <= i < s.len() ==> is_digit(#[trigger] s[i])
}

} // verus!

verus! {

/// What std's `str::parse::<u32>` gives: an optional `+` and at least one
/// digit, with a value that fits in `u32`.
pub open spec fn parse_u32(s: Seq<char>) -> Option<nat> {
    let body = if s.len() > 0 && s[0] == '+' { s.skip(1) } else { s };
    if body.len() == 0 || !all_digits(body) || digits_value(body) > 0xffff_ffff {
        None
    } else {
        Some(digits_value(body))
    }
}

/// The value of a run of digits is at least that of any of its prefixes.
pub proof fn lemma_digits_value_prefix_le(s: Seq<char>, k: int)
    requires
        0 <= k <= s.len(),
    ensures
        digits_value(s.take(k)) <= digits_value(s),
    decreases s.len() - k,
{
    if k < s.len() {
        lemma_digits_value_prefix_le(s, k + 1);
        assert(s.take(k + 1).drop_last() =~= s.take(k));
        assert(digits_value(s.take(k + 1)) == digits_value(s.take(k)) * 10 + digit_value(
            s.take(k + 1).last(),
        ));
    } else {
        assert(s.take(k) =~= s);
    }
}

/// Parses a decimal `u32` as std's `str::parse::<u32>` does.
pub fn parse_u32_exec(s: &str) -> (r: Option<u32>)
    ensures
        match r {
            Some(v) => parse_u32(s@) == Some(v as nat),
            None => parse_u32(s@) is None,
        },
{
    let v = chars_of(s);
    let n = v.len();
    let start: usize = if n > 0 && v[0] == '+' { 1 } else { 0 };
    let ghost body = v@.skip(start as int);
    assert(body == (if s@.len() > 0 && s@[0] == '+' { s@.skip(1) } else { s@ })) by {
        if start == 0 {
            assert(v@.skip(0) =~= v@);
        }
    }
    if start == n {
        return None;
    }
    let mut acc: u64 = 0;
    let mut i: usize = start;
    assert(v@.subrange(start as int, start as int) =~= Seq::<char>::empty());
    while i < n
        invariant
            start <= i <= n == v@.len(),
            start < n,
            v@ == s@,
            body == v@.skip(start as int),
            body == (if s@.len() > 0 && s@[0] == '+' { s@.skip(1) } else { s@ }),
            all_digits(v@.subrange(start as int, i as int)),
            acc == digits_value(v@.subrange(start as int, i as int)),
            acc <= 0xffff_ffff,
        decreases n - i,
    {
        let c = v[i];
        if !('0' <= c && c <= '9') {
            assert(!is_digit(body[i - start]));
            return None;
        }
        assert(v@.subrange(start as int, i + 1) =~= v@.subrange(start as int, i as int).push(c));
        assert(v@.subrange(start as int, i + 1).drop_last() =~= v@.subrange(start as int, i as int));
        acc = acc * 10 + ((c as u8) - 48) as u64;
        if acc > 0xffff_ffff {
            proof {
                lemma_digits_value_prefix_le(body, (i + 1 - start) as int);
                assert(body.take(i + 1 - start) =~= v@.subrange(start as int, i + 1));
            }
            return None;
        }
        i = i + 1;
    }
    assert(v@.subrange(start as int, n as int) =~= body);
    Some(acc as u32)
}

/// The whitespace-separated words of `s[i..]`, given the word `cur` being read
/// and the words `acc` already complete.
pub open spec fn words_from(s: Seq<char>, i: int, cur: Seq<char>, acc: Seq<Seq<char>>) -> Seq<Seq<char>>
    decreases s.len() - i,
{
    if i < 0 || i >= s.len() {
        if cur.len() > 0 { acc.push(cur) } else { acc }
    } else if is_ws(s[i]) {
        words_from(s, i + 1, Seq::empty(), if cur.len() > 0 { acc.push(cur) } else { acc })
    } else {
        words_from(s, i + 1, cur.push(s[i]), acc)
    }
}

/// The maximal runs of non-white-space characters of `s` (std's
/// `str::split_whitespace`).
pub open spec fn words(s: Seq<char>) -> Seq<Seq<char>> {
    words_from(s, 0, Seq::empty(), Seq::empty())
}

/// The words of an ASCII text are ASCII.
pub proof fn lemma_words_from_ascii(s: Seq<char>, i: int, cur: Seq<char>, acc: Seq<Seq<char>>)
    requires
        vstd::utf8::is_ascii_chars(s),
        vstd::utf8::is_ascii_chars(cur),
        forall|k: int| 0 <= k < acc.len() ==> vstd::utf8::is_ascii_chars(#[trigger] acc[k]),
    ensures
        forall|k: int| 0 <= k < words_from(s, i, cur, acc).len() ==> vstd::utf8::is_ascii_chars(
            #[trigger] words_from(s, i, cur, acc)[k],
        ),
    decreases s.len() - i,
{
    let acc2 = if cur.len() > 0 { acc.push(cur) } else { acc };
    assert forall|k: int| 0 <= k < acc2.len() implies vstd::utf8::is_ascii_chars(#[trigger] acc2[k]) by {
        if k < acc.len() {
            assert(acc2[k] == acc[k]);
        }
    }
    if i < 0 || i >= s.len() {
        assert(words_from(s, i, cur, acc) == acc2);
    } else if is_ws(s[i]) {
        assert(vstd::utf8::is_ascii_chars(Seq::<char>::empty()));
        lemma_words_from_ascii(s, i + 1, Seq::empty(), acc2);
        assert(words_from(s, i, cur, acc) == words_from(s, i + 1, Seq::empty(), acc2));
    } else {
        assert('\0' <= s[i] <= '\u{7f}');
        assert(vstd::utf8::is_ascii_chars(cur.push(s[i]))) by {
            assert forall|k: int| 0 <= k < cur.push(s[i]).len() implies '\0' <= #[trigger] cur.push(s[i])[k]
                <= '\u{7f}' by {
                if k < cur.len() {
                    assert(cur.push(s[i])[k] == cur[k]);
                }
            }
        }
        lemma_words_from_ascii(s, i + 1, cur.push(s[i]), acc);
        assert(words_from(s, i, cur, acc) == words_from(s, i + 1, cur.push(s[i]), acc));
    }
}

/// The whitespace-separated words of `v[..end]`.
pub fn split_words(v: &[char], end: usize) -> (r: Vec<String>)
    requires
        end <= v@.len(),
    ensures
        r@.map_values(|w: String| w@) == words(v@.take(end as int)),
{
    let ghost s = v@.take(end as int);
    let mut acc: Vec<String> = Vec::new();
    let mut cur = String::new();
    let mut i: usize = 0;
    assert(acc@.map_values(|w: String| w@) =~= Seq::<Seq<char>>::empty());
    while i < end
        invariant
            i <= end <= v@.len(),
            s == v@.take(end as int),
            words(s) == words_from(s, i as int, cur@, acc@.map_values(|w: String| w@)),
        decreases end - i,
    {
        let c = v[i];
        assert(s[i as int] == c);
        if is_whitespace(c) {
            if cur.as_str().unicode_len() > 0 {
                let ghost a = acc@.map_values(|w: String| w@);
                let ghost cv = cur@;
                acc.push(cur);
                assert(acc@.map_values(|w: String| w@) =~= a.push(cv));
            }
            cur = String::new();
        } else {
            push_char(&mut cur, c);
        }
        i = i + 1;
    }
    if cur.as_str().unicode_len() > 0 {
        let ghost a = acc@.map_values(|w: String| w@);
        let ghost cv = cur@;
        acc.push(cur);
        assert(acc@.map_values(|w: String| w@) =~= a.push(cv));
    }
    acc
}

} // verus!
