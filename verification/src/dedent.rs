//! Removing the indentation that all lines of a text share, as Python's
//! `textwrap.dedent` does, so that stubs may be written indented in Rust
//! string literals.

use vstd::prelude::*;
use vstd::utf8::{char_is_scalar, encode_scalar, encode_utf8};
use crate::text::{chars_of, join, join_chars, push_chars, string_of};

verus! {

/// Whether `c` has the Unicode `White_Space` property, which is what
/// `char::is_whitespace`, `str::trim` and `str::trim_start` test.
pub open spec fn is_white_space(c: char) -> bool {
    let u = c as u32;
    ||| 0x9 <= u <= 0xd
    ||| u == 0x20
    ||| u == 0x85
    ||| u == 0xa0
    ||| u == 0x1680
    ||| 0x2000 <= u <= 0x200a
    ||| u == 0x2028
    ||| u == 0x2029
    ||| u == 0x202f
    ||| u == 0x205f
    ||| u == 0x3000
}

/// The number of bytes of the UTF-8 encoding of `c`.
pub open spec fn char_width(c: char) -> nat {
    let u = c as u32;
    if u < 0x80 {
        1
    } else if u < 0x800 {
        2
    } else if u < 0x10000 {
        3
    } else {
        4
    }
}

/// The number of bytes of the UTF-8 encoding of `s`: what `str::len`
/// returns for a string holding `s`.
pub open spec fn utf8_size(s: Seq<char>) -> nat
    decreases s.len(),
{
    if s.len() == 0 {
        0
    } else {
        char_width(s[0]) + utf8_size(s.drop_first())
    }
}

/// The index of the first `'\n'` of `s` at or after `i`, or the length of
/// `s` when there is none.
pub open spec fn next_newline(s: Seq<char>, i: int) -> int
    decreases s.len() - i,
{
    if i < 0 || i >= s.len() {
        s.len() as int
    } else if s[i] == '\n' {
        i
    } else {
        next_newline(s, i + 1)
    }
}

/// A line without the `'\r'` that ends it, if one does.
pub open spec fn strip_cr(l: Seq<char>) -> Seq<char> {
    if l.len() > 0 && l.last() == '\r' {
        l.drop_last()
    } else {
        l
    }
}

/// The lines of `s` from index `start` on, as `str::lines` cuts them: at
/// each `'\n'`, with a `'\r'` just before it removed too; a last line
/// without `'\n'` counts when it is not empty.
pub open spec fn lines_from(s: Seq<char>, start: int) -> Seq<Seq<char>>
    decreases s.len() - start,
{
    if start < 0 || start >= s.len() {
        Seq::empty()
    } else {
        let j = next_newline(s, start);
        proof {
            lemma_next_newline_bounds(s, start);
        }
        if j < s.len() {
            seq![strip_cr(s.subrange(start, j))] + lines_from(s, j + 1)
        } else {
            seq![s.subrange(start, s.len() as int)]
        }
    }
}

/// The lines of `s` (see [`lines_from`]).
pub open spec fn lines(s: Seq<char>) -> Seq<Seq<char>> {
    lines_from(s, 0)
}

/// The index of the first character of `l` at or after `k` that is not
/// white space, or the length of `l`.
pub open spec fn first_non_space(l: Seq<char>, k: int) -> int
    decreases l.len() - k,
{
    if 0 <= k < l.len() && is_white_space(l[k]) {
        first_non_space(l, k + 1)
    } else {
        k
    }
}

/// Whether a line is empty once trimmed.
pub open spec fn is_blank(l: Seq<char>) -> bool {
    first_non_space(l, 0) == l.len()
}

/// The indentation of a line, in bytes: the size of its leading white
/// space.
pub open spec fn indent(l: Seq<char>) -> nat {
    utf8_size(l.subrange(0, first_non_space(l, 0)))
}

/// The least indentation among the first `n` lines that are not blank.
pub open spec fn min_indent(ls: Seq<Seq<char>>, n: nat) -> Option<nat>
    decreases n,
{
    if n == 0 || n > ls.len() {
        None
    } else {
        let prev = min_indent(ls, (n - 1) as nat);
        let l = ls[n - 1];
        if is_blank(l) {
            prev
        } else {
            match prev {
                None => Some(indent(l)),
                Some(p) => Some(if indent(l) < p { indent(l) } else { p }),
            }
        }
    }
}

/// The indentation that all lines share: the least among the lines that
/// are not blank, or 0 when all are blank.
pub open spec fn margin(ls: Seq<Seq<char>>) -> nat {
    match min_indent(ls, ls.len()) {
        Some(m) => m,
        None => 0,
    }
}

/// What is left of `l` once its first `m` bytes are gone; `None` when byte
/// `m` falls inside a character (or past the end).
pub open spec fn drop_bytes(l: Seq<char>, m: nat) -> Option<Seq<char>>
    decreases l.len(),
{
    if m == 0 {
        Some(l)
    } else if l.len() == 0 || char_width(l[0]) > m {
        None
    } else {
        drop_bytes(l.drop_first(), (m - char_width(l[0])) as nat)
    }
}

/// A line with `m` bytes taken from its start, when it has that many.
pub open spec fn cut_line(l: Seq<char>, m: nat) -> Seq<char> {
    if utf8_size(l) >= m {
        match drop_bytes(l, m) {
            Some(r) => r,
            None => l,
        }
    } else {
        l
    }
}

/// Whether the margin of `t` can be cut from each of its lines that is
/// long enough: the cut falls between two characters. Where it does not,
/// slicing the string panics.
pub open spec fn margin_on_char_boundaries(t: Seq<char>) -> bool {
    let ls = lines(t);
    forall|i: int|
        0 <= i < ls.len() && utf8_size(#[trigger] ls[i]) >= margin(ls) ==> drop_bytes(
            ls[i],
            margin(ls),
        ) is Some
}

/// Whether the leading white space of `l` is all ASCII.
pub open spec fn ascii_indent(l: Seq<char>) -> bool {
    forall|j: int| 0 <= j < first_non_space(l, 0) ==> (#[trigger] l[j] as u32) < 0x80
}

/// Whether the leading white space of every line of `t` is ASCII (for a
/// blank line: the whole line).
pub open spec fn indentation_is_ascii(t: Seq<char>) -> bool {
    forall|i: int| 0 <= i < lines(t).len() ==> ascii_indent(#[trigger] lines(t)[i])
}

/// The lines of `t` without their shared margin, joined by `'\n'`.
pub open spec fn dedented(t: Seq<char>) -> Seq<char> {
    let ls = lines(t);
    join(ls.map_values(|l: Seq<char>| cut_line(l, margin(ls))), seq!['\n'])
}

pub proof fn lemma_next_newline_bounds(s: Seq<char>, i: int)
    requires
        0 <= i,
    ensures
        i <= s.len() ==> i <= next_newline(s, i),
        next_newline(s, i) <= s.len(),
        next_newline(s, i) < s.len() ==> s[next_newline(s, i)] == '\n',
    decreases s.len() - i,
{
    if i < s.len() && s[i] != '\n' {
        lemma_next_newline_bounds(s, i + 1);
    }
}

proof fn lemma_next_newline_at(s: Seq<char>, a: int, b: int)
    requires
        0 <= a <= b <= s.len(),
        forall|j: int| a <= j < b ==> s[j] != '\n',
        b == s.len() || s[b] == '\n',
    ensures
        next_newline(s, a) == b,
    decreases b - a,
{
    if a < b {
        lemma_next_newline_at(s, a + 1, b);
    }
}

proof fn lemma_first_non_space_bounds(l: Seq<char>, k: int)
    requires
        0 <= k <= l.len(),
    ensures
        k <= first_non_space(l, k) <= l.len(),
    decreases l.len() - k,
{
    if k < l.len() && is_white_space(l[k]) {
        lemma_first_non_space_bounds(l, k + 1);
    }
}

pub proof fn lemma_size_concat(a: Seq<char>, b: Seq<char>)
    ensures
        utf8_size(a + b) == utf8_size(a) + utf8_size(b),
    decreases a.len(),
{
    if a.len() == 0 {
        assert(a + b =~= b);
    } else {
        assert((a + b).drop_first() =~= a.drop_first() + b);
        lemma_size_concat(a.drop_first(), b);
    }
}

proof fn lemma_size_one(c: char)
    ensures
        utf8_size(seq![c]) == char_width(c),
{
    assert(seq![c].drop_first() =~= Seq::<char>::empty());
    reveal_with_fuel(utf8_size, 2);
}

proof fn lemma_size_prefix_step(s: Seq<char>, i: int)
    requires
        0 <= i < s.len(),
    ensures
        utf8_size(s.subrange(0, i + 1)) == utf8_size(s.subrange(0, i)) + char_width(s[i]),
{
    assert(s.subrange(0, i + 1) =~= s.subrange(0, i) + seq![s[i]]);
    lemma_size_concat(s.subrange(0, i), seq![s[i]]);
    lemma_size_one(s[i]);
}

proof fn lemma_size_range(s: Seq<char>, i: int, j: int)
    requires
        0 <= i <= j <= s.len(),
    ensures
        utf8_size(s.subrange(i, j)) <= utf8_size(s),
        utf8_size(s.subrange(0, j)) <= utf8_size(s),
{
    assert(s =~= s.subrange(0, i) + s.subrange(i, j) + s.subrange(j, s.len() as int));
    lemma_size_concat(s.subrange(0, i) + s.subrange(i, j), s.subrange(j, s.len() as int));
    lemma_size_concat(s.subrange(0, i), s.subrange(i, j));
    assert(s =~= s.subrange(0, j) + s.subrange(j, s.len() as int));
    lemma_size_concat(s.subrange(0, j), s.subrange(j, s.len() as int));
}

proof fn lemma_size_drop_last(s: Seq<char>)
    requires
        s.len() > 0,
    ensures
        utf8_size(s.drop_last()) <= utf8_size(s),
{
    assert(s =~= s.drop_last() + seq![s.last()]);
    lemma_size_concat(s.drop_last(), seq![s.last()]);
}

/// The UTF-8 encoding of `s` has [`utf8_size`] bytes.
pub proof fn lemma_encoded_size(s: Seq<char>)
    ensures
        encode_utf8(s).len() == utf8_size(s),
    decreases s.len(),
{
    if s.len() > 0 {
        lemma_encoded_size(s.drop_first());
        char_is_scalar(s[0]);
        assert(encode_scalar(s[0] as u32).len() == char_width(s[0]));
    }
}

proof fn lemma_width_positive(c: char)
    ensures
        1 <= char_width(c) <= 4,
{
}

proof fn lemma_size_at_least_len(s: Seq<char>)
    ensures
        utf8_size(s) >= s.len(),
    decreases s.len(),
{
    if s.len() > 0 {
        lemma_size_at_least_len(s.drop_first());
    }
}

/// A longer prefix takes more bytes.
proof fn lemma_prefix_size_grows(l: Seq<char>, p: int, q: int)
    requires
        0 <= p < q <= l.len(),
    ensures
        utf8_size(l.subrange(0, p)) < utf8_size(l.subrange(0, q)),
{
    assert(l.subrange(0, q) =~= l.subrange(0, p) + l.subrange(p, q));
    lemma_size_concat(l.subrange(0, p), l.subrange(p, q));
    lemma_size_at_least_len(l.subrange(p, q));
}

/// Dropping the bytes of a prefix leaves the rest of the line.
proof fn lemma_drop_prefix(l: Seq<char>, p: int)
    requires
        0 <= p <= l.len(),
    ensures
        drop_bytes(l, utf8_size(l.subrange(0, p))) == Some(l.subrange(p, l.len() as int)),
    decreases p,
{
    if p == 0 {
        assert(l.subrange(0, 0) =~= Seq::<char>::empty());
        assert(l.subrange(0, l.len() as int) =~= l);
    } else {
        let t = l.drop_first();
        assert(l.subrange(0, p).drop_first() =~= t.subrange(0, p - 1));
        lemma_drop_prefix(t, p - 1);
        assert(t.subrange(p - 1, t.len() as int) =~= l.subrange(p, l.len() as int));
        lemma_width_positive(l[0]);
    }
}

/// What dropping bytes leaves is the rest of the line after a prefix of
/// exactly that many bytes.
proof fn lemma_drop_is_suffix(l: Seq<char>, m: nat) -> (p: int)
    requires
        drop_bytes(l, m) is Some,
    ensures
        0 <= p <= l.len(),
        utf8_size(l.subrange(0, p)) == m,
        drop_bytes(l, m) == Some(l.subrange(p, l.len() as int)),
    decreases l.len(),
{
    if m == 0 {
        assert(l.subrange(0, 0) =~= Seq::<char>::empty());
        assert(l.subrange(0, l.len() as int) =~= l);
        0
    } else {
        let t = l.drop_first();
        let q = lemma_drop_is_suffix(t, (m - char_width(l[0])) as nat);
        assert(l.subrange(0, q + 1).drop_first() =~= t.subrange(0, q));
        assert(t.subrange(q, t.len() as int) =~= l.subrange(q + 1, l.len() as int));
        q + 1
    }
}

proof fn lemma_first_non_space_spaces(l: Seq<char>, k: int)
    requires
        0 <= k <= l.len(),
    ensures
        forall|j: int| k <= j < first_non_space(l, k) ==> is_white_space(#[trigger] l[j]),
        first_non_space(l, k) < l.len() ==> !is_white_space(l[first_non_space(l, k)]),
    decreases l.len() - k,
{
    if k < l.len() && is_white_space(l[k]) {
        lemma_first_non_space_spaces(l, k + 1);
    }
}

/// The least indentation is at most that of each line counted, and is
/// that of one of them.
proof fn lemma_min_indent(ls: Seq<Seq<char>>, n: nat)
    requires
        n <= ls.len(),
    ensures
        forall|k: int|
            0 <= k < n && !is_blank(#[trigger] ls[k]) ==> min_indent(ls, n) is Some && min_indent(
                ls,
                n,
            )->0 <= indent(ls[k]),
        min_indent(ls, n) is Some ==> exists|k: int|
            0 <= k < n && !is_blank(#[trigger] ls[k]) && indent(ls[k]) == min_indent(ls, n)->0,
    decreases n,
{
    if n > 0 {
        lemma_min_indent(ls, (n - 1) as nat);
        if min_indent(ls, (n - 1) as nat) is Some {
            let k = choose|k: int|
                0 <= k < n - 1 && !is_blank(#[trigger] ls[k]) && indent(ls[k]) == min_indent(
                    ls,
                    (n - 1) as nat,
                )->0;
            assert(0 <= k < n && !is_blank(ls[k]));
        }
        if !is_blank(ls[n - 1]) {
            assert(0 <= n - 1 < n && !is_blank(ls[n - 1]));
        }
    }
}

/// The shared margin is at most the indentation of every line that is not
/// blank.
proof fn lemma_margin_bound(ls: Seq<Seq<char>>, k: int)
    requires
        0 <= k < ls.len(),
        !is_blank(ls[k]),
    ensures
        margin(ls) <= indent(ls[k]),
{
    lemma_min_indent(ls, ls.len());
}

/// A line without its margin: what is left after a prefix that holds only
/// white space.
proof fn lemma_cut_is_space_prefix(l: Seq<char>, m: nat) -> (p: int)
    requires
        utf8_size(l) >= m ==> drop_bytes(l, m) is Some,
        !is_blank(l) ==> m <= indent(l),
    ensures
        0 <= p <= l.len(),
        p <= first_non_space(l, 0) || is_blank(l),
        forall|j: int| 0 <= j < p ==> is_white_space(#[trigger] l[j]),
        cut_line(l, m) == l.subrange(p, l.len() as int),
        !is_blank(l) ==> (m == indent(l) <==> p == first_non_space(l, 0)),
{
    lemma_first_non_space_bounds(l, 0);
    lemma_first_non_space_spaces(l, 0);
    let f = first_non_space(l, 0);
    if utf8_size(l) >= m {
        let p = lemma_drop_is_suffix(l, m);
        if !is_blank(l) {
            if p > f {
                lemma_prefix_size_grows(l, f, p);
            }
            if p < f {
                lemma_prefix_size_grows(l, p, f);
            }
        } else {
            assert(f == l.len());
        }
        p
    } else {
        assert(l.subrange(0, l.len() as int) =~= l);
        if !is_blank(l) {
            lemma_size_range(l, 0, f);
            assert(m != indent(l));
            if f == 0 {
                assert(l.subrange(0, 0) =~= Seq::<char>::empty());
            }
            lemma_prefix_size_grows(l, 0, f);
            assert(l.subrange(0, 0) =~= Seq::<char>::empty());
        }
        0
    }
}

/// ASCII characters take one byte each.
proof fn lemma_size_ascii(p: Seq<char>)
    requires
        forall|j: int| 0 <= j < p.len() ==> (#[trigger] p[j] as u32) < 0x80,
    ensures
        utf8_size(p) == p.len(),
    decreases p.len(),
{
    if p.len() > 0 {
        assert forall|j: int| 0 <= j < p.drop_first().len() implies (
        #[trigger] p.drop_first()[j] as u32) < 0x80 by {
            assert(p.drop_first()[j] == p[j + 1]);
        }
        lemma_size_ascii(p.drop_first());
    }
}

/// A text whose lines are indented with ASCII white space only has its
/// margin on character boundaries: [`dedent`] accepts it.
pub proof fn lemma_ascii_indentation_on_char_boundaries(t: Seq<char>)
    requires
        indentation_is_ascii(t),
    ensures
        margin_on_char_boundaries(t),
{
    let ls = lines(t);
    let m = margin(ls);
    assert forall|i: int| 0 <= i < ls.len() && utf8_size(#[trigger] ls[i]) >= m implies drop_bytes(
        ls[i],
        m,
    ) is Some by {
        let l = ls[i];
        assert(ascii_indent(l));
        lemma_first_non_space_bounds(l, 0);
        let f = first_non_space(l, 0);
        assert(utf8_size(l.subrange(0, f)) == f) by {
            assert forall|j: int| 0 <= j < l.subrange(0, f).len() implies (
            #[trigger] l.subrange(0, f)[j] as u32) < 0x80 by {
                assert(l.subrange(0, f)[j] == l[j]);
            }
            lemma_size_ascii(l.subrange(0, f));
        }
        if !is_blank(l) {
            lemma_margin_bound(ls, i);
        } else {
            assert(l.subrange(0, f) =~= l);
        }
        let q = m as int;
        assert(utf8_size(l.subrange(0, q)) == q) by {
            assert forall|j: int| 0 <= j < l.subrange(0, q).len() implies (
            #[trigger] l.subrange(0, q)[j] as u32) < 0x80 by {
                assert(l.subrange(0, q)[j] == l[j]);
            }
            lemma_size_ascii(l.subrange(0, q));
        }
        lemma_drop_prefix(l, q);
    }
}

/// Dedenting removes only white space, and only from the start of each
/// line: every line of the result is a line of `t` without a prefix of
/// white space.
pub proof fn law_dedent_removes_only_leading_space(t: Seq<char>, i: int)
    requires
        margin_on_char_boundaries(t),
        0 <= i < lines(t).len(),
    ensures
        exists|p: int|
            0 <= p <= lines(t)[i].len() && (forall|j: int| 0 <= j < p ==> is_white_space(
                #[trigger] lines(t)[i][j],
            )) && cut_line(lines(t)[i], margin(lines(t))) == lines(t)[i].subrange(
                p,
                lines(t)[i].len() as int,
            ),
{
    let ls = lines(t);
    if !is_blank(ls[i]) {
        lemma_margin_bound(ls, i);
    }
    let p = lemma_cut_is_space_prefix(ls[i], margin(ls));
}

/// Dedenting removes the indentation that the lines share, all of it: when
/// some line is not blank, some line that is not blank loses all its
/// leading white space.
pub proof fn law_dedent_removes_shared_margin(t: Seq<char>)
    requires
        margin_on_char_boundaries(t),
        exists|k: int| 0 <= k < lines(t).len() && !is_blank(#[trigger] lines(t)[k]),
    ensures
        exists|k: int|
            0 <= k < lines(t).len() && !is_blank(#[trigger] lines(t)[k]) && cut_line(
                lines(t)[k],
                margin(lines(t)),
            ) == lines(t)[k].subrange(first_non_space(lines(t)[k], 0), lines(t)[k].len() as int),
{
    let ls = lines(t);
    lemma_min_indent(ls, ls.len());
    let k0 = choose|k: int| 0 <= k < ls.len() && !is_blank(#[trigger] ls[k]);
    assert(min_indent(ls, ls.len()) is Some);
    let k = choose|k: int|
        0 <= k < ls.len() && !is_blank(#[trigger] ls[k]) && indent(ls[k]) == min_indent(
            ls,
            ls.len(),
        )->0;
    let p = lemma_cut_is_space_prefix(ls[k], margin(ls));
    assert(p == first_non_space(ls[k], 0));
}

/// Whether a line holds no `'\n'`.
pub open spec fn no_newline(l: Seq<char>) -> bool {
    forall|j: int| 0 <= j < l.len() ==> #[trigger] l[j] != '\n'
}

/// Whether a line ends with `'\r'`.
pub open spec fn ends_with_cr(l: Seq<char>) -> bool {
    l.len() > 0 && l.last() == '\r'
}

/// Whether every line of `t` but the last keeps no `'\r'` at its end once
/// `str::lines` has cut it: no line of `t` ends with `"\r\r\n"`. Joined
/// again by `'\n'`, such a line would lose its second `'\r'`.
pub open spec fn no_line_ends_with_cr(t: Seq<char>) -> bool {
    forall|i: int| 0 <= i < lines(t).len() - 1 ==> !ends_with_cr(#[trigger] lines(t)[i])
}

proof fn lemma_join_front(ls: Seq<Seq<char>>, sep: Seq<char>)
    requires
        ls.len() >= 2,
    ensures
        join(ls, sep) == ls[0] + sep + join(ls.drop_first(), sep),
    decreases ls.len(),
{
    if ls.len() == 2 {
        assert(join(ls.drop_last(), sep) == ls.drop_last()[0]);
        assert(join(ls.drop_first(), sep) == ls.drop_first()[0]);
        assert(ls.drop_first()[0] == ls.last());
    } else {
        lemma_join_front(ls.drop_last(), sep);
        let a = ls.drop_last();
        let b = ls.drop_first();
        assert(a.drop_first() =~= b.drop_last());
        assert(b.last() == ls.last());
        assert(a[0] == ls[0]);
        assert(join(ls, sep) == join(a, sep) + sep + ls.last());
        assert(join(a, sep) == ls[0] + sep + join(a.drop_first(), sep));
        assert(join(b, sep) == join(b.drop_last(), sep) + sep + b.last());
        assert(join(ls, sep) =~= ls[0] + sep + join(b, sep));
    }
}

proof fn lemma_next_newline_shift(a: Seq<char>, b: Seq<char>, k: int)
    requires
        0 <= k,
    ensures
        next_newline(a + b, a.len() + k) == a.len() + next_newline(b, k),
    decreases b.len() - k,
{
    if k < b.len() && b[k] != '\n' {
        lemma_next_newline_shift(a, b, k + 1);
    }
}

proof fn lemma_lines_shift(a: Seq<char>, b: Seq<char>, k: int)
    requires
        0 <= k,
    ensures
        lines_from(a + b, a.len() + k) == lines_from(b, k),
    decreases b.len() - k,
{
    let s = a + b;
    if k < b.len() {
        lemma_next_newline_shift(a, b, k);
        lemma_next_newline_bounds(b, k);
        let j = next_newline(b, k);
        assert(s.subrange(a.len() + k, a.len() + j) =~= b.subrange(k, j));
        assert(s.subrange(a.len() + k, s.len() as int) =~= b.subrange(k, b.len() as int));
        if j < b.len() {
            lemma_lines_shift(a, b, j + 1);
        }
    }
}

proof fn lemma_no_newline_before(s: Seq<char>, i: int, k: int)
    requires
        0 <= i <= k < next_newline(s, i),
    ensures
        s[k] != '\n',
    decreases k - i,
{
    lemma_next_newline_bounds(s, i);
    if s[i] != '\n' && i < k {
        lemma_no_newline_before(s, i + 1, k);
    }
}

/// Cutting lines at `'\n'` gives back lines that were joined by `'\n'`,
/// when none holds `'\n'`, none but the last ends with `'\r'`, and the
/// last one is not empty.
pub proof fn lemma_lines_of_join(ls: Seq<Seq<char>>)
    requires
        forall|i: int| 0 <= i < ls.len() ==> no_newline(#[trigger] ls[i]),
        forall|i: int| 0 <= i < ls.len() - 1 ==> !ends_with_cr(#[trigger] ls[i]),
        ls.len() > 0 ==> ls.last().len() > 0,
    ensures
        lines(join(ls, seq!['\n'])) == ls,
    decreases ls.len(),
{
    if ls.len() == 0 {
        assert(lines(join(ls, seq!['\n'])) =~= ls);
    } else if ls.len() == 1 {
        let l = ls[0];
        assert(no_newline(l));
        lemma_next_newline_at(l, 0, l.len() as int);
        assert(l.subrange(0, l.len() as int) =~= l);
        assert(lines(join(ls, seq!['\n'])) =~= ls);
    } else {
        let l = ls[0];
        let rest = ls.drop_first();
        assert(no_newline(l));
        assert(!ends_with_cr(l));
        assert forall|i: int| 0 <= i < rest.len() implies no_newline(#[trigger] rest[i]) by {
            assert(rest[i] == ls[i + 1]);
        }
        assert forall|i: int| 0 <= i < rest.len() - 1 implies !ends_with_cr(#[trigger] rest[i]) by {
            assert(rest[i] == ls[i + 1]);
        }
        lemma_lines_of_join(rest);
        lemma_join_front(ls, seq!['\n']);
        let r = join(rest, seq!['\n']);
        let s = l + seq!['\n'] + r;
        assert(s[l.len() as int] == '\n');
        lemma_next_newline_at(s, 0, l.len() as int);
        assert(s.subrange(0, l.len() as int) =~= l);
        assert(strip_cr(l) == l);
        lemma_lines_shift(l + seq!['\n'], r, 0);
        assert((l + seq!['\n']).len() == l.len() + 1);
        assert(lines(s) =~= seq![l] + rest);
        assert(seq![l] + rest =~= ls);
    }
}

/// The lines of a text hold no `'\n'`.
proof fn lemma_lines_no_newline(t: Seq<char>, start: int)
    requires
        0 <= start,
    ensures
        forall|i: int|
            0 <= i < lines_from(t, start).len() ==> no_newline(#[trigger] lines_from(t, start)[i]),
    decreases t.len() - start,
{
    if start < t.len() {
        lemma_next_newline_bounds(t, start);
        let j = next_newline(t, start);
        let l = t.subrange(start, j);
        assert forall|k: int| 0 <= k < l.len() implies #[trigger] l[k] != '\n' by {
            lemma_no_newline_before(t, start, start + k);
        }
        if j < t.len() {
            lemma_lines_no_newline(t, j + 1);
            assert(no_newline(strip_cr(l))) by {
                if ends_with_cr(l) {
                    assert forall|k: int| 0 <= k < strip_cr(l).len() implies #[trigger] strip_cr(
                        l,
                    )[k] != '\n' by {
                        assert(strip_cr(l)[k] == l[k]);
                    }
                }
            }
            assert forall|i: int| 0 <= i < lines_from(t, start).len() implies no_newline(
                #[trigger] lines_from(t, start)[i],
            ) by {
                if i > 0 {
                    assert(lines_from(t, start)[i] == lines_from(t, j + 1)[i - 1]);
                }
            }
        } else {
            assert(t.subrange(start, t.len() as int) == l);
        }
    }
}

proof fn lemma_cut_of_margin(ls: Seq<Seq<char>>, i: int) -> (p: int)
    requires
        0 <= i < ls.len(),
        forall|k: int|
            0 <= k < ls.len() && utf8_size(#[trigger] ls[k]) >= margin(ls) ==> drop_bytes(
                ls[k],
                margin(ls),
            ) is Some,
    ensures
        0 <= p <= ls[i].len(),
        cut_line(ls[i], margin(ls)) == ls[i].subrange(p, ls[i].len() as int),
        forall|j: int| 0 <= j < p ==> is_white_space(#[trigger] ls[i][j]),
        !is_blank(ls[i]) ==> p <= first_non_space(ls[i], 0),
{
    if !is_blank(ls[i]) {
        lemma_margin_bound(ls, i);
    }
    lemma_cut_is_space_prefix(ls[i], margin(ls))
}

/// A line that is not blank stays so once a prefix of white space is gone.
proof fn lemma_suffix_not_blank(l: Seq<char>, p: int)
    requires
        !is_blank(l),
        0 <= p <= first_non_space(l, 0),
    ensures
        !is_blank(l.subrange(p, l.len() as int)),
        p == first_non_space(l, 0) ==> indent(l.subrange(p, l.len() as int)) == 0,
{
    lemma_first_non_space_bounds(l, 0);
    lemma_first_non_space_spaces(l, 0);
    let f = first_non_space(l, 0);
    let r = l.subrange(p, l.len() as int);
    lemma_first_non_space_bounds(r, 0);
    lemma_first_non_space_spaces(r, 0);
    let g = first_non_space(r, 0);
    if g == r.len() {
        assert(r[f - p] == l[f]);
        assert(is_white_space(r[f - p]));
    }
    if p == f {
        if g > 0 {
            assert(r[0] == l[f]);
        }
        assert(r.subrange(0, 0) =~= Seq::<char>::empty());
    }
}

proof fn lemma_min_indent_zero(ls: Seq<Seq<char>>, k: int)
    requires
        0 <= k < ls.len(),
        !is_blank(ls[k]),
        indent(ls[k]) == 0,
    ensures
        margin(ls) == 0,
{
    lemma_min_indent(ls, ls.len());
}

/// Dedenting twice is dedenting once, for a text that dedenting accepts
/// (its margin falls between characters, as it does where all indentation
/// is ASCII), whose last line (if any) is not blank and whose other lines
/// do not end with `"\r\r\n"`.
pub proof fn law_dedent_is_idempotent(t: Seq<char>)
    requires
        margin_on_char_boundaries(t) || indentation_is_ascii(t),
        no_line_ends_with_cr(t),
        lines(t).len() > 0 ==> !is_blank(lines(t).last()),
    ensures
        dedented(dedented(t)) == dedented(t),
{
    if indentation_is_ascii(t) {
        lemma_ascii_indentation_on_char_boundaries(t);
    }
    let ls = lines(t);
    let m = margin(ls);
    let cs = ls.map_values(|l: Seq<char>| cut_line(l, m));
    lemma_lines_no_newline(t, 0);
    assert forall|i: int| 0 <= i < cs.len() implies no_newline(#[trigger] cs[i]) && (i < cs.len()
        - 1 ==> !ends_with_cr(cs[i])) by {
        let p = lemma_cut_of_margin(ls, i);
        assert(no_newline(ls[i]));
        assert forall|j: int| 0 <= j < cs[i].len() implies #[trigger] cs[i][j] != '\n' by {
            assert(cs[i][j] == ls[i][p + j]);
        }
        if i < cs.len() - 1 && cs[i].len() > 0 {
            assert(!ends_with_cr(ls[i]));
            assert(cs[i].last() == ls[i].last());
        }
    }
    if ls.len() > 0 {
        let n = ls.len() - 1;
        let p = lemma_cut_of_margin(ls, n);
        lemma_suffix_not_blank(ls[n], p);
        lemma_first_non_space_bounds(cs[n], 0);
        assert(cs.last() == cs[n]);
        assert(exists|k: int| 0 <= k < lines(t).len() && !is_blank(#[trigger] lines(t)[k])) by {
            assert(!is_blank(lines(t)[n]));
        }
        law_dedent_removes_shared_margin(t);
        let k = choose|k: int|
            0 <= k < ls.len() && !is_blank(#[trigger] ls[k]) && cut_line(ls[k], m) == ls[k].subrange(
                first_non_space(ls[k], 0),
                ls[k].len() as int,
            );
        lemma_first_non_space_bounds(ls[k], 0);
        lemma_suffix_not_blank(ls[k], first_non_space(ls[k], 0));
        lemma_lines_of_join(cs);
        lemma_min_indent_zero(cs, k);
    } else {
        lemma_lines_of_join(cs);
    }
    let d = join(cs, seq!['\n']);
    assert(lines(d) == cs);
    assert(cs.map_values(|l: Seq<char>| cut_line(l, margin(cs))) =~= cs);
}

proof fn lemma_size_plain_prefix(p: Seq<char>)
    requires
        forall|j: int| 0 <= j < p.len() ==> #[trigger] p[j] == ' ' || p[j] == '\t',
    ensures
        utf8_size(p) == p.len(),
    decreases p.len(),
{
    if p.len() > 0 {
        assert forall|j: int| 0 <= j < p.drop_first().len() implies #[trigger] p.drop_first()[j] == ' '
            || p.drop_first()[j] == '\t' by {
            assert(p.drop_first()[j] == p[j + 1]);
        }
        lemma_size_plain_prefix(p.drop_first());
    }
}

proof fn lemma_first_non_space_prefixed(p: Seq<char>, l: Seq<char>, k: int)
    requires
        forall|j: int| 0 <= j < p.len() ==> #[trigger] p[j] == ' ' || p[j] == '\t',
        0 <= k <= p.len(),
    ensures
        first_non_space(p + l, k) == p.len() + first_non_space(l, 0),
    decreases p.len() + l.len() - k,
{
    if k < p.len() {
        assert((p + l)[k] == p[k]);
        lemma_first_non_space_prefixed(p, l, k + 1);
    } else {
        lemma_first_non_space_shift(p, l, 0);
    }
}

proof fn lemma_first_non_space_shift(p: Seq<char>, l: Seq<char>, k: int)
    requires
        0 <= k <= l.len(),
    ensures
        first_non_space(p + l, p.len() + k) == p.len() + first_non_space(l, k),
    decreases l.len() - k,
{
    if k < l.len() {
        assert((p + l)[p.len() + k] == l[k]);
        if is_white_space(l[k]) {
            lemma_first_non_space_shift(p, l, k + 1);
        }
    }
}

proof fn lemma_drop_prefixed(p: Seq<char>, l: Seq<char>, m: nat)
    requires
        forall|j: int| 0 <= j < p.len() ==> #[trigger] p[j] == ' ' || p[j] == '\t',
    ensures
        drop_bytes(p + l, m + p.len()) == drop_bytes(l, m),
    decreases p.len(),
{
    if p.len() > 0 {
        let q = p.drop_first();
        assert((p + l).drop_first() =~= q + l);
        assert((p + l)[0] == p[0]);
        assert forall|j: int| 0 <= j < q.len() implies #[trigger] q[j] == ' ' || q[j] == '\t' by {
            assert(q[j] == p[j + 1]);
        }
        lemma_drop_prefixed(q, l, m);
    } else {
        assert(p + l =~= l);
    }
}

/// Whether `qs` are the lines `ls`, none blank, each indented by `c` more
/// bytes.
pub open spec fn shifted_lines(ls: Seq<Seq<char>>, qs: Seq<Seq<char>>, c: nat) -> bool {
    &&& ls.len() == qs.len()
    &&& forall|i: int| 0 <= i < ls.len() ==> !is_blank(#[trigger] ls[i]) && !is_blank(qs[i]) && indent(
        qs[i],
    ) == indent(ls[i]) + c
}

proof fn lemma_min_indent_shifted(ls: Seq<Seq<char>>, qs: Seq<Seq<char>>, c: nat, n: nat)
    requires
        n <= ls.len(),
        shifted_lines(ls, qs, c),
    ensures
        min_indent(qs, n) == match min_indent(ls, n) {
            Some(v) => Some(v + c),
            None => None::<nat>,
        },
    decreases n,
{
    if n > 0 {
        lemma_min_indent_shifted(ls, qs, c, (n - 1) as nat);
        assert(!is_blank(ls[n - 1]) && !is_blank(qs[n - 1]) && indent(qs[n - 1]) == indent(ls[n - 1]) + c);
    }
}

/// Indenting every line of a text by one more prefix of spaces and tabs
/// does not change what dedenting gives, for a text that dedenting accepts
/// (its margin falls between characters, as it does where all indentation
/// is ASCII) whose lines are all not blank and do not end with `"\r\r\n"`.
pub proof fn law_dedent_ignores_added_indent(t: Seq<char>, p: Seq<char>)
    requires
        margin_on_char_boundaries(t) || indentation_is_ascii(t),
        no_line_ends_with_cr(t),
        forall|i: int| 0 <= i < lines(t).len() ==> !is_blank(#[trigger] lines(t)[i]),
        forall|j: int| 0 <= j < p.len() ==> #[trigger] p[j] == ' ' || p[j] == '\t',
    ensures
        dedented(join(lines(t).map_values(|l: Seq<char>| p + l), seq!['\n'])) == dedented(t),
{
    if indentation_is_ascii(t) {
        lemma_ascii_indentation_on_char_boundaries(t);
    }
    let ls = lines(t);
    let qs = ls.map_values(|l: Seq<char>| p + l);
    lemma_lines_no_newline(t, 0);
    lemma_size_plain_prefix(p);
    assert forall|i: int| 0 <= i < qs.len() implies no_newline(#[trigger] qs[i]) && (i < qs.len()
        - 1 ==> !ends_with_cr(qs[i])) by {
        assert(no_newline(ls[i]));
        assert forall|j: int| 0 <= j < qs[i].len() implies #[trigger] qs[i][j] != '\n' by {
            if j < p.len() {
                assert(qs[i][j] == p[j]);
            } else {
                assert(qs[i][j] == ls[i][j - p.len()]);
            }
        }
        assert(!is_blank(ls[i]));
        lemma_first_non_space_bounds(ls[i], 0);
        assert(qs[i] == p + ls[i]);
        assert(qs[i].last() == ls[i].last());
        if i < qs.len() - 1 {
            assert(!ends_with_cr(ls[i]));
        }
    }
    if qs.len() > 0 {
        assert(!is_blank(ls[ls.len() - 1]));
        lemma_first_non_space_bounds(ls[ls.len() - 1], 0);
        assert(qs.last() == p + ls[ls.len() - 1]);
    }
    lemma_lines_of_join(qs);
    assert forall|i: int| 0 <= i < ls.len() implies !is_blank(#[trigger] ls[i]) && !is_blank(qs[i])
        && indent(qs[i]) == indent(ls[i]) + p.len() by {
        let l = ls[i];
        assert(!is_blank(l));
        lemma_first_non_space_bounds(l, 0);
        lemma_first_non_space_prefixed(p, l, 0);
        let f = first_non_space(l, 0);
        assert(qs[i] == p + l);
        assert((p + l).subrange(0, p.len() + f) =~= p + l.subrange(0, f));
        lemma_size_concat(p, l.subrange(0, f));
    }
    assert(shifted_lines(ls, qs, p.len()));
    lemma_min_indent_shifted(ls, qs, p.len(), ls.len() as nat);
    let m = margin(ls);
    if ls.len() > 0 {
        lemma_min_indent(ls, ls.len());
        assert(!is_blank(ls[0]));
        assert(margin(qs) == m + p.len());
    }
    assert(qs.map_values(|l: Seq<char>| cut_line(l, margin(qs))) =~= ls.map_values(
        |l: Seq<char>| cut_line(l, m),
    )) by {
        assert forall|i: int| 0 <= i < ls.len() implies cut_line(#[trigger] qs[i], margin(qs))
            == cut_line(ls[i], m) by {
            let l = ls[i];
            assert(qs[i] == p + l);
            lemma_size_concat(p, l);
            lemma_drop_prefixed(p, l, m);
            assert(!is_blank(l));
            lemma_margin_bound(ls, i);
            lemma_first_non_space_bounds(l, 0);
            lemma_size_range(l, 0, first_non_space(l, 0));
            assert(utf8_size(l) >= m);
            assert(drop_bytes(l, m) is Some);
        }
    }
}

fn is_space(c: char) -> (b: bool)
    ensures
        b == is_white_space(c),
{
    let u = c as u32;
    (0x9 <= u && u <= 0xd) || u == 0x20 || u == 0x85 || u == 0xa0 || u == 0x1680 || (0x2000 <= u
        && u <= 0x200a) || u == 0x2028 || u == 0x2029 || u == 0x202f || u == 0x205f || u == 0x3000
}

fn width_of(c: char) -> (w: usize)
    ensures
        w == char_width(c),
{
    let u = c as u32;
    if u < 0x80 {
        1
    } else if u < 0x800 {
        2
    } else if u < 0x10000 {
        3
    } else {
        4
    }
}

/// The size in bytes of the characters of `l`.
fn size_of_chars(l: &Vec<char>) -> (r: usize)
    requires
        utf8_size(l@) <= usize::MAX,
    ensures
        r == utf8_size(l@),
{
    let mut acc: usize = 0;
    let mut i: usize = 0;
    while i < l.len()
        invariant
            i <= l.len(),
            acc == utf8_size(l@.subrange(0, i as int)),
            utf8_size(l@) <= usize::MAX,
        decreases l.len() - i,
    {
        proof {
            lemma_size_prefix_step(l@, i as int);
            lemma_size_range(l@, 0, i + 1);
        }
        acc = acc + width_of(l[i]);
        i = i + 1;
    }
    assert(l@.subrange(0, i as int) =~= l@);
    acc
}

/// The lines of `s` (see [`lines`]), each no larger than `s`.
fn split_lines(s: &Vec<char>) -> (ls: Vec<Vec<char>>)
    ensures
        ls@.map_values(|l: Vec<char>| l@) == lines(s@),
        forall|k: int| 0 <= k < ls.len() ==> utf8_size(#[trigger] ls@[k]@) <= utf8_size(s@),
{
    let mut out: Vec<Vec<char>> = Vec::new();
    let mut cur: Vec<char> = Vec::new();
    let mut start: usize = 0;
    let mut i: usize = 0;
    assert(out@.map_values(|l: Vec<char>| l@) + lines_from(s@, 0) =~= lines_from(s@, 0));
    while i < s.len()
        invariant
            start <= i <= s.len(),
            cur@ == s@.subrange(start as int, i as int),
            forall|j: int| start <= j < i ==> s@[j] != '\n',
            out@.map_values(|l: Vec<char>| l@) + lines_from(s@, start as int) == lines_from(s@, 0),
            forall|k: int| 0 <= k < out.len() ==> utf8_size(#[trigger] out@[k]@) <= utf8_size(s@),
        decreases s.len() - i,
    {
        let c = s[i];
        if c == '\n' {
            proof {
                lemma_next_newline_at(s@, start as int, i as int);
                lemma_size_range(s@, start as int, i as int);
            }
            let mut line = cur;
            cur = Vec::new();
            let n = line.len();
            if n > 0 && line[n - 1] == '\r' {
                proof {
                    lemma_size_drop_last(line@);
                }
                line.pop();
                assert(line@ == strip_cr(s@.subrange(start as int, i as int)));
            } else {
                assert(line@ == strip_cr(s@.subrange(start as int, i as int)));
            }
            let ghost before = out@.map_values(|l: Vec<char>| l@);
            let ghost lv = line@;
            out.push(line);
            assert(out@.map_values(|l: Vec<char>| l@) =~= before.push(lv));
            assert(lines_from(s@, start as int) == seq![lv] + lines_from(s@, i + 1));
            assert(before.push(lv) + lines_from(s@, i + 1) =~= before + (seq![lv] + lines_from(
                s@,
                i + 1,
            )));
            start = i + 1;
        } else {
            cur.push(c);
            assert(cur@ =~= s@.subrange(start as int, i + 1));
        }
        i = i + 1;
    }
    if start < s.len() {
        proof {
            lemma_next_newline_at(s@, start as int, s.len() as int);
            lemma_size_range(s@, start as int, s.len() as int);
        }
        let ghost before = out@.map_values(|l: Vec<char>| l@);
        let ghost lv = cur@;
        out.push(cur);
        assert(out@.map_values(|l: Vec<char>| l@) =~= before.push(lv));
        assert(lines_from(s@, start as int) == seq![lv]);
        assert(before.push(lv) =~= before + seq![lv]);
    } else {
        assert(out@.map_values(|l: Vec<char>| l@) =~= out@.map_values(|l: Vec<char>| l@)
            + lines_from(s@, start as int));
    }
    out
}

/// The index of the first character of `l` that is not white space, and
/// the size in bytes of the characters before it.
fn leading_space(l: &Vec<char>) -> (r: (usize, usize))
    requires
        utf8_size(l@) <= usize::MAX,
    ensures
        r.0 == first_non_space(l@, 0),
        r.1 == utf8_size(l@.subrange(0, r.0 as int)),
{
    let mut k: usize = 0;
    let mut acc: usize = 0;
    while k < l.len() && is_space(l[k])
        invariant
            k <= l.len(),
            first_non_space(l@, 0) == first_non_space(l@, k as int),
            acc == utf8_size(l@.subrange(0, k as int)),
            utf8_size(l@) <= usize::MAX,
        decreases l.len() - k,
    {
        proof {
            lemma_size_prefix_step(l@, k as int);
            lemma_size_range(l@, 0, k + 1);
        }
        acc = acc + width_of(l[k]);
        k = k + 1;
    }
    (k, acc)
}

/// The characters of `l` after its first `m` bytes.
fn drop_leading_bytes(l: &Vec<char>, m: usize) -> (r: Vec<char>)
    requires
        drop_bytes(l@, m as nat) is Some,
    ensures
        r@ == drop_bytes(l@, m as nat)->0,
{
    let mut p: usize = 0;
    let mut rem: usize = m;
    assert(l@.subrange(0, l.len() as int) =~= l@);
    while rem > 0
        invariant
            p <= l.len(),
            drop_bytes(l@, m as nat) == drop_bytes(l@.subrange(p as int, l.len() as int), rem as nat),
            drop_bytes(l@, m as nat) is Some,
        decreases rem,
    {
        let ghost rest = l@.subrange(p as int, l.len() as int);
        assert(rest.len() > 0);
        assert(rest[0] == l@[p as int]);
        let w = width_of(l[p]);
        assert(rest.drop_first() =~= l@.subrange(p + 1, l.len() as int));
        rem = rem - w;
        p = p + 1;
    }
    let mut out: Vec<char> = Vec::new();
    let mut i: usize = p;
    while i < l.len()
        invariant
            p <= i <= l.len(),
            out@ == l@.subrange(p as int, i as int),
        decreases l.len() - i,
    {
        out.push(l[i]);
        assert(out@ =~= l@.subrange(p as int, i + 1));
        i = i + 1;
    }
    out
}

/// Removes the indentation that all lines of `text` share (the least
/// indentation among the lines that are not blank), as Python's
/// `textwrap.dedent` does, and joins the lines with `'\n'`. The byte
/// length of a string fits in `usize` (see [`lemma_encoded_size`]).
pub fn dedent(text: &str) -> (r: String)
    requires
        utf8_size(text@) <= usize::MAX,
        margin_on_char_boundaries(text@),
    ensures
        r@ == dedented(text@),
{
    let v = chars_of(text);
    let ls = split_lines(&v);
    let ghost lsv = ls@.map_values(|l: Vec<char>| l@);
    let mut least: Option<usize> = None;
    let mut i: usize = 0;
    while i < ls.len()
        invariant
            i <= ls.len(),
            lsv == ls@.map_values(|l: Vec<char>| l@),
            lsv == lines(text@),
            forall|k: int| 0 <= k < ls.len() ==> utf8_size(#[trigger] ls@[k]@) <= usize::MAX,
            match least {
                Some(x) => min_indent(lsv, i as nat) == Some(x as nat),
                None => min_indent(lsv, i as nat) is None,
            },
        decreases ls.len() - i,
    {
        assert(lsv[i as int] == ls@[i as int]@);
        let (k, ind) = leading_space(&ls[i]);
        proof {
            lemma_first_non_space_bounds(ls@[i as int]@, 0);
        }
        if k != ls[i].len() {
            least = match least {
                None => Some(ind),
                Some(p) => Some(if ind < p { ind } else { p }),
            };
        }
        i = i + 1;
    }
    let m: usize = match least {
        Some(x) => x,
        None => 0,
    };
    assert(m == margin(lsv));
    let mut outs: Vec<Vec<char>> = Vec::new();
    let mut j: usize = 0;
    while j < ls.len()
        invariant
            j <= ls.len(),
            lsv == ls@.map_values(|l: Vec<char>| l@),
            lsv == lines(text@),
            m == margin(lsv),
            margin_on_char_boundaries(text@),
            forall|k: int| 0 <= k < ls.len() ==> utf8_size(#[trigger] ls@[k]@) <= usize::MAX,
            outs@.map_values(|l: Vec<char>| l@) == lsv.subrange(0, j as int).map_values(
                |l: Seq<char>| cut_line(l, m as nat),
            ),
        decreases ls.len() - j,
    {
        assert(lsv[j as int] == ls@[j as int]@);
        let sz = size_of_chars(&ls[j]);
        let piece = if sz >= m {
            drop_leading_bytes(&ls[j], m)
        } else {
            let mut c: Vec<char> = Vec::new();
            push_chars(&mut c, &ls[j]);
            c
        };
        let ghost before = outs@.map_values(|l: Vec<char>| l@);
        let ghost pv = piece@;
        outs.push(piece);
        assert(outs@.map_values(|l: Vec<char>| l@) =~= before.push(pv));
        assert(lsv.subrange(0, j + 1).map_values(|l: Seq<char>| cut_line(l, m as nat))
            =~= lsv.subrange(0, j as int).map_values(|l: Seq<char>| cut_line(l, m as nat)).push(
            cut_line(lsv[j as int], m as nat),
        ));
        j = j + 1;
    }
    assert(lsv.subrange(0, ls.len() as int) =~= lsv);
    let joined = join_chars(&outs, "\n");
    proof {
        reveal_strlit("\n");
        assert("\n"@ =~= seq!['\n']);
        assert(outs@.map_values(|l: Vec<char>| l@) =~= lsv.map_values(
            |l: Seq<char>| cut_line(l, margin(lsv)),
        ));
    }
    string_of(&joined)
}

/// Whether `m` bytes can be cut from the start of `l` between two
/// characters.
fn cut_possible(l: &Vec<char>, m: usize) -> (r: bool)
    ensures
        r == drop_bytes(l@, m as nat) is Some,
{
    let mut p: usize = 0;
    let mut rem: usize = m;
    assert(l@.subrange(0, l.len() as int) =~= l@);
    while rem > 0
        invariant
            p <= l.len(),
            drop_bytes(l@, m as nat) == drop_bytes(l@.subrange(p as int, l.len() as int), rem as nat),
        decreases rem,
    {
        let ghost rest = l@.subrange(p as int, l.len() as int);
        if p >= l.len() {
            return false;
        }
        assert(rest[0] == l@[p as int]);
        let w = width_of(l[p]);
        if w > rem {
            return false;
        }
        assert(rest.drop_first() =~= l@.subrange(p + 1, l.len() as int));
        rem = rem - w;
        p = p + 1;
    }
    true
}

/// Dedents `text` (see [`dedent`]) when its margin falls between
/// characters on every line long enough; `None` where [`dedent`] cannot
/// cut a line (slicing the string there panics).
pub fn try_dedent(text: &str) -> (r: Option<String>)
    requires
        utf8_size(text@) <= usize::MAX,
    ensures
        r is Some <==> margin_on_char_boundaries(text@),
        r matches Some(s) ==> s@ == dedented(text@),
{
    let v = chars_of(text);
    let ls = split_lines(&v);
    let ghost lsv = ls@.map_values(|l: Vec<char>| l@);
    let mut least: Option<usize> = None;
    let mut i: usize = 0;
    while i < ls.len()
        invariant
            i <= ls.len(),
            lsv == ls@.map_values(|l: Vec<char>| l@),
            lsv == lines(text@),
            forall|k: int| 0 <= k < ls.len() ==> utf8_size(#[trigger] ls@[k]@) <= usize::MAX,
            match least {
                Some(x) => min_indent(lsv, i as nat) == Some(x as nat),
                None => min_indent(lsv, i as nat) is None,
            },
        decreases ls.len() - i,
    {
        assert(lsv[i as int] == ls@[i as int]@);
        let (k, ind) = leading_space(&ls[i]);
        proof {
            lemma_first_non_space_bounds(ls@[i as int]@, 0);
        }
        if k != ls[i].len() {
            least = match least {
                None => Some(ind),
                Some(p) => Some(if ind < p { ind } else { p }),
            };
        }
        i = i + 1;
    }
    let m: usize = match least {
        Some(x) => x,
        None => 0,
    };
    assert(m == margin(lsv));
    let mut j: usize = 0;
    while j < ls.len()
        invariant
            j <= ls.len(),
            lsv == ls@.map_values(|l: Vec<char>| l@),
            lsv == lines(text@),
            m == margin(lsv),
            forall|k: int| 0 <= k < ls.len() ==> utf8_size(#[trigger] ls@[k]@) <= usize::MAX,
            forall|k: int|
                0 <= k < j && utf8_size(#[trigger] lsv[k]) >= m ==> drop_bytes(lsv[k], m as nat) is Some,
        decreases ls.len() - j,
    {
        assert(lsv[j as int] == ls@[j as int]@);
        let sz = size_of_chars(&ls[j]);
        if sz >= m && !cut_possible(&ls[j], m) {
            return None;
        }
        j = j + 1;
    }
    Some(dedent(text))
}

} // verus!
