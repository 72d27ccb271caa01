//! A plain model of procedural-macro token trees, and their printed form.

use vstd::prelude::*;
use crate::text::push_str;

verus! {

/// How a group of tokens is delimited.
#[derive(Debug, Clone, Copy, PartialEq, Eq, Structural)]
pub enum Delimiter {
    Parenthesis,
    Brace,
    Bracket,
    NoDelimiter,
}

/// Whether a punctuation character is joined to the next token.
#[derive(Debug, Clone, Copy, PartialEq, Eq, Structural)]
pub enum Spacing {
    Alone,
    Joint,
}

/// One token tree: a delimited group, an identifier, a punctuation
/// character or a literal (kept as its source text).
#[derive(Debug, PartialEq, Eq)]
pub enum TokenTree {
    Group(Delimiter, Vec<TokenTree>),
    Ident(String),
    Punct(char, Spacing),
    Literal(String),
}

pub open spec fn is_joint(t: TokenTree) -> bool {
    t matches TokenTree::Punct(_, Spacing::Joint)
}

pub open spec fn open_text(d: Delimiter) -> Seq<char> {
    match d {
        Delimiter::Parenthesis => seq!['('],
        Delimiter::Brace => seq!['{', ' '],
        Delimiter::Bracket => seq!['['],
        Delimiter::NoDelimiter => Seq::empty(),
    }
}

pub open spec fn close_text(d: Delimiter, empty: bool) -> Seq<char> {
    match d {
        Delimiter::Parenthesis => seq![')'],
        Delimiter::Brace => if empty { seq!['}'] } else { seq![' ', '}'] },
        Delimiter::Bracket => seq![']'],
        Delimiter::NoDelimiter => Seq::empty(),
    }
}

/// The printed form of one token tree.
pub open spec fn tree_text(t: TokenTree) -> Seq<char>
    decreases t, 0nat,
{
    match t {
        TokenTree::Group(d, v) => open_text(d) + range_text(v, 0, v.len() as nat) + close_text(
            d,
            v.len() == 0,
        ),
        TokenTree::Ident(s) => s@,
        TokenTree::Punct(c, _) => seq![c],
        TokenTree::Literal(s) => s@,
    }
}

/// The printed form of the trees of `v` from index `lo` up to (not including)
/// `hi`: trees are separated by one space, except after a joint punctuation
/// character.
pub open spec fn range_text(v: Vec<TokenTree>, lo: nat, hi: nat) -> Seq<char>
    decreases v, hi,
{
    if hi <= lo || hi > v.len() {
        Seq::empty()
    } else {
        let sep = if hi >= lo + 2 && !is_joint(v[hi - 2]) {
            seq![' ']
        } else {
            Seq::empty()
        };
        range_text(v, lo, (hi - 1) as nat) + sep + tree_text(v[hi - 1])
    }
}

/// The printed form of a token stream.
pub open spec fn stream_text(v: Vec<TokenTree>) -> Seq<char> {
    range_text(v, 0, v.len() as nat)
}

fn push_char(out: &mut Vec<char>, c: char)
    ensures
        final(out)@ == old(out)@ + seq![c],
{
    out.push(c);
}

/// Appends the printed form of a token tree.
pub fn write_tree(out: &mut Vec<char>, t: &TokenTree)
    ensures
        final(out)@ == old(out)@ + tree_text(*t),
    decreases t, 0nat,
{
    match t {
        TokenTree::Group(d, v) => {
            match d {
                Delimiter::Parenthesis => push_char(out, '('),
                Delimiter::Brace => {
                    push_char(out, '{');
                    push_char(out, ' ');
                },
                Delimiter::Bracket => push_char(out, '['),
                Delimiter::NoDelimiter => {},
            }
            assert(out@ == old(out)@ + open_text(*d));
            write_range(out, v, 0, v.len());
            match d {
                Delimiter::Parenthesis => push_char(out, ')'),
                Delimiter::Brace => {
                    if v.len() != 0 {
                        push_char(out, ' ');
                    }
                    push_char(out, '}');
                },
                Delimiter::Bracket => push_char(out, ']'),
                Delimiter::NoDelimiter => {},
            }
        },
        TokenTree::Ident(s) => push_str(out, s.as_str()),
        TokenTree::Punct(c, _) => push_char(out, *c),
        TokenTree::Literal(s) => push_str(out, s.as_str()),
    }
}

/// Appends the printed form of the trees of `v` in `lo..hi`.
pub fn write_range(out: &mut Vec<char>, v: &Vec<TokenTree>, lo: usize, hi: usize)
    requires
        hi <= v.len(),
    ensures
        final(out)@ == old(out)@ + range_text(*v, lo as nat, hi as nat),
    decreases v, hi,
{
    if hi <= lo {
        return;
    }
    write_range(out, v, lo, hi - 1);
    if hi - lo >= 2 {
        match &v[hi - 2] {
            TokenTree::Punct(_, Spacing::Joint) => {},
            _ => push_char(out, ' '),
        }
    }
    write_tree(out, &v[hi - 1]);
}

/// The printed form of the trees of `v` in `lo..hi`.
pub fn range_to_chars(v: &Vec<TokenTree>, lo: usize, hi: usize) -> (s: Vec<char>)
    requires
        hi <= v.len(),
    ensures
        s@ == range_text(*v, lo as nat, hi as nat),
{
    let mut out: Vec<char> = Vec::new();
    write_range(&mut out, v, lo, hi);
    out
}

/// The printed form of a token stream, as proc-macro2 prints it outside
/// the compiler.
pub fn stream_to_string(v: &Vec<TokenTree>) -> (s: String)
    ensures
        s@ == stream_text(*v),
{
    let out = range_to_chars(v, 0, v.len());
    crate::text::string_of(&out)
}

/// Whether a token is the punctuation character `c`, whatever its spacing.
pub open spec fn is_punct(t: TokenTree, c: char) -> bool {
    t matches TokenTree::Punct(p, _) && p == c
}

/// Exec form of [`is_punct`].
pub fn token_is_punct(t: &TokenTree, c: char) -> (r: bool)
    ensures
        r == is_punct(*t, c),
{
    match t {
        TokenTree::Punct(p, _) => *p == c,
        _ => false,
    }
}

/// The first index at or after `i` that holds a comma, or the length.
pub open spec fn next_comma(v: Vec<TokenTree>, i: int) -> int
    decreases v.len() - i,
{
    if i >= v.len() {
        v.len() as int
    } else if is_punct(v[i], ',') {
        i
    } else {
        next_comma(v, i + 1)
    }
}

/// Exec form of [`next_comma`].
pub fn find_comma(v: &Vec<TokenTree>, i: usize) -> (r: usize)
    ensures
        r == next_comma(*v, i as int),
        i <= v.len() ==> i <= r <= v.len(),
    decreases v.len() - i,
{
    if i >= v.len() {
        v.len()
    } else if token_is_punct(&v[i], ',') {
        i
    } else {
        find_comma(v, i + 1)
    }
}

} // verus!
