//! The argument list of a PyO3 `signature = (...)` attribute.

use vstd::prelude::*;
use crate::rust_syntax::{expr_parses, ident_accepted, rust_expr_parses, rust_ident_accepted};
use crate::text::string_of;
use crate::parse::{prepend, ParseError, Parsed, same_error};
use crate::tokens::{
    find_comma, is_punct, next_comma, range_text, range_to_chars, token_is_punct, TokenTree,
};

verus! {

/// One entry of a signature: `x`, `x = default`, `/`, `*`, `*args` or
/// `**kwargs`. A default value is kept as its printed source text.
#[derive(Debug, PartialEq, Eq)]
pub enum SignatureArg {
    Ident(String),
    Assign(String, String),
    Slash,
    Star,
    Args(String),
    Keywords(String),
}

/// The mathematical form of a [`SignatureArg`].
pub enum SignatureArgView {
    Ident(Seq<char>),
    Assign(Seq<char>, Seq<char>),
    Slash,
    Star,
    Args(Seq<char>),
    Keywords(Seq<char>),
}

impl View for SignatureArg {
    type V = SignatureArgView;

    open spec fn view(&self) -> SignatureArgView {
        match self {
            SignatureArg::Ident(n) => SignatureArgView::Ident(n@),
            SignatureArg::Assign(n, e) => SignatureArgView::Assign(n@, e@),
            SignatureArg::Slash => SignatureArgView::Slash,
            SignatureArg::Star => SignatureArgView::Star,
            SignatureArg::Args(n) => SignatureArgView::Args(n@),
            SignatureArg::Keywords(n) => SignatureArgView::Keywords(n@),
        }
    }
}

/// A parsed `signature = (...)` argument list.
#[derive(Debug, PartialEq, Eq)]
pub struct Signature {
    pub args: Vec<SignatureArg>,
}

impl View for Signature {
    type V = Seq<SignatureArgView>;

    open spec fn view(&self) -> Seq<SignatureArgView> {
        self.args@.map_values(|a: SignatureArg| a@)
    }
}

/// One signature entry read at some index, with the index after it.
pub enum ArgStep {
    Read(SignatureArgView, int),
    Error,
    Panic,
}

/// The identifier held by a token, if it is one that `syn` accepts as an
/// identifier (not a keyword).
pub open spec fn accepted_ident(t: TokenTree) -> Option<Seq<char>> {
    match t {
        TokenTree::Ident(s) => if rust_ident_accepted(s@) {
            Some(s@)
        } else {
            None
        },
        _ => None,
    }
}

/// Reads one signature entry starting at index `i < v.len()`.
pub open spec fn sig_arg_at(v: Vec<TokenTree>, i: int) -> ArgStep {
    let n = v.len();
    if is_punct(v[i], '/') {
        ArgStep::Read(SignatureArgView::Slash, i + 1)
    } else if is_punct(v[i], '*') {
        if i + 1 < n && is_punct(v[i + 1], '*') {
            if i + 2 < n && accepted_ident(v[i + 2]) is Some {
                ArgStep::Read(SignatureArgView::Keywords(accepted_ident(v[i + 2])->0), i + 3)
            } else {
                ArgStep::Error
            }
        } else if i + 1 < n && accepted_ident(v[i + 1]) is Some {
            ArgStep::Read(SignatureArgView::Args(accepted_ident(v[i + 1])->0), i + 2)
        } else {
            ArgStep::Read(SignatureArgView::Star, i + 1)
        }
    } else if accepted_ident(v[i]) is Some {
        let name = accepted_ident(v[i])->0;
        if i + 1 < n && is_punct(v[i + 1], '=') {
            let end = next_comma(v, i + 2);
            let text = range_text(v, (i + 2) as nat, end as nat);
            if rust_expr_parses(text) {
                ArgStep::Read(SignatureArgView::Assign(name, text), end)
            } else {
                ArgStep::Error
            }
        } else {
            ArgStep::Read(SignatureArgView::Ident(name), i + 1)
        }
    } else {
        ArgStep::Panic
    }
}

pub proof fn lemma_next_comma_bounds(v: Vec<TokenTree>, i: int)
    requires
        0 <= i <= v.len(),
    ensures
        i <= next_comma(v, i) <= v.len(),
    decreases v.len() - i,
{
    if i < v.len() && !is_punct(v[i], ',') {
        lemma_next_comma_bounds(v, i + 1);
    }
}

pub proof fn lemma_sig_arg_advances(v: Vec<TokenTree>, i: int)
    requires
        0 <= i < v.len(),
    ensures
        sig_arg_at(v, i) matches ArgStep::Read(_, j) ==> i < j <= v.len(),
{
    if i + 2 <= v.len() {
        lemma_next_comma_bounds(v, i + 2);
    }
}

/// A signature entry that starts with `*` collects arguments: `** name`
/// is the entry that collects keyword arguments into `name`, `* name` the
/// one that collects positional arguments into `name`, whatever follows;
/// the entries read from a `** name` begin with the keyword collector.
pub proof fn law_star_entries(v: Vec<TokenTree>, i: int, name: String)
    requires
        0 <= i,
        i + 1 < v.len(),
        is_punct(v[i], '*'),
        rust_ident_accepted(name@),
    ensures
        is_punct(v[i + 1], '*') && i + 2 < v.len() && v[i + 2] == TokenTree::Ident(name)
            ==> sig_arg_at(v, i) == ArgStep::Read(SignatureArgView::Keywords(name@), i + 3),
        v[i + 1] == TokenTree::Ident(name) ==> sig_arg_at(v, i) == ArgStep::Read(
            SignatureArgView::Args(name@),
            i + 2,
        ),
        is_punct(v[i + 1], '*') && i + 2 < v.len() && v[i + 2] == TokenTree::Ident(name) ==> (
        sig_args_from(v, i) matches Parsed::Value(s) ==> s.len() > 0 && s[0]
            == SignatureArgView::Keywords(name@)),
{
    if is_punct(v[i + 1], '*') && i + 2 < v.len() && v[i + 2] == TokenTree::Ident(name) {
        if sig_args_from(v, i) is Value && i + 3 < v.len() && is_punct(v[i + 3], ',') {
            let r = sig_args_from(v, i + 4);
            assert(r is Value);
            assert((seq![SignatureArgView::Keywords(name@)] + r->Value_0)[0] == SignatureArgView::Keywords(name@));
        }
    }
}

/// Reads comma-separated signature entries from index `i` to the end; a
/// trailing comma is allowed.
pub open spec fn sig_args_from(v: Vec<TokenTree>, i: int) -> Parsed<Seq<SignatureArgView>>
    decreases v.len() - i,
{
    if i < 0 || i >= v.len() {
        Parsed::Value(Seq::empty())
    } else {
        match sig_arg_at(v, i) {
            ArgStep::Panic => Parsed::Panic,
            ArgStep::Error => Parsed::Error(ParseError::Syntax),
            ArgStep::Read(a, j) => {
                proof {
                    lemma_sig_arg_advances(v, i);
                }
                if j >= v.len() {
                    Parsed::Value(seq![a])
                } else if is_punct(v[j], ',') {
                    prepend(seq![a], sig_args_from(v, j + 1))
                } else {
                    Parsed::Error(ParseError::Syntax)
                }
            },
        }
    }
}

/// The outcome of parsing the inside of a signature's parentheses.
pub open spec fn signature_spec(v: Vec<TokenTree>) -> Parsed<Seq<SignatureArgView>> {
    sig_args_from(v, 0)
}

fn token_accepted_ident(t: &TokenTree) -> (r: Option<String>)
    ensures
        match r {
            Some(s) => accepted_ident(*t) == Some(s@),
            None => accepted_ident(*t) is None,
        },
{
    match t {
        TokenTree::Ident(s) => if ident_accepted(s.as_str()) {
            Some(s.clone())
        } else {
            None
        },
        _ => None,
    }
}

enum ArgStepExec {
    Read(SignatureArg, usize),
    Error,
    Panic,
}

fn read_sig_arg(v: &Vec<TokenTree>, i: usize) -> (r: ArgStepExec)
    requires
        i < v.len(),
    ensures
        match (r, sig_arg_at(*v, i as int)) {
            (ArgStepExec::Read(a, j), ArgStep::Read(b, k)) => a@ == b && j == k,
            (ArgStepExec::Error, ArgStep::Error) => true,
            (ArgStepExec::Panic, ArgStep::Panic) => true,
            _ => false,
        },
{
    let n = v.len();
    if token_is_punct(&v[i], '/') {
        ArgStepExec::Read(SignatureArg::Slash, i + 1)
    } else if token_is_punct(&v[i], '*') {
        if i + 1 < n && token_is_punct(&v[i + 1], '*') {
            if i + 2 < n {
                match token_accepted_ident(&v[i + 2]) {
                    Some(name) => ArgStepExec::Read(SignatureArg::Keywords(name), i + 3),
                    None => ArgStepExec::Error,
                }
            } else {
                ArgStepExec::Error
            }
        } else if i + 1 < n {
            match token_accepted_ident(&v[i + 1]) {
                Some(name) => ArgStepExec::Read(SignatureArg::Args(name), i + 2),
                None => ArgStepExec::Read(SignatureArg::Star, i + 1),
            }
        } else {
            ArgStepExec::Read(SignatureArg::Star, i + 1)
        }
    } else {
        match token_accepted_ident(&v[i]) {
            Some(name) => {
                if i + 1 < n && token_is_punct(&v[i + 1], '=') {
                    let end = find_comma(v, i + 2);
                    let chars = range_to_chars(v, i + 2, end);
                    let text = string_of(&chars);
                    if expr_parses(text.as_str()) {
                        ArgStepExec::Read(SignatureArg::Assign(name, text), end)
                    } else {
                        ArgStepExec::Error
                    }
                } else {
                    ArgStepExec::Read(SignatureArg::Ident(name), i + 1)
                }
            },
            None => ArgStepExec::Panic,
        }
    }
}

/// Parses the inside of a signature's parentheses into a value, a syntax
/// error, or `Panic` where the macro stops (it panics) on
/// an entry that starts with an unexpected token.
pub fn parse_signature_tokens(v: &Vec<TokenTree>) -> (r: Parsed<Signature>)
    ensures
        match (r, signature_spec(*v)) {
            (Parsed::Value(s), Parsed::Value(t)) => s@ == t,
            (Parsed::Error(e), Parsed::Error(f)) => same_error(e, f),
            (Parsed::Panic, Parsed::Panic) => true,
            _ => false,
        },
{
    let mut acc: Vec<SignatureArg> = Vec::new();
    let mut i: usize = 0;
    let n = v.len();
    while i < n
        invariant
            n == v.len(),
            i <= n,
            signature_spec(*v) == prepend(acc@.map_values(|a: SignatureArg| a@), sig_args_from(*v, i as int)),
        decreases n - i,
    {
        let ghost before = acc@.map_values(|a: SignatureArg| a@);
        proof {
            lemma_sig_arg_advances(*v, i as int);
        }
        match read_sig_arg(v, i) {
            ArgStepExec::Panic => {
                return Parsed::Panic;
            },
            ArgStepExec::Error => {
                return Parsed::Error(ParseError::Syntax);
            },
            ArgStepExec::Read(a, j) => {
                let ghost av = a@;
                acc.push(a);
                assert(acc@.map_values(|a: SignatureArg| a@) =~= before.push(av));
                if j >= n {
                    assert(before + seq![av] =~= before.push(av));
                    return Parsed::Value(Signature { args: acc });
                } else if token_is_punct(&v[j], ',') {
                    assert forall|r: Seq<SignatureArgView>| #![auto] before + (seq![av] + r) == before.push(av) + r by {
                        assert(before + (seq![av] + r) =~= before.push(av) + r);
                    }
                    i = j + 1;
                } else {
                    return Parsed::Error(ParseError::Syntax);
                }
            },
        }
    }
    assert(acc@.map_values(|a: SignatureArg| a@) + Seq::<SignatureArgView>::empty() =~= acc@.map_values(|a: SignatureArg| a@));
    Parsed::Value(Signature { args: acc })
}

} // verus!
