//! Attributes of Rust items: the model of an attribute, PyO3's
//! `#[pyo3(...)]`-style settings, and the crate's own `#[gen_stub(...)]`.

use vstd::prelude::*;
use crate::parse::{prepend, same_outcome, then_rest, ParseError, Parsed, same_error};
use crate::renaming::{rule_named, RenamingRule};
use crate::rust_syntax::{rust_type_parses, type_parses};
use crate::signature::{
    accepted_ident, parse_signature_tokens, signature_spec, Signature, SignatureArgView,
};
use crate::text::{str_is, trim_char, trim_char_matches};
use crate::tokens::{find_comma, is_punct, next_comma, token_is_punct, Delimiter, TokenTree};

verus! {

/// What follows the path of an attribute: nothing, a delimited token list
/// (`#[path(...)]`), or `= value` with the value's tokens.
#[derive(Debug)]
pub enum Meta {
    Path,
    List(Vec<TokenTree>),
    NameValue(Vec<TokenTree>),
}

/// An attribute `#[path ...]`: the segments of its path, whether the path
/// starts with `::`, and what follows the path.
#[derive(Debug)]
pub struct Attribute {
    pub path: Vec<String>,
    pub leading_colon: bool,
    pub meta: Meta,
}

/// Whether the attribute's path is the single identifier `name`.
pub open spec fn path_is(a: Attribute, name: Seq<char>) -> bool {
    !a.leading_colon && a.path.len() == 1 && a.path[0]@ == name
}

/// Exec form of [`path_is`].
pub fn attr_path_is(a: &Attribute, name: &str) -> (r: bool)
    ensures
        r == path_is(*a, name@),
{
    !a.leading_colon && a.path.len() == 1 && str_is(a.path[0].as_str(), name)
}

/// A setting given through `#[pyclass(...)]`, `#[pyo3(...)]` and the like,
/// or a marker attribute of a method in `#[pymethods]`.
#[derive(Debug, PartialEq, Eq)]
pub enum Attr {
    Name(String),
    Get,
    GetAll,
    SetField,
    SetAll,
    Module(String),
    Constructor(Signature),
    Signature(Signature),
    RenameAll(RenamingRule),
    Extends(String),
    Eq,
    Ord,
    Hash,
    Str,
    Subclass,
    New,
    Getter(Option<String>),
    Setter(Option<String>),
    StaticMethod,
    ClassMethod,
    ClassAttr,
}

/// The mathematical form of an [`Attr`].
pub enum AttrView {
    Name(Seq<char>),
    Get,
    GetAll,
    SetField,
    SetAll,
    Module(Seq<char>),
    Constructor(Seq<SignatureArgView>),
    Signature(Seq<SignatureArgView>),
    RenameAll(RenamingRule),
    Extends(Seq<char>),
    Eq,
    Ord,
    Hash,
    Str,
    Subclass,
    New,
    Getter(Option<Seq<char>>),
    Setter(Option<Seq<char>>),
    StaticMethod,
    ClassMethod,
    ClassAttr,
}

pub open spec fn opt_view(o: Option<String>) -> Option<Seq<char>> {
    match o {
        Some(s) => Some(s@),
        None => None,
    }
}

impl View for Attr {
    type V = AttrView;

    open spec fn view(&self) -> AttrView {
        match self {
            Attr::Name(s) => AttrView::Name(s@),
            Attr::Get => AttrView::Get,
            Attr::GetAll => AttrView::GetAll,
            Attr::SetField => AttrView::SetField,
            Attr::SetAll => AttrView::SetAll,
            Attr::Module(s) => AttrView::Module(s@),
            Attr::Constructor(s) => AttrView::Constructor(s@),
            Attr::Signature(s) => AttrView::Signature(s@),
            Attr::RenameAll(r) => AttrView::RenameAll(*r),
            Attr::Extends(s) => AttrView::Extends(s@),
            Attr::Eq => AttrView::Eq,
            Attr::Ord => AttrView::Ord,
            Attr::Hash => AttrView::Hash,
            Attr::Str => AttrView::Str,
            Attr::Subclass => AttrView::Subclass,
            Attr::New => AttrView::New,
            Attr::Getter(o) => AttrView::Getter(opt_view(*o)),
            Attr::Setter(o) => AttrView::Setter(opt_view(*o)),
            Attr::StaticMethod => AttrView::StaticMethod,
            Attr::ClassMethod => AttrView::ClassMethod,
            Attr::ClassAttr => AttrView::ClassAttr,
        }
    }
}

/// The setting that a lone identifier stands for in a PyO3 list.
pub open spec fn flag_attr(k: Seq<char>) -> Seq<AttrView> {
    if k == "get"@ {
        seq![AttrView::Get]
    } else if k == "get_all"@ {
        seq![AttrView::GetAll]
    } else if k == "set"@ {
        seq![AttrView::SetField]
    } else if k == "set_all"@ {
        seq![AttrView::SetAll]
    } else if k == "eq"@ {
        seq![AttrView::Eq]
    } else if k == "ord"@ {
        seq![AttrView::Ord]
    } else if k == "hash"@ {
        seq![AttrView::Hash]
    } else if k == "str"@ {
        seq![AttrView::Str]
    } else if k == "subclass"@ {
        seq![AttrView::Subclass]
    } else {
        Seq::empty()
    }
}

/// The setting that `key = literal` stands for; the literal's text is taken
/// with its double quotes trimmed.
pub open spec fn literal_attr(k: Seq<char>, lit: Seq<char>) -> Seq<AttrView> {
    let value = trim_char(lit, '"');
    if k == "name"@ {
        seq![AttrView::Name(value)]
    } else if k == "module"@ {
        seq![AttrView::Module(value)]
    } else if k == "rename_all"@ {
        match rule_named(value) {
            Some(r) => seq![AttrView::RenameAll(r)],
            None => Seq::empty(),
        }
    } else {
        Seq::empty()
    }
}

/// Parses a `(...)` group as a signature.
pub open spec fn signature_group(d: Delimiter, g: Vec<TokenTree>, constructor: bool) -> Parsed<
    Seq<AttrView>,
> {
    if d != Delimiter::Parenthesis {
        Parsed::Error(ParseError::Syntax)
    } else {
        match signature_spec(g) {
            Parsed::Value(s) => Parsed::Value(
                if constructor {
                    seq![AttrView::Constructor(s)]
                } else {
                    seq![AttrView::Signature(s)]
                },
            ),
            Parsed::Error(e) => Parsed::Error(e),
            Parsed::Panic => Parsed::Panic,
        }
    }
}

/// The settings that the comma-free piece `v[lo..hi]` of a PyO3 list
/// stands for: a flag, `key = "literal"`, `signature = (...)`,
/// `constructor = (...)` or `extends = Type`; any other piece stands for
/// nothing.
pub open spec fn piece_attrs(v: Vec<TokenTree>, lo: int, hi: int) -> Parsed<Seq<AttrView>> {
    if hi - lo == 1 && v[lo] is Ident {
        Parsed::Value(flag_attr(v[lo]->Ident_0@))
    } else if hi - lo == 3 && v[lo] is Ident && v[lo + 1] is Punct {
        let k = v[lo]->Ident_0@;
        match v[lo + 2] {
            TokenTree::Literal(l) => Parsed::Value(literal_attr(k, l@)),
            TokenTree::Group(d, g) => if k == "signature"@ {
                signature_group(d, g, false)
            } else if k == "constructor"@ {
                signature_group(d, g, true)
            } else {
                Parsed::Value(Seq::empty())
            },
            TokenTree::Ident(t) => if k == "extends"@ {
                if rust_type_parses(t@) {
                    Parsed::Value(seq![AttrView::Extends(t@)])
                } else {
                    Parsed::Error(ParseError::Syntax)
                }
            } else {
                Parsed::Value(Seq::empty())
            },
            _ => Parsed::Value(Seq::empty()),
        }
    } else {
        Parsed::Value(Seq::empty())
    }
}

/// The settings of the comma-separated pieces of `v` from index `lo` on.
pub open spec fn pieces_attrs(v: Vec<TokenTree>, lo: int) -> Parsed<Seq<AttrView>>
    decreases v.len() - lo,
{
    if lo < 0 || lo > v.len() {
        Parsed::Value(Seq::empty())
    } else {
        let hi = next_comma(v, lo);
        proof {
            crate::signature::lemma_next_comma_bounds(v, lo);
        }
        if hi >= v.len() {
            piece_attrs(v, lo, hi)
        } else {
            then_rest(piece_attrs(v, lo, hi), pieces_attrs(v, hi + 1))
        }
    }
}

/// Whether the attribute is `#[pyclass]`, `#[pymethods]`, `#[pyfunction]`,
/// `#[pyo3]`, or one of the first three written `pyo3::...`.
pub open spec fn is_pyo3_attr(a: Attribute) -> bool {
    let full = a.path.len() == 2 && a.path[0]@ == "pyo3"@ && (a.path[1]@ == "pyclass"@
        || a.path[1]@ == "pymethods"@ || a.path[1]@ == "pyfunction"@);
    path_is(a, "pyclass"@) || path_is(a, "pymethods"@) || path_is(a, "pyfunction"@) || path_is(
        a,
        "pyo3"@,
    ) || full
}

/// The identifier that forms the whole argument list of the attribute.
pub open spec fn single_ident_arg(a: Attribute) -> Option<Seq<char>> {
    match a.meta {
        Meta::List(v) => if v.len() == 1 {
            accepted_ident(v[0])
        } else {
            None
        },
        _ => None,
    }
}

/// What one attribute says in PyO3's terms.
pub open spec fn pyo3_attr_spec(a: Attribute) -> Parsed<Seq<AttrView>> {
    if is_pyo3_attr(a) {
        match a.meta {
            Meta::List(v) => pieces_attrs(v, 0),
            _ => Parsed::Value(Seq::empty()),
        }
    } else if path_is(a, "new"@) {
        Parsed::Value(seq![AttrView::New])
    } else if path_is(a, "staticmethod"@) {
        Parsed::Value(seq![AttrView::StaticMethod])
    } else if path_is(a, "classmethod"@) {
        Parsed::Value(seq![AttrView::ClassMethod])
    } else if path_is(a, "classattr"@) {
        Parsed::Value(seq![AttrView::ClassAttr])
    } else if path_is(a, "getter"@) {
        Parsed::Value(seq![AttrView::Getter(single_ident_arg(a))])
    } else if path_is(a, "setter"@) {
        Parsed::Value(seq![AttrView::Setter(single_ident_arg(a))])
    } else {
        Parsed::Value(Seq::empty())
    }
}

/// What a list of attributes says in PyO3's terms, in order.
pub open spec fn pyo3_attrs_spec(attrs: Seq<Attribute>) -> Parsed<Seq<AttrView>>
    decreases attrs.len(),
{
    if attrs.len() == 0 {
        Parsed::Value(Seq::empty())
    } else {
        then_rest(pyo3_attr_spec(attrs[0]), pyo3_attrs_spec(attrs.drop_first()))
    }
}

/// Whether reading the attributes in PyO3's terms ends without the stop
/// (a `signature` that `syn` cannot read, where the macro panics).
pub open spec fn pyo3_attrs_defined(attrs: Seq<Attribute>) -> bool {
    !(pyo3_attrs_spec(attrs) is Panic)
}

fn flag_attr_exec(k: &str) -> (r: Vec<Attr>)
    ensures
        r@.map_values(|a: Attr| a@) == flag_attr(k@),
{
    let mut r: Vec<Attr> = Vec::new();
    if str_is(k, "get") {
        r.push(Attr::Get);
    } else if str_is(k, "get_all") {
        r.push(Attr::GetAll);
    } else if str_is(k, "set") {
        r.push(Attr::SetField);
    } else if str_is(k, "set_all") {
        r.push(Attr::SetAll);
    } else if str_is(k, "eq") {
        r.push(Attr::Eq);
    } else if str_is(k, "ord") {
        r.push(Attr::Ord);
    } else if str_is(k, "hash") {
        r.push(Attr::Hash);
    } else if str_is(k, "str") {
        r.push(Attr::Str);
    } else if str_is(k, "subclass") {
        r.push(Attr::Subclass);
    }
    assert(r@.map_values(|a: Attr| a@) =~= flag_attr(k@));
    r
}

fn literal_attr_exec(k: &str, lit: &str) -> (r: Vec<Attr>)
    ensures
        r@.map_values(|a: Attr| a@) == literal_attr(k@, lit@),
{
    let mut r: Vec<Attr> = Vec::new();
    let value = trim_char_matches(lit, '"');
    if str_is(k, "name") {
        r.push(Attr::Name(value));
    } else if str_is(k, "module") {
        r.push(Attr::Module(value));
    } else if str_is(k, "rename_all") {
        match RenamingRule::try_new(value.as_str()) {
            Some(rule) => r.push(Attr::RenameAll(rule)),
            None => {},
        }
    }
    assert(r@.map_values(|a: Attr| a@) =~= literal_attr(k@, lit@));
    r
}

fn signature_group_exec(d: Delimiter, g: &Vec<TokenTree>, constructor: bool) -> (r: Parsed<
    Vec<Attr>,
>)
    ensures
        same_outcome(r, signature_group(d, *g, constructor)),
{
    if d != Delimiter::Parenthesis {
        return Parsed::Error(ParseError::Syntax);
    }
    match parse_signature_tokens(g) {
        Parsed::Value(s) => {
            let mut r: Vec<Attr> = Vec::new();
            if constructor {
                r.push(Attr::Constructor(s));
            } else {
                r.push(Attr::Signature(s));
            }
            assert(r@.map_values(|a: Attr| a@) =~= signature_group(d, *g, constructor)->Value_0);
            Parsed::Value(r)
        },
        Parsed::Error(e) => Parsed::Error(e),
        Parsed::Panic => Parsed::Panic,
    }
}

fn piece_attrs_exec(v: &Vec<TokenTree>, lo: usize, hi: usize) -> (r: Parsed<Vec<Attr>>)
    requires
        lo <= hi <= v.len(),
    ensures
        same_outcome(r, piece_attrs(*v, lo as int, hi as int)),
{
    let empty: Vec<Attr> = Vec::new();
    assert(empty@.map_values(|a: Attr| a@) =~= Seq::<AttrView>::empty());
    if hi - lo == 1 {
        match &v[lo] {
            TokenTree::Ident(k) => {
                return Parsed::Value(flag_attr_exec(k.as_str()));
            },
            _ => {
                return Parsed::Value(empty);
            },
        }
    }
    if hi - lo != 3 {
        return Parsed::Value(empty);
    }
    let k = match &v[lo] {
        TokenTree::Ident(k) => k,
        _ => {
            return Parsed::Value(empty);
        },
    };
    match &v[lo + 1] {
        TokenTree::Punct(_, _) => {},
        _ => {
            return Parsed::Value(empty);
        },
    }
    match &v[lo + 2] {
        TokenTree::Literal(l) => Parsed::Value(literal_attr_exec(k.as_str(), l.as_str())),
        TokenTree::Group(d, g) => {
            if str_is(k.as_str(), "signature") {
                signature_group_exec(*d, g, false)
            } else if str_is(k.as_str(), "constructor") {
                signature_group_exec(*d, g, true)
            } else {
                Parsed::Value(empty)
            }
        },
        TokenTree::Ident(t) => {
            if str_is(k.as_str(), "extends") {
                if type_parses(t.as_str()) {
                    let mut r: Vec<Attr> = Vec::new();
                    r.push(Attr::Extends(t.clone()));
                    assert(r@.map_values(|a: Attr| a@) =~= seq![AttrView::Extends(t@)]);
                    Parsed::Value(r)
                } else {
                    Parsed::Error(ParseError::Syntax)
                }
            } else {
                Parsed::Value(empty)
            }
        },
        _ => Parsed::Value(empty),
    }
}

proof fn lemma_then_rest_assoc(acc: Seq<AttrView>, first: Parsed<Seq<AttrView>>, rest: Parsed<Seq<AttrView>>)
    ensures
        prepend(acc, then_rest(first, rest)) == then_rest(prepend(acc, first), rest),
{
    match (first, rest) {
        (Parsed::Value(a), Parsed::Value(r)) => {
            assert(acc + (a + r) =~= (acc + a) + r);
        },
        _ => {},
    }
}

fn pieces_attrs_exec(v: &Vec<TokenTree>) -> (r: Parsed<Vec<Attr>>)
    ensures
        same_outcome(r, pieces_attrs(*v, 0)),
{
    let mut acc: Vec<Attr> = Vec::new();
    let mut lo: usize = 0;
    let n = v.len();
    assert(acc@.map_values(|a: Attr| a@) =~= Seq::<AttrView>::empty());
    assert(prepend(Seq::<AttrView>::empty(), pieces_attrs(*v, 0)) == pieces_attrs(*v, 0)) by {
        match pieces_attrs(*v, 0) {
            Parsed::Value(x) => {
                assert(Seq::<AttrView>::empty() + x =~= x);
            },
            _ => {},
        }
    }
    loop
        invariant
            n == v.len(),
            lo <= n,
            pieces_attrs(*v, 0) == prepend(acc@.map_values(|a: Attr| a@), pieces_attrs(*v, lo as int)),
        decreases n - lo,
    {
        let hi = find_comma(v, lo);
        let ghost before = acc@.map_values(|a: Attr| a@);
        proof {
            lemma_then_rest_assoc(before, piece_attrs(*v, lo as int, hi as int), pieces_attrs(*v, hi + 1));
        }
        match piece_attrs_exec(v, lo, hi) {
            Parsed::Value(mut items) => {
                let ghost iv = items@.map_values(|a: Attr| a@);
                acc.append(&mut items);
                assert(acc@.map_values(|a: Attr| a@) =~= before + iv);
                if hi >= n {
                    assert(pieces_attrs(*v, lo as int) == piece_attrs(*v, lo as int, hi as int));
                    return Parsed::Value(acc);
                }
                lo = hi + 1;
            },
            Parsed::Error(e) => {
                return Parsed::Error(e);
            },
            Parsed::Panic => {
                return Parsed::Panic;
            },
        }
    }
}

fn single_ident_arg_exec(a: &Attribute) -> (r: Option<String>)
    ensures
        opt_view(r) == single_ident_arg(*a),
{
    match &a.meta {
        Meta::List(v) => {
            if v.len() == 1 {
                match &v[0] {
                    TokenTree::Ident(s) => {
                        if crate::rust_syntax::ident_accepted(s.as_str()) {
                            Some(s.clone())
                        } else {
                            None
                        }
                    },
                    _ => None,
                }
            } else {
                None
            }
        },
        _ => None,
    }
}

fn is_pyo3_attr_exec(a: &Attribute) -> (r: bool)
    ensures
        r == is_pyo3_attr(*a),
{
    let full = a.path.len() == 2 && str_is(a.path[0].as_str(), "pyo3") && (str_is(
        a.path[1].as_str(),
        "pyclass",
    ) || str_is(a.path[1].as_str(), "pymethods") || str_is(a.path[1].as_str(), "pyfunction"));
    attr_path_is(a, "pyclass") || attr_path_is(a, "pymethods") || attr_path_is(a, "pyfunction")
        || attr_path_is(a, "pyo3") || full
}

fn one(a: Attr) -> (r: Vec<Attr>)
    ensures
        r@.map_values(|x: Attr| x@) == seq![a@],
{
    let mut r: Vec<Attr> = Vec::new();
    r.push(a);
    assert(r@.map_values(|x: Attr| x@) =~= seq![a@]);
    r
}

/// Reads one attribute in PyO3's terms: the settings listed in
/// `#[pyclass(...)]`, `#[pymethods(...)]`, `#[pyfunction(...)]` or
/// `#[pyo3(...)]` (also written `pyo3::pyclass` and so on), or the marker
/// of a method (`#[new]`, `#[staticmethod]`, `#[classmethod]`,
/// `#[classattr]`, `#[getter]`, `#[setter]`). `Panic` marks the input on
/// which the macro's reading of signatures panics.
pub fn pyo3_attr_outcome(a: &Attribute) -> (r: Parsed<Vec<Attr>>)
    ensures
        same_outcome(r, pyo3_attr_spec(*a)),
{
    let empty: Vec<Attr> = Vec::new();
    assert(empty@.map_values(|x: Attr| x@) =~= Seq::<AttrView>::empty());
    if is_pyo3_attr_exec(a) {
        match &a.meta {
            Meta::List(v) => pieces_attrs_exec(v),
            _ => Parsed::Value(empty),
        }
    } else if attr_path_is(a, "new") {
        Parsed::Value(one(Attr::New))
    } else if attr_path_is(a, "staticmethod") {
        Parsed::Value(one(Attr::StaticMethod))
    } else if attr_path_is(a, "classmethod") {
        Parsed::Value(one(Attr::ClassMethod))
    } else if attr_path_is(a, "classattr") {
        Parsed::Value(one(Attr::ClassAttr))
    } else if attr_path_is(a, "getter") {
        Parsed::Value(one(Attr::Getter(single_ident_arg_exec(a))))
    } else if attr_path_is(a, "setter") {
        Parsed::Value(one(Attr::Setter(single_ident_arg_exec(a))))
    } else {
        Parsed::Value(empty)
    }
}

/// Reads one attribute in PyO3's terms (see [`pyo3_attr_outcome`]).
pub fn parse_pyo3_attr(a: &Attribute) -> (r: Result<Vec<Attr>, ParseError>)
    requires
        !(pyo3_attr_spec(*a) is Panic),
    ensures
        match (r, pyo3_attr_spec(*a)) {
            (Ok(v), Parsed::Value(t)) => v@.map_values(|x: Attr| x@) == t,
            (Err(e), Parsed::Error(f)) => same_error(e, f),
            _ => false,
        },
{
    match pyo3_attr_outcome(a) {
        Parsed::Value(v) => Ok(v),
        Parsed::Error(e) => Err(e),
        Parsed::Panic => Err(ParseError::Syntax),
    }
}

/// Reads a list of attributes in PyO3's terms, in order; the first error
/// or stop ends the reading.
pub fn pyo3_attrs_outcome(attrs: &Vec<Attribute>) -> (r: Parsed<Vec<Attr>>)
    ensures
        same_outcome(r, pyo3_attrs_spec(attrs@)),
{
    let mut acc: Vec<Attr> = Vec::new();
    let mut i: usize = 0;
    assert(acc@.map_values(|a: Attr| a@) =~= Seq::<AttrView>::empty());
    assert(attrs@.subrange(0, attrs.len() as int) =~= attrs@);
    assert(prepend(Seq::<AttrView>::empty(), pyo3_attrs_spec(attrs@)) == pyo3_attrs_spec(attrs@)) by {
        match pyo3_attrs_spec(attrs@) {
            Parsed::Value(x) => {
                assert(Seq::<AttrView>::empty() + x =~= x);
            },
            _ => {},
        }
    }
    while i < attrs.len()
        invariant
            i <= attrs.len(),
            pyo3_attrs_spec(attrs@) == prepend(
                acc@.map_values(|a: Attr| a@),
                pyo3_attrs_spec(attrs@.subrange(i as int, attrs.len() as int)),
            ),
        decreases attrs.len() - i,
    {
        let ghost before = acc@.map_values(|a: Attr| a@);
        let ghost rest = attrs@.subrange(i as int, attrs.len() as int);
        assert(rest[0] == attrs@[i as int]);
        assert(rest.drop_first() =~= attrs@.subrange(i + 1, attrs.len() as int));
        proof {
            lemma_then_rest_assoc(before, pyo3_attr_spec(attrs@[i as int]), pyo3_attrs_spec(rest.drop_first()));
        }
        match pyo3_attr_outcome(&attrs[i]) {
            Parsed::Value(mut items) => {
                let ghost iv = items@.map_values(|a: Attr| a@);
                acc.append(&mut items);
                assert(acc@.map_values(|a: Attr| a@) =~= before + iv);
            },
            Parsed::Error(e) => {
                return Parsed::Error(e);
            },
            Parsed::Panic => {
                return Parsed::Panic;
            },
        }
        i = i + 1;
    }
    let ghost fin = acc@.map_values(|a: Attr| a@);
    assert(fin + Seq::<AttrView>::empty() =~= fin);
    Parsed::Value(acc)
}

/// Reads a list of attributes in PyO3's terms (see [`pyo3_attrs_outcome`]).
pub fn parse_pyo3_attrs(attrs: &Vec<Attribute>) -> (r: Result<Vec<Attr>, ParseError>)
    requires
        pyo3_attrs_defined(attrs@),
    ensures
        match (r, pyo3_attrs_spec(attrs@)) {
            (Ok(v), Parsed::Value(t)) => v@.map_values(|x: Attr| x@) == t,
            (Err(e), Parsed::Error(f)) => same_error(e, f),
            _ => false,
        },
{
    match pyo3_attrs_outcome(attrs) {
        Parsed::Value(v) => Ok(v),
        Parsed::Error(e) => Err(e),
        Parsed::Panic => Err(ParseError::Syntax),
    }
}

} // verus!

verus! {

/// The text of a doc comment line with one leading space removed.
pub open spec fn doc_line(d: Seq<char>) -> Seq<char> {
    if d.len() > 0 && d[0] == ' ' {
        d.drop_first()
    } else {
        d
    }
}

/// The value of `#[doc = "..."]` when the attribute is one.
pub open spec fn doc_value(a: Attribute) -> Option<Seq<char>> {
    if path_is(a, "doc"@) {
        match a.meta {
            Meta::NameValue(v) => if v.len() == 1 {
                crate::gen_stub_attr::lit_value(v[0])
            } else {
                None
            },
            _ => None,
        }
    } else {
        None
    }
}

/// The documentation lines of a list of attributes, in order, each with
/// one leading space removed.
pub open spec fn documents(attrs: Seq<Attribute>) -> Seq<Seq<char>>
    decreases attrs.len(),
{
    if attrs.len() == 0 {
        Seq::empty()
    } else {
        let rest = documents(attrs.drop_first());
        match doc_value(attrs[0]) {
            Some(d) => seq![doc_line(d)] + rest,
            None => rest,
        }
    }
}

fn doc_value_exec(a: &Attribute) -> (r: Option<String>)
    ensures
        opt_view(r) == doc_value(*a),
{
    if attr_path_is(a, "doc") {
        match &a.meta {
            Meta::NameValue(v) => {
                if v.len() == 1 {
                    match &v[0] {
                        TokenTree::Literal(s) => crate::rust_syntax::literal_string_value(
                            s.as_str(),
                        ),
                        _ => None,
                    }
                } else {
                    None
                }
            },
            _ => None,
        }
    } else {
        None
    }
}

fn strip_one_space(d: String) -> (r: String)
    ensures
        r@ == doc_line(d@),
{
    let cs = crate::text::chars_of(d.as_str());
    if cs.len() > 0 && cs[0] == ' ' {
        let mut out: Vec<char> = Vec::new();
        let mut i: usize = 1;
        while i < cs.len()
            invariant
                1 <= i <= cs.len(),
                out@ == cs@.subrange(1, i as int),
            decreases cs.len() - i,
        {
            out.push(cs[i]);
            i = i + 1;
            assert(out@ =~= cs@.subrange(1, i as int));
        }
        assert(cs@.drop_first() =~= cs@.subrange(1, cs.len() as int));
        crate::text::string_of(&out)
    } else {
        d
    }
}

/// The documentation lines of the attributes: each `#[doc = "..."]` value,
/// with one leading space removed.
pub fn extract_documents(attrs: &Vec<Attribute>) -> (r: Vec<String>)
    ensures
        r@.map_values(|s: String| s@) == documents(attrs@),
{
    let mut out: Vec<String> = Vec::new();
    let mut i: usize = attrs.len();
    assert(attrs@.subrange(attrs.len() as int, attrs.len() as int) =~= Seq::<Attribute>::empty());
    assert(out@.map_values(|s: String| s@) =~= Seq::<Seq<char>>::empty());
    while i > 0
        invariant
            i <= attrs.len(),
            out@.map_values(|s: String| s@).reverse() == documents(
                attrs@.subrange(i as int, attrs.len() as int),
            ),
        decreases i,
    {
        let ghost before = out@.map_values(|s: String| s@);
        let ghost rest = attrs@.subrange(i - 1, attrs.len() as int);
        assert(rest.drop_first() =~= attrs@.subrange(i as int, attrs.len() as int));
        assert(rest[0] == attrs@[i - 1]);
        match doc_value_exec(&attrs[i - 1]) {
            Some(d) => {
                let line = strip_one_space(d);
                let ghost lv = line@;
                out.push(line);
                assert(out@.map_values(|s: String| s@) =~= before.push(lv));
                assert(before.push(lv).reverse() =~= seq![lv] + before.reverse());
            },
            None => {},
        }
        i = i - 1;
    }
    let mut rev: Vec<String> = Vec::new();
    let ghost o = out@.map_values(|s: String| s@);
    assert(attrs@.subrange(0, attrs.len() as int) =~= attrs@);
    while out.len() > 0
        invariant
            rev@.map_values(|s: String| s@) + out@.map_values(|s: String| s@).reverse() == o.reverse(),
        decreases out.len(),
    {
        let ghost before_out = out@.map_values(|s: String| s@);
        let ghost before_rev = rev@.map_values(|s: String| s@);
        let x = out.pop().unwrap();
        let ghost xv = x@;
        rev.push(x);
        assert(before_out =~= out@.map_values(|s: String| s@).push(xv));
        assert(before_out.reverse() =~= seq![xv] + out@.map_values(|s: String| s@).reverse());
        assert(rev@.map_values(|s: String| s@) =~= before_rev.push(xv));
        assert(before_rev.push(xv) + out@.map_values(|s: String| s@).reverse() =~= before_rev + (
        seq![xv] + out@.map_values(|s: String| s@).reverse()));
    }
    assert(out@.map_values(|s: String| s@).reverse() =~= Seq::<Seq<char>>::empty());
    assert(rev@.map_values(|s: String| s@) =~= o.reverse());
    rev
}

/// The documentation of the attributes: the lines joined with newlines.
pub fn doc_string(attrs: &Vec<Attribute>) -> (r: String)
    ensures
        r@ == crate::text::join(documents(attrs@), seq!['\n']),
{
    let lines = extract_documents(attrs);
    crate::text::join_strings(&lines, '\n')
}

/// `since` and `note` of `#[deprecated(...)]`.
#[derive(Debug, PartialEq, Eq)]
pub struct DeprecatedInfo {
    pub since: Option<String>,
    pub note: Option<String>,
}

pub struct DeprecatedView {
    pub since: Option<Seq<char>>,
    pub note: Option<Seq<char>>,
}

impl View for DeprecatedInfo {
    type V = DeprecatedView;

    open spec fn view(&self) -> DeprecatedView {
        DeprecatedView { since: opt_view(self.since), note: opt_view(self.note) }
    }
}

/// Whether tokens `i` and `i + 1` form `::`.
pub open spec fn is_path_sep(v: Vec<TokenTree>, i: int) -> bool {
    &&& 0 <= i
    &&& i + 1 < v.len()
    &&& v[i] == TokenTree::Punct(':', crate::tokens::Spacing::Joint)
    &&& is_punct(v[i + 1], ':')
}

/// The index after the `::ident` segments that follow a path's first
/// segment at index `j`, or `None` when a `::` is not followed by an
/// identifier.
pub open spec fn path_tail(v: Vec<TokenTree>, j: int) -> Option<int>
    decreases v.len() - j,
{
    if j < 0 || j >= v.len() {
        Some(j)
    } else if is_path_sep(v, j) {
        if j + 2 < v.len() && v[j + 2] is Ident {
            path_tail(v, j + 3)
        } else {
            None
        }
    } else {
        Some(j)
    }
}

/// The path of a nested meta item at index `i`: whether it is a plain
/// identifier (and which), and the index after it; `None` on a syntax
/// error.
pub open spec fn meta_path_at(v: Vec<TokenTree>, i: int) -> Option<(Option<Seq<char>>, int)> {
    let lead = is_path_sep(v, i);
    let k = if lead {
        i + 2
    } else {
        i
    };
    if 0 <= k < v.len() && v[k] is Ident {
        match path_tail(v, k + 1) {
            Some(j) => Some(
                (
                    if !lead && j == k + 1 {
                        Some(v[k]->Ident_0@)
                    } else {
                        None
                    },
                    j,
                ),
            ),
            None => None,
        }
    } else {
        None
    }
}

pub proof fn lemma_path_tail_advances(v: Vec<TokenTree>, j: int)
    requires
        0 <= j,
    ensures
        path_tail(v, j) matches Some(k) ==> j <= k,
    decreases v.len() - j,
{
    if j < v.len() && is_path_sep(v, j) && j + 2 < v.len() && v[j + 2] is Ident {
        lemma_path_tail_advances(v, j + 3);
    }
}

/// Reads `since = "..."` and `note = "..."` from nested meta items from
/// index `i` on, other items being passed over; `None` on a syntax error.
pub open spec fn nested_from(
    v: Vec<TokenTree>,
    i: int,
    since: Option<Seq<char>>,
    note: Option<Seq<char>>,
) -> Option<(Option<Seq<char>>, Option<Seq<char>>)>
    decreases v.len() - i,
{
    if i < 0 {
        None
    } else {
        match meta_path_at(v, i) {
            None => None,
            Some((name, j)) => {
                let named = name == Some("since"@) || name == Some("note"@);
                if named && !(j + 1 < v.len() && is_punct(v[j], '=')
                    && crate::gen_stub_attr::lit_value(v[j + 1]) is Some) {
                    None
                } else {
                    let value = crate::gen_stub_attr::lit_value(v[j + 1]);
                    let s2 = if name == Some("since"@) {
                        value
                    } else {
                        since
                    };
                    let n2 = if name == Some("note"@) {
                        value
                    } else {
                        note
                    };
                    let k = if named {
                        j + 2
                    } else {
                        j
                    };
                    proof {
                        lemma_path_tail_advances(v, if is_path_sep(v, i) { i + 3 } else { i + 1 });
                    }
                    if k >= v.len() {
                        Some((s2, n2))
                    } else if is_punct(v[k], ',') {
                        if k + 1 >= v.len() {
                            Some((s2, n2))
                        } else {
                            nested_from(v, k + 1, s2, n2)
                        }
                    } else {
                        None
                    }
                }
            },
        }
    }
}

/// What the first `#[deprecated(...)]` list among the attributes says;
/// `None` when there is none, or when the first one does not parse.
pub open spec fn deprecated_of(attrs: Seq<Attribute>) -> Option<DeprecatedView>
    decreases attrs.len(),
{
    if attrs.len() == 0 {
        None
    } else if path_is(attrs[0], "deprecated"@) && attrs[0].meta is List {
        match attrs[0].meta {
            Meta::List(v) => match nested_from(v, 0, None, None) {
                Some((s, n)) => Some(DeprecatedView { since: s, note: n }),
                None => None,
            },
            _ => None,
        }
    } else {
        deprecated_of(attrs.drop_first())
    }
}

fn is_path_sep_exec(v: &Vec<TokenTree>, i: usize) -> (r: bool)
    ensures
        r == is_path_sep(*v, i as int),
{
    if i < v.len() && v.len() - i > 1 {
        match &v[i] {
            TokenTree::Punct(c, crate::tokens::Spacing::Joint) => *c == ':' && token_is_punct(
                &v[i + 1],
                ':',
            ),
            _ => false,
        }
    } else {
        false
    }
}

#[verifier::loop_isolation(false)]
fn meta_path_exec(v: &Vec<TokenTree>, i: usize) -> (r: Option<(Option<String>, usize)>)
    ensures
        match (r, meta_path_at(*v, i as int)) {
            (Some((a, j)), Some((b, k))) => opt_view(a) == b && j == k && j <= v.len(),
            (None, None) => true,
            _ => false,
        },
{
    let lead = is_path_sep_exec(v, i);
    let k = if lead {
        i + 2
    } else {
        i
    };
    if k >= v.len() {
        return None;
    }
    let first = match &v[k] {
        TokenTree::Ident(s) => s,
        _ => {
            return None;
        },
    };
    let mut j = k + 1;
    proof {
        lemma_path_tail_advances(*v, j as int);
    }
    loop
        invariant
            k < j <= v.len(),
            path_tail(*v, (k + 1) as int) == path_tail(*v, j as int),
        decreases v.len() - j,
    {
        if is_path_sep_exec(v, j) {
            if v.len() - j > 2 {
                match &v[j + 2] {
                    TokenTree::Ident(_) => {
                        j = j + 3;
                    },
                    _ => {
                        return None;
                    },
                }
            } else {
                return None;
            }
        } else {
            break ;
        }
    }
    let name = if !lead && j == k + 1 {
        Some(first.clone())
    } else {
        None
    };
    Some((name, j))
}

#[verifier::loop_isolation(false)]
fn nested_exec(v: &Vec<TokenTree>) -> (r: Option<(Option<String>, Option<String>)>)
    ensures
        match (r, nested_from(*v, 0, None, None)) {
            (Some((a, b)), Some((c, d))) => opt_view(a) == c && opt_view(b) == d,
            (None, None) => true,
            _ => false,
        },
{
    let mut since: Option<String> = None;
    let mut note: Option<String> = None;
    let mut i: usize = 0;
    loop
        invariant
            i <= v.len(),
            nested_from(*v, 0, None, None) == nested_from(*v, i as int, opt_view(since), opt_view(note)),
        decreases v.len() - i,
    {
        let ghost before_s = opt_view(since);
        let ghost before_n = opt_view(note);
        proof {
            lemma_path_tail_advances(*v, if is_path_sep(*v, i as int) { i + 3 } else { i + 1 });
        }
        let (name, j) = match meta_path_exec(v, i) {
            Some(p) => p,
            None => {
                return None;
            },
        };
        let is_since = match &name {
            Some(n) => str_is(n.as_str(), "since"),
            None => false,
        };
        let is_note = match &name {
            Some(n) => str_is(n.as_str(), "note"),
            None => false,
        };
        let mut k = j;
        if is_since || is_note {
            if v.len() - j > 1 && token_is_punct(&v[j], '=') {
                match &v[j + 1] {
                    TokenTree::Literal(s) => {
                        match crate::rust_syntax::literal_string_value(s.as_str()) {
                            Some(value) => {
                                if is_since {
                                    since = Some(value.clone());
                                }
                                if is_note {
                                    note = Some(value);
                                }
                            },
                            None => {
                                return None;
                            },
                        }
                    },
                    _ => {
                        return None;
                    },
                }
                k = j + 2;
            } else {
                return None;
            }
        }
        if k >= v.len() {
            return Some((since, note));
        } else if token_is_punct(&v[k], ',') {
            if k + 1 >= v.len() {
                return Some((since, note));
            }
            i = k + 1;
        } else {
            return None;
        }
    }
}

/// `since` and `note` of the first `#[deprecated(...)]` attribute given as
/// a list; `None` when there is none or when its list does not parse.
pub fn extract_deprecated(attrs: &Vec<Attribute>) -> (r: Option<DeprecatedInfo>)
    ensures
        match (r, deprecated_of(attrs@)) {
            (Some(a), Some(b)) => a@ == b,
            (None, None) => true,
            _ => false,
        },
{
    let mut i: usize = 0;
    assert(attrs@.subrange(0, attrs.len() as int) =~= attrs@);
    while i < attrs.len()
        invariant
            i <= attrs.len(),
            deprecated_of(attrs@) == deprecated_of(attrs@.subrange(i as int, attrs.len() as int)),
        decreases attrs.len() - i,
    {
        let ghost rest = attrs@.subrange(i as int, attrs.len() as int);
        assert(rest[0] == attrs@[i as int]);
        assert(rest.drop_first() =~= attrs@.subrange(i + 1, attrs.len() as int));
        if attr_path_is(&attrs[i], "deprecated") {
            match &attrs[i].meta {
                Meta::List(v) => {
                    return match nested_exec(v) {
                        Some((since, note)) => Some(DeprecatedInfo { since, note }),
                        None => None,
                    };
                },
                _ => {},
            }
        }
        i = i + 1;
    }
    None
}

/// Whether an attribute stays when `#[gen_stub(...)]` attributes are
/// removed.
pub open spec fn kept(a: Attribute) -> bool {
    !path_is(a, "gen_stub"@)
}

/// The attributes that are not `#[gen_stub(...)]`, in order.
pub open spec fn without_gen_stub(s: Seq<Attribute>) -> Seq<Attribute>
    decreases s.len(),
{
    if s.len() == 0 {
        Seq::empty()
    } else if kept(s[0]) {
        seq![s[0]] + without_gen_stub(s.drop_first())
    } else {
        without_gen_stub(s.drop_first())
    }
}

/// Pruning leaves no `#[gen_stub(...)]` attribute, keeps every other one
/// (so pruning twice is pruning once), and never adds one.
pub proof fn law_prune_keeps_only_others(s: Seq<Attribute>)
    ensures
        forall|k: int| 0 <= k < without_gen_stub(s).len() ==> kept(#[trigger] without_gen_stub(s)[k]),
        forall|k: int| 0 <= k < s.len() && kept(#[trigger] s[k]) ==> without_gen_stub(s).contains(s[k]),
        forall|k: int| 0 <= k < without_gen_stub(s).len() ==> s.contains(#[trigger] without_gen_stub(s)[k]),
        without_gen_stub(without_gen_stub(s)) == without_gen_stub(s),
    decreases s.len(),
{
    if s.len() > 0 {
        let t = s.drop_first();
        law_prune_keeps_only_others(t);
        assert forall|k: int| 0 <= k < s.len() && kept(#[trigger] s[k]) implies without_gen_stub(s).contains(s[k]) by {
            if k > 0 {
                assert(s[k] == t[k - 1]);
                let j = choose|j: int| 0 <= j < without_gen_stub(t).len() && without_gen_stub(t)[j] == t[k - 1];
                if kept(s[0]) {
                    assert(without_gen_stub(s)[j + 1] == t[k - 1]);
                } else {
                    assert(without_gen_stub(s)[j] == t[k - 1]);
                }
            } else {
                assert(without_gen_stub(s)[0] == s[0]);
            }
        }
        assert forall|k: int| 0 <= k < without_gen_stub(s).len() implies s.contains(#[trigger] without_gen_stub(s)[k]) by {
            if kept(s[0]) {
                if k == 0 {
                    assert(s[0] == without_gen_stub(s)[0]);
                } else {
                    assert(without_gen_stub(s)[k] == without_gen_stub(t)[k - 1]);
                    let j = choose|j: int| 0 <= j < t.len() && t[j] == without_gen_stub(t)[k - 1];
                    assert(s[j + 1] == t[j]);
                }
            } else {
                let j = choose|j: int| 0 <= j < t.len() && t[j] == without_gen_stub(t)[k];
                assert(s[j + 1] == t[j]);
            }
        }
        if kept(s[0]) {
            let w = without_gen_stub(s);
            assert(w.drop_first() =~= without_gen_stub(t));
            assert(w[0] == s[0]);
        }
    }
}

/// For each attribute, whether it stays when `#[gen_stub(...)]` attributes
/// are removed (see [`kept`]).
pub fn kept_mask(attrs: &Vec<Attribute>) -> (r: Vec<bool>)
    ensures
        r.len() == attrs.len(),
        forall|i: int| 0 <= i < attrs.len() ==> r[i] == kept(#[trigger] attrs@[i]),
{
    let mut r: Vec<bool> = Vec::new();
    let mut i: usize = 0;
    while i < attrs.len()
        invariant
            i <= attrs.len(),
            r.len() == i,
            forall|k: int| 0 <= k < i ==> r[k] == kept(#[trigger] attrs@[k]),
        decreases attrs.len() - i,
    {
        r.push(!attr_path_is(&attrs[i], "gen_stub"));
        i = i + 1;
    }
    r
}

/// Removes the `#[gen_stub(...)]` attributes, which only carry settings for
/// this crate and are not valid once the item is printed back.
pub fn prune_attrs(attrs: &mut Vec<Attribute>)
    ensures
        final(attrs)@ == without_gen_stub(old(attrs)@),
{
    let mut rest: Vec<Attribute> = Vec::new();
    std::mem::swap(attrs, &mut rest);
    let ghost orig = rest@;
    assert(attrs@ + without_gen_stub(rest@) =~= without_gen_stub(orig));
    while rest.len() > 0
        invariant
            attrs@ + without_gen_stub(rest@) == without_gen_stub(orig),
        decreases rest.len(),
    {
        let ghost before = rest@;
        let ghost kept_before = attrs@;
        let a = rest.remove(0);
        assert(rest@ =~= before.drop_first());
        if !attr_path_is(&a, "gen_stub") {
            attrs.push(a);
            assert(kept_before + (seq![before[0]] + without_gen_stub(rest@)) =~= attrs@
                + without_gen_stub(rest@));
        }
    }
    assert(without_gen_stub(rest@) =~= Seq::<Attribute>::empty());
    assert(attrs@ + Seq::<Attribute>::empty() =~= attrs@);
}

} // verus!
