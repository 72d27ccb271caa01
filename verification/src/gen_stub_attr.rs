//! The crate's own `#[gen_stub(...)]` attribute: defaults, skipping, type
//! overrides and type-checker ignores.

use vstd::prelude::*;
use indexmap::IndexSet;
use crate::attr::{attr_path_is, path_is, Attribute, Meta};
use crate::imports::{first_occurrences, import_items, import_set_of, contains_str};
use crate::parse::{ParseError, same_error};
use crate::rust_syntax::{
    expr_parses, ident_accepted, literal_string_value, rust_expr_parses, string_literal_value,
};
use crate::signature::{accepted_ident, lemma_next_comma_bounds};
use crate::text::{str_is, string_of};
use crate::tokens::{
    find_comma, is_punct, next_comma, range_text, range_to_chars, token_is_punct, Delimiter,
    TokenTree,
};

verus! {

/// Where a `#[gen_stub(...)]` attribute stands.
#[derive(Debug, Clone, Copy, PartialEq, Eq, Structural)]
pub enum AttributeLocation {
    Argument,
    Field,
    Function,
}

/// The type checker rules that a stub entry ignores: all, or the named ones.
#[derive(Debug, PartialEq, Eq)]
pub enum IgnoreTarget {
    All,
    SpecifiedLits(Vec<String>),
}

/// The Python type that replaces the translated one, with the modules it
/// needs imported.
#[derive(Debug, PartialEq, Eq)]
pub struct OverrideTypeAttribute {
    pub type_repr: String,
    pub imports: IndexSet<String>,
}

/// One setting of `#[gen_stub(...)]`; a default value is kept as the
/// printed text of its expression.
#[derive(Debug, PartialEq, Eq)]
pub enum StubGenAttr {
    Default(String),
    Skip,
    OverrideType(OverrideTypeAttribute),
    TypeIgnore(IgnoreTarget),
}

pub struct OverrideTypeView {
    pub type_repr: Seq<char>,
    pub imports: Seq<Seq<char>>,
}

pub enum IgnoreTargetView {
    All,
    Specified(Seq<Seq<char>>),
}

pub enum StubGenAttrView {
    Default(Seq<char>),
    Skip,
    OverrideType(OverrideTypeView),
    TypeIgnore(IgnoreTargetView),
}

impl View for OverrideTypeAttribute {
    type V = OverrideTypeView;

    open spec fn view(&self) -> OverrideTypeView {
        OverrideTypeView { type_repr: self.type_repr@, imports: import_items(self.imports) }
    }
}

impl View for IgnoreTarget {
    type V = IgnoreTargetView;

    open spec fn view(&self) -> IgnoreTargetView {
        match self {
            IgnoreTarget::All => IgnoreTargetView::All,
            IgnoreTarget::SpecifiedLits(v) => IgnoreTargetView::Specified(
                v@.map_values(|s: String| s@),
            ),
        }
    }
}

impl View for StubGenAttr {
    type V = StubGenAttrView;

    open spec fn view(&self) -> StubGenAttrView {
        match self {
            StubGenAttr::Default(s) => StubGenAttrView::Default(s@),
            StubGenAttr::Skip => StubGenAttrView::Skip,
            StubGenAttr::OverrideType(o) => StubGenAttrView::OverrideType(o@),
            StubGenAttr::TypeIgnore(t) => StubGenAttrView::TypeIgnore(t@),
        }
    }
}

/// The value of a token that is one string literal.
pub open spec fn lit_value(t: TokenTree) -> Option<Seq<char>> {
    match t {
        TokenTree::Literal(s) => string_literal_value(s@),
        _ => None,
    }
}

fn token_lit_value(t: &TokenTree) -> (r: Option<String>)
    ensures
        match r {
            Some(s) => lit_value(*t) == Some(s@),
            None => lit_value(*t) is None,
        },
{
    match t {
        TokenTree::Literal(s) => literal_string_value(s.as_str()),
        _ => None,
    }
}

/// Comma-separated string literals from index `i` on, a trailing comma
/// allowed; their values in order.
pub open spec fn lits_from(v: Vec<TokenTree>, i: int) -> Result<Seq<Seq<char>>, ParseError>
    decreases v.len() - i,
{
    if i < 0 || i >= v.len() {
        Ok(Seq::empty())
    } else if lit_value(v[i]) is Some {
        let x = lit_value(v[i])->0;
        if i + 1 >= v.len() {
            Ok(seq![x])
        } else if is_punct(v[i + 1], ',') {
            match lits_from(v, i + 2) {
                Ok(rest) => Ok(seq![x] + rest),
                Err(e) => Err(e),
            }
        } else {
            Err(ParseError::Syntax)
        }
    } else {
        Err(ParseError::Syntax)
    }
}

fn parse_lits(v: &Vec<TokenTree>) -> (r: Result<Vec<String>, ParseError>)
    ensures
        match (r, lits_from(*v, 0)) {
            (Ok(a), Ok(b)) => a@.map_values(|s: String| s@) == b,
            (Err(e), Err(f)) => same_error(e, f),
            _ => false,
        },
{
    let mut out: Vec<String> = Vec::new();
    let mut i: usize = 0;
    assert(out@.map_values(|s: String| s@) =~= Seq::<Seq<char>>::empty());
    while i < v.len()
        invariant
            i <= v.len() + 1,
            lits_from(*v, 0) == (match lits_from(*v, i as int) {
                Ok(rest) => Ok(out@.map_values(|s: String| s@) + rest),
                Err(e) => Err(e),
            }),
        decreases v.len() + 1 - i,
    {
        let ghost before = out@.map_values(|s: String| s@);
        match token_lit_value(&v[i]) {
            Some(x) => {
                let ghost xv = x@;
                out.push(x);
                assert(out@.map_values(|s: String| s@) =~= before.push(xv));
                if i + 1 >= v.len() {
                    assert(before + seq![xv] =~= before.push(xv));
                    return Ok(out);
                } else if token_is_punct(&v[i + 1], ',') {
                    assert forall|r: Seq<Seq<char>>| #![auto] before + (seq![xv] + r) == before.push(xv) + r by {
                        assert(before + (seq![xv] + r) =~= before.push(xv) + r);
                    }
                    i = i + 2;
                } else {
                    return Err(ParseError::Syntax);
                }
            },
            None => {
                return Err(ParseError::Syntax);
            },
        }
    }
    let ghost fin = out@.map_values(|s: String| s@);
    assert(fin + Seq::<Seq<char>>::empty() =~= fin);
    Ok(out)
}

/// Whether the token is the identifier `name` exactly.
pub open spec fn is_keyword(t: TokenTree, name: Seq<char>) -> bool {
    t matches TokenTree::Ident(s) && s@ == name
}

fn token_is_keyword(t: &TokenTree, name: &str) -> (r: bool)
    ensures
        r == is_keyword(*t, name@),
{
    match t {
        TokenTree::Ident(s) => str_is(s.as_str(), name),
        _ => false,
    }
}

/// One `type_repr = "..."` or `imports = ("...", ...)` entry at index `i`,
/// updating the entries read so far; gives the index after the entry.
pub open spec fn override_entry(
    v: Vec<TokenTree>,
    i: int,
    repr: Option<Seq<char>>,
    imports: Seq<Seq<char>>,
) -> Result<(Option<Seq<char>>, Seq<Seq<char>>, int), ParseError> {
    if is_keyword(v[i], "type_repr"@) {
        if i + 2 < v.len() && is_punct(v[i + 1], '=') && lit_value(v[i + 2]) is Some {
            Ok((lit_value(v[i + 2]), imports, i + 3))
        } else {
            Err(ParseError::Syntax)
        }
    } else if is_keyword(v[i], "imports"@) {
        if i + 2 < v.len() && is_punct(v[i + 1], '=') && v[i + 2] is Group {
            match v[i + 2] {
                TokenTree::Group(d, g) => if d == Delimiter::Parenthesis {
                    match lits_from(g, 0) {
                        Ok(list) => Ok((repr, first_occurrences(list), i + 3)),
                        Err(e) => Err(e),
                    }
                } else {
                    Err(ParseError::Syntax)
                },
                _ => Err(ParseError::Syntax),
            }
        } else {
            Err(ParseError::Syntax)
        }
    } else {
        Err(ParseError::Syntax)
    }
}

/// The entries of `override_type(...)` from index `i` on, each followed by
/// a comma unless it is the last.
pub open spec fn override_from(
    v: Vec<TokenTree>,
    i: int,
    repr: Option<Seq<char>>,
    imports: Seq<Seq<char>>,
) -> Result<OverrideTypeView, ParseError>
    decreases v.len() - i,
{
    if i < 0 || i >= v.len() {
        match repr {
            Some(t) => Ok(OverrideTypeView { type_repr: t, imports: imports }),
            None => Err(ParseError::MissingTypeRepr),
        }
    } else {
        match override_entry(v, i, repr, imports) {
            Err(e) => Err(e),
            Ok((r2, im2, j)) => if j >= v.len() {
                override_from(v, j, r2, im2)
            } else if is_punct(v[j], ',') {
                override_from(v, j + 1, r2, im2)
            } else {
                Err(ParseError::Syntax)
            },
        }
    }
}

/// What the inside of `override_type(...)` or `override_return_type(...)`
/// says: the Python type (required) and the modules it needs.
pub open spec fn override_spec(v: Vec<TokenTree>) -> Result<OverrideTypeView, ParseError> {
    override_from(v, 0, None, Seq::empty())
}

/// Parses the inside of `override_type(...)`.
pub fn parse_override_type(v: &Vec<TokenTree>) -> (r: Result<OverrideTypeAttribute, ParseError>)
    ensures
        match (r, override_spec(*v)) {
            (Ok(a), Ok(b)) => a@ == b,
            (Err(e), Err(f)) => same_error(e, f),
            _ => false,
        },
{
    let mut repr: Option<String> = None;
    let mut imports: Vec<String> = Vec::new();
    let mut imports_given = false;
    let mut i: usize = 0;
    loop
        invariant
            i <= v.len() + 3,
            imports_given || imports@.len() == 0,
            override_spec(*v) == override_from(
                *v,
                i as int,
                crate::attr::opt_view(repr),
                first_occurrences(imports@.map_values(|s: String| s@)),
            ),
        decreases v.len() + 3 - i,
    {
        if i >= v.len() {
            match repr {
                Some(t) => {
                    let set = import_set_of(&imports);
                    return Ok(OverrideTypeAttribute { type_repr: t, imports: set });
                },
                None => {
                    return Err(ParseError::MissingTypeRepr);
                },
            }
        }
        if token_is_keyword(&v[i], "type_repr") {
            if v.len() - i > 2 && token_is_punct(&v[i + 1], '=') {
                match token_lit_value(&v[i + 2]) {
                    Some(t) => {
                        repr = Some(t);
                    },
                    None => {
                        return Err(ParseError::Syntax);
                    },
                }
            } else {
                return Err(ParseError::Syntax);
            }
        } else if token_is_keyword(&v[i], "imports") {
            if v.len() - i > 2 && token_is_punct(&v[i + 1], '=') {
                match &v[i + 2] {
                    TokenTree::Group(Delimiter::Parenthesis, g) => {
                        match parse_lits(g) {
                            Ok(list) => {
                                proof {
                                    lemma_first_occurrences_idempotent(list@.map_values(|s: String| s@));
                                }
                                imports = list;
                                imports_given = true;
                            },
                            Err(e) => {
                                return Err(e);
                            },
                        }
                    },
                    _ => {
                        return Err(ParseError::Syntax);
                    },
                }
            } else {
                return Err(ParseError::Syntax);
            }
        } else {
            return Err(ParseError::Syntax);
        }
        let j = i + 3;
        if j >= v.len() {
            i = j;
        } else if token_is_punct(&v[j], ',') {
            i = j + 1;
        } else {
            return Err(ParseError::Syntax);
        }
    }
}

pub proof fn lemma_first_occurrences_idempotent(s: Seq<Seq<char>>)
    ensures
        first_occurrences(first_occurrences(s)) == first_occurrences(s),
{
    lemma_first_occurrences_distinct(s);
    lemma_first_occurrences_of_distinct(first_occurrences(s));
}

pub open spec fn distinct(s: Seq<Seq<char>>) -> bool {
    forall|i: int, j: int| 0 <= i < j < s.len() ==> s[i] != s[j]
}

pub proof fn lemma_first_occurrences_distinct(s: Seq<Seq<char>>)
    ensures
        distinct(first_occurrences(s)),
    decreases s.len(),
{
    if s.len() > 0 {
        lemma_first_occurrences_distinct(s.drop_last());
        let d = first_occurrences(s.drop_last());
        if !d.contains(s.last()) {
            assert forall|i: int, j: int| 0 <= i < j < d.push(s.last()).len() implies d.push(
                s.last(),
            )[i] != d.push(s.last())[j] by {
                if j == d.len() {
                    assert(d[i] == d.push(s.last())[i]);
                }
            }
        }
    }
}

pub proof fn lemma_first_occurrences_of_distinct(s: Seq<Seq<char>>)
    requires
        distinct(s),
    ensures
        first_occurrences(s) == s,
    decreases s.len(),
{
    if s.len() > 0 {
        lemma_first_occurrences_of_distinct(s.drop_last());
        assert(!s.drop_last().contains(s.last())) by {
            if s.drop_last().contains(s.last()) {
                let k = choose|k: int| 0 <= k < s.drop_last().len() && s.drop_last()[k] == s.last();
                assert(s[k] == s[s.len() - 1]);
            }
        }
        assert(s.drop_last().push(s.last()) =~= s);
    }
}

} // verus!

verus! {

/// Whether a keyword is allowed at a location, or is listed as ignored.
pub open spec fn at(loc: AttributeLocation, l: AttributeLocation, ign: bool) -> bool {
    loc == l || ign
}

/// One setting of `#[gen_stub(...)]` whose keyword `k` stands at index `i`;
/// gives the settings read (none or one) and the index after them.
pub open spec fn gen_stub_item(
    v: Vec<TokenTree>,
    i: int,
    k: Seq<char>,
    loc: AttributeLocation,
    ign: bool,
) -> Result<(Seq<StubGenAttrView>, int), ParseError> {
    let n = v.len();
    if (k == "override_type"@ && at(loc, AttributeLocation::Argument, ign)) || (k
        == "override_return_type"@ && (loc == AttributeLocation::Function || loc
        == AttributeLocation::Field || ign)) {
        if i + 1 < n {
            match v[i + 1] {
                TokenTree::Group(d, g) => if d == Delimiter::Parenthesis {
                    match override_spec(g) {
                        Ok(o) => Ok((seq![StubGenAttrView::OverrideType(o)], i + 2)),
                        Err(e) => Err(e),
                    }
                } else {
                    Err(ParseError::Syntax)
                },
                _ => Err(ParseError::Syntax),
            }
        } else {
            Err(ParseError::Syntax)
        }
    } else if k == "skip"@ && at(loc, AttributeLocation::Field, ign) {
        Ok((seq![StubGenAttrView::Skip], i + 1))
    } else if k == "default"@ && i + 1 < n && is_punct(v[i + 1], '=') && (loc
        == AttributeLocation::Field || loc == AttributeLocation::Function || ign) {
        let end = next_comma(v, i + 2);
        let text = range_text(v, (i + 2) as nat, end as nat);
        if rust_expr_parses(text) {
            Ok((seq![StubGenAttrView::Default(text)], end))
        } else {
            Err(ParseError::Syntax)
        }
    } else if k == "type_ignore"@ && (loc == AttributeLocation::Function || loc
        == AttributeLocation::Field || ign) {
        if i + 1 < n && is_punct(v[i + 1], '=') {
            if i + 2 < n {
                match v[i + 2] {
                    TokenTree::Group(d, g) => if d == Delimiter::Bracket {
                        match lits_from(g, 0) {
                            Ok(rules) => if rules.len() == 0 {
                                Err(ParseError::TypeIgnoreEmpty)
                            } else {
                                Ok(
                                    (
                                        seq![
                                            StubGenAttrView::TypeIgnore(
                                                IgnoreTargetView::Specified(rules),
                                            ),
                                        ],
                                        i + 3,
                                    ),
                                )
                            },
                            Err(e) => Err(e),
                        }
                    } else {
                        Err(ParseError::Syntax)
                    },
                    _ => Err(ParseError::Syntax),
                }
            } else {
                Err(ParseError::Syntax)
            }
        } else {
            Ok((seq![StubGenAttrView::TypeIgnore(IgnoreTargetView::All)], i + 1))
        }
    } else if k == "override_type"@ {
        Err(ParseError::OverrideTypeOutsideArgument)
    } else if k == "override_return_type"@ {
        Err(ParseError::OverrideReturnTypeOutsideFunction)
    } else if k == "skip"@ {
        Err(ParseError::SkipOutsideField)
    } else if k == "default"@ {
        Err(ParseError::DefaultOutsideFieldOrFunction)
    } else if k == "type_ignore"@ {
        Err(ParseError::TypeIgnoreOutsideFunction)
    } else if loc == AttributeLocation::Argument {
        Err(ParseError::UnsupportedInArgument)
    } else if loc == AttributeLocation::Field {
        Err(ParseError::UnsupportedInField)
    } else {
        Err(ParseError::UnsupportedInFunction)
    }
}

pub proof fn lemma_gen_stub_item_advances(
    v: Vec<TokenTree>,
    i: int,
    k: Seq<char>,
    loc: AttributeLocation,
    ign: bool,
)
    requires
        0 <= i < v.len(),
    ensures
        gen_stub_item(v, i, k, loc, ign) matches Ok((_, j)) ==> i < j,
{
    if i + 2 <= v.len() {
        lemma_next_comma_bounds(v, i + 2);
    }
}

/// The settings of `#[gen_stub(...)]` from index `i` of its tokens on,
/// separated by commas.
pub open spec fn gen_stub_items(
    v: Vec<TokenTree>,
    i: int,
    loc: AttributeLocation,
    ignored: Seq<Seq<char>>,
) -> Result<Seq<StubGenAttrView>, ParseError>
    decreases v.len() - i,
{
    if i < 0 || i >= v.len() {
        Ok(Seq::empty())
    } else {
        match accepted_ident(v[i]) {
            None => Err(ParseError::Syntax),
            Some(k) => match gen_stub_item(v, i, k, loc, ignored.contains(k)) {
                Err(e) => Err(e),
                Ok((items, j)) => {
                    proof {
                        lemma_gen_stub_item_advances(v, i, k, loc, ignored.contains(k));
                    }
                    if j >= v.len() {
                        Ok(items)
                    } else if is_punct(v[j], ',') {
                        match gen_stub_items(v, j + 1, loc, ignored) {
                            Ok(rest) => Ok(items + rest),
                            Err(e) => Err(e),
                        }
                    } else {
                        Err(ParseError::Syntax)
                    }
                },
            },
        }
    }
}

/// What one attribute says as `#[gen_stub(...)]` at a location; `ignored`
/// lists keywords taken as if allowed there. Other attributes say nothing.
pub open spec fn gen_stub_attr_spec(
    a: Attribute,
    loc: AttributeLocation,
    ignored: Seq<Seq<char>>,
) -> Result<Seq<StubGenAttrView>, ParseError> {
    if path_is(a, "gen_stub"@) {
        match a.meta {
            Meta::List(v) => gen_stub_items(v, 0, loc, ignored),
            _ => Err(ParseError::Syntax),
        }
    } else {
        Ok(Seq::empty())
    }
}

/// What a list of attributes says as `#[gen_stub(...)]`, in order.
pub open spec fn gen_stub_attrs_spec(
    attrs: Seq<Attribute>,
    loc: AttributeLocation,
    ignored: Seq<Seq<char>>,
) -> Result<Seq<StubGenAttrView>, ParseError>
    decreases attrs.len(),
{
    if attrs.len() == 0 {
        Ok(Seq::empty())
    } else {
        match gen_stub_attr_spec(attrs[0], loc, ignored) {
            Err(e) => Err(e),
            Ok(a) => match gen_stub_attrs_spec(attrs.drop_first(), loc, ignored) {
                Ok(rest) => Ok(a + rest),
                Err(e) => Err(e),
            },
        }
    }
}

/// Whether an executable result holding settings is the mathematical one.
pub open spec fn same_attrs(
    r: Result<Vec<StubGenAttr>, ParseError>,
    s: Result<Seq<StubGenAttrView>, ParseError>,
) -> bool {
    match (r, s) {
        (Ok(a), Ok(b)) => a@.map_values(|x: StubGenAttr| x@) == b,
        (Err(e), Err(f)) => same_error(e, f),
        _ => false,
    }
}

fn one_setting(a: StubGenAttr) -> (r: Vec<StubGenAttr>)
    ensures
        r@.map_values(|x: StubGenAttr| x@) == seq![a@],
{
    let mut r: Vec<StubGenAttr> = Vec::new();
    r.push(a);
    assert(r@.map_values(|x: StubGenAttr| x@) =~= seq![a@]);
    r
}

fn read_gen_stub_item(
    v: &Vec<TokenTree>,
    i: usize,
    k: &str,
    loc: AttributeLocation,
    ign: bool,
) -> (r: Result<(Vec<StubGenAttr>, usize), ParseError>)
    requires
        i < v.len(),
    ensures
        match (r, gen_stub_item(*v, i as int, k@, loc, ign)) {
            (Ok((a, j)), Ok((b, l))) => a@.map_values(|x: StubGenAttr| x@) == b && j == l,
            (Err(e), Err(f)) => same_error(e, f),
            _ => false,
        },
{
    let n = v.len();
    if (str_is(k, "override_type") && (loc == AttributeLocation::Argument || ign)) || (str_is(
        k,
        "override_return_type",
    ) && (loc == AttributeLocation::Function || loc == AttributeLocation::Field || ign)) {
        if i + 1 < n {
            match &v[i + 1] {
                TokenTree::Group(Delimiter::Parenthesis, g) => {
                    match parse_override_type(g) {
                        Ok(o) => Ok((one_setting(StubGenAttr::OverrideType(o)), i + 2)),
                        Err(e) => Err(e),
                    }
                },
                _ => Err(ParseError::Syntax),
            }
        } else {
            Err(ParseError::Syntax)
        }
    } else if str_is(k, "skip") && (loc == AttributeLocation::Field || ign) {
        Ok((one_setting(StubGenAttr::Skip), i + 1))
    } else if str_is(k, "default") && i + 1 < n && token_is_punct(&v[i + 1], '=') && (loc
        == AttributeLocation::Field || loc == AttributeLocation::Function || ign) {
        let end = find_comma(v, i + 2);
        let chars = range_to_chars(v, i + 2, end);
        let text = string_of(&chars);
        if expr_parses(text.as_str()) {
            Ok((one_setting(StubGenAttr::Default(text)), end))
        } else {
            Err(ParseError::Syntax)
        }
    } else if str_is(k, "type_ignore") && (loc == AttributeLocation::Function || loc
        == AttributeLocation::Field || ign) {
        if i + 1 < n && token_is_punct(&v[i + 1], '=') {
            if n - i > 2 {
                match &v[i + 2] {
                    TokenTree::Group(Delimiter::Bracket, g) => {
                        match parse_lits(g) {
                            Ok(rules) => {
                                if rules.len() == 0 {
                                    Err(ParseError::TypeIgnoreEmpty)
                                } else {
                                    Ok(
                                        (
                                            one_setting(
                                                StubGenAttr::TypeIgnore(
                                                    IgnoreTarget::SpecifiedLits(rules),
                                                ),
                                            ),
                                            i + 3,
                                        ),
                                    )
                                }
                            },
                            Err(e) => Err(e),
                        }
                    },
                    _ => Err(ParseError::Syntax),
                }
            } else {
                Err(ParseError::Syntax)
            }
        } else {
            Ok((one_setting(StubGenAttr::TypeIgnore(IgnoreTarget::All)), i + 1))
        }
    } else if str_is(k, "override_type") {
        Err(ParseError::OverrideTypeOutsideArgument)
    } else if str_is(k, "override_return_type") {
        Err(ParseError::OverrideReturnTypeOutsideFunction)
    } else if str_is(k, "skip") {
        Err(ParseError::SkipOutsideField)
    } else if str_is(k, "default") {
        Err(ParseError::DefaultOutsideFieldOrFunction)
    } else if str_is(k, "type_ignore") {
        Err(ParseError::TypeIgnoreOutsideFunction)
    } else if loc == AttributeLocation::Argument {
        Err(ParseError::UnsupportedInArgument)
    } else if loc == AttributeLocation::Field {
        Err(ParseError::UnsupportedInField)
    } else {
        Err(ParseError::UnsupportedInFunction)
    }
}

fn parse_gen_stub_items(v: &Vec<TokenTree>, loc: AttributeLocation, ignored: &Vec<String>) -> (r:
    Result<Vec<StubGenAttr>, ParseError>)
    ensures
        same_attrs(r, gen_stub_items(*v, 0, loc, ignored@.map_values(|s: String| s@))),
{
    let ghost ig = ignored@.map_values(|s: String| s@);
    let mut acc: Vec<StubGenAttr> = Vec::new();
    let mut i: usize = 0;
    let n = v.len();
    assert(acc@.map_values(|x: StubGenAttr| x@) =~= Seq::<StubGenAttrView>::empty());
    assert(gen_stub_items(*v, 0, loc, ig) == (match gen_stub_items(*v, 0, loc, ig) {
        Ok(rest) => Ok(Seq::<StubGenAttrView>::empty() + rest),
        Err(e) => Err(e),
    })) by {
        match gen_stub_items(*v, 0, loc, ig) {
            Ok(rest) => {
                assert(Seq::<StubGenAttrView>::empty() + rest =~= rest);
            },
            _ => {},
        }
    }
    while i < n
        invariant
            n == v.len(),
            i <= n,
            ig == ignored@.map_values(|s: String| s@),
            gen_stub_items(*v, 0, loc, ig) == (match gen_stub_items(*v, i as int, loc, ig) {
                Ok(rest) => Ok(acc@.map_values(|x: StubGenAttr| x@) + rest),
                Err(e) => Err(e),
            }),
        decreases n - i,
    {
        let ghost before = acc@.map_values(|x: StubGenAttr| x@);
        let k = match &v[i] {
            TokenTree::Ident(s) => {
                if ident_accepted(s.as_str()) {
                    s
                } else {
                    return Err(ParseError::Syntax);
                }
            },
            _ => {
                return Err(ParseError::Syntax);
            },
        };
        let ign = contains_str(ignored, k.as_str());
        proof {
            lemma_gen_stub_item_advances(*v, i as int, k@, loc, ign);
        }
        match read_gen_stub_item(v, i, k.as_str(), loc, ign) {
            Err(e) => {
                return Err(e);
            },
            Ok((mut items, j)) => {
                let ghost iv = items@.map_values(|x: StubGenAttr| x@);
                acc.append(&mut items);
                assert(acc@.map_values(|x: StubGenAttr| x@) =~= before + iv);
                if j >= n {
                    return Ok(acc);
                } else if token_is_punct(&v[j], ',') {
                    assert forall|r: Seq<StubGenAttrView>| #![auto] before + (iv + r) == (before
                        + iv) + r by {
                        assert(before + (iv + r) =~= (before + iv) + r);
                    }
                    i = j + 1;
                } else {
                    return Err(ParseError::Syntax);
                }
            },
        }
    }
    let ghost fin = acc@.map_values(|x: StubGenAttr| x@);
    assert(fin + Seq::<StubGenAttrView>::empty() =~= fin);
    Ok(acc)
}

/// Reads one attribute as `#[gen_stub(...)]` at a location (see
/// [`gen_stub_attr_spec`]).
pub fn parse_gen_stub_attr(a: &Attribute, loc: AttributeLocation, ignored: &Vec<String>) -> (r:
    Result<Vec<StubGenAttr>, ParseError>)
    ensures
        same_attrs(r, gen_stub_attr_spec(*a, loc, ignored@.map_values(|s: String| s@))),
{
    if attr_path_is(a, "gen_stub") {
        match &a.meta {
            Meta::List(v) => parse_gen_stub_items(v, loc, ignored),
            _ => Err(ParseError::Syntax),
        }
    } else {
        let r: Vec<StubGenAttr> = Vec::new();
        assert(r@.map_values(|x: StubGenAttr| x@) =~= Seq::<StubGenAttrView>::empty());
        Ok(r)
    }
}

/// Reads a list of attributes as `#[gen_stub(...)]` at a location; the
/// first error ends the reading.
pub fn parse_gen_stub_attrs(
    attrs: &Vec<Attribute>,
    loc: AttributeLocation,
    ignored: &Vec<String>,
) -> (r: Result<Vec<StubGenAttr>, ParseError>)
    ensures
        same_attrs(r, gen_stub_attrs_spec(attrs@, loc, ignored@.map_values(|s: String| s@))),
{
    let ghost ig = ignored@.map_values(|s: String| s@);
    let mut acc: Vec<StubGenAttr> = Vec::new();
    let mut i: usize = 0;
    assert(acc@.map_values(|x: StubGenAttr| x@) =~= Seq::<StubGenAttrView>::empty());
    assert(attrs@.subrange(0, attrs.len() as int) =~= attrs@);
    assert(gen_stub_attrs_spec(attrs@, loc, ig) == (match gen_stub_attrs_spec(attrs@, loc, ig) {
        Ok(rest) => Ok(Seq::<StubGenAttrView>::empty() + rest),
        Err(e) => Err(e),
    })) by {
        match gen_stub_attrs_spec(attrs@, loc, ig) {
            Ok(rest) => {
                assert(Seq::<StubGenAttrView>::empty() + rest =~= rest);
            },
            _ => {},
        }
    }
    while i < attrs.len()
        invariant
            i <= attrs.len(),
            ig == ignored@.map_values(|s: String| s@),
            gen_stub_attrs_spec(attrs@, loc, ig) == (match gen_stub_attrs_spec(
                attrs@.subrange(i as int, attrs.len() as int),
                loc,
                ig,
            ) {
                Ok(rest) => Ok(acc@.map_values(|x: StubGenAttr| x@) + rest),
                Err(e) => Err(e),
            }),
        decreases attrs.len() - i,
    {
        let ghost before = acc@.map_values(|x: StubGenAttr| x@);
        let ghost rest = attrs@.subrange(i as int, attrs.len() as int);
        assert(rest[0] == attrs@[i as int]);
        assert(rest.drop_first() =~= attrs@.subrange(i + 1, attrs.len() as int));
        match parse_gen_stub_attr(&attrs[i], loc, ignored) {
            Ok(mut items) => {
                let ghost iv = items@.map_values(|x: StubGenAttr| x@);
                acc.append(&mut items);
                assert(acc@.map_values(|x: StubGenAttr| x@) =~= before + iv);
                assert forall|r: Seq<StubGenAttrView>| #![auto] before + (iv + r) == (before + iv)
                    + r by {
                    assert(before + (iv + r) =~= (before + iv) + r);
                }
            },
            Err(e) => {
                return Err(e);
            },
        }
        i = i + 1;
    }
    let ghost fin = acc@.map_values(|x: StubGenAttr| x@);
    assert(fin + Seq::<StubGenAttrView>::empty() =~= fin);
    Ok(acc)
}

} // verus!

verus! {

/// The first type override among the settings.
pub open spec fn first_override(s: Seq<StubGenAttrView>) -> Option<OverrideTypeView>
    decreases s.len(),
{
    if s.len() == 0 {
        None
    } else if s[0] is OverrideType {
        Some(s[0]->OverrideType_0)
    } else {
        first_override(s.drop_first())
    }
}

/// The first default value among the settings.
pub open spec fn first_default(s: Seq<StubGenAttrView>) -> Option<Seq<char>>
    decreases s.len(),
{
    if s.len() == 0 {
        None
    } else if s[0] is Default {
        Some(s[0]->Default_0)
    } else {
        first_default(s.drop_first())
    }
}

/// The first type-checker ignore among the settings.
pub open spec fn first_ignore(s: Seq<StubGenAttrView>) -> Option<IgnoreTargetView>
    decreases s.len(),
{
    if s.len() == 0 {
        None
    } else if s[0] is TypeIgnore {
        Some(s[0]->TypeIgnore_0)
    } else {
        first_ignore(s.drop_first())
    }
}

/// Whether the settings hold `skip`.
pub open spec fn has_skip(s: Seq<StubGenAttrView>) -> bool {
    exists|i: int| 0 <= i < s.len() && s[i] is Skip
}

/// The position of the first setting that is an override, a default or an
/// ignore (`kind` 0, 1 or 2), or the length.
fn position_of(v: &Vec<StubGenAttr>, kind: u8) -> (k: usize)
    requires
        kind <= 2,
    ensures
        k <= v.len(),
        kind == 0 ==> first_override(v@.map_values(|x: StubGenAttr| x@)) == (if k < v.len() {
            Some(v@[k as int]@->OverrideType_0)
        } else {
            None
        }) && (k < v.len() ==> v@[k as int] is OverrideType),
        kind == 1 ==> first_default(v@.map_values(|x: StubGenAttr| x@)) == (if k < v.len() {
            Some(v@[k as int]@->Default_0)
        } else {
            None
        }) && (k < v.len() ==> v@[k as int] is Default),
        kind == 2 ==> first_ignore(v@.map_values(|x: StubGenAttr| x@)) == (if k < v.len() {
            Some(v@[k as int]@->TypeIgnore_0)
        } else {
            None
        }) && (k < v.len() ==> v@[k as int] is TypeIgnore),
{
    let ghost s = v@.map_values(|x: StubGenAttr| x@);
    let mut i: usize = 0;
    assert(s.subrange(0, s.len() as int) =~= s);
    while i < v.len()
        invariant
            i <= v.len(),
            s == v@.map_values(|x: StubGenAttr| x@),
            kind <= 2,
            kind == 0 ==> first_override(s) == first_override(s.subrange(i as int, s.len() as int)),
            kind == 1 ==> first_default(s) == first_default(s.subrange(i as int, s.len() as int)),
            kind == 2 ==> first_ignore(s) == first_ignore(s.subrange(i as int, s.len() as int)),
        decreases v.len() - i,
    {
        let ghost rest = s.subrange(i as int, s.len() as int);
        assert(rest[0] == v@[i as int]@);
        assert(rest.drop_first() =~= s.subrange(i + 1, s.len() as int));
        let hit = match &v[i] {
            StubGenAttr::OverrideType(_) => kind == 0,
            StubGenAttr::Default(_) => kind == 1,
            StubGenAttr::TypeIgnore(_) => kind == 2,
            StubGenAttr::Skip => false,
        };
        if hit {
            return i;
        }
        i = i + 1;
    }
    i
}

/// The first `override_type(...)` of an argument's `#[gen_stub(...)]`
/// attributes.
pub fn parse_gen_stub_override_type(attrs: &Vec<Attribute>) -> (r: Result<
    Option<OverrideTypeAttribute>,
    ParseError,
>)
    ensures
        match (r, gen_stub_attrs_spec(attrs@, AttributeLocation::Argument, Seq::empty())) {
            (Ok(o), Ok(s)) => match (o, first_override(s)) {
                (Some(a), Some(b)) => a@ == b,
                (None, None) => true,
                _ => false,
            },
            (Err(e), Err(f)) => same_error(e, f),
            _ => false,
        },
{
    let none: Vec<String> = Vec::new();
    assert(none@.map_values(|s: String| s@) =~= Seq::<Seq<char>>::empty());
    first_override_at(attrs, AttributeLocation::Argument, &none)
}

/// The first `override_return_type(...)` of a function's `#[gen_stub(...)]`
/// attributes.
pub fn parse_gen_stub_override_return_type(attrs: &Vec<Attribute>) -> (r: Result<
    Option<OverrideTypeAttribute>,
    ParseError,
>)
    ensures
        match (r, gen_stub_attrs_spec(attrs@, AttributeLocation::Function, Seq::empty())) {
            (Ok(o), Ok(s)) => match (o, first_override(s)) {
                (Some(a), Some(b)) => a@ == b,
                (None, None) => true,
                _ => false,
            },
            (Err(e), Err(f)) => same_error(e, f),
            _ => false,
        },
{
    let none: Vec<String> = Vec::new();
    assert(none@.map_values(|s: String| s@) =~= Seq::<Seq<char>>::empty());
    first_override_at(attrs, AttributeLocation::Function, &none)
}

fn first_override_at(attrs: &Vec<Attribute>, loc: AttributeLocation, ignored: &Vec<String>) -> (r:
    Result<Option<OverrideTypeAttribute>, ParseError>)
    ensures
        match (r, gen_stub_attrs_spec(attrs@, loc, ignored@.map_values(|s: String| s@))) {
            (Ok(o), Ok(s)) => match (o, first_override(s)) {
                (Some(a), Some(b)) => a@ == b,
                (None, None) => true,
                _ => false,
            },
            (Err(e), Err(f)) => same_error(e, f),
            _ => false,
        },
{
    let mut v = parse_gen_stub_attrs(attrs, loc, ignored)?;
    let k = position_of(&v, 0);
    if k < v.len() {
        match v.remove(k) {
            StubGenAttr::OverrideType(o) => Ok(Some(o)),
            _ => Ok(None),
        }
    } else {
        Ok(None)
    }
}

/// The first `default = ...` of a function's or field's `#[gen_stub(...)]`
/// attributes, read at the function location.
pub fn parse_gen_stub_default(attrs: &Vec<Attribute>) -> (r: Result<Option<String>, ParseError>)
    ensures
        match (r, gen_stub_attrs_spec(attrs@, AttributeLocation::Function, Seq::empty())) {
            (Ok(o), Ok(s)) => crate::attr::opt_view(o) == first_default(s),
            (Err(e), Err(f)) => same_error(e, f),
            _ => false,
        },
{
    let none: Vec<String> = Vec::new();
    assert(none@.map_values(|s: String| s@) =~= Seq::<Seq<char>>::empty());
    let mut v = parse_gen_stub_attrs(attrs, AttributeLocation::Function, &none)?;
    let k = position_of(&v, 1);
    if k < v.len() {
        match v.remove(k) {
            StubGenAttr::Default(d) => Ok(Some(d)),
            _ => Ok(None),
        }
    } else {
        Ok(None)
    }
}

fn first_ignore_at(attrs: &Vec<Attribute>, loc: AttributeLocation) -> (r: Result<
    Option<IgnoreTarget>,
    ParseError,
>)
    ensures
        match (r, gen_stub_attrs_spec(attrs@, loc, Seq::empty())) {
            (Ok(o), Ok(s)) => match (o, first_ignore(s)) {
                (Some(a), Some(b)) => a@ == b,
                (None, None) => true,
                _ => false,
            },
            (Err(e), Err(f)) => same_error(e, f),
            _ => false,
        },
{
    let none: Vec<String> = Vec::new();
    assert(none@.map_values(|s: String| s@) =~= Seq::<Seq<char>>::empty());
    let mut v = parse_gen_stub_attrs(attrs, loc, &none)?;
    let k = position_of(&v, 2);
    if k < v.len() {
        match v.remove(k) {
            StubGenAttr::TypeIgnore(t) => Ok(Some(t)),
            _ => Ok(None),
        }
    } else {
        Ok(None)
    }
}

/// The type-checker rules that a function or method ignores: the first
/// `type_ignore` read at the function location, else the first read at the
/// field location. An error at the function location ends the reading.
pub fn parse_gen_stub_type_ignore(attrs: &Vec<Attribute>) -> (r: Result<
    Option<IgnoreTarget>,
    ParseError,
>)
    ensures
        match gen_stub_attrs_spec(attrs@, AttributeLocation::Function, Seq::empty()) {
            Err(e) => r matches Err(x) && same_error(x, e),
            Ok(s) => match first_ignore(s) {
                Some(b) => r matches Ok(Some(a)) && a@ == b,
                None => match gen_stub_attrs_spec(attrs@, AttributeLocation::Field, Seq::empty()) {
                    Err(e) => r matches Err(x) && same_error(x, e),
                    Ok(t) => match first_ignore(t) {
                        Some(b) => r matches Ok(Some(a)) && a@ == b,
                        None => r matches Ok(None),
                    },
                },
            },
        },
{
    match first_ignore_at(attrs, AttributeLocation::Function)? {
        Some(t) => Ok(Some(t)),
        None => first_ignore_at(attrs, AttributeLocation::Field),
    }
}

/// Whether a field's or method's `#[gen_stub(...)]` attributes say `skip`;
/// `override_return_type` and `default` are taken as allowed there.
#[verifier::loop_isolation(false)]
pub fn parse_gen_stub_skip(attrs: &Vec<Attribute>) -> (r: Result<bool, ParseError>)
    ensures
        match (
            r,
            gen_stub_attrs_spec(
                attrs@,
                AttributeLocation::Field,
                seq!["override_return_type"@, "default"@],
            ),
        ) {
            (Ok(b), Ok(s)) => b == has_skip(s),
            (Err(e), Err(f)) => same_error(e, f),
            _ => false,
        },
{
    let mut ignored: Vec<String> = Vec::new();
    ignored.push(String::from_str("override_return_type"));
    ignored.push(String::from_str("default"));
    assert(ignored@.map_values(|s: String| s@) =~= seq!["override_return_type"@, "default"@]);
    let v = match parse_gen_stub_attrs(attrs, AttributeLocation::Field, &ignored) {
        Ok(v) => v,
        Err(e) => {
            return Err(e);
        },
    };
    let ghost s = v@.map_values(|x: StubGenAttr| x@);
    let mut i: usize = 0;
    while i < v.len()
        invariant
            i <= v.len(),
            s == v@.map_values(|x: StubGenAttr| x@),
            forall|j: int| 0 <= j < i ==> !(#[trigger] s[j] is Skip),
        decreases v.len() - i,
    {
        match &v[i] {
            StubGenAttr::Skip => {
                assert(s[i as int] is Skip);
                assert(has_skip(s));
                return Ok(true);
            },
            _ => {},
        }
        i = i + 1;
    }
    Ok(false)
}

} // verus!
