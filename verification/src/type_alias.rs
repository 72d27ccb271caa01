//! Type aliases read from a parsed Python stub: `Name: TypeAlias = T` and
//! `type Name = T`, each with the string statement after it as its
//! documentation.

use vstd::prelude::*;
use crate::parse::{ParseError, same_error};
use crate::python::{expr_to_type_string, extract_rust_type_marker, rust_type_marker, type_text, PyExpr};
use crate::python_stub::{stmt_string, PyStmt};
use crate::rust_syntax::{rust_type_parses, type_parses};
use crate::dedent::utf8_size;
use crate::stub_parse::{imports_upto, on_stub_text, read_stub, stmt_imports};
use crate::text::str_is;

verus! {

/// A type alias of a stub: its name, its type as a stub writes it, the
/// modules imported before it, the Rust types named in it by
/// `RustType["..."]`, and its documentation.
#[derive(Debug, PartialEq, Eq)]
pub struct PythonTypeAliasStub {
    pub name: String,
    pub type_expr: String,
    pub imports: Vec<String>,
    pub rust_type_markers: Vec<String>,
    pub doc: String,
}

pub struct TypeAliasView {
    pub name: Seq<char>,
    pub type_expr: Seq<char>,
    pub imports: Seq<Seq<char>>,
    pub rust_type_markers: Seq<Seq<char>>,
    pub doc: Seq<char>,
}

impl View for PythonTypeAliasStub {
    type V = TypeAliasView;

    open spec fn view(&self) -> TypeAliasView {
        TypeAliasView {
            name: self.name@,
            type_expr: self.type_expr@,
            imports: self.imports@.map_values(|s: String| s@),
            rust_type_markers: self.rust_type_markers@.map_values(|s: String| s@),
            doc: self.doc@,
        }
    }
}

/// The names inside the `RustType["..."]` markers of a type expression, in
/// the order its text shows them: the places where [`type_text`] puts a
/// marker's name.
pub open spec fn markers(e: PyExpr) -> Seq<Seq<char>>
    decreases e, 0nat,
{
    match rust_type_marker(e) {
        Ok(Some(n)) => seq![n],
        Err(_) => Seq::empty(),
        Ok(None) => match e {
            PyExpr::Attribute(v, _) => markers(*v),
            PyExpr::Subscript(v, s) => markers(*v) + markers(*s),
            PyExpr::List(v) => markers_of(v, v.len() as nat),
            PyExpr::Tuple(v) => markers_of(v, v.len() as nat),
            _ => Seq::empty(),
        },
    }
}

/// The markers of the first `n` expressions of `v`, in order.
pub open spec fn markers_of(v: Vec<PyExpr>, n: nat) -> Seq<Seq<char>>
    decreases v, n,
{
    if n == 0 || n > v.len() {
        Seq::empty()
    } else {
        markers_of(v, (n - 1) as nat) + markers(v[n - 1])
    }
}

fn append_strings(out: &mut Vec<String>, more: Vec<String>)
    ensures
        final(out)@.map_values(|s: String| s@) == old(out)@.map_values(|s: String| s@)
            + more@.map_values(|s: String| s@),
{
    let mut more = more;
    let ghost a = out@;
    let ghost b = more@;
    out.append(&mut more);
    assert(out@ =~= a + b);
    assert(out@.map_values(|s: String| s@) =~= a.map_values(|s: String| s@) + b.map_values(
        |s: String| s@,
    ));
}

/// The names of the `RustType["..."]` markers of a type expression (see
/// [`markers`]).
pub fn collect_rust_type_markers(e: &PyExpr) -> (r: Vec<String>)
    ensures
        r@.map_values(|s: String| s@) == markers(*e),
    decreases e, 0nat,
{
    let mut out: Vec<String> = Vec::new();
    match extract_rust_type_marker(e) {
        Ok(Some(n)) => {
            out.push(n);
            assert(out@.map_values(|s: String| s@) =~= markers(*e));
            return out;
        },
        Err(_) => {
            assert(out@.map_values(|s: String| s@) =~= markers(*e));
            return out;
        },
        Ok(None) => {},
    }
    match e {
        PyExpr::Attribute(v, _) => collect_rust_type_markers(v),
        PyExpr::Subscript(v, s) => {
            let mut a = collect_rust_type_markers(v);
            let b = collect_rust_type_markers(s);
            append_strings(&mut a, b);
            a
        },
        PyExpr::List(v) => collect_markers_of(v),
        PyExpr::Tuple(v) => collect_markers_of(v),
        _ => {
            assert(out@.map_values(|s: String| s@) =~= markers(*e));
            out
        },
    }
}

fn collect_markers_of(v: &Vec<PyExpr>) -> (r: Vec<String>)
    ensures
        r@.map_values(|s: String| s@) == markers_of(*v, v.len() as nat),
    decreases v, 0nat,
{
    let mut out: Vec<String> = Vec::new();
    assert(out@.map_values(|s: String| s@) =~= Seq::<Seq<char>>::empty());
    let mut i: usize = 0;
    while i < v.len()
        invariant
            i <= v.len(),
            out@.map_values(|s: String| s@) == markers_of(*v, i as nat),
        decreases v.len() - i,
    {
        let m = collect_rust_type_markers(&v[i]);
        append_strings(&mut out, m);
        i = i + 1;
    }
    out
}

/// Whether an annotation is `TypeAlias` (also written with a module).
pub open spec fn is_type_alias_annotation(a: PyExpr) -> bool {
    match a {
        PyExpr::Name(n) => n@ == "TypeAlias"@,
        PyExpr::Attribute(_, attr) => attr@ == "TypeAlias"@,
        _ => false,
    }
}

/// The documentation of the alias at index `idx`: the next statement when
/// it is a string, else the empty string.
pub open spec fn next_doc(stmts: Seq<PyStmt>, idx: int) -> Seq<char> {
    if 0 <= idx + 1 < stmts.len() && stmt_string(stmts[idx + 1]) is Some {
        stmt_string(stmts[idx + 1])->0
    } else {
        Seq::empty()
    }
}

/// The alias named `id` with value `v` at index `idx`.
pub open spec fn alias_with(
    stmts: Seq<PyStmt>,
    idx: int,
    id: Seq<char>,
    v: PyExpr,
    imports: Seq<Seq<char>>,
) -> Result<Option<TypeAliasView>, ParseError> {
    match type_text(v, false) {
        Err(e) => Err(e),
        Ok(t) => Ok(
            Some(
                TypeAliasView {
                    name: id,
                    type_expr: t,
                    imports,
                    rust_type_markers: markers(v),
                    doc: next_doc(stmts, idx),
                },
            ),
        ),
    }
}

/// The alias that the statement at index `idx` defines, if any, with the
/// imports read before it. An annotated name must be annotated
/// `TypeAlias` and have a value.
pub open spec fn alias_at(stmts: Seq<PyStmt>, idx: int, imports: Seq<Seq<char>>) -> Result<
    Option<TypeAliasView>,
    ParseError,
> {
    match stmts[idx] {
        PyStmt::AnnAssign(PyExpr::Name(id), ann, value) => if !is_type_alias_annotation(ann) {
            Err(ParseError::AliasWithoutAnnotation(id))
        } else {
            match value {
                Some(v) => alias_with(stmts, idx, id@, v, imports),
                None => Err(ParseError::AliasWithoutValue(id)),
            }
        },
        PyStmt::TypeAlias(PyExpr::Name(id), v) => alias_with(stmts, idx, id@, v, imports),
        _ => Ok(None),
    }
}

/// The aliases of the first `n` statements; the first error is the result.
pub open spec fn alias_scan(stmts: Seq<PyStmt>, n: nat) -> Result<Seq<TypeAliasView>, ParseError>
    decreases n,
{
    if n == 0 || n > stmts.len() {
        Ok(Seq::empty())
    } else {
        match alias_scan(stmts, (n - 1) as nat) {
            Err(e) => Err(e),
            Ok(prev) => match alias_at(stmts, n - 1, imports_upto(stmts, (n - 1) as nat)) {
                Err(e) => Err(e),
                Ok(None) => Ok(prev),
                Ok(Some(a)) => Ok(prev.push(a)),
            },
        }
    }
}

/// The aliases of a stub: an error when there is none.
pub open spec fn type_alias_spec(stmts: Seq<PyStmt>) -> Result<Seq<TypeAliasView>, ParseError> {
    match alias_scan(stmts, stmts.len()) {
        Err(e) => Err(e),
        Ok(a) => if a.len() == 0 {
            Err(ParseError::NoTypeAlias)
        } else {
            Ok(a)
        },
    }
}

proof fn lemma_alias_error_stays(stmts: Seq<PyStmt>, i: nat, n: nat)
    requires
        i <= n <= stmts.len(),
        alias_scan(stmts, i) is Err,
    ensures
        alias_scan(stmts, n) == alias_scan(stmts, i),
    decreases n - i,
{
    if n > i {
        lemma_alias_error_stays(stmts, i, (n - 1) as nat);
    }
}

fn next_doc_exec(stmts: &Vec<PyStmt>, idx: usize) -> (r: String)
    requires
        idx < stmts.len(),
    ensures
        r@ == next_doc(stmts@, idx as int),
{
    if idx + 1 < stmts.len() {
        match &stmts[idx + 1] {
            PyStmt::Expr(PyExpr::Constant(crate::python::PyConstant::Str(s))) => {
                return s.clone();
            },
            _ => {},
        }
    }
    String::new()
}

fn alias_with_exec(
    stmts: &Vec<PyStmt>,
    idx: usize,
    id: &String,
    v: &PyExpr,
    imports: &Vec<String>,
) -> (r: Result<PythonTypeAliasStub, ParseError>)
    requires
        idx < stmts.len(),
    ensures
        match (r, alias_with(stmts@, idx as int, id@, *v, imports@.map_values(|s: String| s@))) {
            (Ok(a), Ok(Some(b))) => a@ == b,
            (Err(x), Err(y)) => same_error(x, y),
            _ => false,
        },
{
    let t = expr_to_type_string(v)?;
    let m = collect_rust_type_markers(v);
    let doc = next_doc_exec(stmts, idx);
    Ok(
        PythonTypeAliasStub {
            name: id.clone(),
            type_expr: t,
            imports: crate::imports::clone_strings(imports),
            rust_type_markers: m,
            doc,
        },
    )
}

fn is_type_alias_annotation_exec(a: &PyExpr) -> (r: bool)
    ensures
        r == is_type_alias_annotation(*a),
{
    match a {
        PyExpr::Name(n) => str_is(n.as_str(), "TypeAlias"),
        PyExpr::Attribute(_, attr) => str_is(attr.as_str(), "TypeAlias"),
        _ => false,
    }
}

fn alias_at_exec(stmts: &Vec<PyStmt>, idx: usize, imports: &Vec<String>) -> (r: Result<
    Option<PythonTypeAliasStub>,
    ParseError,
>)
    requires
        idx < stmts.len(),
    ensures
        match (r, alias_at(stmts@, idx as int, imports@.map_values(|s: String| s@))) {
            (Ok(Some(a)), Ok(Some(b))) => a@ == b,
            (Ok(None), Ok(None)) => true,
            (Err(x), Err(y)) => same_error(x, y),
            _ => false,
        },
{
    match &stmts[idx] {
        PyStmt::AnnAssign(PyExpr::Name(id), ann, value) => {
            if !is_type_alias_annotation_exec(ann) {
                return Err(ParseError::AliasWithoutAnnotation(id.clone()));
            }
            match value {
                Some(v) => Ok(Some(alias_with_exec(stmts, idx, id, v, imports)?)),
                None => Err(ParseError::AliasWithoutValue(id.clone())),
            }
        },
        PyStmt::TypeAlias(PyExpr::Name(id), v) => Ok(Some(alias_with_exec(stmts, idx, id, v, imports)?)),
        _ => Ok(None),
    }
}

/// The type aliases of a parsed stub (see [`type_alias_spec`]).
pub fn type_aliases_from_statements(stmts: &Vec<PyStmt>) -> (r: Result<
    Vec<PythonTypeAliasStub>,
    ParseError,
>)
    ensures
        match (r, type_alias_spec(stmts@)) {
            (Ok(a), Ok(b)) => a@.map_values(|x: PythonTypeAliasStub| x@) == b,
            (Err(x), Err(y)) => same_error(x, y),
            _ => false,
        },
{
    let mut imports: Vec<String> = Vec::new();
    let mut out: Vec<PythonTypeAliasStub> = Vec::new();
    assert(out@.map_values(|x: PythonTypeAliasStub| x@) =~= Seq::<TypeAliasView>::empty());
    let mut i: usize = 0;
    while i < stmts.len()
        invariant
            i <= stmts.len(),
            imports@.map_values(|s: String| s@) == imports_upto(stmts@, i as nat),
            alias_scan(stmts@, i as nat) == Ok::<Seq<TypeAliasView>, ParseError>(
                out@.map_values(|x: PythonTypeAliasStub| x@),
            ),
        decreases stmts.len() - i,
    {
        match alias_at_exec(stmts, i, &imports) {
            Err(e) => {
                assert(alias_scan(stmts@, (i + 1) as nat) is Err && same_error(e, alias_scan(stmts@, (i + 1) as nat)->Err_0));
                proof {
                    lemma_alias_error_stays(stmts@, (i + 1) as nat, stmts.len() as nat);
                }
                return Err(e);
            },
            Ok(None) => {},
            Ok(Some(a)) => {
                let ghost before = out@.map_values(|x: PythonTypeAliasStub| x@);
                let ghost av = a@;
                out.push(a);
                assert(out@.map_values(|x: PythonTypeAliasStub| x@) =~= before.push(av));
            },
        }
        crate::stub_parse::push_stmt_imports(&mut imports, &stmts[i]);
        i = i + 1;
    }
    if out.len() == 0 {
        return Err(ParseError::NoTypeAlias);
    }
    Ok(out)
}

/// The markers of `names` that `syn` parses as Rust types, in order: the
/// types whose stub names replace the markers when the alias is written.
pub open spec fn parsable(names: Seq<Seq<char>>) -> Seq<Seq<char>>
    decreases names.len(),
{
    if names.len() == 0 {
        Seq::empty()
    } else if rust_type_parses(names.last()) {
        parsable(names.drop_last()).push(names.last())
    } else {
        parsable(names.drop_last())
    }
}

/// The markers of `names` that parse as Rust types, in order.
pub fn parsable_markers(names: &Vec<String>) -> (r: Vec<String>)
    ensures
        r@.map_values(|s: String| s@) == parsable(names@.map_values(|s: String| s@)),
{
    let ghost ms = names@.map_values(|s: String| s@);
    let mut out: Vec<String> = Vec::new();
    let mut i: usize = 0;
    assert(out@.map_values(|s: String| s@) =~= parsable(ms.subrange(0, 0)));
    while i < names.len()
        invariant
            i <= names.len(),
            ms == names@.map_values(|s: String| s@),
            out@.map_values(|s: String| s@) == parsable(ms.subrange(0, i as int)),
        decreases names.len() - i,
    {
        let m = &names[i];
        assert(ms.subrange(0, i + 1).drop_last() =~= ms.subrange(0, i as int));
        if type_parses(m.as_str()) {
            let ghost before = out@.map_values(|s: String| s@);
            out.push(m.clone());
            assert(out@.map_values(|s: String| s@) =~= before.push(m@));
        }
        i = i + 1;
    }
    assert(ms.subrange(0, names.len() as int) =~= ms);
    out
}

impl PythonTypeAliasStub {
    /// The markers of the alias that `syn` parses as Rust types (see
    /// [`parsable`]).
    pub fn marker_types(&self) -> (r: Vec<String>)
        ensures
            r@.map_values(|s: String| s@) == parsable(self.rust_type_markers@.map_values(|s: String| s@)),
    {
        parsable_markers(&self.rust_type_markers)
    }
}

/// The type aliases of a stub's text (see [`type_alias_spec`] and
/// [`on_stub_text`]).
pub fn parse_python_type_alias_stub(text: &str) -> (r: Option<Result<Vec<PythonTypeAliasStub>, ParseError>>)
    requires
        utf8_size(text@) <= usize::MAX,
    ensures
        match (r, on_stub_text(text@, |s: Seq<PyStmt>| type_alias_spec(s))) {
            (None, None) => true,
            (Some(Ok(a)), Some(Ok(b))) => a@.map_values(|x: PythonTypeAliasStub| x@) == b,
            (Some(Err(x)), Some(Err(y))) => same_error(x, y),
            _ => false,
        },
{
    match read_stub(text) {
        None => None,
        Some(Err(e)) => Some(Err(e)),
        Some(Ok(stmts)) => Some(type_aliases_from_statements(&stmts)),
    }
}

} // verus!
