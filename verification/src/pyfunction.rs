//! Functions marked `#[gen_stub_pyfunction]`, and the settings of that
//! attribute.

use vstd::prelude::*;
use crate::arg::{
    args_from, extract_return_type, parse_args, return_type_spec, ArgInfo, ArgInfoView,
    TypeOrOverride, TypeOrOverrideView,
};
use crate::attr::{
    deprecated_of, doc_string, documents, extract_deprecated, opt_view, parse_pyo3_attrs,
    pyo3_attrs_defined, pyo3_attrs_spec, Attr, AttrView, DeprecatedInfo, DeprecatedView,
};
use crate::attr_query::{last_of, last_tagged, lemma_last_tagged_bounds, AttrTag};
use crate::gen_stub_attr::{IgnoreTarget, IgnoreTargetView};
use crate::item::ImplItemFn;
use crate::member::{opt_deprecated, renamed};
use crate::method::{ignore_spec, opt_ignore, opt_ret, type_ignore_of};
use crate::parameter::{cleaned, signature_params, ParameterKind, ParameterView, Parameters};
use crate::parse::{ParseError, Parsed, same_error};
use crate::python_stub::PyStmt;
use crate::dedent::utf8_size;
use crate::stub_parse::{
    function_stub_from_statements, function_stub_spec, on_stub_text, overload_stubs_from_statements,
    overloads_spec, read_stub,
};
use crate::rust_syntax::{ident_accepted, literal_string_value, rust_ident_accepted, string_literal_value};
use crate::signature::{Signature, SignatureArgView};
use crate::text::{join, str_is};
use crate::tokens::{is_punct, token_is_punct, TokenTree};

verus! {

/// A function as a stub shows it. `index` numbers the overloads that one
/// Rust function gives.
#[derive(Debug)]
pub struct PyFunctionInfo {
    pub name: String,
    pub parameters: Parameters,
    pub ret: Option<TypeOrOverride>,
    pub doc: String,
    pub module: Option<String>,
    pub is_async: bool,
    pub deprecated: Option<DeprecatedInfo>,
    pub type_ignored: Option<IgnoreTarget>,
    pub is_overload: bool,
    pub index: usize,
}

pub struct PyFunctionView {
    pub name: Seq<char>,
    pub parameters: Seq<ParameterView>,
    pub ret: Option<TypeOrOverrideView>,
    pub doc: Seq<char>,
    pub module: Option<Seq<char>>,
    pub is_async: bool,
    pub deprecated: Option<DeprecatedView>,
    pub type_ignored: Option<IgnoreTargetView>,
    pub is_overload: bool,
    pub index: nat,
}

impl View for PyFunctionInfo {
    type V = PyFunctionView;

    open spec fn view(&self) -> PyFunctionView {
        PyFunctionView {
            name: self.name@,
            parameters: self.parameters@,
            ret: opt_ret(self.ret),
            doc: self.doc@,
            module: opt_view(self.module),
            is_async: self.is_async,
            deprecated: opt_deprecated(self.deprecated),
            type_ignored: opt_ignore(self.type_ignored),
            is_overload: self.is_overload,
            index: self.index as nat,
        }
    }
}

/// What a Rust function gives before its parameters are formed: the
/// ignored rules, the arguments, the return type and PyO3's settings, or
/// the first error among them, in that order.
pub open spec fn function_head(item: ImplItemFn) -> Result<
    (Option<IgnoreTargetView>, Seq<ArgInfoView>, Option<TypeOrOverrideView>, Seq<AttrView>),
    ParseError,
> {
    let attrs = item.attrs@;
    match ignore_spec(attrs) {
        Err(e) => Err(e),
        Ok(ti) => match args_from(item.sig.inputs@, 0) {
            Parsed::Error(e) => Err(e),
            Parsed::Panic => Err(ParseError::Syntax),
            Parsed::Value(args) => match return_type_spec(item.sig.output, attrs) {
                Err(e) => Err(e),
                Ok(ret) => match pyo3_attrs_spec(attrs) {
                    Parsed::Error(e) => Err(e),
                    Parsed::Panic => Err(ParseError::Syntax),
                    Parsed::Value(s) => Ok((ti, args, ret, s)),
                },
            },
        },
    }
}

/// The parameters of a function with arguments `args`: as the last
/// `#[pyo3(signature = ...)]` gives them, else every argument
/// positional-or-keyword (see [`Parameters::new_with_sig`] and
/// [`Parameters::new`]).
pub open spec fn function_params(args: Seq<ArgInfo>, s: Seq<AttrView>) -> Result<
    Seq<ParameterView>,
    ParseError,
> {
    match last_tagged(s, AttrTag::Signature, s.len()) {
        Some(k) => signature_params(args, s[k]->Signature_0),
        None => Ok(
            args.map_values(
                |a: ArgInfo|
                    ParameterView {
                        arg: cleaned(a),
                        kind: ParameterKind::PositionalOrKeyword,
                        default: None,
                    },
            ),
        ),
    }
}

/// Whether `f` is what a Rust function gives: its name is the last
/// `#[pyo3(name = "...")]`, else the function's; no module, no overload,
/// index 0.
pub open spec fn function_made(
    item: ImplItemFn,
    ti: Option<IgnoreTargetView>,
    ret: Option<TypeOrOverrideView>,
    s: Seq<AttrView>,
    params: Seq<ParameterView>,
    f: PyFunctionView,
) -> bool {
    f == PyFunctionView {
        name: renamed(s, item.sig.ident@),
        parameters: params,
        ret,
        doc: join(documents(item.attrs@), seq!['\n']),
        module: None,
        is_async: item.sig.is_async,
        deprecated: deprecated_of(item.attrs@),
        type_ignored: ti,
        is_overload: false,
        index: 0,
    }
}

/// Whether `r` is what a Rust function gives once the head (see
/// [`function_head`]) is read without error: for some arguments whose
/// views are the head's, the parameters formed from them, or their error.
pub open spec fn function_result(item: ImplItemFn, r: Result<PyFunctionInfo, ParseError>) -> bool {
    let (ti, argv, ret, s) = function_head(item)->Ok_0;
    exists|args: Seq<ArgInfo>|
        args.map_values(|a: ArgInfo| a@) == argv && match (r, #[trigger] function_params(args, s)) {
            (Ok(f), Ok(p)) => function_made(item, ti, ret, s, p, f@),
            (Err(e), Err(g)) => same_error(e, g),
            _ => false,
        }
}

impl PyFunctionInfo {
    /// The function that a Rust function describes.
    pub fn try_from(item: &ImplItemFn) -> (r: Result<PyFunctionInfo, ParseError>)
        requires
            pyo3_attrs_defined(item.attrs@),
            !(args_from(item.sig.inputs@, 0) is Panic),
        ensures
            function_head(*item) is Err ==> (r matches Err(x) && same_error(
                x,
                function_head(*item)->Err_0,
            )),
            function_head(*item) is Ok ==> function_result(*item, r),
    {
        let attrs = &item.attrs;
        let doc = doc_string(attrs);
        let deprecated = extract_deprecated(attrs);
        let type_ignored = type_ignore_of(attrs)?;
        let args = parse_args(&item.sig.inputs)?;
        let ret = extract_return_type(&item.sig.output, attrs)?;
        let pyo3 = parse_pyo3_attrs(attrs)?;
        let ghost s = pyo3@.map_values(|a: Attr| a@);
        let name = crate::member::name_of_attrs(&pyo3, &item.sig.ident);
        proof {
            lemma_last_tagged_bounds(s, AttrTag::Signature, pyo3.len() as nat);
        }
        assert(function_params(args@, s) == function_params(args@, s));
        let parameters = match last_of(&pyo3, AttrTag::Signature) {
            Some(k) => {
                assert(s[k as int] == pyo3@[k as int]@);
                match &pyo3[k] {
                    Attr::Signature(sig) => {
                        assert(sig@ == s[k as int]->Signature_0);
                        match Parameters::new_with_sig(&args, sig) {
                            Ok(p) => {
                                assert(function_params(args@, s) == Ok::<Seq<ParameterView>, ParseError>(p@));
                                p
                            },
                            Err(e) => {
                                assert(function_params(args@, s) is Err && same_error(e, function_params(args@, s)->Err_0));
                                assert(function_head(*item) == Ok::<
                                    (Option<IgnoreTargetView>, Seq<ArgInfoView>, Option<TypeOrOverrideView>, Seq<AttrView>),
                                    ParseError,
                                >((opt_ignore(type_ignored), args@.map_values(|a: ArgInfo| a@), opt_ret(ret), s)));
                                let r: Result<PyFunctionInfo, ParseError> = Err(e);
                                assert(function_result(*item, r));
                                return r;
                            },
                        }
                    },
                    _ => Parameters::new(&args),
                }
            },
            None => {
                let p = Parameters::new(&args);
                assert(p@ =~= args@.map_values(
                    |a: ArgInfo|
                        ParameterView {
                            arg: cleaned(a),
                            kind: ParameterKind::PositionalOrKeyword,
                            default: None,
                        },
                ));
                assert(function_params(args@, s) == Ok::<Seq<ParameterView>, ParseError>(p@));
                p
            },
        };
        let f = PyFunctionInfo {
            name,
            parameters,
            ret,
            doc,
            module: None,
            is_async: item.sig.is_async,
            deprecated,
            type_ignored,
            is_overload: false,
            index: 0,
        };
        assert(function_head(*item) == Ok::<
            (Option<IgnoreTargetView>, Seq<ArgInfoView>, Option<TypeOrOverrideView>, Seq<AttrView>),
            ParseError,
        >((opt_ignore(f.type_ignored), args@.map_values(|a: ArgInfo| a@), opt_ret(f.ret), s)));
        assert(function_made(*item, opt_ignore(f.type_ignored), opt_ret(f.ret), s, f.parameters@, f@));
        let r: Result<PyFunctionInfo, ParseError> = Ok(f);
        assert(match (r, function_params(args@, s)) {
            (Ok(f), Ok(p)) => function_made(*item, opt_ignore(f.type_ignored), opt_ret(f.ret), s, p, f@),
            (Err(e), Err(g)) => same_error(e, g),
            _ => false,
        });
        assert(function_result(*item, r));
        r
    }
}

/// The settings of `#[gen_stub_pyfunction(...)]`: the module, a Python
/// stub for the function, Python stubs of its overloads, and whether the
/// Rust signature is left out of the overloads. The stubs are kept as the
/// values of their string literals.
#[derive(Debug, PartialEq, Eq)]
pub struct PyFunctionAttr {
    pub module: Option<String>,
    pub python: Option<String>,
    pub python_overload: Option<String>,
    pub no_default_overload: bool,
}

pub struct PyFunctionAttrView {
    pub module: Option<Seq<char>>,
    pub python: Option<Seq<char>>,
    pub python_overload: Option<Seq<char>>,
    pub no_default_overload: bool,
}

impl View for PyFunctionAttr {
    type V = PyFunctionAttrView;

    open spec fn view(&self) -> PyFunctionAttrView {
        PyFunctionAttrView {
            module: opt_view(self.module),
            python: opt_view(self.python),
            python_overload: opt_view(self.python_overload),
            no_default_overload: self.no_default_overload,
        }
    }
}

/// The value of the string literal at index `i`, if the token there is one.
pub open spec fn str_lit_at(v: Vec<TokenTree>, i: int) -> Option<Seq<char>> {
    if 0 <= i < v.len() {
        match v[i] {
            TokenTree::Literal(l) => string_literal_value(l@),
            _ => None,
        }
    } else {
        None
    }
}

/// The value of the `true` or `false` at index `i`, if the token there is
/// one.
pub open spec fn bool_lit_at(v: Vec<TokenTree>, i: int) -> Option<bool> {
    if 0 <= i < v.len() {
        match v[i] {
            TokenTree::Ident(s) => if s@ == "true"@ {
                Some(true)
            } else if s@ == "false"@ {
                Some(false)
            } else {
                None
            },
            _ => None,
        }
    } else {
        None
    }
}

/// Whether the token at index `i` is `=`.
pub open spec fn eq_at(v: Vec<TokenTree>, i: int) -> bool {
    0 <= i < v.len() && is_punct(v[i], '=')
}

/// The settings read from the `key = value` pairs from index `i` on,
/// starting from `st`. A later pair overrides an earlier one of the same
/// key; an unknown key is an error; anything else out of place is a syntax
/// error.
pub open spec fn fn_attr_from(v: Vec<TokenTree>, i: int, st: PyFunctionAttrView) -> Result<
    PyFunctionAttrView,
    ParseError,
>
    decreases v.len() - i,
{
    if i < 0 || i >= v.len() {
        Ok(st)
    } else {
        match v[i] {
            TokenTree::Ident(k) => if !rust_ident_accepted(k@) {
                Err(ParseError::Syntax)
            } else {
                let next: Result<PyFunctionAttrView, ParseError> = if k@ == "module"@ || k@
                    == "python"@ || k@ == "python_overload"@ {
                    if !eq_at(v, i + 1) {
                        Err(ParseError::Syntax)
                    } else {
                        match str_lit_at(v, i + 2) {
                            None => Err(ParseError::Syntax),
                            Some(s) => Ok(
                                if k@ == "module"@ {
                                    PyFunctionAttrView { module: Some(s), ..st }
                                } else if k@ == "python"@ {
                                    PyFunctionAttrView { python: Some(s), ..st }
                                } else {
                                    PyFunctionAttrView { python_overload: Some(s), ..st }
                                },
                            ),
                        }
                    }
                } else if k@ == "no_default_overload"@ {
                    if !eq_at(v, i + 1) {
                        Err(ParseError::Syntax)
                    } else {
                        match bool_lit_at(v, i + 2) {
                            None => Err(ParseError::Syntax),
                            Some(b) => Ok(PyFunctionAttrView { no_default_overload: b, ..st }),
                        }
                    }
                } else {
                    Err(ParseError::UnknownParameter(k))
                };
                match next {
                    Err(e) => Err(e),
                    Ok(st2) => if i + 3 >= v.len() {
                        Ok(st2)
                    } else if is_punct(v[i + 3], ',') {
                        fn_attr_from(v, i + 4, st2)
                    } else {
                        Err(ParseError::Syntax)
                    },
                }
            },
            _ => Err(ParseError::Syntax),
        }
    }
}

/// The settings of `#[gen_stub_pyfunction(...)]` read from its tokens,
/// then checked: `python` and `python_overload` exclude each other, and
/// `no_default_overload = true` needs `python_overload`.
pub open spec fn fn_attr_spec(v: Vec<TokenTree>) -> Result<PyFunctionAttrView, ParseError> {
    let init = PyFunctionAttrView {
        module: None,
        python: None,
        python_overload: None,
        no_default_overload: false,
    };
    match fn_attr_from(v, 0, init) {
        Err(e) => Err(e),
        Ok(a) => if a.python is Some && a.python_overload is Some {
            Err(ParseError::PythonAndOverload)
        } else if a.no_default_overload && a.python_overload is None {
            Err(ParseError::NoDefaultOverloadAlone)
        } else {
            Ok(a)
        },
    }
}

fn str_lit_exec(v: &Vec<TokenTree>, i: usize) -> (r: Option<String>)
    ensures
        opt_view(r) == str_lit_at(*v, i as int),
{
    if i < v.len() {
        match &v[i] {
            TokenTree::Literal(l) => literal_string_value(l.as_str()),
            _ => None,
        }
    } else {
        None
    }
}

fn bool_lit_exec(v: &Vec<TokenTree>, i: usize) -> (r: Option<bool>)
    ensures
        r == bool_lit_at(*v, i as int),
{
    if i < v.len() {
        match &v[i] {
            TokenTree::Ident(s) => if str_is(s.as_str(), "true") {
                proof {
                    reveal_strlit("true");
                    reveal_strlit("false");
                }
                Some(true)
            } else if str_is(s.as_str(), "false") {
                Some(false)
            } else {
                None
            },
            _ => None,
        }
    } else {
        None
    }
}

impl PyFunctionAttr {
    /// Reads the settings of `#[gen_stub_pyfunction(...)]` from its tokens
    /// (see [`fn_attr_spec`]).
    pub fn parse(v: &Vec<TokenTree>) -> (r: Result<PyFunctionAttr, ParseError>)
        ensures
            match (r, fn_attr_spec(*v)) {
                (Ok(a), Ok(b)) => a@ == b,
                (Err(e), Err(f)) => same_error(e, f),
                _ => false,
            },
    {
        let mut st = PyFunctionAttr {
            module: None,
            python: None,
            python_overload: None,
            no_default_overload: false,
        };
        let ghost init = st@;
        assert(init == PyFunctionAttrView {
            module: None,
            python: None,
            python_overload: None,
            no_default_overload: false,
        });
        proof {
            reveal_strlit("module");
            reveal_strlit("python");
            reveal_strlit("python_overload");
            reveal_strlit("no_default_overload");
        }
        let mut i: usize = 0;
        while i < v.len()
            invariant
                i <= v.len(),
                fn_attr_from(*v, 0, init) == fn_attr_from(*v, i as int, st@),
                init == (PyFunctionAttrView {
                    module: None,
                    python: None,
                    python_overload: None,
                    no_default_overload: false,
                }),
            decreases v.len() - i,
        {
            let ghost st0 = st@;
            let k = match &v[i] {
                TokenTree::Ident(k) => k,
                _ => {
                    assert(fn_attr_from(*v, i as int, st0) == Err::<PyFunctionAttrView, ParseError>(ParseError::Syntax));
                    return Err(ParseError::Syntax);
                },
            };
            if !ident_accepted(k.as_str()) {
                return Err(ParseError::Syntax);
            }
            let is_module = str_is(k.as_str(), "module");
            let is_python = str_is(k.as_str(), "python");
            let is_overload = str_is(k.as_str(), "python_overload");
            if is_module || is_python || is_overload {
                if !(i + 1 < v.len() && token_is_punct(&v[i + 1], '=')) {
                    return Err(ParseError::Syntax);
                }
                let s = match str_lit_exec(v, i + 2) {
                    Some(s) => s,
                    None => {
                        return Err(ParseError::Syntax);
                    },
                };
                if is_module {
                    st.module = Some(s);
                } else if is_python {
                    st.python = Some(s);
                } else {
                    st.python_overload = Some(s);
                }
            } else if str_is(k.as_str(), "no_default_overload") {
                if !(i + 1 < v.len() && token_is_punct(&v[i + 1], '=')) {
                    return Err(ParseError::Syntax);
                }
                match bool_lit_exec(v, i + 2) {
                    Some(b) => {
                        st.no_default_overload = b;
                    },
                    None => {
                        assert(fn_attr_from(*v, i as int, st0) == Err::<PyFunctionAttrView, ParseError>(ParseError::Syntax));
                        return Err(ParseError::Syntax);
                    },
                }
            } else {
                return Err(ParseError::UnknownParameter(k.clone()));
            }
            if v.len() - i <= 3 {
                assert(fn_attr_from(*v, i as int, st0) == Ok::<PyFunctionAttrView, ParseError>(st@));
                i = v.len();
            } else if token_is_punct(&v[i + 3], ',') {
                assert(fn_attr_from(*v, i as int, st0) == fn_attr_from(*v, i + 4, st@));
                i = i + 4;
            } else {
                assert(fn_attr_from(*v, i as int, st0) == Err::<PyFunctionAttrView, ParseError>(ParseError::Syntax));
                return Err(ParseError::Syntax);
            }
        }
        assert(fn_attr_from(*v, i as int, st@) == Ok::<PyFunctionAttrView, ParseError>(st@));
        if st.python.is_some() && st.python_overload.is_some() {
            return Err(ParseError::PythonAndOverload);
        }
        if st.no_default_overload && st.python_overload.is_none() {
            return Err(ParseError::NoDefaultOverloadAlone);
        }
        Ok(st)
    }
}

/// Removes the `#[gen_stub(...)]` attributes of a function and of its
/// typed arguments, which are not valid once the function is printed back.
pub fn prune_attrs(item_fn: &mut ImplItemFn)
    ensures
        final(item_fn).attrs@ == crate::attr::without_gen_stub(old(item_fn).attrs@),
        crate::pymethods::args_pruned(old(item_fn).sig.inputs@, final(item_fn).sig.inputs@),
        final(item_fn).sig.ident == old(item_fn).sig.ident,
        final(item_fn).sig.output == old(item_fn).sig.output,
        final(item_fn).sig.is_async == old(item_fn).sig.is_async,
{
    crate::pymethods::prune_fn_attrs(item_fn);
}

/// `f` placed in module `m` as the entry of index `index`, marked as an
/// overload or not.
pub open spec fn placed(f: PyFunctionView, m: Option<Seq<char>>, is_overload: bool, index: nat) -> PyFunctionView {
    PyFunctionView {
        name: f.name,
        parameters: f.parameters,
        ret: f.ret,
        doc: f.doc,
        module: m,
        is_async: f.is_async,
        deprecated: f.deprecated,
        type_ignored: f.type_ignored,
        is_overload,
        index,
    }
}

/// The entries that `#[gen_stub_pyfunction]` registers for a function whose
/// Rust signature gives `base`, given the settings of the attribute and
/// the parsed statements of its Python stub:
/// - with `python`, the one function of the stub, in place of `base`;
/// - with `python_overload`, the overloads of the stub (named as `base`),
///   numbered from 0, then `base` itself marked as an overload and numbered
///   after them, unless `no_default_overload` is set;
/// - otherwise `base` alone.
/// Every entry is in the module of the attribute.
pub open spec fn infos_spec(base: PyFunctionView, attr: PyFunctionAttrView, stmts: Seq<PyStmt>) -> Result<
    Seq<PyFunctionView>,
    ParseError,
> {
    if attr.python is Some {
        match function_stub_spec(stmts) {
            Err(e) => Err(e),
            Ok(f) => Ok(seq![placed(f, attr.module, f.is_overload, 0)]),
        }
    } else if attr.python_overload is Some {
        match overloads_spec(stmts, base.name) {
            Err(e) => Err(e),
            Ok(os) => {
                let numbered = Seq::new(os.len(), |k: int| placed(os[k], attr.module, true, k as nat));
                if attr.no_default_overload {
                    Ok(numbered)
                } else {
                    Ok(numbered.push(placed(base, attr.module, true, os.len())))
                }
            },
        }
    } else {
        Ok(seq![placed(base, attr.module, false, 0)])
    }
}

fn place(f: PyFunctionInfo, module: &Option<String>, is_overload: bool, index: usize) -> (r: PyFunctionInfo)
    ensures
        r@ == placed(f@, opt_view(*module), is_overload, index as nat),
{
    let mut f = f;
    f.module = module.clone();
    f.is_overload = is_overload;
    f.index = index;
    f
}

/// The entries of one function (see [`infos_spec`]).
pub fn assemble_infos(base: PyFunctionInfo, attr: &PyFunctionAttr, stmts: &Vec<PyStmt>) -> (r: Result<
    Vec<PyFunctionInfo>,
    ParseError,
>)
    ensures
        match (r, infos_spec(base@, attr@, stmts@)) {
            (Ok(a), Ok(b)) => a@.map_values(|f: PyFunctionInfo| f@) == b,
            (Err(x), Err(y)) => same_error(x, y),
            _ => false,
        },
{
    let mut out: Vec<PyFunctionInfo> = Vec::new();
    if attr.python.is_some() {
        let f = function_stub_from_statements(stmts)?;
        let ov = f.is_overload;
        out.push(place(f, &attr.module, ov, 0));
        assert(out@.map_values(|f: PyFunctionInfo| f@) =~= infos_spec(base@, attr@, stmts@)->Ok_0);
        return Ok(out);
    }
    if attr.python_overload.is_none() {
        out.push(place(base, &attr.module, false, 0));
        assert(out@.map_values(|f: PyFunctionInfo| f@) =~= infos_spec(base@, attr@, stmts@)->Ok_0);
        return Ok(out);
    }
    let mut os = overload_stubs_from_statements(stmts, base.name.as_str())?;
    let ghost ov = os@.map_values(|f: PyFunctionInfo| f@);
    let ghost m = opt_view(attr.module);
    let n = os.len();
    let mut i: usize = 0;
    assert(ov.subrange(0, n as int) =~= ov);
    assert(out@.map_values(|f: PyFunctionInfo| f@) =~= Seq::new(
        0,
        |k: int| placed(ov[k], m, true, k as nat),
    ));
    while i < n
        invariant
            i <= n,
            n == ov.len(),
            os.len() == n - i,
            os@.map_values(|f: PyFunctionInfo| f@) == ov.subrange(i as int, n as int),
            out@.map_values(|f: PyFunctionInfo| f@) == Seq::new(
                i as nat,
                |k: int| placed(ov[k], m, true, k as nat),
            ),
            m == opt_view(attr.module),
        decreases n - i,
    {
        let ghost before = out@.map_values(|f: PyFunctionInfo| f@);
        let ghost pre = os@;
        assert(pre.map_values(|f: PyFunctionInfo| f@)[0] == ov[i as int]);
        let f = os.remove(0);
        assert(f@ == ov[i as int]);
        assert forall|k: int| 0 <= k < os.len() implies #[trigger] os@[k] == pre[k + 1] by {
            assert(os@ == pre.remove(0));
        }
        assert forall|k: int| 0 <= k < os.len() implies (#[trigger] os@[k])@ == ov[i + 1 + k] by {
            assert(pre.map_values(|f: PyFunctionInfo| f@)[k + 1] == ov.subrange(i as int, n as int)[k
                + 1]);
        }
        assert(os@.map_values(|f: PyFunctionInfo| f@) =~= ov.subrange(i + 1, n as int));
        let placed_f = place(f, &attr.module, true, i);
        out.push(placed_f);
        assert(out@.map_values(|f: PyFunctionInfo| f@) =~= before.push(placed(ov[i as int], m, true, i as nat)));
        assert(out@.map_values(|f: PyFunctionInfo| f@) =~= Seq::new(
            (i + 1) as nat,
            |k: int| placed(ov[k], m, true, k as nat),
        ));
        i = i + 1;
    }
    if !attr.no_default_overload {
        let ghost before = out@.map_values(|f: PyFunctionInfo| f@);
        out.push(place(base, &attr.module, true, n));
        assert(out@.map_values(|f: PyFunctionInfo| f@) =~= before.push(placed(base@, m, true, n as nat)));
    }
    Ok(out)
}

/// The entries of a function whose Rust signature gives `base`, with the
/// stub of the attribute (`python`, else `python_overload`) read from its
/// text (see [`on_stub_text`] and [`infos_spec`]); a function without stub
/// as [`infos_spec`] says of no statements.
pub open spec fn infos_text_spec(base: PyFunctionView, attr: PyFunctionAttrView) -> Option<
    Result<Seq<PyFunctionView>, ParseError>,
> {
    match (attr.python, attr.python_overload) {
        (Some(t), _) => on_stub_text(t, |s: Seq<PyStmt>| infos_spec(base, attr, s)),
        (None, Some(t)) => on_stub_text(t, |s: Seq<PyStmt>| infos_spec(base, attr, s)),
        (None, None) => Some(infos_spec(base, attr, Seq::empty())),
    }
}

/// Whether the stub texts of the attribute can be measured in bytes.
pub open spec fn attr_texts_sized(attr: PyFunctionAttrView) -> bool {
    &&& attr.python matches Some(t) ==> utf8_size(t) <= usize::MAX
    &&& attr.python_overload matches Some(t) ==> utf8_size(t) <= usize::MAX
}

/// The entries of one function with its stub read from the attribute's
/// text (see [`infos_text_spec`]); `None` where dedenting the stub would
/// cut a character.
pub fn assemble_infos_from_text(base: PyFunctionInfo, attr: &PyFunctionAttr) -> (r: Option<
    Result<Vec<PyFunctionInfo>, ParseError>,
>)
    requires
        attr_texts_sized(attr@),
    ensures
        match (r, infos_text_spec(base@, attr@)) {
            (None, None) => true,
            (Some(Ok(a)), Some(Ok(b))) => a@.map_values(|f: PyFunctionInfo| f@) == b,
            (Some(Err(x)), Some(Err(y))) => same_error(x, y),
            _ => false,
        },
{
    let text = match &attr.python {
        Some(t) => Some(t),
        None => attr.python_overload.as_ref(),
    };
    match text {
        None => {
            let empty: Vec<PyStmt> = Vec::new();
            assert(empty@ =~= Seq::<PyStmt>::empty());
            Some(assemble_infos(base, attr, &empty))
        },
        Some(t) => match read_stub(t.as_str()) {
            None => None,
            Some(Err(e)) => Some(Err(e)),
            Some(Ok(stmts)) => Some(assemble_infos(base, attr, &stmts)),
        },
    }
}

/// Whether `r` is what placing the outcome `b` of a Rust function gives
/// (see [`infos_text_spec`]): `b`'s error, or the entries placed from it.
pub open spec fn infos_result(
    b: Result<PyFunctionInfo, ParseError>,
    attr: PyFunctionAttr,
    r: Option<Result<PyFunctionInfos, ParseError>>,
) -> bool {
    match b {
        Err(e) => r == Some(Err::<PyFunctionInfos, ParseError>(e)),
        Ok(f) => match (r, infos_text_spec(f@, attr@)) {
            (None, None) => true,
            (Some(Ok(a)), Some(Ok(v))) => a.infos@.map_values(|x: PyFunctionInfo| x@) == v,
            (Some(Err(x)), Some(Err(y))) => same_error(x, y),
            _ => false,
        },
    }
}

/// The entries that `#[gen_stub_pyfunction]` registers for a Rust function:
/// the function read as [`PyFunctionInfo::try_from`] says, then placed as
/// [`infos_text_spec`] says with the settings of the attribute.
#[derive(Debug)]
pub struct PyFunctionInfos {
    pub infos: Vec<PyFunctionInfo>,
}

impl PyFunctionInfos {
    /// The entries of a Rust function with its attribute's settings; an
    /// error of the Rust function comes first. `None` where dedenting the
    /// attribute's stub would cut a character.
    pub fn from_parts(item: &ImplItemFn, attr: &PyFunctionAttr) -> (r: Option<Result<Self, ParseError>>)
        requires
            pyo3_attrs_defined(item.attrs@),
            !(args_from(item.sig.inputs@, 0) is Panic),
            attr_texts_sized(attr@),
        ensures
            function_head(*item) is Err ==> (r matches Some(Err(x)) && same_error(
                x,
                function_head(*item)->Err_0,
            )),
            function_head(*item) is Ok ==> exists|b: Result<PyFunctionInfo, ParseError>|
                #[trigger] function_result(*item, b) && infos_result(b, *attr, r),
    {
        let b = PyFunctionInfo::try_from(item);
        let ghost bg = b;
        match b {
            Err(e) => Some(Err(e)),
            Ok(f) => {
                let r = match assemble_infos_from_text(f, attr) {
                    None => None,
                    Some(Ok(infos)) => Some(Ok(PyFunctionInfos { infos })),
                    Some(Err(e)) => Some(Err(e)),
                };
                assert(function_head(*item) is Ok ==> function_result(*item, bg));
                r
            },
        }
    }
}

} // verus!
