//! Methods of `#[pymethods]` blocks.

use vstd::prelude::*;
use crate::arg::{
    args_from, extract_return_type, parse_args, return_type_spec, ArgInfo, ArgInfoView,
    TypeOrOverride, TypeOrOverrideView,
};
use crate::attr::{
    deprecated_of, doc_string, documents, extract_deprecated, parse_pyo3_attrs, pyo3_attrs_defined,
    pyo3_attrs_spec, Attr, AttrView, DeprecatedInfo, DeprecatedView, Attribute,
};
use crate::attr_query::{last_of, last_tagged, lemma_last_tagged_bounds, AttrTag};
use crate::gen_stub_attr::{
    first_ignore, gen_stub_attrs_spec, parse_gen_stub_type_ignore, AttributeLocation, IgnoreTarget,
    IgnoreTargetView,
};
use crate::imports::{clone_import_set, clone_strings, import_items};
use crate::item::{FnSignature, ImplItemFn};
use crate::member::{name_of_attrs, opt_deprecated, renamed};
use crate::parse::{same_error, same_result, ParseError, Parsed};
use crate::rust_type::{replace_self_type, replaced, RustType, TypeView};
use crate::signature::{Signature, SignatureArg, SignatureArgView};
use crate::text::{join, str_is};

verus! {

/// How Python calls a method.
#[derive(Debug, Clone, Copy, PartialEq, Eq, Structural)]
pub enum MethodType {
    Instance,
    Static,
    Class,
    New,
}

/// A method as a stub shows it.
#[derive(Debug)]
pub struct MethodInfo {
    pub name: String,
    pub args: Vec<ArgInfo>,
    pub sig: Option<Signature>,
    pub ret: Option<TypeOrOverride>,
    pub doc: String,
    pub ty: MethodType,
    pub is_async: bool,
    pub deprecated: Option<DeprecatedInfo>,
    pub type_ignored: Option<IgnoreTarget>,
}

pub struct MethodView {
    pub name: Seq<char>,
    pub args: Seq<ArgInfoView>,
    pub sig: Option<Seq<SignatureArgView>>,
    pub ret: Option<TypeOrOverrideView>,
    pub doc: Seq<char>,
    pub ty: MethodType,
    pub is_async: bool,
    pub deprecated: Option<DeprecatedView>,
    pub type_ignored: Option<IgnoreTargetView>,
}

pub open spec fn opt_sig(o: Option<Signature>) -> Option<Seq<SignatureArgView>> {
    match o {
        Some(s) => Some(s@),
        None => None,
    }
}

pub open spec fn opt_ret(o: Option<TypeOrOverride>) -> Option<TypeOrOverrideView> {
    match o {
        Some(t) => Some(t@),
        None => None,
    }
}

pub open spec fn opt_ignore(o: Option<IgnoreTarget>) -> Option<IgnoreTargetView> {
    match o {
        Some(t) => Some(t@),
        None => None,
    }
}

impl View for MethodInfo {
    type V = MethodView;

    open spec fn view(&self) -> MethodView {
        MethodView {
            name: self.name@,
            args: self.args@.map_values(|a: ArgInfo| a@),
            sig: opt_sig(self.sig),
            ret: opt_ret(self.ret),
            doc: self.doc@,
            ty: self.ty,
            is_async: self.is_async,
            deprecated: opt_deprecated(self.deprecated),
            type_ignored: opt_ignore(self.type_ignored),
        }
    }
}

/// The type-checker rules that an item ignores (see
/// [`parse_gen_stub_type_ignore`]).
pub open spec fn ignore_spec(attrs: Seq<Attribute>) -> Result<Option<IgnoreTargetView>, ParseError> {
    match gen_stub_attrs_spec(attrs, AttributeLocation::Function, Seq::empty()) {
        Err(e) => Err(e),
        Ok(s) => match first_ignore(s) {
            Some(b) => Ok(Some(b)),
            None => match gen_stub_attrs_spec(attrs, AttributeLocation::Field, Seq::empty()) {
                Err(e) => Err(e),
                Ok(t) => Ok(first_ignore(t)),
            },
        },
    }
}

pub fn type_ignore_of(attrs: &Vec<Attribute>) -> (r: Result<Option<IgnoreTarget>, ParseError>)
    ensures
        match (r, ignore_spec(attrs@)) {
            (Ok(a), Ok(b)) => opt_ignore(a) == b,
            (Err(e), Err(f)) => same_error(e, f),
            _ => false,
        },
{
    parse_gen_stub_type_ignore(attrs)
}

/// The kind of a method: set by the last of `#[staticmethod]`,
/// `#[classmethod]` and `#[new]` among the first `n` settings; an instance
/// method when there is none.
pub open spec fn method_kind(s: Seq<AttrView>, n: nat) -> MethodType
    decreases n,
{
    if n == 0 || n > s.len() {
        MethodType::Instance
    } else {
        match s[n - 1] {
            AttrView::StaticMethod => MethodType::Static,
            AttrView::ClassMethod => MethodType::Class,
            AttrView::New => MethodType::New,
            _ => method_kind(s, (n - 1) as nat),
        }
    }
}

fn method_kind_exec(v: &Vec<Attr>) -> (r: MethodType)
    ensures
        r == method_kind(v@.map_values(|a: Attr| a@), v.len() as nat),
{
    let ghost s = v@.map_values(|a: Attr| a@);
    let mut k = MethodType::Instance;
    let mut i: usize = 0;
    while i < v.len()
        invariant
            i <= v.len(),
            s == v@.map_values(|a: Attr| a@),
            k == method_kind(s, i as nat),
        decreases v.len() - i,
    {
        assert(s[i as int] == v@[i as int]@);
        match &v[i] {
            Attr::StaticMethod => {
                k = MethodType::Static;
            },
            Attr::ClassMethod => {
                k = MethodType::Class;
            },
            Attr::New => {
                k = MethodType::New;
            },
            _ => {},
        }
        i = i + 1;
    }
    k
}

/// The signature that PyO3 gives a power operator: `(exponent, modulo=None)`
/// for `__pow__`, `(base, modulo=None)` for `__rpow__`.
pub open spec fn operator_signature(name: Seq<char>) -> Option<Seq<SignatureArgView>> {
    if name == "__pow__"@ {
        Some(seq![SignatureArgView::Ident("exponent"@), SignatureArgView::Assign("modulo"@, "None"@)])
    } else if name == "__rpow__"@ {
        Some(seq![SignatureArgView::Ident("base"@), SignatureArgView::Assign("modulo"@, "None"@)])
    } else {
        None
    }
}

impl Signature {
    /// The signature that PyO3 gives a power operator (see
    /// [`operator_signature`]); `None` for any other method.
    pub fn overriding_operator(sig: &FnSignature) -> (r: Option<Signature>)
        ensures
            opt_sig(r) == operator_signature(sig.ident@),
    {
        let first = if str_is(sig.ident.as_str(), "__pow__") {
            String::from_str("exponent")
        } else if str_is(sig.ident.as_str(), "__rpow__") {
            String::from_str("base")
        } else {
            return None;
        };
        let mut args: Vec<SignatureArg> = Vec::new();
        args.push(SignatureArg::Ident(first));
        args.push(SignatureArg::Assign(String::from_str("modulo"), String::from_str("None")));
        proof {
            reveal_strlit("__pow__");
            reveal_strlit("__rpow__");
        }
        let r = Signature { args };
        assert(r@ =~= operator_signature(sig.ident@)->0);
        Some(r)
    }
}

/// The signature of a method: the last `#[pyo3(signature = ...)]`, else
/// the one PyO3 gives a power operator.
pub open spec fn method_signature(s: Seq<AttrView>, name: Seq<char>) -> Option<Seq<SignatureArgView>> {
    match last_tagged(s, AttrTag::Signature, s.len()) {
        Some(k) => Some(s[k]->Signature_0),
        None => operator_signature(name),
    }
}

/// The method that a function of a `#[pymethods]` block describes. Errors
/// come in this order: the `type_ignore` setting, PyO3's attributes, the
/// return type, the arguments.
pub open spec fn method_spec(item: ImplItemFn) -> Result<MethodView, ParseError> {
    let attrs = item.attrs@;
    match ignore_spec(attrs) {
        Err(e) => Err(e),
        Ok(ti) => match pyo3_attrs_spec(attrs) {
            Parsed::Error(e) => Err(e),
            Parsed::Panic => Err(ParseError::Syntax),
            Parsed::Value(s) => match return_type_spec(item.sig.output, attrs) {
                Err(e) => Err(e),
                Ok(ret) => match args_from(item.sig.inputs@, 0) {
                    Parsed::Error(e) => Err(e),
                    Parsed::Panic => Err(ParseError::Syntax),
                    Parsed::Value(args) => {
                        let mt = method_kind(s, s.len());
                        Ok(
                            MethodView {
                                name: if mt == MethodType::New {
                                    "__new__"@
                                } else {
                                    renamed(s, item.sig.ident@)
                                },
                                args,
                                sig: method_signature(s, item.sig.ident@),
                                ret,
                                doc: join(documents(attrs), seq!['\n']),
                                ty: mt,
                                is_async: item.sig.is_async,
                                deprecated: deprecated_of(attrs),
                                type_ignored: ti,
                            },
                        )
                    },
                },
            },
        },
    }
}

fn take_signature(v: Vec<Attr>, k: usize) -> (r: Option<Signature>)
    requires
        k < v.len(),
        v@[k as int] is Signature,
    ensures
        opt_sig(r) == Some(v@.map_values(|a: Attr| a@)[k as int]->Signature_0),
{
    let mut v = v;
    let ghost before = v@;
    match v.swap_remove(k) {
        Attr::Signature(s) => Some(s),
        _ => None,
    }
}

/// An argument with `Self` replaced in its type (see [`replaced`]).
pub open spec fn arg_self_replaced(a: ArgInfo, s: TypeView) -> ArgInfoView {
    ArgInfoView { name: a.name@, ty: type_self_replaced(a.ty, s) }
}

/// A type or override with `Self` replaced in the type it is built on.
pub open spec fn type_self_replaced(t: TypeOrOverride, s: TypeView) -> TypeOrOverrideView {
    match t {
        TypeOrOverride::RustType { ty } => TypeOrOverrideView::RustType(replaced(ty, s)),
        TypeOrOverride::OverrideType { ty, type_repr, imports, rust_type_markers } =>
            TypeOrOverrideView::OverrideType(
            replaced(ty, s),
            type_repr@,
            import_items(imports),
            rust_type_markers@.map_values(|m: String| m@),
        ),
    }
}

pub fn replace_self_in(t: &TypeOrOverride, self_ty: &RustType) -> (r: TypeOrOverride)
    ensures
        r@ == type_self_replaced(*t, self_ty@),
{
    match t {
        TypeOrOverride::RustType { ty } => TypeOrOverride::RustType {
            ty: replace_self_type(ty, self_ty),
        },
        TypeOrOverride::OverrideType { ty, type_repr, imports, rust_type_markers } => {
            TypeOrOverride::OverrideType {
                ty: replace_self_type(ty, self_ty),
                type_repr: type_repr.clone(),
                imports: clone_import_set(imports),
                rust_type_markers: clone_strings(rust_type_markers),
            }
        },
    }
}

/// A type view with `Self` replaced (see [`replaced`], which depends on a
/// type only through its view).
pub open spec fn replaced_in_view(tv: TypeView, s: TypeView) -> TypeView {
    replaced(choose|t: RustType| t@ == tv, s)
}

pub proof fn lemma_replaced_in_view(t: RustType, s: TypeView)
    ensures
        replaced(t, s) == replaced_in_view(t@, s),
{
    let c = choose|c: RustType| c@ == t@;
    crate::rust_type::lemma_view_determines(t, c, s);
}

/// A type or override with `Self` replaced in the type it is built on.
pub open spec fn self_replaced(t: TypeOrOverrideView, s: TypeView) -> TypeOrOverrideView {
    match t {
        TypeOrOverrideView::RustType(tv) => TypeOrOverrideView::RustType(replaced_in_view(tv, s)),
        TypeOrOverrideView::OverrideType(tv, r, i, m) => TypeOrOverrideView::OverrideType(
            replaced_in_view(tv, s),
            r,
            i,
            m,
        ),
    }
}

/// A method with `Self` replaced by `s` in the types of its arguments and
/// return value.
pub open spec fn method_self_replaced(m: MethodView, s: TypeView) -> MethodView {
    MethodView {
        args: m.args.map_values(|a: ArgInfoView| ArgInfoView { name: a.name, ty: self_replaced(a.ty, s) }),
        ret: match m.ret {
            Some(t) => Some(self_replaced(t, s)),
            None => None,
        },
        ..m
    }
}

proof fn lemma_type_self_replaced(t: TypeOrOverride, s: TypeView)
    ensures
        type_self_replaced(t, s) == self_replaced(t@, s),
{
    match t {
        TypeOrOverride::RustType { ty } => lemma_replaced_in_view(ty, s),
        TypeOrOverride::OverrideType { ty, .. } => lemma_replaced_in_view(ty, s),
    }
}

impl MethodInfo {
    /// The method that a function of a `#[pymethods]` block describes (see
    /// [`method_spec`]): named `__new__` for a constructor, else by the
    /// last `#[pyo3(name = "...")]`, else by the function.
    pub fn try_from(item: &ImplItemFn) -> (r: Result<MethodInfo, ParseError>)
        requires
            pyo3_attrs_defined(item.attrs@),
            !(args_from(item.sig.inputs@, 0) is Panic),
        ensures
            match (r, method_spec(*item)) {
                (Ok(a), Ok(b)) => a@ == b,
                (Err(e), Err(f)) => same_error(e, f),
                _ => false,
            },
    {
        let attrs = &item.attrs;
        let doc = doc_string(attrs);
        let deprecated = extract_deprecated(attrs);
        let type_ignored = type_ignore_of(attrs)?;
        let pyo3 = parse_pyo3_attrs(attrs)?;
        let ghost s = pyo3@.map_values(|a: Attr| a@);
        let sig = match last_of(&pyo3, AttrTag::Signature) {
            Some(k) => {
                proof {
                    lemma_last_tagged_bounds(s, AttrTag::Signature, pyo3.len() as nat);
                }
                assert(s[k as int] == pyo3@[k as int]@);
                let name = name_of_attrs(&pyo3, &item.sig.ident);
                let mt = method_kind_exec(&pyo3);
                let ret = extract_return_type(&item.sig.output, attrs)?;
                let args = parse_args(&item.sig.inputs)?;
                let name = if mt == MethodType::New {
                    String::from_str("__new__")
                } else {
                    name
                };
                proof {
                    reveal_strlit("__new__");
                }
                let sig = take_signature(pyo3, k);
                return Ok(
                    MethodInfo {
                        name,
                        args,
                        sig,
                        ret,
                        doc,
                        ty: mt,
                        is_async: item.sig.is_async,
                        deprecated,
                        type_ignored,
                    },
                );
            },
            None => Signature::overriding_operator(&item.sig),
        };
        let name = name_of_attrs(&pyo3, &item.sig.ident);
        let mt = method_kind_exec(&pyo3);
        let ret = extract_return_type(&item.sig.output, attrs)?;
        let args = parse_args(&item.sig.inputs)?;
        let name = if mt == MethodType::New {
            String::from_str("__new__")
        } else {
            name
        };
        proof {
            reveal_strlit("__new__");
        }
        Ok(
            MethodInfo {
                name,
                args,
                sig,
                ret,
                doc,
                ty: mt,
                is_async: item.sig.is_async,
                deprecated,
                type_ignored,
            },
        )
    }

    /// Replaces `Self` by `self_ty` in the types of the arguments and of
    /// the return value (see [`replaced`]).
    pub fn replace_self(&mut self, self_ty: &RustType)
        ensures
            final(self)@ == (MethodView {
                args: old(self).args@.map_values(|a: ArgInfo| arg_self_replaced(a, self_ty@)),
                ret: match old(self).ret {
                    Some(t) => Some(type_self_replaced(t, self_ty@)),
                    None => None,
                },
                ..old(self)@
            }),
            final(self)@ == method_self_replaced(old(self)@, self_ty@),
    {
        let mut args: Vec<ArgInfo> = Vec::new();
        let mut i: usize = 0;
        while i < self.args.len()
            invariant
                i <= self.args.len(),
                self.args == old(self).args,
                args@.map_values(|a: ArgInfo| a@) == self.args@.subrange(0, i as int).map_values(
                    |a: ArgInfo| arg_self_replaced(a, self_ty@),
                ),
            decreases self.args.len() - i,
        {
            let a = ArgInfo {
                name: self.args[i].name.clone(),
                ty: replace_self_in(&self.args[i].ty, self_ty),
            };
            let ghost before = args@.map_values(|a: ArgInfo| a@);
            let ghost av = a@;
            args.push(a);
            assert(args@.map_values(|a: ArgInfo| a@) =~= before.push(av));
            assert(self.args@.subrange(0, i + 1).map_values(
                |a: ArgInfo| arg_self_replaced(a, self_ty@),
            ) =~= self.args@.subrange(0, i as int).map_values(
                |a: ArgInfo| arg_self_replaced(a, self_ty@),
            ).push(arg_self_replaced(self.args@[i as int], self_ty@)));
            i = i + 1;
        }
        assert(self.args@.subrange(0, self.args.len() as int) =~= self.args@);
        let ret = match &self.ret {
            Some(t) => Some(replace_self_in(t, self_ty)),
            None => None,
        };
        proof {
            let old_args = self.args@;
            assert forall|k: int| 0 <= k < old_args.len() implies #[trigger] arg_self_replaced(
                old_args[k],
                self_ty@,
            ) == (ArgInfoView { name: old_args[k]@.name, ty: self_replaced(old_args[k]@.ty, self_ty@) }) by {
                lemma_type_self_replaced(old_args[k].ty, self_ty@);
            }
            if self.ret is Some {
                lemma_type_self_replaced(self.ret->0, self_ty@);
            }
            assert(old_args.map_values(|a: ArgInfo| arg_self_replaced(a, self_ty@)) =~= old_args.map_values(
                |a: ArgInfo| a@,
            ).map_values(|a: ArgInfoView| ArgInfoView { name: a.name, ty: self_replaced(a.ty, self_ty@) }));
        }
        self.args = args;
        self.ret = ret;
    }
}

/// The constructor of a class as a stub shows it.
#[derive(Debug)]
pub struct NewInfo {
    pub args: Vec<ArgInfo>,
    pub sig: Option<Signature>,
    pub doc: String,
}

pub struct NewView {
    pub args: Seq<ArgInfoView>,
    pub sig: Option<Seq<SignatureArgView>>,
    pub doc: Seq<char>,
}

impl View for NewInfo {
    type V = NewView;

    open spec fn view(&self) -> NewView {
        NewView {
            args: self.args@.map_values(|a: ArgInfo| a@),
            sig: opt_sig(self.sig),
            doc: self.doc@,
        }
    }
}

/// The constructor that a `#[new]` function describes: its arguments, the
/// last `#[pyo3(signature = ...)]`, its documentation.
pub open spec fn new_spec(item: ImplItemFn) -> Result<NewView, ParseError> {
    match pyo3_attrs_spec(item.attrs@) {
        Parsed::Error(e) => Err(e),
        Parsed::Panic => Err(ParseError::Syntax),
        Parsed::Value(s) => match args_from(item.sig.inputs@, 0) {
            Parsed::Error(e) => Err(e),
            Parsed::Panic => Err(ParseError::Syntax),
            Parsed::Value(args) => Ok(
                NewView {
                    args,
                    sig: match last_tagged(s, AttrTag::Signature, s.len()) {
                        Some(k) => Some(s[k]->Signature_0),
                        None => None,
                    },
                    doc: join(documents(item.attrs@), seq!['\n']),
                },
            ),
        },
    }
}

impl NewInfo {
    /// Whether the function is marked `#[new]`.
    pub fn is_candidate(item: &ImplItemFn) -> (r: Result<bool, ParseError>)
        requires
            pyo3_attrs_defined(item.attrs@),
        ensures
            same_result(r, crate::member::marked(item.attrs@, AttrTag::New)),
    {
        let v = parse_pyo3_attrs(&item.attrs)?;
        Ok(crate::attr_query::has_attr(&v, AttrTag::New))
    }

    /// The constructor that a `#[new]` function describes (see
    /// [`new_spec`]).
    pub fn try_from(item: &ImplItemFn) -> (r: Result<NewInfo, ParseError>)
        requires
            pyo3_attrs_defined(item.attrs@),
            crate::member::marked(item.attrs@, AttrTag::New) is Ok ==> crate::member::marked(
                item.attrs@,
                AttrTag::New,
            ) == Ok::<bool, ParseError>(true),
            !(args_from(item.sig.inputs@, 0) is Panic),
        ensures
            match (r, new_spec(*item)) {
                (Ok(a), Ok(b)) => a@ == b,
                (Err(x), Err(y)) => same_error(x, y),
                _ => false,
            },
    {
        let doc = doc_string(&item.attrs);
        let pyo3 = parse_pyo3_attrs(&item.attrs)?;
        let ghost s = pyo3@.map_values(|a: Attr| a@);
        proof {
            lemma_last_tagged_bounds(s, AttrTag::Signature, pyo3.len() as nat);
        }
        let sig = match last_of(&pyo3, AttrTag::Signature) {
            Some(k) => {
                assert(s[k as int] == pyo3@[k as int]@);
                take_signature(pyo3, k)
            },
            None => None,
        };
        let args = parse_args(&item.sig.inputs)?;
        Ok(NewInfo { args, sig, doc })
    }
}

} // verus!
