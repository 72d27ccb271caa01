//! Members of a class: properties from getters, setters, class attributes
//! and `#[pyo3(get, set)]` fields.

use vstd::prelude::*;
use crate::arg::{
    extract_return_type, return_type_spec, FnArg, TypeOrOverride, TypeOrOverrideView,
};
use crate::attr::{
    deprecated_of, doc_string, documents, extract_deprecated, opt_view, parse_pyo3_attrs,
    pyo3_attrs_defined, pyo3_attrs_spec, Attr, AttrView, Attribute, DeprecatedInfo,
    DeprecatedView,
};
use crate::attr_query::{
    first_of, first_tagged, has_attr, has_tagged, last_of, last_tagged, tagged,
    lemma_first_tagged_bounds, lemma_last_tagged_bounds, AttrTag,
};
use crate::gen_stub_attr::{
    first_default, first_override, gen_stub_attrs_spec, parse_gen_stub_default,
    parse_gen_stub_override_type, AttributeLocation,
};
use crate::item::{Field, ImplItemConst, ImplItemFn};
use crate::parse::{same_error, same_result, ParseError, Parsed};
use crate::rust_type::{clone_type, RustType};
use crate::text::{chars_of, join, string_of};

verus! {

/// Which `PyStubType` method gives the type of a member: a getter or a
/// class attribute shows its output type, a setter its input type.
#[derive(Debug, Clone, Copy, PartialEq, Eq, Structural)]
pub enum MemberKind {
    Getter,
    Setter,
    GetSet,
}

impl MemberKind {
    /// Whether the member's type is the type that Python passes in (only
    /// for a setter).
    pub fn use_type_input(self) -> (r: bool)
        ensures
            r == (self == MemberKind::Setter),
    {
        matches!(self, MemberKind::Setter)
    }
}

/// A property or class attribute of a class. `default` holds the printed
/// tokens of the default value.
#[derive(Debug)]
pub struct MemberInfo {
    pub doc: String,
    pub name: String,
    pub ty: TypeOrOverride,
    pub default: Option<String>,
    pub deprecated: Option<DeprecatedInfo>,
    pub kind: MemberKind,
}

pub struct MemberView {
    pub doc: Seq<char>,
    pub name: Seq<char>,
    pub ty: TypeOrOverrideView,
    pub default: Option<Seq<char>>,
    pub deprecated: Option<DeprecatedView>,
    pub kind: MemberKind,
}

pub open spec fn opt_deprecated(o: Option<DeprecatedInfo>) -> Option<DeprecatedView> {
    match o {
        Some(d) => Some(d@),
        None => None,
    }
}

impl View for MemberInfo {
    type V = MemberView;

    open spec fn view(&self) -> MemberView {
        MemberView {
            doc: self.doc@,
            name: self.name@,
            ty: self.ty@,
            default: opt_view(self.default),
            deprecated: opt_deprecated(self.deprecated),
            kind: self.kind,
        }
    }
}

/// The settings read from a list of attributes, as a sequence.
pub open spec fn settings(r: Result<Vec<Attr>, ParseError>) -> Seq<AttrView> {
    match r {
        Ok(v) => v@.map_values(|a: Attr| a@),
        Err(_) => Seq::empty(),
    }
}

/// Whether the attributes mark a function of kind `t`: an error when they
/// do not parse.
pub open spec fn marked(attrs: Seq<Attribute>, t: AttrTag) -> Result<bool, ParseError> {
    match pyo3_attrs_spec(attrs) {
        Parsed::Value(s) => Ok(has_tagged(s, t)),
        Parsed::Error(e) => Err(e),
        Parsed::Panic => Err(ParseError::Syntax),
    }
}

fn is_marked(attrs: &Vec<Attribute>, t: AttrTag) -> (r: Result<bool, ParseError>)
    requires
        pyo3_attrs_defined(attrs@),
    ensures
        same_result(r, marked(attrs@, t)),
{
    let v = parse_pyo3_attrs(attrs)?;
    Ok(has_attr(&v, t))
}

/// `s` without the prefix `p`, when it starts with it.
pub open spec fn without_prefix(s: Seq<char>, p: Seq<char>) -> Seq<char> {
    if p.len() <= s.len() && s.subrange(0, p.len() as int) == p {
        s.subrange(p.len() as int, s.len() as int)
    } else {
        s
    }
}

fn strip_prefix(s: &String, p: &str) -> (r: String)
    ensures
        r@ == without_prefix(s@, p@),
{
    let sv = chars_of(s.as_str());
    let pv = chars_of(p);
    if pv.len() > sv.len() {
        return s.clone();
    }
    let mut i: usize = 0;
    while i < pv.len()
        invariant
            i <= pv.len() <= sv.len(),
            sv@ == s@,
            pv@ == p@,
            sv@.subrange(0, i as int) == pv@.subrange(0, i as int),
        decreases pv.len() - i,
    {
        if sv[i] != pv[i] {
            assert(sv@.subrange(0, pv.len() as int)[i as int] != pv@[i as int]);
            return s.clone();
        }
        assert(sv@.subrange(0, i + 1) =~= sv@.subrange(0, i as int).push(sv@[i as int]));
        assert(pv@.subrange(0, i + 1) =~= pv@.subrange(0, i as int).push(pv@[i as int]));
        i = i + 1;
    }
    assert(pv@.subrange(0, pv.len() as int) =~= pv@);
    let mut out: Vec<char> = Vec::new();
    let mut j: usize = pv.len();
    while j < sv.len()
        invariant
            pv.len() <= j <= sv.len(),
            out@ == sv@.subrange(pv.len() as int, j as int),
        decreases sv.len() - j,
    {
        out.push(sv[j]);
        assert(out@ =~= sv@.subrange(pv.len() as int, j + 1));
        j = j + 1;
    }
    string_of(&out)
}

/// The name of a getter or setter whose marker (of kind `t`) is in the
/// settings `s`: the first `#[pyo3(name = "...")]`, else the name given
/// in the marker, else the function's name without `prefix`.
pub open spec fn accessor_name(s: Seq<AttrView>, t: AttrTag, fn_name: Seq<char>, prefix: Seq<char>) -> Seq<char> {
    let ni = first_tagged(s, AttrTag::Name, 0);
    let ki = first_tagged(s, t, 0);
    if ni < s.len() {
        s[ni]->Name_0
    } else {
        match s[ki] {
            AttrView::Getter(Some(g)) => g,
            AttrView::Setter(Some(g)) => g,
            _ => without_prefix(fn_name, prefix),
        }
    }
}

fn accessor_name_exec(v: &Vec<Attr>, t: AttrTag, fn_name: &String, prefix: &str) -> (r: String)
    requires
        has_tagged(v@.map_values(|a: Attr| a@), t),
        t == AttrTag::Getter || t == AttrTag::Setter,
    ensures
        r@ == accessor_name(v@.map_values(|a: Attr| a@), t, fn_name@, prefix@),
{
    let ghost s = v@.map_values(|a: Attr| a@);
    let ni = first_of(v, AttrTag::Name);
    proof {
        lemma_first_tagged_bounds(s, AttrTag::Name, 0);
        lemma_first_tagged_bounds(s, t, 0);
    }
    if ni < v.len() {
        assert(s[ni as int] == v@[ni as int]@);
        match &v[ni] {
            Attr::Name(n) => n.clone(),
            _ => String::new(),
        }
    } else {
        let ki = first_of(v, t);
        assert(s[ki as int] == v@[ki as int]@);
        match &v[ki] {
            Attr::Getter(Some(g)) => g.clone(),
            Attr::Setter(Some(g)) => g.clone(),
            _ => strip_prefix(fn_name, prefix),
        }
    }
}

/// The member that a getter describes (see [`MemberInfo::new_getter`]).
pub open spec fn getter_spec(item: ImplItemFn) -> Result<MemberView, ParseError> {
    let attrs = item.attrs@;
    match pyo3_attrs_spec(attrs) {
        Parsed::Error(e) => Err(e),
        Parsed::Panic => Err(ParseError::Syntax),
        Parsed::Value(s) => match gen_stub_attrs_spec(attrs, AttributeLocation::Function, Seq::empty()) {
            Err(e) => Err(e),
            Ok(g) => match return_type_spec(item.sig.output, attrs) {
                Err(e) => Err(e),
                Ok(None) => Err(ParseError::GetterWithoutType),
                Ok(Some(t)) => Ok(
                    MemberView {
                        doc: join(documents(attrs), seq!['\n']),
                        name: accessor_name(s, AttrTag::Getter, item.sig.ident@, "get_"@),
                        ty: t,
                        default: first_default(g),
                        deprecated: deprecated_of(attrs),
                        kind: MemberKind::Getter,
                    },
                ),
            },
        },
    }
}

/// A getter that no `#[pyo3(name = ...)]` and no `#[getter(name)]` names is
/// named by its function's name with a leading `get_` removed: `get_x`
/// gives `x`, and a name without that prefix is kept whole.
pub proof fn law_getter_name_drops_get_prefix(item: ImplItemFn, x: Seq<char>)
    requires
        pyo3_attrs_spec(item.attrs@) matches Parsed::Value(s) && (forall|k: int|
            0 <= k < s.len() ==> !(#[trigger] s[k] is Name) && (s[k] is Getter ==> s[k]->Getter_0 is None))
            && (exists|k: int| 0 <= k < s.len() && #[trigger] s[k] is Getter),
    ensures
        getter_spec(item) matches Ok(m) ==> {
            &&& item.sig.ident@ == "get_"@ + x ==> m.name == x
            &&& !("get_"@.is_prefix_of(item.sig.ident@)) ==> m.name == item.sig.ident@
        },
{
    let s = pyo3_attrs_spec(item.attrs@)->Value_0;
    lemma_first_tagged_bounds(s, AttrTag::Name, 0);
    lemma_first_tagged_bounds(s, AttrTag::Getter, 0);
    let k = choose|k: int| 0 <= k < s.len() && #[trigger] s[k] is Getter;
    assert(tagged(s[k], AttrTag::Getter));
    let ki = first_tagged(s, AttrTag::Getter, 0);
    assert(ki < s.len());
    assert(s[ki] is Getter);
    let ni = first_tagged(s, AttrTag::Name, 0);
    if ni < s.len() {
        assert(s[ni] is Name);
    }
    reveal_strlit("get_");
    let f = item.sig.ident@;
    if f == "get_"@ + x {
        assert(f.subrange(0, 4) =~= "get_"@);
        assert(f.subrange(4, f.len() as int) =~= x);
    }
    if !("get_"@.is_prefix_of(f)) {
        if 4 <= f.len() {
            assert(f.subrange(0, 4) != "get_"@);
        }
    }
}

/// The type of the value that a setter takes: the type of its second
/// argument, overridden by that argument's first
/// `#[gen_stub(override_type(...))]`; an error when there is no such
/// typed argument.
pub open spec fn setter_type(inputs: Seq<FnArg>) -> Result<TypeOrOverrideView, ParseError> {
    if inputs.len() < 2 {
        Err(ParseError::SetterWithoutType)
    } else {
        match inputs[1] {
            FnArg::Typed(attrs, _, ty) => match gen_stub_attrs_spec(
                attrs@,
                AttributeLocation::Argument,
                Seq::empty(),
            ) {
                Err(e) => Err(e),
                Ok(g) => match first_override(g) {
                    Some(o) => Ok(
                        TypeOrOverrideView::OverrideType(ty@, o.type_repr, o.imports, Seq::empty()),
                    ),
                    None => Ok(TypeOrOverrideView::RustType(ty@)),
                },
            },
            FnArg::Receiver => Err(ParseError::SetterWithoutType),
        }
    }
}

/// The member that a setter describes (see [`MemberInfo::new_setter`]).
pub open spec fn setter_spec(item: ImplItemFn) -> Result<MemberView, ParseError> {
    let attrs = item.attrs@;
    match pyo3_attrs_spec(attrs) {
        Parsed::Error(e) => Err(e),
        Parsed::Panic => Err(ParseError::Syntax),
        Parsed::Value(s) => match gen_stub_attrs_spec(attrs, AttributeLocation::Function, Seq::empty()) {
            Err(e) => Err(e),
            Ok(g) => match setter_type(item.sig.inputs@) {
                Err(e) => Err(e),
                Ok(t) => Ok(
                    MemberView {
                        doc: join(documents(attrs), seq!['\n']),
                        name: accessor_name(s, AttrTag::Setter, item.sig.ident@, "set_"@),
                        ty: t,
                        default: first_default(g),
                        deprecated: deprecated_of(attrs),
                        kind: MemberKind::Setter,
                    },
                ),
            },
        },
    }
}

/// A setter that no `#[pyo3(name = ...)]` and no `#[setter(name)]` names is
/// named by its function's name with a leading `set_` removed: `set_x`
/// gives `x`, and a name without that prefix is kept whole.
pub proof fn law_setter_name_drops_set_prefix(item: ImplItemFn, x: Seq<char>)
    requires
        pyo3_attrs_spec(item.attrs@) matches Parsed::Value(s) && (forall|k: int|
            0 <= k < s.len() ==> !(#[trigger] s[k] is Name) && (s[k] is Setter ==> s[k]->Setter_0 is None))
            && (exists|k: int| 0 <= k < s.len() && #[trigger] s[k] is Setter),
    ensures
        setter_spec(item) matches Ok(m) ==> {
            &&& item.sig.ident@ == "set_"@ + x ==> m.name == x
            &&& !("set_"@.is_prefix_of(item.sig.ident@)) ==> m.name == item.sig.ident@
        },
{
    let s = pyo3_attrs_spec(item.attrs@)->Value_0;
    lemma_first_tagged_bounds(s, AttrTag::Name, 0);
    lemma_first_tagged_bounds(s, AttrTag::Setter, 0);
    let k = choose|k: int| 0 <= k < s.len() && #[trigger] s[k] is Setter;
    assert(tagged(s[k], AttrTag::Setter));
    let ki = first_tagged(s, AttrTag::Setter, 0);
    assert(ki < s.len());
    assert(s[ki] is Setter);
    let ni = first_tagged(s, AttrTag::Name, 0);
    if ni < s.len() {
        assert(s[ni] is Name);
    }
    reveal_strlit("set_");
    let f = item.sig.ident@;
    if f == "set_"@ + x {
        assert(f.subrange(0, 4) =~= "set_"@);
        assert(f.subrange(4, f.len() as int) =~= x);
    }
    if !("set_"@.is_prefix_of(f)) {
        if 4 <= f.len() {
            assert(f.subrange(0, 4) != "set_"@);
        }
    }
}

/// The name of a class attribute or field: the last `#[pyo3(name = "...")]`
/// among its settings, else `fallback`.
pub open spec fn renamed(s: Seq<AttrView>, fallback: Seq<char>) -> Seq<char> {
    match last_tagged(s, AttrTag::Name, s.len()) {
        Some(k) => s[k]->Name_0,
        None => fallback,
    }
}

/// The last `#[pyo3(name = "...")]` among the settings, else `fallback`.
pub fn name_of_attrs(v: &Vec<Attr>, fallback: &String) -> (r: String)
    ensures
        r@ == renamed(v@.map_values(|a: Attr| a@), fallback@),
{
    let ghost s = v@.map_values(|a: Attr| a@);
    proof {
        lemma_last_tagged_bounds(s, AttrTag::Name, v.len() as nat);
    }
    match last_of(v, AttrTag::Name) {
        Some(k) => {
            assert(s[k as int] == v@[k as int]@);
            match &v[k] {
                Attr::Name(n) => n.clone(),
                _ => fallback.clone(),
            }
        },
        None => fallback.clone(),
    }
}

/// The member that a class-attribute function describes (see
/// [`MemberInfo::new_classattr_fn`]).
pub open spec fn classattr_fn_spec(item: ImplItemFn) -> Result<MemberView, ParseError> {
    let attrs = item.attrs@;
    match pyo3_attrs_spec(attrs) {
        Parsed::Error(e) => Err(e),
        Parsed::Panic => Err(ParseError::Syntax),
        Parsed::Value(s) => match gen_stub_attrs_spec(attrs, AttributeLocation::Function, Seq::empty()) {
            Err(e) => Err(e),
            Ok(g) => match return_type_spec(item.sig.output, attrs) {
                Err(e) => Err(e),
                Ok(None) => Err(ParseError::GetterWithoutType),
                Ok(Some(t)) => Ok(
                    MemberView {
                        doc: join(documents(attrs), seq!['\n']),
                        name: renamed(s, item.sig.ident@),
                        ty: t,
                        default: first_default(g),
                        deprecated: deprecated_of(attrs),
                        kind: MemberKind::Getter,
                    },
                ),
            },
        },
    }
}

/// The member that a class-attribute constant describes (see
/// [`MemberInfo::new_classattr_const`]).
pub open spec fn classattr_const_spec(item: ImplItemConst) -> Result<MemberView, ParseError> {
    let attrs = item.attrs@;
    match pyo3_attrs_spec(attrs) {
        Parsed::Error(e) => Err(e),
        Parsed::Panic => Err(ParseError::Syntax),
        Parsed::Value(s) => Ok(
            MemberView {
                doc: join(documents(attrs), seq!['\n']),
                name: renamed(s, item.ident@),
                ty: TypeOrOverrideView::RustType(item.ty@),
                default: Some(item.expr@),
                deprecated: deprecated_of(attrs),
                kind: MemberKind::Getter,
            },
        ),
    }
}

/// The member that a field describes when its name is `ident`: named by
/// the last `#[pyo3(name = "...")]`, else `ident`.
pub open spec fn field_member(field: Field, ident: Seq<char>, kind: MemberKind) -> Result<
    MemberView,
    ParseError,
> {
    let attrs = field.attrs@;
    match pyo3_attrs_spec(attrs) {
        Parsed::Error(e) => Err(e),
        Parsed::Panic => Err(ParseError::Syntax),
        Parsed::Value(s) => match gen_stub_attrs_spec(attrs, AttributeLocation::Function, Seq::empty()) {
            Err(e) => Err(e),
            Ok(g) => Ok(
                MemberView {
                    doc: join(documents(attrs), seq!['\n']),
                    name: renamed(s, ident),
                    ty: TypeOrOverrideView::RustType(field.ty@),
                    default: first_default(g),
                    deprecated: deprecated_of(attrs),
                    kind,
                },
            ),
        },
    }
}

/// The member that a named field describes (see [`MemberInfo::from_field`]).
pub open spec fn field_spec(field: Field, kind: MemberKind) -> Result<MemberView, ParseError> {
    field_member(field, field.ident->0@, kind)
}

pub open spec fn same_member(r: Result<MemberInfo, ParseError>, s: Result<MemberView, ParseError>) -> bool {
    match (r, s) {
        (Ok(a), Ok(b)) => a@ == b,
        (Err(e), Err(f)) => same_error(e, f),
        _ => false,
    }
}

impl MemberInfo {
    /// Whether the function is marked `#[getter]`.
    pub fn is_getter(attrs: &Vec<Attribute>) -> (r: Result<bool, ParseError>)
        requires
            pyo3_attrs_defined(attrs@),
        ensures
            same_result(r, marked(attrs@, AttrTag::Getter)),
    {
        is_marked(attrs, AttrTag::Getter)
    }

    /// Whether the function is marked `#[setter]`.
    pub fn is_setter(attrs: &Vec<Attribute>) -> (r: Result<bool, ParseError>)
        requires
            pyo3_attrs_defined(attrs@),
        ensures
            same_result(r, marked(attrs@, AttrTag::Setter)),
    {
        is_marked(attrs, AttrTag::Setter)
    }

    /// Whether the function or constant is marked `#[classattr]`.
    pub fn is_classattr(attrs: &Vec<Attribute>) -> (r: Result<bool, ParseError>)
        requires
            pyo3_attrs_defined(attrs@),
        ensures
            same_result(r, marked(attrs@, AttrTag::ClassAttr)),
    {
        is_marked(attrs, AttrTag::ClassAttr)
    }

    /// Whether the field is marked `#[pyo3(get)]`.
    pub fn is_get(field: &Field) -> (r: Result<bool, ParseError>)
        requires
            pyo3_attrs_defined(field.attrs@),
        ensures
            same_result(r, marked(field.attrs@, AttrTag::Get)),
    {
        is_marked(&field.attrs, AttrTag::Get)
    }

    /// Whether the field is marked `#[pyo3(set)]`.
    pub fn is_set(field: &Field) -> (r: Result<bool, ParseError>)
        requires
            pyo3_attrs_defined(field.attrs@),
        ensures
            same_result(r, marked(field.attrs@, AttrTag::SetField)),
    {
        is_marked(&field.attrs, AttrTag::SetField)
    }

    /// The property that a getter defines. Its name is the first
    /// `#[pyo3(name = "...")]`, else the name in `#[getter(name)]`, else
    /// the function's name without `get_`; its type is the return type.
    pub fn new_getter(item: &ImplItemFn) -> (r: Result<Self, ParseError>)
        requires
            pyo3_attrs_defined(item.attrs@),
            marked(item.attrs@, AttrTag::Getter) is Ok ==> marked(item.attrs@, AttrTag::Getter)
                == Ok::<bool, ParseError>(true),
        ensures
            same_member(r, getter_spec(*item)),
    {
        let attrs = &item.attrs;
        let pyo3 = parse_pyo3_attrs(attrs)?;
        let default = parse_gen_stub_default(attrs)?;
        let doc = doc_string(attrs);
        let name = accessor_name_exec(&pyo3, AttrTag::Getter, &item.sig.ident, "get_");
        let ty = match extract_return_type(&item.sig.output, attrs)? {
            Some(t) => t,
            None => {
                return Err(ParseError::GetterWithoutType);
            },
        };
        proof {
            reveal_strlit("get_");
        }
        Ok(
            MemberInfo {
                doc,
                name,
                ty,
                default,
                deprecated: extract_deprecated(attrs),
                kind: MemberKind::Getter,
            },
        )
    }

    /// The property that a setter defines. Its name is the first
    /// `#[pyo3(name = "...")]`, else the name in `#[setter(name)]`, else
    /// the function's name without `set_`; its type is that of the
    /// function's second argument.
    pub fn new_setter(item: &ImplItemFn) -> (r: Result<Self, ParseError>)
        requires
            pyo3_attrs_defined(item.attrs@),
            marked(item.attrs@, AttrTag::Setter) is Ok ==> marked(item.attrs@, AttrTag::Setter)
                == Ok::<bool, ParseError>(true),
        ensures
            same_member(r, setter_spec(*item)),
    {
        let attrs = &item.attrs;
        let pyo3 = parse_pyo3_attrs(attrs)?;
        let default = parse_gen_stub_default(attrs)?;
        let doc = doc_string(attrs);
        let name = accessor_name_exec(&pyo3, AttrTag::Setter, &item.sig.ident, "set_");
        if item.sig.inputs.len() < 2 {
            return Err(ParseError::SetterWithoutType);
        }
        let ty = match &item.sig.inputs[1] {
            FnArg::Typed(targs, _, t) => match parse_gen_stub_override_type(targs)? {
                Some(o) => {
                    let markers: Vec<String> = Vec::new();
                    assert(markers@.map_values(|s: String| s@) =~= Seq::<Seq<char>>::empty());
                    TypeOrOverride::OverrideType {
                        ty: clone_type(t),
                        type_repr: o.type_repr,
                        imports: o.imports,
                        rust_type_markers: markers,
                    }
                },
                None => TypeOrOverride::RustType { ty: clone_type(t) },
            },
            FnArg::Receiver => {
                return Err(ParseError::SetterWithoutType);
            },
        };
        proof {
            reveal_strlit("set_");
        }
        Ok(
            MemberInfo {
                doc,
                name,
                ty,
                default,
                deprecated: extract_deprecated(attrs),
                kind: MemberKind::Setter,
            },
        )
    }

    /// The class attribute that a `#[classattr]` function defines: named by
    /// the last `#[pyo3(name = "...")]`, else by the function; its type is
    /// the return type.
    pub fn new_classattr_fn(item: &ImplItemFn) -> (r: Result<Self, ParseError>)
        requires
            pyo3_attrs_defined(item.attrs@),
            marked(item.attrs@, AttrTag::ClassAttr) is Ok ==> marked(
                item.attrs@,
                AttrTag::ClassAttr,
            ) == Ok::<bool, ParseError>(true),
            return_type_spec(item.sig.output, item.attrs@) is Ok ==> return_type_spec(
                item.sig.output,
                item.attrs@,
            )->Ok_0 is Some,
        ensures
            same_member(r, classattr_fn_spec(*item)),
    {
        let attrs = &item.attrs;
        let pyo3 = parse_pyo3_attrs(attrs)?;
        let default = parse_gen_stub_default(attrs)?;
        let doc = doc_string(attrs);
        let name = name_of_attrs(&pyo3, &item.sig.ident);
        let ty = match extract_return_type(&item.sig.output, attrs)? {
            Some(t) => t,
            None => {
                return Err(ParseError::GetterWithoutType);
            },
        };
        Ok(
            MemberInfo {
                doc,
                name,
                ty,
                default,
                deprecated: extract_deprecated(attrs),
                kind: MemberKind::Getter,
            },
        )
    }

    /// The class attribute that a `#[classattr]` constant defines: named by
    /// the last `#[pyo3(name = "...")]`, else by the constant; its value
    /// is its default.
    pub fn new_classattr_const(item: &ImplItemConst) -> (r: Result<Self, ParseError>)
        requires
            pyo3_attrs_defined(item.attrs@),
            marked(item.attrs@, AttrTag::ClassAttr) is Ok ==> marked(
                item.attrs@,
                AttrTag::ClassAttr,
            ) == Ok::<bool, ParseError>(true),
        ensures
            same_member(r, classattr_const_spec(*item)),
    {
        let attrs = &item.attrs;
        let pyo3 = parse_pyo3_attrs(attrs)?;
        let doc = doc_string(attrs);
        let name = name_of_attrs(&pyo3, &item.ident);
        Ok(
            MemberInfo {
                doc,
                name,
                ty: TypeOrOverride::RustType { ty: clone_type(&item.ty) },
                default: Some(item.expr.clone()),
                deprecated: extract_deprecated(attrs),
                kind: MemberKind::Getter,
            },
        )
    }

    /// The member that a named field defines, of the given kind: named by
    /// the last `#[pyo3(name = "...")]`, else by the field.
    pub fn from_field(field: &Field, kind: MemberKind) -> (r: Result<Self, ParseError>)
        requires
            pyo3_attrs_defined(field.attrs@),
            field.ident is Some,
        ensures
            same_member(r, field_spec(*field, kind)),
    {
        let ident = match &field.ident {
            Some(n) => n.clone(),
            None => String::new(),
        };
        Self::from_field_named(field, ident, kind)
    }

    /// The member that a field defines under the name `ident` (see
    /// [`field_member`]).
    pub fn from_field_named(field: &Field, ident: String, kind: MemberKind) -> (r: Result<
        Self,
        ParseError,
    >)
        requires
            pyo3_attrs_defined(field.attrs@),
        ensures
            same_member(r, field_member(*field, ident@, kind)),
    {
        let attrs = &field.attrs;
        let pyo3 = parse_pyo3_attrs(attrs)?;
        let doc = doc_string(attrs);
        let default = parse_gen_stub_default(attrs)?;
        let name = name_of_attrs(&pyo3, &ident);
        Ok(
            MemberInfo {
                doc,
                name,
                ty: TypeOrOverride::RustType { ty: clone_type(&field.ty) },
                default,
                deprecated: extract_deprecated(attrs),
                kind,
            },
        )
    }
}

} // verus!
