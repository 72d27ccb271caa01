//! Classes and enums marked for stub generation, and the `PyStubType`
//! implementation that names them in stubs.

use vstd::prelude::*;
use crate::attr::{
    doc_string, documents, opt_view, parse_pyo3_attrs, pyo3_attrs_defined, pyo3_attrs_spec, Attr,
    AttrView,
};
use crate::attr_query::{
    has_attr, has_tagged, last_of, last_tagged, lemma_last_tagged_bounds, tagged, AttrTag,
};
use crate::item::{Field, Fields, ItemEnum, ItemStruct, Variant};
use crate::member::{field_spec, marked, renamed, MemberInfo, MemberKind, MemberView};
use crate::member::name_of_attrs;
use crate::parse::{same_error, same_result, ParseError, Parsed};
use crate::renaming::{renamed_by, RenamingRule};
use crate::rust_type::{PathArguments, PathSegment, RustType, TypeView};
use crate::text::join;
use crate::variant::{law_variant_class_name, variant_defined, variant_spec, VariantInfo, VariantView};
use crate::pyfunction::{eq_at, str_lit_at};
use crate::rust_syntax::{ident_accepted, literal_string_value, rust_ident_accepted};
use crate::text::str_is;
use crate::tokens::{is_punct, token_is_punct, TokenTree};

verus! {

/// The settings given to `#[gen_stub_pyclass(...)]` and the like: a
/// module that overrides PyO3's, and whether the `PyStubType`
/// implementation is left out.
#[derive(Debug, PartialEq, Eq)]
pub struct PyClassAttr {
    pub module: Option<String>,
    pub skip_stub_type: bool,
}

pub struct PyClassAttrView {
    pub module: Option<Seq<char>>,
    pub skip_stub_type: bool,
}

impl View for PyClassAttr {
    type V = PyClassAttrView;

    open spec fn view(&self) -> PyClassAttrView {
        PyClassAttrView { module: opt_view(self.module), skip_stub_type: self.skip_stub_type }
    }
}

/// The settings read from index `i` on: `module = "..."` and
/// `skip_stub_type`, separated by commas; a later `module` overrides an
/// earlier one; an unknown key is an error; anything else out of place is
/// a syntax error.
pub open spec fn class_attr_from(v: Vec<TokenTree>, i: int, st: PyClassAttrView) -> Result<
    PyClassAttrView,
    ParseError,
>
    decreases v.len() - i,
{
    if i < 0 || i >= v.len() {
        Ok(st)
    } else {
        match v[i] {
            TokenTree::Ident(k) => if !rust_ident_accepted(k@) {
                Err(ParseError::Syntax)
            } else {
                let step: Result<(PyClassAttrView, int), ParseError> = if k@ == "module"@ {
                    if !eq_at(v, i + 1) {
                        Err(ParseError::Syntax)
                    } else {
                        match str_lit_at(v, i + 2) {
                            None => Err(ParseError::Syntax),
                            Some(m) => Ok((PyClassAttrView { module: Some(m), ..st }, i + 3)),
                        }
                    }
                } else if k@ == "skip_stub_type"@ {
                    Ok((PyClassAttrView { skip_stub_type: true, ..st }, i + 1))
                } else {
                    Err(ParseError::UnknownParameter(k))
                };
                match step {
                    Err(e) => Err(e),
                    Ok((st2, j)) => if j >= v.len() {
                        Ok(st2)
                    } else if is_punct(v[j], ',') {
                        class_attr_from(v, j + 1, st2)
                    } else {
                        Err(ParseError::Syntax)
                    },
                }
            },
            _ => Err(ParseError::Syntax),
        }
    }
}

impl PyClassAttr {
    /// Reads the settings of `#[gen_stub_pyclass(...)]` and the like from
    /// their tokens (see [`class_attr_from`]); no tokens give no module and
    /// a `PyStubType` implementation.
    pub fn parse(v: &Vec<TokenTree>) -> (r: Result<PyClassAttr, ParseError>)
        ensures
            match (r, class_attr_from(*v, 0, PyClassAttrView { module: None, skip_stub_type: false })) {
                (Ok(a), Ok(b)) => a@ == b,
                (Err(x), Err(y)) => same_error(x, y),
                _ => false,
            },
    {
        let mut st = PyClassAttr { module: None, skip_stub_type: false };
        let ghost init = st@;
        proof {
            reveal_strlit("module");
            reveal_strlit("skip_stub_type");
        }
        let mut i: usize = 0;
        while i < v.len()
            invariant
                i <= v.len(),
                init == (PyClassAttrView { module: None, skip_stub_type: false }),
                class_attr_from(*v, 0, init) == class_attr_from(*v, i as int, st@),
            decreases v.len() - i,
        {
            let ghost st0 = st@;
            let k = match &v[i] {
                TokenTree::Ident(k) => k,
                _ => {
                    return Err(ParseError::Syntax);
                },
            };
            if !ident_accepted(k.as_str()) {
                return Err(ParseError::Syntax);
            }
            let j: usize = if str_is(k.as_str(), "module") {
                if !(v.len() - i > 1 && token_is_punct(&v[i + 1], '=')) {
                    return Err(ParseError::Syntax);
                }
                let m = if v.len() - i > 2 {
                    match &v[i + 2] {
                        TokenTree::Literal(l) => literal_string_value(l.as_str()),
                        _ => None,
                    }
                } else {
                    None
                };
                match m {
                    Some(m) => {
                        st.module = Some(m);
                    },
                    None => {
                        return Err(ParseError::Syntax);
                    },
                }
                i + 3
            } else if str_is(k.as_str(), "skip_stub_type") {
                st.skip_stub_type = true;
                i + 1
            } else {
                return Err(ParseError::UnknownParameter(k.clone()));
            };
            if j >= v.len() {
                assert(class_attr_from(*v, i as int, st0) == Ok::<PyClassAttrView, ParseError>(st@));
                i = v.len();
            } else if token_is_punct(&v[j], ',') {
                assert(class_attr_from(*v, i as int, st0) == class_attr_from(*v, j + 1, st@));
                i = j + 1;
            } else {
                return Err(ParseError::Syntax);
            }
        }
        Ok(st)
    }
}

/// The type named by a single identifier.
pub open spec fn ident_type(ident: Seq<char>) -> TypeView {
    TypeView::Path(false, seq![crate::rust_type::SegmentView { ident, args: crate::rust_type::ArgumentsView::NoArgs }])
}

pub fn ident_type_exec(ident: &String) -> (r: RustType)
    ensures
        r@ == ident_type(ident@),
{
    let mut segs: Vec<PathSegment> = Vec::new();
    let seg = PathSegment { ident: ident.clone(), args: PathArguments::NoArgs };
    assert(crate::rust_type::segment_view(seg) == crate::rust_type::SegmentView {
        ident: ident@,
        args: crate::rust_type::ArgumentsView::NoArgs,
    });
    segs.push(seg);
    assert(crate::rust_type::segments_view(segs, 0) =~= Seq::<crate::rust_type::SegmentView>::empty());
    assert(crate::rust_type::segments_view(segs, 1) =~= seq![crate::rust_type::segment_view(segs@[0])]);
    let r = RustType::Path(false, segs);
    assert(r@ =~= ident_type(ident@));
    r
}

/// The last `#[pyo3(module = "...")]` among the settings, if any.
pub open spec fn module_setting(s: Seq<AttrView>) -> Option<Seq<char>> {
    match last_tagged(s, AttrTag::Module, s.len()) {
        Some(k) => Some(s[k]->Module_0),
        None => None,
    }
}

pub fn module_setting_exec(v: &Vec<Attr>) -> (r: Option<String>)
    ensures
        opt_view(r) == module_setting(v@.map_values(|a: Attr| a@)),
{
    let ghost s = v@.map_values(|a: Attr| a@);
    proof {
        lemma_last_tagged_bounds(s, AttrTag::Module, v.len() as nat);
    }
    match last_of(v, AttrTag::Module) {
        Some(k) => {
            assert(s[k as int] == v@[k as int]@);
            match &v[k] {
                Attr::Module(m) => Some(m.clone()),
                _ => None,
            }
        },
        None => None,
    }
}

/// The last `#[pyo3(rename_all = "...")]` among the settings, if any.
pub open spec fn rename_setting(s: Seq<AttrView>) -> Option<RenamingRule> {
    match last_tagged(s, AttrTag::RenameAll, s.len()) {
        Some(k) => Some(s[k]->RenameAll_0),
        None => None,
    }
}

fn rename_setting_exec(v: &Vec<Attr>) -> (r: Option<RenamingRule>)
    ensures
        r == rename_setting(v@.map_values(|a: Attr| a@)),
{
    let ghost s = v@.map_values(|a: Attr| a@);
    proof {
        lemma_last_tagged_bounds(s, AttrTag::RenameAll, v.len() as nat);
    }
    match last_of(v, AttrTag::RenameAll) {
        Some(k) => {
            assert(s[k as int] == v@[k as int]@);
            match &v[k] {
                Attr::RenameAll(r) => Some(*r),
                _ => None,
            }
        },
        None => None,
    }
}

/// The types of all `#[pyo3(extends = ...)]` among the first `n`
/// settings, in order.
pub open spec fn bases_of(s: Seq<AttrView>, n: nat) -> Seq<TypeView>
    decreases n,
{
    if n == 0 || n > s.len() {
        Seq::empty()
    } else {
        match s[n - 1] {
            AttrView::Extends(t) => bases_of(s, (n - 1) as nat).push(TypeView::Text(t)),
            _ => bases_of(s, (n - 1) as nat),
        }
    }
}

fn bases_exec(v: &Vec<Attr>) -> (r: Vec<RustType>)
    ensures
        r@.map_values(|t: RustType| t@) == bases_of(v@.map_values(|a: Attr| a@), v.len() as nat),
{
    let ghost s = v@.map_values(|a: Attr| a@);
    let mut out: Vec<RustType> = Vec::new();
    assert(out@.map_values(|t: RustType| t@) =~= Seq::<TypeView>::empty());
    let mut i: usize = 0;
    while i < v.len()
        invariant
            i <= v.len(),
            s == v@.map_values(|a: Attr| a@),
            out@.map_values(|t: RustType| t@) == bases_of(s, i as nat),
        decreases v.len() - i,
    {
        assert(s[i as int] == v@[i as int]@);
        match &v[i] {
            Attr::Extends(t) => {
                let ghost before = out@.map_values(|t: RustType| t@);
                out.push(RustType::Text(t.clone()));
                assert(out@.map_values(|t: RustType| t@) =~= before.push(TypeView::Text(t@)));
            },
            _ => {},
        }
        i = i + 1;
    }
    out
}

/// A class as a stub shows it.
#[derive(Debug)]
pub struct PyClassInfo {
    pub pyclass_name: String,
    pub struct_type: RustType,
    pub module: Option<String>,
    pub members: Vec<MemberInfo>,
    pub doc: String,
    pub bases: Vec<RustType>,
}

pub struct PyClassView {
    pub pyclass_name: Seq<char>,
    pub struct_type: TypeView,
    pub module: Option<Seq<char>>,
    pub members: Seq<MemberView>,
    pub doc: Seq<char>,
    pub bases: Seq<TypeView>,
}

impl View for PyClassInfo {
    type V = PyClassView;

    open spec fn view(&self) -> PyClassView {
        PyClassView {
            pyclass_name: self.pyclass_name@,
            struct_type: self.struct_type@,
            module: opt_view(self.module),
            members: self.members@.map_values(|m: MemberInfo| m@),
            doc: self.doc@,
            bases: self.bases@.map_values(|t: RustType| t@),
        }
    }
}

/// Whether a field is shown: it is marked `#[pyo3(get)]` or
/// `#[pyo3(set)]`; an error when its attributes do not parse.
pub open spec fn shown_field(f: Field) -> Result<bool, ParseError> {
    match marked(f.attrs@, AttrTag::Get) {
        Err(e) => Err(e),
        Ok(true) => Ok(true),
        Ok(false) => marked(f.attrs@, AttrTag::SetField),
    }
}

/// The members that the first `n` fields give: every field when the class
/// says `get_all`, else the shown ones; the first error is the result.
pub open spec fn class_members(fields: Seq<Field>, get_all: bool, n: nat) -> Result<
    Seq<MemberView>,
    ParseError,
>
    decreases n,
{
    if n == 0 || n > fields.len() {
        Ok(Seq::empty())
    } else {
        match class_members(fields, get_all, (n - 1) as nat) {
            Err(e) => Err(e),
            Ok(prev) => {
                let shown: Result<bool, ParseError> = if get_all {
                    Ok(true)
                } else {
                    shown_field(fields[n - 1])
                };
                match shown {
                    Err(e) => Err(e),
                    Ok(false) => Ok(prev),
                    Ok(true) => match field_spec(fields[n - 1], MemberKind::Getter) {
                        Err(e) => Err(e),
                        Ok(m) => Ok(prev.push(m)),
                    },
                }
            },
        }
    }
}

proof fn lemma_class_members_error_stays(fields: Seq<Field>, get_all: bool, i: nat, n: nat)
    requires
        i <= n <= fields.len(),
        class_members(fields, get_all, i) is Err,
    ensures
        class_members(fields, get_all, n) == class_members(fields, get_all, i),
    decreases n - i,
{
    if n > i {
        lemma_class_members_error_stays(fields, get_all, i, (n - 1) as nat);
    }
}

/// The fields of a struct, as a sequence.
pub open spec fn field_list(f: Fields) -> Seq<Field> {
    match f {
        Fields::Unit => Seq::empty(),
        Fields::Named(v) => v@,
        Fields::Unnamed(v) => v@,
    }
}

/// Whether the fields can be read without a stop: their attributes read,
/// and each field that becomes a member has a name.
pub open spec fn fields_readable(fields: Seq<Field>, get_all: bool) -> bool {
    forall|k: int|
        0 <= k < fields.len() ==> pyo3_attrs_defined(#[trigger] fields[k].attrs@) && (
        fields[k].ident is None ==> !get_all && shown_field(fields[k]) != Ok::<bool, ParseError>(true))
}

/// The class that a struct describes: named by the last
/// `#[pyo3(name = "...")]`, else by the struct; in the module of the last
/// `#[pyo3(module = "...")]`; with the bases of its `extends`.
pub open spec fn class_spec(item: ItemStruct) -> Result<PyClassView, ParseError> {
    match pyo3_attrs_spec(item.attrs@) {
        Parsed::Error(e) => Err(e),
        Parsed::Panic => Err(ParseError::Syntax),
        Parsed::Value(s) => match class_members(
            field_list(item.fields),
            has_tagged(s, AttrTag::GetAll),
            field_list(item.fields).len(),
        ) {
            Err(e) => Err(e),
            Ok(members) => Ok(
                PyClassView {
                    pyclass_name: renamed(s, item.ident@),
                    struct_type: ident_type(item.ident@),
                    module: module_setting(s),
                    members,
                    doc: join(documents(item.attrs@), seq!['\n']),
                    bases: bases_of(s, s.len()),
                },
            ),
        },
    }
}

/// Whether a struct can be read without a stop.
pub open spec fn struct_readable(item: ItemStruct) -> bool {
    &&& pyo3_attrs_defined(item.attrs@)
    &&& match pyo3_attrs_spec(item.attrs@) {
        Parsed::Value(s) => fields_readable(field_list(item.fields), has_tagged(s, AttrTag::GetAll)),
        _ => true,
    }
}

fn is_shown(f: &Field) -> (r: Result<bool, ParseError>)
    requires
        pyo3_attrs_defined(f.attrs@),
    ensures
        same_result(r, shown_field(*f)),
{
    if MemberInfo::is_get(f)? {
        Ok(true)
    } else {
        MemberInfo::is_set(f)
    }
}

fn members_of_class(fields: &Vec<Field>, get_all: bool) -> (r: Result<Vec<MemberInfo>, ParseError>)
    requires
        fields_readable(fields@, get_all),
    ensures
        match (r, class_members(fields@, get_all, fields.len() as nat)) {
            (Ok(a), Ok(b)) => a@.map_values(|m: MemberInfo| m@) == b,
            (Err(x), Err(y)) => same_error(x, y),
            _ => false,
        },
{
    let mut out: Vec<MemberInfo> = Vec::new();
    assert(out@.map_values(|m: MemberInfo| m@) =~= Seq::<MemberView>::empty());
    let mut i: usize = 0;
    while i < fields.len()
        invariant
            i <= fields.len(),
            fields_readable(fields@, get_all),
            class_members(fields@, get_all, i as nat) == Ok::<Seq<MemberView>, ParseError>(
                out@.map_values(|m: MemberInfo| m@),
            ),
        decreases fields.len() - i,
    {
        assert(pyo3_attrs_defined(fields@[i as int].attrs@));
        let shown = if get_all {
            Ok(true)
        } else {
            is_shown(&fields[i])
        };
        match shown {
            Err(e) => {
                proof {
                    lemma_class_members_error_stays(fields@, get_all, (i + 1) as nat, fields.len() as nat);
                }
                return Err(e);
            },
            Ok(false) => {},
            Ok(true) => {
                match MemberInfo::from_field(&fields[i], MemberKind::Getter) {
                    Ok(m) => {
                        let ghost before = out@.map_values(|m: MemberInfo| m@);
                        let ghost mv = m@;
                        out.push(m);
                        assert(out@.map_values(|m: MemberInfo| m@) =~= before.push(mv));
                    },
                    Err(e) => {
                        proof {
                            lemma_class_members_error_stays(
                                fields@,
                                get_all,
                                (i + 1) as nat,
                                fields.len() as nat,
                            );
                        }
                        return Err(e);
                    },
                }
            },
        }
        i = i + 1;
    }
    Ok(out)
}

impl PyClassInfo {
    /// The class that a struct describes (see [`class_spec`]).
    pub fn try_from_struct(item: &ItemStruct) -> (r: Result<Self, ParseError>)
        requires
            struct_readable(*item),
        ensures
            match (r, class_spec(*item)) {
                (Ok(a), Ok(b)) => a@ == b,
                (Err(x), Err(y)) => same_error(x, y),
                _ => false,
            },
    {
        let pyo3 = parse_pyo3_attrs(&item.attrs)?;
        let name = name_of_attrs(&pyo3, &item.ident);
        let module = module_setting_exec(&pyo3);
        let get_all = has_attr(&pyo3, AttrTag::GetAll);
        let bases = bases_exec(&pyo3);
        let members = match &item.fields {
            Fields::Unit => {
                let v: Vec<MemberInfo> = Vec::new();
                assert(v@.map_values(|m: MemberInfo| m@) =~= Seq::<MemberView>::empty());
                v
            },
            Fields::Named(f) => members_of_class(f, get_all)?,
            Fields::Unnamed(f) => members_of_class(f, get_all)?,
        };
        let doc = doc_string(&item.attrs);
        Ok(
            PyClassInfo {
                pyclass_name: name,
                struct_type: ident_type_exec(&item.ident),
                module,
                members,
                doc,
                bases,
            },
        )
    }
}

/// The members that the first `n` named fields of a variant give.
pub open spec fn variant_fields(fields: Seq<Field>, n: nat) -> Result<Seq<MemberView>, ParseError>
    decreases n,
{
    if n == 0 || n > fields.len() {
        Ok(Seq::empty())
    } else {
        match variant_fields(fields, (n - 1) as nat) {
            Err(e) => Err(e),
            Ok(prev) => match field_spec(fields[n - 1], MemberKind::Getter) {
                Err(e) => Err(e),
                Ok(m) => Ok(prev.push(m)),
            },
        }
    }
}

/// The class that a variant of the enum `enum_` describes: named by the
/// last `#[pyo3(name = "...")]`, else by the variant, then renamed by the
/// rule; its named fields become members; unnamed fields are an error.
pub open spec fn variant_class_spec(v: Variant, enum_: Seq<char>, rule: Option<RenamingRule>) -> Result<
    PyClassView,
    ParseError,
> {
    match pyo3_attrs_spec(v.attrs@) {
        Parsed::Error(e) => Err(e),
        Parsed::Panic => Err(ParseError::Syntax),
        Parsed::Value(s) => {
            let members: Result<Seq<MemberView>, ParseError> = match v.fields {
                Fields::Unit => Ok(Seq::empty()),
                Fields::Named(f) => variant_fields(f@, f.len() as nat),
                Fields::Unnamed(_) => Err(ParseError::UnnamedFields),
            };
            match members {
                Err(e) => Err(e),
                Ok(m) => {
                    let base = renamed(s, v.ident@);
                    Ok(
                        PyClassView {
                            pyclass_name: match rule {
                                Some(r) => renamed_by(r, base),
                                None => base,
                            },
                            struct_type: ident_type(enum_),
                            module: module_setting(s),
                            members: m,
                            doc: join(documents(v.attrs@), seq!['\n']),
                            bases: bases_of(s, s.len()),
                        },
                    )
                },
            }
        },
    }
}

proof fn lemma_variant_fields_error_stays(fields: Seq<Field>, i: nat, n: nat)
    requires
        i <= n <= fields.len(),
        variant_fields(fields, i) is Err,
    ensures
        variant_fields(fields, n) == variant_fields(fields, i),
    decreases n - i,
{
    if n > i {
        lemma_variant_fields_error_stays(fields, i, (n - 1) as nat);
    }
}

impl PyClassInfo {
    /// The class that a variant of the enum `enum_` describes (see
    /// [`variant_class_spec`]).
    #[verifier::loop_isolation(false)]
    pub fn from_variant(variant: &Variant, enum_: &String, renaming_rule: &Option<RenamingRule>) -> (r:
        Result<Self, ParseError>)
        requires
            variant_defined(*variant),
        ensures
            match (r, variant_class_spec(*variant, enum_@, *renaming_rule)) {
                (Ok(a), Ok(b)) => a@ == b,
                (Err(x), Err(y)) => same_error(x, y),
                _ => false,
            },
    {
        let pyo3 = parse_pyo3_attrs(&variant.attrs)?;
        let base = name_of_attrs(&pyo3, &variant.ident);
        let pyclass_name = match renaming_rule {
            Some(rule) => rule.apply(base.as_str()),
            None => base,
        };
        let module = module_setting_exec(&pyo3);
        let bases = bases_exec(&pyo3);
        let members = match &variant.fields {
            Fields::Unit => {
                let v: Vec<MemberInfo> = Vec::new();
                assert(v@.map_values(|m: MemberInfo| m@) =~= Seq::<MemberView>::empty());
                v
            },
            Fields::Named(f) => {
                let mut out: Vec<MemberInfo> = Vec::new();
                assert(out@.map_values(|m: MemberInfo| m@) =~= Seq::<MemberView>::empty());
                let mut i: usize = 0;
                while i < f.len()
                    invariant
                        i <= f.len(),
                        crate::variant::fields_defined(f@, true),
                        variant_fields(f@, i as nat) == Ok::<Seq<MemberView>, ParseError>(
                            out@.map_values(|m: MemberInfo| m@),
                        ),
                    decreases f.len() - i,
                {
                    assert(pyo3_attrs_defined(f@[i as int].attrs@));
                    match MemberInfo::from_field(&f[i], MemberKind::Getter) {
                        Ok(m) => {
                            let ghost before = out@.map_values(|m: MemberInfo| m@);
                            let ghost mv = m@;
                            out.push(m);
                            assert(out@.map_values(|m: MemberInfo| m@) =~= before.push(mv));
                        },
                        Err(e) => {
                            proof {
                                lemma_variant_fields_error_stays(f@, (i + 1) as nat, f.len() as nat);
                            }
                            return Err(e);
                        },
                    }
                    i = i + 1;
                }
                out
            },
            Fields::Unnamed(_) => {
                return Err(ParseError::UnnamedFields);
            },
        };
        let doc = doc_string(&variant.attrs);
        Ok(
            PyClassInfo {
                pyclass_name,
                struct_type: ident_type_exec(enum_),
                module,
                members,
                doc,
                bases,
            },
        )
    }
}

/// The module of an enum or class: the one given to the attribute macro,
/// else PyO3's.
pub open spec fn chosen_module(inline: Option<String>, s: Seq<AttrView>) -> Option<Seq<char>> {
    match inline {
        Some(m) => Some(m@),
        None => module_setting(s),
    }
}

fn chosen_module_exec(attr: &PyClassAttr, v: &Vec<Attr>) -> (r: Option<String>)
    ensures
        opt_view(r) == chosen_module(attr.module, v@.map_values(|a: Attr| a@)),
{
    match &attr.module {
        Some(m) => Some(m.clone()),
        None => module_setting_exec(v),
    }
}

/// A simple enum as a stub shows it: each variant with its name and
/// documentation.
#[derive(Debug)]
pub struct PyEnumInfo {
    pub pyclass_name: String,
    pub enum_type: RustType,
    pub module: Option<String>,
    pub variants: Vec<(String, String)>,
    pub doc: String,
}

pub struct PyEnumView {
    pub pyclass_name: Seq<char>,
    pub enum_type: TypeView,
    pub module: Option<Seq<char>>,
    pub variants: Seq<(Seq<char>, Seq<char>)>,
    pub doc: Seq<char>,
}

impl View for PyEnumInfo {
    type V = PyEnumView;

    open spec fn view(&self) -> PyEnumView {
        PyEnumView {
            pyclass_name: self.pyclass_name@,
            enum_type: self.enum_type@,
            module: opt_view(self.module),
            variants: self.variants@.map_values(|p: (String, String)| (p.0@, p.1@)),
            doc: self.doc@,
        }
    }
}

/// The names and documentation of the first `n` variants: each named by
/// its last `#[pyo3(name = "...")]`, else by itself, then renamed by the
/// rule.
pub open spec fn enum_variants(vs: Seq<Variant>, rule: Option<RenamingRule>, n: nat) -> Result<
    Seq<(Seq<char>, Seq<char>)>,
    ParseError,
>
    decreases n,
{
    if n == 0 || n > vs.len() {
        Ok(Seq::empty())
    } else {
        match enum_variants(vs, rule, (n - 1) as nat) {
            Err(e) => Err(e),
            Ok(prev) => match pyo3_attrs_spec(vs[n - 1].attrs@) {
                Parsed::Error(e) => Err(e),
                Parsed::Panic => Err(ParseError::Syntax),
                Parsed::Value(s) => {
                    let base = renamed(s, vs[n - 1].ident@);
                    Ok(
                        prev.push(
                            (
                                match rule {
                                    Some(r) => renamed_by(r, base),
                                    None => base,
                                },
                                join(documents(vs[n - 1].attrs@), seq!['\n']),
                            ),
                        ),
                    )
                },
            },
        }
    }
}

proof fn lemma_enum_variants_error_stays(vs: Seq<Variant>, rule: Option<RenamingRule>, i: nat, n: nat)
    requires
        i <= n <= vs.len(),
        enum_variants(vs, rule, i) is Err,
    ensures
        enum_variants(vs, rule, n) == enum_variants(vs, rule, i),
    decreases n - i,
{
    if n > i {
        lemma_enum_variants_error_stays(vs, rule, i, (n - 1) as nat);
    }
}

/// The simple enum that an enum describes: named by the last
/// `#[pyo3(name = "...")]`, else by the enum; in the module given to the
/// macro, else PyO3's.
pub open spec fn enum_spec(item: ItemEnum, attr: PyClassAttr) -> Result<PyEnumView, ParseError> {
    match pyo3_attrs_spec(item.attrs@) {
        Parsed::Error(e) => Err(e),
        Parsed::Panic => Err(ParseError::Syntax),
        Parsed::Value(s) => match enum_variants(item.variants@, rename_setting(s), item.variants.len() as nat) {
            Err(e) => Err(e),
            Ok(vs) => Ok(
                PyEnumView {
                    pyclass_name: renamed(s, item.ident@),
                    enum_type: ident_type(item.ident@),
                    module: chosen_module(attr.module, s),
                    variants: vs,
                    doc: join(documents(item.attrs@), seq!['\n']),
                },
            ),
        },
    }
}

/// Whether the attributes of the first `k` variants read without error.
pub open spec fn variants_read_before(vs: Seq<Variant>, k: int) -> bool {
    forall|j: int| 0 <= j < k ==> #[trigger] pyo3_attrs_spec(vs[j].attrs@) is Value
}

/// Whether reading an enum stops nowhere before its first error: the
/// enum's attributes read without a stop, and, when they read without
/// error, so do the attributes of each variant whose predecessors all read
/// without error.
pub open spec fn enum_readable(item: ItemEnum) -> bool {
    &&& pyo3_attrs_defined(item.attrs@)
    &&& pyo3_attrs_spec(item.attrs@) is Value ==> forall|k: int|
        0 <= k < item.variants.len() && variants_read_before(item.variants@, k)
            ==> pyo3_attrs_defined(#[trigger] item.variants@[k].attrs@)
}

proof fn lemma_enum_variants_read(vs: Seq<Variant>, rule: Option<RenamingRule>, n: nat)
    requires
        n <= vs.len(),
        enum_variants(vs, rule, n) is Ok,
    ensures
        variants_read_before(vs, n as int),
    decreases n,
{
    if n > 0 {
        lemma_enum_variants_read(vs, rule, (n - 1) as nat);
    }
}

impl PyEnumInfo {
    /// The simple enum that an enum describes (see [`enum_spec`]).
    #[verifier::loop_isolation(false)]
    pub fn from_item_with_attr(item: &ItemEnum, attr: &PyClassAttr) -> (r: Result<Self, ParseError>)
        requires
            enum_readable(*item),
        ensures
            match (r, enum_spec(*item, *attr)) {
                (Ok(a), Ok(b)) => a@ == b,
                (Err(x), Err(y)) => same_error(x, y),
                _ => false,
            },
    {
        let doc = doc_string(&item.attrs);
        let pyo3 = parse_pyo3_attrs(&item.attrs)?;
        let ghost s = pyo3@.map_values(|a: Attr| a@);
        let rule = rename_setting_exec(&pyo3);
        let module = chosen_module_exec(attr, &pyo3);
        let name = name_of_attrs(&pyo3, &item.ident);
        let mut variants: Vec<(String, String)> = Vec::new();
        assert(variants@.map_values(|p: (String, String)| (p.0@, p.1@)) =~= Seq::<
            (Seq<char>, Seq<char>),
        >::empty());
        let mut i: usize = 0;
        while i < item.variants.len()
            invariant
                i <= item.variants.len(),
                enum_readable(*item),
                enum_variants(item.variants@, rule, i as nat) == Ok::<
                    Seq<(Seq<char>, Seq<char>)>,
                    ParseError,
                >(variants@.map_values(|p: (String, String)| (p.0@, p.1@))),
            decreases item.variants.len() - i,
        {
            let var = &item.variants[i];
            proof {
                lemma_enum_variants_read(item.variants@, rule, i as nat);
            }
            assert(pyo3_attrs_defined(item.variants@[i as int].attrs@));
            let vattrs = match parse_pyo3_attrs(&var.attrs) {
                Ok(v) => v,
                Err(e) => {
                    proof {
                        lemma_enum_variants_error_stays(
                            item.variants@,
                            rule,
                            (i + 1) as nat,
                            item.variants.len() as nat,
                        );
                    }
                    return Err(e);
                },
            };
            let base = name_of_attrs(&vattrs, &var.ident);
            let vname = match rule {
                Some(r) => r.apply(base.as_str()),
                None => base,
            };
            let vdoc = doc_string(&var.attrs);
            let ghost before = variants@.map_values(|p: (String, String)| (p.0@, p.1@));
            let ghost pv = (vname@, vdoc@);
            variants.push((vname, vdoc));
            assert(variants@.map_values(|p: (String, String)| (p.0@, p.1@)) =~= before.push(pv));
            i = i + 1;
        }
        Ok(
            PyEnumInfo {
                pyclass_name: name,
                enum_type: ident_type_exec(&item.ident),
                module,
                variants,
                doc,
            },
        )
    }
}

/// A complex enum as a stub shows it: each variant as a class.
#[derive(Debug)]
pub struct PyComplexEnumInfo {
    pub pyclass_name: String,
    pub enum_type: RustType,
    pub module: Option<String>,
    pub variants: Vec<VariantInfo>,
    pub doc: String,
}

pub struct PyComplexEnumView {
    pub pyclass_name: Seq<char>,
    pub enum_type: TypeView,
    pub module: Option<Seq<char>>,
    pub variants: Seq<VariantView>,
    pub doc: Seq<char>,
}

impl View for PyComplexEnumInfo {
    type V = PyComplexEnumView;

    open spec fn view(&self) -> PyComplexEnumView {
        PyComplexEnumView {
            pyclass_name: self.pyclass_name@,
            enum_type: self.enum_type@,
            module: opt_view(self.module),
            variants: self.variants@.map_values(|v: VariantInfo| v@),
            doc: self.doc@,
        }
    }
}

/// The classes that the first `n` variants describe; the first error is
/// the result.
pub open spec fn complex_variants(vs: Seq<Variant>, rule: Option<RenamingRule>, n: nat) -> Result<
    Seq<VariantView>,
    ParseError,
>
    decreases n,
{
    if n == 0 || n > vs.len() {
        Ok(Seq::empty())
    } else {
        match complex_variants(vs, rule, (n - 1) as nat) {
            Err(e) => Err(e),
            Ok(prev) => match variant_spec(vs[n - 1], rule) {
                Err(e) => Err(e),
                Ok(v) => Ok(prev.push(v)),
            },
        }
    }
}

proof fn lemma_complex_variants_error_stays(vs: Seq<Variant>, rule: Option<RenamingRule>, i: nat, n: nat)
    requires
        i <= n <= vs.len(),
        complex_variants(vs, rule, i) is Err,
    ensures
        complex_variants(vs, rule, n) == complex_variants(vs, rule, i),
    decreases n - i,
{
    if n > i {
        lemma_complex_variants_error_stays(vs, rule, i, (n - 1) as nat);
    }
}

/// The complex enum that an enum describes: named by the last
/// `#[pyo3(name = "...")]`, else by the enum; in the module given to the
/// macro, else PyO3's; each variant a class renamed by the enum's rule.
pub open spec fn complex_enum_spec(item: ItemEnum, attr: PyClassAttr) -> Result<
    PyComplexEnumView,
    ParseError,
> {
    match pyo3_attrs_spec(item.attrs@) {
        Parsed::Error(e) => Err(e),
        Parsed::Panic => Err(ParseError::Syntax),
        Parsed::Value(s) => match complex_variants(
            item.variants@,
            rename_setting(s),
            item.variants.len() as nat,
        ) {
            Err(e) => Err(e),
            Ok(vs) => Ok(
                PyComplexEnumView {
                    pyclass_name: renamed(s, item.ident@),
                    enum_type: ident_type(item.ident@),
                    module: chosen_module(attr.module, s),
                    variants: vs,
                    doc: join(documents(item.attrs@), seq!['\n']),
                },
            ),
        },
    }
}

/// The classes of the first `n` variants are those the variants describe,
/// one for one and in order.
proof fn lemma_complex_variants_each(vs: Seq<Variant>, rule: Option<RenamingRule>, n: nat)
    requires
        n <= vs.len(),
    ensures
        complex_variants(vs, rule, n) matches Ok(x) ==> x.len() == n && forall|k: int|
            0 <= k < n ==> variant_spec(#[trigger] vs[k], rule) == Ok::<VariantView, ParseError>(x[k]),
    decreases n,
{
    if n > 0 {
        lemma_complex_variants_each(vs, rule, (n - 1) as nat);
    }
}

/// Each struct variant of a complex enum is a class named after the
/// variant (where no `#[pyo3(name = ...)]` names it), renamed by the
/// enum's `rename_all` rule `r` when the enum gives that rule, and not
/// renamed when the enum gives none.
pub proof fn law_complex_enum_variant_names(item: ItemEnum, attr: PyClassAttr, r: RenamingRule)
    requires
        pyo3_attrs_spec(item.attrs@) is Value,
    ensures
        complex_enum_spec(item, attr) matches Ok(e) ==> {
            &&& e.variants.len() == item.variants.len()
            &&& forall|k: int|
                0 <= k < item.variants.len() && (pyo3_attrs_spec(
                    #[trigger] item.variants@[k].attrs@,
                ) matches Parsed::Value(t) && forall|j: int| 0 <= j < t.len() ==> !(t[j] is Name))
                    ==> {
                    let s = pyo3_attrs_spec(item.attrs@)->Value_0;
                    &&& ((exists|j: int| 0 <= j < s.len() && #[trigger] s[j] is RenameAll) && (forall|j: int|
                        0 <= j < s.len() && #[trigger] s[j] is RenameAll ==> s[j]->RenameAll_0 == r))
                        ==> e.variants[k].pyclass_name == renamed_by(r, item.variants@[k].ident@)
                    &&& (forall|j: int| 0 <= j < s.len() ==> !(#[trigger] s[j] is RenameAll))
                        ==> e.variants[k].pyclass_name == item.variants@[k].ident@
                }
        },
{
    let s = pyo3_attrs_spec(item.attrs@)->Value_0;
    let rule = rename_setting(s);
    lemma_last_tagged_bounds(s, AttrTag::RenameAll, s.len());
    lemma_complex_variants_each(item.variants@, rule, item.variants.len() as nat);
    if let Some(j) = last_tagged(s, AttrTag::RenameAll, s.len()) {
        assert(s[j] is RenameAll);
    }
    if complex_enum_spec(item, attr) is Ok {
        let e = complex_enum_spec(item, attr)->Ok_0;
        assert forall|k: int|
            0 <= k < item.variants.len() && (pyo3_attrs_spec(
                #[trigger] item.variants@[k].attrs@,
            ) matches Parsed::Value(t) && forall|j: int| 0 <= j < t.len() ==> !(t[j] is Name))
            implies {
                &&& ((exists|j: int| 0 <= j < s.len() && #[trigger] s[j] is RenameAll) && (forall|j: int|
                    0 <= j < s.len() && #[trigger] s[j] is RenameAll ==> s[j]->RenameAll_0 == r))
                    ==> e.variants[k].pyclass_name == renamed_by(r, item.variants@[k].ident@)
                &&& (forall|j: int| 0 <= j < s.len() ==> !(#[trigger] s[j] is RenameAll))
                    ==> e.variants[k].pyclass_name == item.variants@[k].ident@
            } by {
            law_variant_class_name(item.variants@[k], rule);
            assert(variant_spec(item.variants@[k], rule) == Ok::<VariantView, ParseError>(e.variants[k]));
            if exists|j: int| 0 <= j < s.len() && #[trigger] s[j] is RenameAll {
                let j0 = choose|j: int| 0 <= j < s.len() && #[trigger] s[j] is RenameAll;
                assert(tagged(s[j0], AttrTag::RenameAll));
            }
        }
    }
}

impl PyComplexEnumInfo {
    /// The complex enum that an enum describes (see [`complex_enum_spec`]).
    #[verifier::loop_isolation(false)]
    pub fn from_item_with_attr(item: &ItemEnum, attr: &PyClassAttr) -> (r: Result<Self, ParseError>)
        requires
            pyo3_attrs_defined(item.attrs@),
            forall|k: int| 0 <= k < item.variants.len() ==> variant_defined(#[trigger] item.variants@[k]),
        ensures
            match (r, complex_enum_spec(*item, *attr)) {
                (Ok(a), Ok(b)) => a@ == b,
                (Err(x), Err(y)) => same_error(x, y),
                _ => false,
            },
    {
        let doc = doc_string(&item.attrs);
        let pyo3 = parse_pyo3_attrs(&item.attrs)?;
        let rule = rename_setting_exec(&pyo3);
        let module = chosen_module_exec(attr, &pyo3);
        let name = name_of_attrs(&pyo3, &item.ident);
        let mut variants: Vec<VariantInfo> = Vec::new();
        assert(variants@.map_values(|v: VariantInfo| v@) =~= Seq::<VariantView>::empty());
        let mut i: usize = 0;
        while i < item.variants.len()
            invariant
                i <= item.variants.len(),
                forall|k: int| 0 <= k < item.variants.len() ==> variant_defined(#[trigger] item.variants@[k]),
                complex_variants(item.variants@, rule, i as nat) == Ok::<Seq<VariantView>, ParseError>(
                    variants@.map_values(|v: VariantInfo| v@),
                ),
            decreases item.variants.len() - i,
        {
            assert(variant_defined(item.variants@[i as int]));
            match VariantInfo::from_variant(&item.variants[i], &rule) {
                Ok(v) => {
                    let ghost before = variants@.map_values(|v: VariantInfo| v@);
                    let ghost vv = v@;
                    variants.push(v);
                    assert(variants@.map_values(|v: VariantInfo| v@) =~= before.push(vv));
                },
                Err(e) => {
                    proof {
                        lemma_complex_variants_error_stays(
                            item.variants@,
                            rule,
                            (i + 1) as nat,
                            item.variants.len() as nat,
                        );
                    }
                    return Err(e);
                },
            }
            i = i + 1;
        }
        Ok(
            PyComplexEnumInfo {
                pyclass_name: name,
                enum_type: ident_type_exec(&item.ident),
                module,
                variants,
                doc,
            },
        )
    }
}

/// What a `PyStubType` implementation says of a type: its Rust type, its
/// Python name and its module.
#[derive(Debug)]
pub struct StubType {
    pub ty: RustType,
    pub name: String,
    pub module: Option<String>,
}

impl StubType {
    /// The stub type of a class.
    pub fn from_class(info: &PyClassInfo) -> (r: StubType)
        ensures
            r.ty@ == info.struct_type@,
            r.name@ == info.pyclass_name@,
            opt_view(r.module) == opt_view(info.module),
    {
        StubType {
            ty: crate::rust_type::clone_type(&info.struct_type),
            name: info.pyclass_name.clone(),
            module: info.module.clone(),
        }
    }

    /// The stub type of a simple enum.
    pub fn from_enum(info: &PyEnumInfo) -> (r: StubType)
        ensures
            r.ty@ == info.enum_type@,
            r.name@ == info.pyclass_name@,
            opt_view(r.module) == opt_view(info.module),
    {
        StubType {
            ty: crate::rust_type::clone_type(&info.enum_type),
            name: info.pyclass_name.clone(),
            module: info.module.clone(),
        }
    }

    /// The stub type of a complex enum.
    pub fn from_complex_enum(info: &PyComplexEnumInfo) -> (r: StubType)
        ensures
            r.ty@ == info.enum_type@,
            r.name@ == info.pyclass_name@,
            opt_view(r.module) == opt_view(info.module),
    {
        StubType {
            ty: crate::rust_type::clone_type(&info.enum_type),
            name: info.pyclass_name.clone(),
            module: info.module.clone(),
        }
    }
}

/// An enum whose variants each wrap one type, shown in Python as the
/// union of those types.
#[derive(Debug)]
pub struct TypeUnionEnumInfo {
    pub pyclass_name: String,
    pub enum_type: RustType,
    pub variants: Vec<RustType>,
    pub doc: String,
}

/// The wrapped types of the first `n` variants; a variant that is not a
/// one-field tuple is an error.
pub open spec fn union_types(vs: Seq<Variant>, n: nat) -> Result<Seq<TypeView>, ParseError>
    decreases n,
{
    if n == 0 || n > vs.len() {
        Ok(Seq::empty())
    } else {
        match union_types(vs, (n - 1) as nat) {
            Err(e) => Err(e),
            Ok(prev) => match vs[n - 1].fields {
                Fields::Unnamed(f) => if f.len() == 1 {
                    Ok(prev.push(f[0].ty@))
                } else {
                    Err(ParseError::NotOneTuple)
                },
                _ => Err(ParseError::NotOneTuple),
            },
        }
    }
}

proof fn lemma_union_types_error_stays(vs: Seq<Variant>, i: nat, n: nat)
    requires
        i <= n <= vs.len(),
        union_types(vs, i) is Err,
    ensures
        union_types(vs, n) == union_types(vs, i),
    decreases n - i,
{
    if n > i {
        lemma_union_types_error_stays(vs, i, (n - 1) as nat);
    }
}

impl TypeUnionEnumInfo {
    /// The union that an enum describes: named by the enum, with the types
    /// its variants wrap (see [`union_types`]).
    pub fn try_from(item: &ItemEnum) -> (r: Result<Self, ParseError>)
        ensures
            match (r, union_types(item.variants@, item.variants.len() as nat)) {
                (Ok(a), Ok(t)) => a.pyclass_name@ == item.ident@ && a.enum_type@ == ident_type(
                    item.ident@,
                ) && a.variants@.map_values(|x: RustType| x@) == t && a.doc@ == join(
                    documents(item.attrs@),
                    seq!['\n'],
                ),
                (Err(x), Err(y)) => same_error(x, y),
                _ => false,
            },
    {
        let doc = doc_string(&item.attrs);
        let mut variants: Vec<RustType> = Vec::new();
        assert(variants@.map_values(|x: RustType| x@) =~= Seq::<TypeView>::empty());
        let mut i: usize = 0;
        while i < item.variants.len()
            invariant
                i <= item.variants.len(),
                union_types(item.variants@, i as nat) == Ok::<Seq<TypeView>, ParseError>(
                    variants@.map_values(|x: RustType| x@),
                ),
            decreases item.variants.len() - i,
        {
            let t = match &item.variants[i].fields {
                Fields::Unnamed(f) => if f.len() == 1 {
                    Some(crate::rust_type::clone_type(&f[0].ty))
                } else {
                    None
                },
                _ => None,
            };
            match t {
                Some(t) => {
                    let ghost before = variants@.map_values(|x: RustType| x@);
                    let ghost tv = t@;
                    variants.push(t);
                    assert(variants@.map_values(|x: RustType| x@) =~= before.push(tv));
                },
                None => {
                    proof {
                        lemma_union_types_error_stays(item.variants@, (i + 1) as nat, item.variants.len() as nat);
                    }
                    return Err(ParseError::NotOneTuple);
                },
            }
            i = i + 1;
        }
        Ok(
            TypeUnionEnumInfo {
                pyclass_name: item.ident.clone(),
                enum_type: ident_type_exec(&item.ident),
                variants,
                doc,
            },
        )
    }
}

impl StubType {
    /// The stub type of a type union: no module.
    pub fn from_union(info: &TypeUnionEnumInfo) -> (r: StubType)
        ensures
            r.ty@ == info.enum_type@,
            r.name@ == info.pyclass_name@,
            r.module is None,
    {
        StubType {
            ty: crate::rust_type::clone_type(&info.enum_type),
            name: info.pyclass_name.clone(),
            module: None,
        }
    }
}

} // verus!
