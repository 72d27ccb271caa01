//! Variants of a complex enum, each shown in Python as a class.

use vstd::prelude::*;
use crate::arg::{ArgInfo, ArgInfoView};
use crate::attr::{
    doc_string, documents, opt_view, parse_pyo3_attrs, pyo3_attrs_defined, pyo3_attrs_spec, Attr,
    AttrView,
};
use crate::attr_query::{last_of, last_tagged, lemma_last_tagged_bounds, AttrTag};
use crate::item::{Field, Fields, Variant};
use crate::member::{field_member, MemberInfo, MemberKind, MemberView};
use crate::method::opt_sig;
use crate::parameter::{cleaned, signature_params, ParameterKind, ParameterView, Parameters};
use crate::parse::{ParseError, Parsed, same_error};
use crate::renaming::{renamed_by, RenamingRule};
use crate::signature::{Signature, SignatureArgView};
use crate::text::join;

verus! {

/// The shape of a variant: with named fields, with unnamed fields, or
/// without fields.
#[derive(Debug, Clone, Copy, PartialEq, Eq, Structural)]
pub enum VariantForm {
    Struct,
    Tuple,
    Unit,
}

/// A variant as a stub shows it: a class with its fields as members and a
/// constructor that takes them.
#[derive(Debug)]
pub struct VariantInfo {
    pub pyclass_name: String,
    pub module: Option<String>,
    pub fields: Vec<MemberInfo>,
    pub doc: String,
    pub form: VariantForm,
    pub constr_args: Vec<ArgInfo>,
    pub constr_sig: Option<Signature>,
}

pub struct VariantView {
    pub pyclass_name: Seq<char>,
    pub module: Option<Seq<char>>,
    pub fields: Seq<MemberView>,
    pub doc: Seq<char>,
    pub form: VariantForm,
    pub constr_args: Seq<ArgInfoView>,
    pub constr_sig: Option<Seq<SignatureArgView>>,
}

impl View for VariantInfo {
    type V = VariantView;

    open spec fn view(&self) -> VariantView {
        VariantView {
            pyclass_name: self.pyclass_name@,
            module: opt_view(self.module),
            fields: self.fields@.map_values(|m: MemberInfo| m@),
            doc: self.doc@,
            form: self.form,
            constr_args: self.constr_args@.map_values(|a: ArgInfo| a@),
            constr_sig: opt_sig(self.constr_sig),
        }
    }
}

/// The decimal digit for `d < 10`.
pub open spec fn digit(d: nat) -> char {
    if d == 0 {
        '0'
    } else if d == 1 {
        '1'
    } else if d == 2 {
        '2'
    } else if d == 3 {
        '3'
    } else if d == 4 {
        '4'
    } else if d == 5 {
        '5'
    } else if d == 6 {
        '6'
    } else if d == 7 {
        '7'
    } else if d == 8 {
        '8'
    } else {
        '9'
    }
}

/// The decimal text of `n`.
pub open spec fn decimal(n: nat) -> Seq<char>
    decreases n,
{
    if n < 10 {
        seq![digit(n)]
    } else {
        decimal(n / 10).push(digit(n % 10))
    }
}

fn digit_exec(d: usize) -> (c: char)
    requires
        d < 10,
    ensures
        c == digit(d as nat),
{
    if d == 0 {
        '0'
    } else if d == 1 {
        '1'
    } else if d == 2 {
        '2'
    } else if d == 3 {
        '3'
    } else if d == 4 {
        '4'
    } else if d == 5 {
        '5'
    } else if d == 6 {
        '6'
    } else if d == 7 {
        '7'
    } else if d == 8 {
        '8'
    } else {
        '9'
    }
}

fn decimal_exec(n: usize) -> (r: Vec<char>)
    ensures
        r@ == decimal(n as nat),
    decreases n,
{
    if n < 10 {
        let mut v: Vec<char> = Vec::new();
        v.push(digit_exec(n));
        assert(v@ =~= seq![digit(n as nat)]);
        v
    } else {
        let mut v = decimal_exec(n / 10);
        v.push(digit_exec(n % 10));
        v
    }
}

/// The name given to the unnamed field at index `i`: `_i`.
pub open spec fn unnamed_field_name(i: nat) -> Seq<char> {
    seq!['_'] + decimal(i)
}

fn unnamed_field_name_exec(i: usize) -> (r: String)
    ensures
        r@ == unnamed_field_name(i as nat),
{
    let mut v: Vec<char> = Vec::new();
    v.push('_');
    let d = decimal_exec(i);
    crate::text::push_chars(&mut v, &d);
    assert(v@ =~= unnamed_field_name(i as nat));
    crate::text::string_of(&v)
}

/// The members that the first `n` fields give; a named field keeps its
/// name, an unnamed one is called `_i` after its index. The first error is
/// the result.
pub open spec fn field_members(fields: Seq<Field>, named: bool, n: nat) -> Result<
    Seq<MemberView>,
    ParseError,
>
    decreases n,
{
    if n == 0 || n > fields.len() {
        Ok(Seq::empty())
    } else {
        match field_members(fields, named, (n - 1) as nat) {
            Err(e) => Err(e),
            Ok(prev) => match field_member(
                fields[n - 1],
                if named {
                    fields[n - 1].ident->0@
                } else {
                    unnamed_field_name((n - 1) as nat)
                },
                MemberKind::Getter,
            ) {
                Err(e) => Err(e),
                Ok(m) => Ok(prev.push(m)),
            },
        }
    }
}

proof fn lemma_field_members_error_stays(fields: Seq<Field>, named: bool, i: nat, n: nat)
    requires
        i <= n <= fields.len(),
        field_members(fields, named, i) is Err,
    ensures
        field_members(fields, named, n) == field_members(fields, named, i),
    decreases n - i,
{
    if n > i {
        lemma_field_members_error_stays(fields, named, i, (n - 1) as nat);
    }
}

/// Whether every field's attributes read without a stop, and every named
/// field has a name.
pub open spec fn fields_defined(fields: Seq<Field>, named: bool) -> bool {
    forall|k: int|
        0 <= k < fields.len() ==> pyo3_attrs_defined(#[trigger] fields[k].attrs@) && (named
            ==> fields[k].ident is Some)
}

fn members_of_fields(fields: &Vec<Field>, named: bool) -> (r: Result<Vec<MemberInfo>, ParseError>)
    requires
        fields_defined(fields@, named),
    ensures
        match (r, field_members(fields@, named, fields.len() as nat)) {
            (Ok(a), Ok(b)) => a@.map_values(|m: MemberInfo| m@) == b,
            (Err(x), Err(y)) => same_error(x, y),
            _ => false,
        },
{
    let mut out: Vec<MemberInfo> = Vec::new();
    assert(out@.map_values(|m: MemberInfo| m@) =~= Seq::<MemberView>::empty());
    let mut i: usize = 0;
    while i < fields.len()
        invariant
            i <= fields.len(),
            fields_defined(fields@, named),
            field_members(fields@, named, i as nat) == Ok::<Seq<MemberView>, ParseError>(
                out@.map_values(|m: MemberInfo| m@),
            ),
        decreases fields.len() - i,
    {
        assert(pyo3_attrs_defined(fields@[i as int].attrs@));
        let ident = if named {
            match &fields[i].ident {
                Some(n) => n.clone(),
                None => String::new(),
            }
        } else {
            unnamed_field_name_exec(i)
        };
        match MemberInfo::from_field_named(&fields[i], ident, MemberKind::Getter) {
            Ok(m) => {
                let ghost before = out@.map_values(|m: MemberInfo| m@);
                let ghost mv = m@;
                out.push(m);
                assert(out@.map_values(|m: MemberInfo| m@) =~= before.push(mv));
            },
            Err(e) => {
                proof {
                    lemma_field_members_error_stays(fields@, named, (i + 1) as nat, fields.len() as nat);
                }
                return Err(e);
            },
        }
        i = i + 1;
    }
    Ok(out)
}

/// The members of a variant's fields and its shape.
pub open spec fn variant_members(fields: Fields) -> Result<(Seq<MemberView>, VariantForm), ParseError> {
    match fields {
        Fields::Unit => Ok((Seq::empty(), VariantForm::Unit)),
        Fields::Named(v) => match field_members(v@, true, v.len() as nat) {
            Err(e) => Err(e),
            Ok(m) => Ok((m, VariantForm::Struct)),
        },
        Fields::Unnamed(v) => match field_members(v@, false, v.len() as nat) {
            Err(e) => Err(e),
            Ok(m) => Ok((m, VariantForm::Tuple)),
        },
    }
}

/// The argument that a member gives a constructor: its name and type.
pub open spec fn member_arg(m: MemberView) -> ArgInfoView {
    ArgInfoView { name: m.name, ty: m.ty }
}

/// The class that a variant describes: named by the last
/// `#[pyo3(name = "...")]`, else by the variant, then renamed by the
/// enum's rule; in the module of the last `#[pyo3(module = "...")]`; with
/// the constructor signature of the last `#[pyo3(constructor = ...)]`.
pub open spec fn variant_spec(v: Variant, rule: Option<RenamingRule>) -> Result<VariantView, ParseError> {
    match pyo3_attrs_spec(v.attrs@) {
        Parsed::Error(e) => Err(e),
        Parsed::Panic => Err(ParseError::Syntax),
        Parsed::Value(s) => match variant_members(v.fields) {
            Err(e) => Err(e),
            Ok((members, form)) => {
                let base = crate::member::renamed(s, v.ident@);
                Ok(
                    VariantView {
                        pyclass_name: match rule {
                            Some(r) => renamed_by(r, base),
                            None => base,
                        },
                        module: match last_tagged(s, AttrTag::Module, s.len()) {
                            Some(k) => Some(s[k]->Module_0),
                            None => None,
                        },
                        fields: members,
                        doc: join(documents(v.attrs@), seq!['\n']),
                        form,
                        constr_args: members.map_values(|m: MemberView| member_arg(m)),
                        constr_sig: match last_tagged(s, AttrTag::Constructor, s.len()) {
                            Some(k) => Some(s[k]->Constructor_0),
                            None => None,
                        },
                    },
                )
            },
        }
    }
}

/// A variant that no `#[pyo3(name = ...)]` names is a class named after
/// the variant, renamed by the enum's rule when there is one: with
/// `SCREAMING_SNAKE_CASE`, `Circle` becomes what `heck` makes of it,
/// `CIRCLE`.
pub proof fn law_variant_class_name(v: Variant, rule: Option<RenamingRule>)
    requires
        pyo3_attrs_spec(v.attrs@) matches Parsed::Value(s) && forall|k: int|
            0 <= k < s.len() ==> !(#[trigger] s[k] is Name),
    ensures
        variant_spec(v, rule) matches Ok(x) ==> x.pyclass_name == match rule {
            Some(r) => renamed_by(r, v.ident@),
            None => v.ident@,
        },
{
    let s = pyo3_attrs_spec(v.attrs@)->Value_0;
    lemma_last_tagged_bounds(s, AttrTag::Name, s.len());
    if let Some(k) = last_tagged(s, AttrTag::Name, s.len()) {
        assert(s[k] is Name);
    }
    assert(crate::member::renamed(s, v.ident@) == v.ident@);
}

/// Whether a variant's attributes, and those of its fields, read without
/// a stop.
pub open spec fn variant_defined(v: Variant) -> bool {
    &&& pyo3_attrs_defined(v.attrs@)
    &&& match v.fields {
        Fields::Unit => true,
        Fields::Named(f) => fields_defined(f@, true),
        Fields::Unnamed(f) => fields_defined(f@, false),
    }
}

impl ArgInfo {
    /// The constructor argument that a member gives: its name and type.
    pub fn from_member(m: &MemberInfo) -> (r: ArgInfo)
        ensures
            r@ == member_arg(m@),
    {
        ArgInfo { name: m.name.clone(), ty: crate::arg::clone_type_or_override(&m.ty) }
    }
}

fn module_of(v: &Vec<Attr>) -> (r: Option<String>)
    ensures
        opt_view(r) == match last_tagged(v@.map_values(|a: Attr| a@), AttrTag::Module, v.len() as nat) {
            Some(k) => Some(v@.map_values(|a: Attr| a@)[k]->Module_0),
            None => None,
        },
{
    let ghost s = v@.map_values(|a: Attr| a@);
    proof {
        lemma_last_tagged_bounds(s, AttrTag::Module, v.len() as nat);
    }
    match last_of(v, AttrTag::Module) {
        Some(k) => {
            assert(s[k as int] == v@[k as int]@);
            match &v[k] {
                Attr::Module(m) => Some(m.clone()),
                _ => None,
            }
        },
        None => None,
    }
}

fn constructor_of(v: Vec<Attr>) -> (r: Option<Signature>)
    ensures
        opt_sig(r) == match last_tagged(v@.map_values(|a: Attr| a@), AttrTag::Constructor, v.len() as nat) {
            Some(k) => Some(v@.map_values(|a: Attr| a@)[k]->Constructor_0),
            None => None,
        },
{
    let ghost s = v@.map_values(|a: Attr| a@);
    proof {
        lemma_last_tagged_bounds(s, AttrTag::Constructor, v.len() as nat);
    }
    match last_of(&v, AttrTag::Constructor) {
        Some(k) => {
            assert(s[k as int] == v@[k as int]@);
            let mut v = v;
            match v.swap_remove(k) {
                Attr::Constructor(c) => Some(c),
                _ => None,
            }
        },
        None => None,
    }
}

impl VariantInfo {
    /// The class that a variant describes (see [`variant_spec`]).
    pub fn from_variant(variant: &Variant, renaming_rule: &Option<RenamingRule>) -> (r: Result<
        Self,
        ParseError,
    >)
        requires
            variant_defined(*variant),
        ensures
            match (r, variant_spec(*variant, *renaming_rule)) {
                (Ok(a), Ok(b)) => a@ == b,
                (Err(x), Err(y)) => same_error(x, y),
                _ => false,
            },
    {
        let pyo3 = parse_pyo3_attrs(&variant.attrs)?;
        let base = crate::member::name_of_attrs(&pyo3, &variant.ident);
        let pyclass_name = match renaming_rule {
            Some(rule) => rule.apply(base.as_str()),
            None => base,
        };
        let module = module_of(&pyo3);
        let constr_sig = constructor_of(pyo3);
        let (fields, form) = match &variant.fields {
            Fields::Unit => {
                let v: Vec<MemberInfo> = Vec::new();
                assert(v@.map_values(|m: MemberInfo| m@) =~= Seq::<MemberView>::empty());
                (v, VariantForm::Unit)
            },
            Fields::Named(f) => (members_of_fields(f, true)?, VariantForm::Struct),
            Fields::Unnamed(f) => (members_of_fields(f, false)?, VariantForm::Tuple),
        };
        let mut constr_args: Vec<ArgInfo> = Vec::new();
        let mut i: usize = 0;
        while i < fields.len()
            invariant
                i <= fields.len(),
                constr_args@.map_values(|a: ArgInfo| a@) == fields@.subrange(0, i as int).map_values(
                    |m: MemberInfo| member_arg(m@),
                ),
            decreases fields.len() - i,
        {
            let a = ArgInfo::from_member(&fields[i]);
            let ghost before = constr_args@.map_values(|a: ArgInfo| a@);
            let ghost av = a@;
            constr_args.push(a);
            assert(constr_args@.map_values(|a: ArgInfo| a@) =~= before.push(av));
            assert(fields@.subrange(0, i + 1).map_values(|m: MemberInfo| member_arg(m@))
                =~= fields@.subrange(0, i as int).map_values(|m: MemberInfo| member_arg(m@)).push(
                member_arg(fields@[i as int]@),
            ));
            i = i + 1;
        }
        assert(fields@.subrange(0, fields.len() as int) =~= fields@);
        assert(constr_args@.map_values(|a: ArgInfo| a@) =~= fields@.map_values(|m: MemberInfo| m@).map_values(
            |m: MemberView| member_arg(m),
        ));
        let doc = doc_string(&variant.attrs);
        Ok(
            VariantInfo {
                pyclass_name,
                module,
                fields,
                doc,
                form,
                constr_args,
                constr_sig,
            },
        )
    }

    /// The parameters of the variant's constructor: as its signature gives
    /// them, else every field positional-or-keyword.
    pub fn parameters(&self) -> (r: Result<Parameters, ParseError>)
        ensures
            match self.constr_sig {
                Some(sig) => match (r, signature_params(self.constr_args@, sig@)) {
                    (Ok(a), Ok(b)) => a@ == b,
                    (Err(x), Err(y)) => same_error(x, y),
                    _ => false,
                },
                None => r matches Ok(p) && p@ == self.constr_args@.map_values(
                    |a: ArgInfo|
                        ParameterView {
                            arg: cleaned(a),
                            kind: ParameterKind::PositionalOrKeyword,
                            default: None,
                        },
                ),
            },
    {
        match &self.constr_sig {
            Some(sig) => Parameters::new_with_sig(&self.constr_args, sig),
            None => {
                let p = Parameters::new(&self.constr_args);
                assert(p@ =~= self.constr_args@.map_values(
                    |a: ArgInfo|
                        ParameterView {
                            arg: cleaned(a),
                            kind: ParameterKind::PositionalOrKeyword,
                            default: None,
                        },
                ));
                Ok(p)
            },
        }
    }
}

} // verus!
