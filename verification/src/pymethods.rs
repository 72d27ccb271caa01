//! The members and methods that a `#[pymethods]` block gives a class.

use vstd::prelude::*;
use crate::arg::{args_from, return_type_spec, FnArg};
use crate::attr::{pyo3_attrs_defined, without_gen_stub, Attribute};
use crate::attr_query::AttrTag;
use crate::gen_stub_attr::{gen_stub_attrs_spec, has_skip, parse_gen_stub_skip, AttributeLocation};
use crate::item::{ImplItemConst, ImplItemFn};
use crate::member::{
    classattr_const_spec, classattr_fn_spec, getter_spec, marked, same_member, setter_spec,
    MemberInfo, MemberView,
};
use crate::method::{method_self_replaced, method_spec, MethodInfo, MethodView};
use crate::parse::{same_error, same_result, ParseError};
use crate::rust_type::{clone_type, RustType, TypeView};

verus! {

/// What a `#[pymethods]` block gives the class `struct_id`: class
/// attributes, getters, setters and methods.
#[derive(Debug)]
pub struct PyMethodsInfo {
    pub struct_id: RustType,
    pub attrs: Vec<MemberInfo>,
    pub getters: Vec<MemberInfo>,
    pub setters: Vec<MemberInfo>,
    pub methods: Vec<MethodInfo>,
}

pub struct PyMethodsView {
    pub struct_id: TypeView,
    pub attrs: Seq<MemberView>,
    pub getters: Seq<MemberView>,
    pub setters: Seq<MemberView>,
    pub methods: Seq<MethodView>,
}

impl View for PyMethodsInfo {
    type V = PyMethodsView;

    open spec fn view(&self) -> PyMethodsView {
        PyMethodsView {
            struct_id: self.struct_id@,
            attrs: self.attrs@.map_values(|m: MemberInfo| m@),
            getters: self.getters@.map_values(|m: MemberInfo| m@),
            setters: self.setters@.map_values(|m: MemberInfo| m@),
            methods: self.methods@.map_values(|m: MethodInfo| m@),
        }
    }
}

/// An item of an `impl` block: a constant, a function, or anything else.
#[derive(Debug)]
pub enum ImplItem {
    Const(ImplItemConst),
    Fn(ImplItemFn),
    Other,
}

/// An `impl` block with its attributes, the type it implements and its
/// items.
#[derive(Debug)]
pub struct ItemImpl {
    pub attrs: Vec<Attribute>,
    pub self_ty: RustType,
    pub items: Vec<ImplItem>,
}

/// Where an item of a `#[pymethods]` block goes.
pub enum Slot {
    Skip,
    ClassAttr(MemberView),
    Getter(MemberView),
    Setter(MemberView),
    Method(MethodView),
}

/// Whether an item's `#[gen_stub(...)]` says `skip` (see
/// [`parse_gen_stub_skip`]).
pub open spec fn skip_spec(attrs: Seq<Attribute>) -> Result<bool, ParseError> {
    match gen_stub_attrs_spec(
        attrs,
        AttributeLocation::Field,
        seq!["override_return_type"@, "default"@],
    ) {
        Ok(s) => Ok(has_skip(s)),
        Err(e) => Err(e),
    }
}

pub open spec fn member_slot(r: Result<MemberView, ParseError>, k: nat) -> Result<Slot, ParseError> {
    match r {
        Err(e) => Err(e),
        Ok(m) => Ok(
            if k == 0 {
                Slot::ClassAttr(m)
            } else if k == 1 {
                Slot::Getter(m)
            } else {
                Slot::Setter(m)
            },
        ),
    }
}

/// Where a function of the block goes: skipped, a getter, a setter, a
/// class attribute, or a method with `Self` replaced by the block's type.
pub open spec fn fn_slot(f: ImplItemFn, self_ty: TypeView) -> Result<Slot, ParseError> {
    match skip_spec(f.attrs@) {
        Err(e) => Err(e),
        Ok(true) => Ok(Slot::Skip),
        Ok(false) => match marked(f.attrs@, AttrTag::Getter) {
            Err(e) => Err(e),
            Ok(true) => member_slot(getter_spec(f), 1),
            Ok(false) => match marked(f.attrs@, AttrTag::Setter) {
                Err(e) => Err(e),
                Ok(true) => member_slot(setter_spec(f), 2),
                Ok(false) => match marked(f.attrs@, AttrTag::ClassAttr) {
                    Err(e) => Err(e),
                    Ok(true) => member_slot(classattr_fn_spec(f), 0),
                    Ok(false) => match method_spec(f) {
                        Err(e) => Err(e),
                        Ok(m) => Ok(Slot::Method(method_self_replaced(m, self_ty))),
                    },
                },
            },
        },
    }
}

/// Where an item of the block goes: a constant marked `#[classattr]` is a
/// class attribute, a function goes as [`fn_slot`] says, anything else
/// is skipped.
pub open spec fn item_slot(item: ImplItem, self_ty: TypeView) -> Result<Slot, ParseError> {
    match item {
        ImplItem::Const(c) => match skip_spec(c.attrs@) {
            Err(e) => Err(e),
            Ok(true) => Ok(Slot::Skip),
            Ok(false) => match marked(c.attrs@, AttrTag::ClassAttr) {
                Err(e) => Err(e),
                Ok(false) => Ok(Slot::Skip),
                Ok(true) => member_slot(classattr_const_spec(c), 0),
            },
        },
        ImplItem::Fn(f) => fn_slot(f, self_ty),
        ImplItem::Other => Ok(Slot::Skip),
    }
}

/// What the first `n` items give: class attributes, getters, setters and
/// methods, each in order; the first error is the result.
pub open spec fn items_scan(items: Seq<ImplItem>, self_ty: TypeView, n: nat) -> Result<
    (Seq<MemberView>, Seq<MemberView>, Seq<MemberView>, Seq<MethodView>),
    ParseError,
>
    decreases n,
{
    if n == 0 || n > items.len() {
        Ok((Seq::empty(), Seq::empty(), Seq::empty(), Seq::empty()))
    } else {
        match items_scan(items, self_ty, (n - 1) as nat) {
            Err(e) => Err(e),
            Ok((a, g, st, m)) => match item_slot(items[n - 1], self_ty) {
                Err(e) => Err(e),
                Ok(Slot::Skip) => Ok((a, g, st, m)),
                Ok(Slot::ClassAttr(x)) => Ok((a.push(x), g, st, m)),
                Ok(Slot::Getter(x)) => Ok((a, g.push(x), st, m)),
                Ok(Slot::Setter(x)) => Ok((a, g, st.push(x), m)),
                Ok(Slot::Method(x)) => Ok((a, g, st, m.push(x))),
            },
        }
    }
}

/// What a `#[pymethods]` block gives its class (see [`items_scan`]).
pub open spec fn methods_spec(item: ItemImpl) -> Result<PyMethodsView, ParseError> {
    match items_scan(item.items@, item.self_ty@, item.items.len() as nat) {
        Err(e) => Err(e),
        Ok((a, g, st, m)) => Ok(
            PyMethodsView { struct_id: item.self_ty@, attrs: a, getters: g, setters: st, methods: m },
        ),
    }
}

/// Whether an item of a block is left out of the stub: a function or
/// constant whose `#[gen_stub(...)]` says `skip`, or an item that is
/// neither.
pub open spec fn skipped_item(item: ImplItem) -> bool {
    match item {
        ImplItem::Const(c) => skip_spec(c.attrs@) == Ok::<bool, ParseError>(true),
        ImplItem::Fn(f) => skip_spec(f.attrs@) == Ok::<bool, ParseError>(true),
        ImplItem::Other => true,
    }
}

proof fn lemma_scan_same_prefix(
    items: Seq<ImplItem>,
    other: Seq<ImplItem>,
    self_ty: TypeView,
    n: nat,
)
    requires
        n <= items.len(),
        n <= other.len(),
        forall|i: int| 0 <= i < n ==> items[i] == other[i],
    ensures
        items_scan(items, self_ty, n) == items_scan(other, self_ty, n),
    decreases n,
{
    if n > 0 {
        lemma_scan_same_prefix(items, other, self_ty, (n - 1) as nat);
    }
}

proof fn lemma_scan_after_insert(
    items: Seq<ImplItem>,
    k: int,
    x: ImplItem,
    self_ty: TypeView,
    n: nat,
)
    requires
        0 <= k <= n <= items.len(),
        item_slot(x, self_ty) == Ok::<Slot, ParseError>(Slot::Skip),
    ensures
        items_scan(items.insert(k, x), self_ty, n + 1) == items_scan(items, self_ty, n),
    decreases n - k,
{
    let ins = items.insert(k, x);
    items.insert_ensures(k, x);
    if n == k {
        lemma_scan_same_prefix(ins, items, self_ty, k as nat);
    } else {
        lemma_scan_after_insert(items, k, x, self_ty, (n - 1) as nat);
        assert(ins[n as int] == items[n - 1]);
    }
}

/// `#[gen_stub(skip)]` makes an item invisible: putting a skipped item
/// anywhere into a `#[pymethods]` block changes neither the class
/// attributes, getters, setters and methods that the block gives, nor the
/// error it is refused with.
pub proof fn law_skipped_item_changes_nothing(
    items: Seq<ImplItem>,
    k: int,
    x: ImplItem,
    self_ty: TypeView,
)
    requires
        0 <= k <= items.len(),
        skipped_item(x),
    ensures
        items_scan(items.insert(k, x), self_ty, items.len() + 1) == items_scan(
            items,
            self_ty,
            items.len() as nat,
        ),
{
    assert(item_slot(x, self_ty) == Ok::<Slot, ParseError>(Slot::Skip));
    lemma_scan_after_insert(items, k, x, self_ty, items.len() as nat);
}

/// Whether the block can be read without a stop: every attribute list
/// reads, a class-attribute function returns a type, and every method's
/// arguments read.
pub open spec fn impl_item_readable(item: ImplItem) -> bool {
    match item {
        ImplItem::Const(c) => pyo3_attrs_defined(c.attrs@),
        ImplItem::Fn(f) => {
            &&& pyo3_attrs_defined(f.attrs@)
            &&& (skip_spec(f.attrs@) == Ok::<bool, ParseError>(false) && marked(f.attrs@, AttrTag::Getter)
                == Ok::<bool, ParseError>(false) && marked(f.attrs@, AttrTag::Setter) == Ok::<
                bool,
                ParseError,
            >(false)) ==> (marked(f.attrs@, AttrTag::ClassAttr) == Ok::<bool, ParseError>(true) ==> (
            return_type_spec(f.sig.output, f.attrs@) is Ok ==> return_type_spec(
                f.sig.output,
                f.attrs@,
            )->Ok_0 is Some)) && (marked(f.attrs@, AttrTag::ClassAttr) == Ok::<bool, ParseError>(
                false,
            ) ==> !(args_from(f.sig.inputs@, 0) is Panic))
        },
        ImplItem::Other => true,
    }
}

proof fn lemma_items_error_stays(items: Seq<ImplItem>, self_ty: TypeView, i: nat, n: nat)
    requires
        i <= n <= items.len(),
        items_scan(items, self_ty, i) is Err,
    ensures
        items_scan(items, self_ty, n) == items_scan(items, self_ty, i),
    decreases n - i,
{
    if n > i {
        lemma_items_error_stays(items, self_ty, i, (n - 1) as nat);
    }
}

fn skip_of(attrs: &Vec<Attribute>) -> (r: Result<bool, ParseError>)
    ensures
        same_result(r, skip_spec(attrs@)),
{
    parse_gen_stub_skip(attrs)
}

/// What one item gives, in executable form.
enum ItemOut {
    Skip,
    ClassAttr(MemberInfo),
    Getter(MemberInfo),
    Setter(MemberInfo),
    Method(MethodInfo),
}

spec fn same_slot(r: Result<ItemOut, ParseError>, s: Result<Slot, ParseError>) -> bool {
    match (r, s) {
        (Ok(ItemOut::Skip), Ok(Slot::Skip)) => true,
        (Ok(ItemOut::ClassAttr(a)), Ok(Slot::ClassAttr(b))) => a@ == b,
        (Ok(ItemOut::Getter(a)), Ok(Slot::Getter(b))) => a@ == b,
        (Ok(ItemOut::Setter(a)), Ok(Slot::Setter(b))) => a@ == b,
        (Ok(ItemOut::Method(a)), Ok(Slot::Method(b))) => a@ == b,
        (Err(x), Err(y)) => same_error(x, y),
        _ => false,
    }
}

fn item_out(item: &ImplItem, self_ty: &RustType) -> (r: Result<ItemOut, ParseError>)
    requires
        impl_item_readable(*item),
    ensures
        same_slot(r, item_slot(*item, self_ty@)),
{
    match item {
        ImplItem::Const(c) => {
            if skip_of(&c.attrs)? {
                return Ok(ItemOut::Skip);
            }
            if !MemberInfo::is_classattr(&c.attrs)? {
                return Ok(ItemOut::Skip);
            }
            Ok(ItemOut::ClassAttr(MemberInfo::new_classattr_const(c)?))
        },
        ImplItem::Fn(f) => {
            if skip_of(&f.attrs)? {
                return Ok(ItemOut::Skip);
            }
            if MemberInfo::is_getter(&f.attrs)? {
                return Ok(ItemOut::Getter(MemberInfo::new_getter(f)?));
            }
            if MemberInfo::is_setter(&f.attrs)? {
                return Ok(ItemOut::Setter(MemberInfo::new_setter(f)?));
            }
            if MemberInfo::is_classattr(&f.attrs)? {
                return Ok(ItemOut::ClassAttr(MemberInfo::new_classattr_fn(f)?));
            }
            let mut m = MethodInfo::try_from(f)?;
            m.replace_self(self_ty);
            Ok(ItemOut::Method(m))
        },
        ImplItem::Other => Ok(ItemOut::Skip),
    }
}

impl PyMethodsInfo {
    /// What a `#[pymethods]` block gives its class (see [`methods_spec`]).
    pub fn try_from(item: &ItemImpl) -> (r: Result<Self, ParseError>)
        requires
            forall|k: int| 0 <= k < item.items.len() ==> impl_item_readable(#[trigger] item.items@[k]),
        ensures
            match (r, methods_spec(*item)) {
                (Ok(a), Ok(b)) => a@ == b,
                (Err(x), Err(y)) => same_error(x, y),
                _ => false,
            },
    {
        let mut attrs: Vec<MemberInfo> = Vec::new();
        let mut getters: Vec<MemberInfo> = Vec::new();
        let mut setters: Vec<MemberInfo> = Vec::new();
        let mut methods: Vec<MethodInfo> = Vec::new();
        let ghost st = item.self_ty@;
        assert(attrs@.map_values(|m: MemberInfo| m@) =~= Seq::<MemberView>::empty());
        assert(methods@.map_values(|m: MethodInfo| m@) =~= Seq::<MethodView>::empty());
        let mut i: usize = 0;
        while i < item.items.len()
            invariant
                i <= item.items.len(),
                st == item.self_ty@,
                forall|k: int| 0 <= k < item.items.len() ==> impl_item_readable(#[trigger] item.items@[k]),
                items_scan(item.items@, st, i as nat) == Ok::<
                    (Seq<MemberView>, Seq<MemberView>, Seq<MemberView>, Seq<MethodView>),
                    ParseError,
                >(
                    (
                        attrs@.map_values(|m: MemberInfo| m@),
                        getters@.map_values(|m: MemberInfo| m@),
                        setters@.map_values(|m: MemberInfo| m@),
                        methods@.map_values(|m: MethodInfo| m@),
                    ),
                ),
            decreases item.items.len() - i,
        {
            assert(impl_item_readable(item.items@[i as int]));
            let ghost a0 = attrs@.map_values(|m: MemberInfo| m@);
            let ghost g0 = getters@.map_values(|m: MemberInfo| m@);
            let ghost s0 = setters@.map_values(|m: MemberInfo| m@);
            let ghost m0 = methods@.map_values(|m: MethodInfo| m@);
            match item_out(&item.items[i], &item.self_ty) {
                Err(e) => {
                    proof {
                        lemma_items_error_stays(item.items@, st, (i + 1) as nat, item.items.len() as nat);
                    }
                    return Err(e);
                },
                Ok(ItemOut::Skip) => {},
                Ok(ItemOut::ClassAttr(x)) => {
                    let ghost xv = x@;
                    attrs.push(x);
                    assert(attrs@.map_values(|m: MemberInfo| m@) =~= a0.push(xv));
                },
                Ok(ItemOut::Getter(x)) => {
                    let ghost xv = x@;
                    getters.push(x);
                    assert(getters@.map_values(|m: MemberInfo| m@) =~= g0.push(xv));
                },
                Ok(ItemOut::Setter(x)) => {
                    let ghost xv = x@;
                    setters.push(x);
                    assert(setters@.map_values(|m: MemberInfo| m@) =~= s0.push(xv));
                },
                Ok(ItemOut::Method(x)) => {
                    let ghost xv = x@;
                    methods.push(x);
                    assert(methods@.map_values(|m: MethodInfo| m@) =~= m0.push(xv));
                },
            }
            i = i + 1;
        }
        Ok(
            PyMethodsInfo {
                struct_id: clone_type(&item.self_ty),
                attrs,
                getters,
                setters,
                methods,
            },
        )
    }
}

/// Whether `after` is `before` with the `#[gen_stub(...)]` attributes of
/// each typed argument removed.
pub open spec fn args_pruned(before: Seq<FnArg>, after: Seq<FnArg>) -> bool {
    &&& after.len() == before.len()
    &&& forall|k: int|
        0 <= k < before.len() ==> match (#[trigger] before[k], after[k]) {
            (FnArg::Typed(a0, p0, t0), FnArg::Typed(a1, p1, t1)) => a1@ == without_gen_stub(a0@)
                && p1 == p0 && t1 == t0,
            (FnArg::Receiver, FnArg::Receiver) => true,
            _ => false,
        }
}

/// Removes the `#[gen_stub(...)]` attributes of each typed argument.
pub fn prune_arg_attrs(inputs: &mut Vec<FnArg>)
    ensures
        args_pruned(old(inputs)@, final(inputs)@),
{
    let mut rest: Vec<FnArg> = Vec::new();
    std::mem::swap(inputs, &mut rest);
    let ghost orig = rest@;
    let mut i: usize = 0;
    while rest.len() > 0
        invariant
            inputs.len() + rest.len() == orig.len(),
            rest@ == orig.subrange(inputs.len() as int, orig.len() as int),
            forall|k: int|
                0 <= k < inputs.len() ==> match (#[trigger] orig[k], inputs@[k]) {
                    (FnArg::Typed(a0, p0, t0), FnArg::Typed(a1, p1, t1)) => a1@ == without_gen_stub(a0@)
                        && p1 == p0 && t1 == t0,
                    (FnArg::Receiver, FnArg::Receiver) => true,
                    _ => false,
                },
        decreases rest.len(),
    {
        let ghost n = inputs.len();
        let a = rest.remove(0);
        assert(rest@ =~= orig.subrange(n + 1, orig.len() as int));
        let b = match a {
            FnArg::Typed(mut attrs, p, t) => {
                crate::attr::prune_attrs(&mut attrs);
                FnArg::Typed(attrs, p, t)
            },
            FnArg::Receiver => FnArg::Receiver,
        };
        inputs.push(b);
    }
}

/// Removes the `#[gen_stub(...)]` attributes of a function and of its
/// typed arguments.
pub fn prune_fn_attrs(f: &mut ImplItemFn)
    ensures
        final(f).attrs@ == without_gen_stub(old(f).attrs@),
        args_pruned(old(f).sig.inputs@, final(f).sig.inputs@),
        final(f).sig.ident == old(f).sig.ident,
        final(f).sig.output == old(f).sig.output,
        final(f).sig.is_async == old(f).sig.is_async,
{
    crate::attr::prune_attrs(&mut f.attrs);
    prune_arg_attrs(&mut f.sig.inputs);
}

/// Whether `after` is the block `before` with the `#[gen_stub(...)]`
/// attributes removed from the block, its functions and their arguments.
pub open spec fn impl_pruned(before: ItemImpl, after: ItemImpl) -> bool {
    &&& after.attrs@ == without_gen_stub(before.attrs@)
    &&& after.self_ty == before.self_ty
    &&& after.items.len() == before.items.len()
    &&& forall|k: int|
        0 <= k < before.items.len() ==> match (#[trigger] before.items@[k], after.items@[k]) {
            (ImplItem::Fn(f0), ImplItem::Fn(f1)) => f1.attrs@ == without_gen_stub(f0.attrs@)
                && args_pruned(f0.sig.inputs@, f1.sig.inputs@) && f1.sig.ident == f0.sig.ident
                && f1.sig.output == f0.sig.output && f1.sig.is_async == f0.sig.is_async,
            (ImplItem::Const(c0), ImplItem::Const(c1)) => c1 == c0,
            (ImplItem::Other, ImplItem::Other) => true,
            _ => false,
        }
}

/// Removes the `#[gen_stub(...)]` attributes of a `#[pymethods]` block:
/// those of the block, of its functions and of their arguments.
pub fn prune_attrs(item: &mut ItemImpl)
    ensures
        impl_pruned(*old(item), *final(item)),
{
    crate::attr::prune_attrs(&mut item.attrs);
    let mut rest: Vec<ImplItem> = Vec::new();
    std::mem::swap(&mut item.items, &mut rest);
    let ghost orig = rest@;
    while rest.len() > 0
        invariant
            item.attrs@ == without_gen_stub(old(item).attrs@),
            item.self_ty == old(item).self_ty,
            orig == old(item).items@,
            item.items.len() + rest.len() == orig.len(),
            rest@ == orig.subrange(item.items.len() as int, orig.len() as int),
            forall|k: int|
                0 <= k < item.items.len() ==> match (#[trigger] orig[k], item.items@[k]) {
                    (ImplItem::Fn(f0), ImplItem::Fn(f1)) => f1.attrs@ == without_gen_stub(f0.attrs@)
                        && args_pruned(f0.sig.inputs@, f1.sig.inputs@) && f1.sig.ident == f0.sig.ident
                        && f1.sig.output == f0.sig.output && f1.sig.is_async == f0.sig.is_async,
                    (ImplItem::Const(c0), ImplItem::Const(c1)) => c1 == c0,
                    (ImplItem::Other, ImplItem::Other) => true,
                    _ => false,
                },
        decreases rest.len(),
    {
        let ghost n = item.items.len();
        let x = rest.remove(0);
        assert(rest@ =~= orig.subrange(n + 1, orig.len() as int));
        let y = match x {
            ImplItem::Fn(mut f) => {
                prune_fn_attrs(&mut f);
                ImplItem::Fn(f)
            },
            other => other,
        };
        item.items.push(y);
    }
}

} // verus!
