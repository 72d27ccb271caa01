//! A plain model of Rust types as they appear in signatures, and the
//! rewrites that stub generation applies to them.

use vstd::prelude::*;
use crate::text::str_is;

verus! {

/// A Rust type: a path such as `a::B<'x, C>`, a reference, a tuple, an
/// array, or any other type kept as its printed text.
#[derive(Debug, PartialEq, Eq)]
pub enum RustType {
    Path(bool, Vec<PathSegment>),
    Reference(Option<String>, bool, Box<RustType>),
    Tuple(Vec<RustType>),
    Array(Box<RustType>, String),
    Text(String),
}

/// One segment of a path: its identifier and its arguments.
#[derive(Debug, PartialEq, Eq)]
pub struct PathSegment {
    pub ident: String,
    pub args: PathArguments,
}

/// The arguments of a path segment: none, `<...>`, or `(...) -> ...` kept
/// as text.
#[derive(Debug, PartialEq, Eq)]
pub enum PathArguments {
    NoArgs,
    AngleBracketed(Vec<GenericArgument>),
    Parenthesized(String),
}

/// One argument inside `<...>`: a lifetime, a type, or anything else kept
/// as text.
#[derive(Debug, PartialEq, Eq)]
pub enum GenericArgument {
    Lifetime(String),
    Type(RustType),
    Other(String),
}

/// The mathematical form of a [`RustType`].
pub enum TypeView {
    Path(bool, Seq<SegmentView>),
    Reference(Option<Seq<char>>, bool, Box<TypeView>),
    Tuple(Seq<TypeView>),
    Array(Box<TypeView>, Seq<char>),
    Text(Seq<char>),
}

pub struct SegmentView {
    pub ident: Seq<char>,
    pub args: ArgumentsView,
}

pub enum ArgumentsView {
    NoArgs,
    AngleBracketed(Seq<GenericView>),
    Parenthesized(Seq<char>),
}

pub enum GenericView {
    Lifetime(Seq<char>),
    Type(TypeView),
    Other(Seq<char>),
}

pub open spec fn type_view(t: RustType) -> TypeView
    decreases t, 0nat,
{
    match t {
        RustType::Path(lc, segs) => TypeView::Path(lc, segments_view(segs, segs.len() as nat)),
        RustType::Reference(l, m, e) => TypeView::Reference(
            crate::attr::opt_view(l),
            m,
            Box::new(type_view(*e)),
        ),
        RustType::Tuple(v) => TypeView::Tuple(types_view(v, v.len() as nat)),
        RustType::Array(e, n) => TypeView::Array(Box::new(type_view(*e)), n@),
        RustType::Text(s) => TypeView::Text(s@),
    }
}

pub open spec fn types_view(v: Vec<RustType>, n: nat) -> Seq<TypeView>
    decreases v, n,
{
    if n == 0 || n > v.len() {
        Seq::empty()
    } else {
        types_view(v, (n - 1) as nat).push(type_view(v[n - 1]))
    }
}

pub open spec fn segment_view(s: PathSegment) -> SegmentView
    decreases s, 0nat,
{
    SegmentView { ident: s.ident@, args: arguments_view(s.args) }
}

pub open spec fn segments_view(v: Vec<PathSegment>, n: nat) -> Seq<SegmentView>
    decreases v, n,
{
    if n == 0 || n > v.len() {
        Seq::empty()
    } else {
        segments_view(v, (n - 1) as nat).push(segment_view(v[n - 1]))
    }
}

pub open spec fn arguments_view(a: PathArguments) -> ArgumentsView
    decreases a, 0nat,
{
    match a {
        PathArguments::NoArgs => ArgumentsView::NoArgs,
        PathArguments::AngleBracketed(v) => ArgumentsView::AngleBracketed(
            generics_view(v, v.len() as nat),
        ),
        PathArguments::Parenthesized(s) => ArgumentsView::Parenthesized(s@),
    }
}

pub open spec fn generic_view(g: GenericArgument) -> GenericView
    decreases g, 0nat,
{
    match g {
        GenericArgument::Lifetime(s) => GenericView::Lifetime(s@),
        GenericArgument::Type(t) => GenericView::Type(type_view(t)),
        GenericArgument::Other(s) => GenericView::Other(s@),
    }
}

pub open spec fn generics_view(v: Vec<GenericArgument>, n: nat) -> Seq<GenericView>
    decreases v, n,
{
    if n == 0 || n > v.len() {
        Seq::empty()
    } else {
        generics_view(v, (n - 1) as nat).push(generic_view(v[n - 1]))
    }
}

impl View for RustType {
    type V = TypeView;

    open spec fn view(&self) -> TypeView {
        type_view(*self)
    }
}

} // verus!

verus! {

pub proof fn lemma_types_view_prefix(a: Vec<RustType>, b: Vec<RustType>, n: nat)
    requires
        n <= a.len(),
        n <= b.len(),
        forall|k: int| 0 <= k < n ==> a@[k] == b@[k],
    ensures
        types_view(a, n) == types_view(b, n),
    decreases n,
{
    if n > 0 {
        lemma_types_view_prefix(a, b, (n - 1) as nat);
    }
}

pub proof fn lemma_segments_view_prefix(a: Vec<PathSegment>, b: Vec<PathSegment>, n: nat)
    requires
        n <= a.len(),
        n <= b.len(),
        forall|k: int| 0 <= k < n ==> a@[k] == b@[k],
    ensures
        segments_view(a, n) == segments_view(b, n),
    decreases n,
{
    if n > 0 {
        lemma_segments_view_prefix(a, b, (n - 1) as nat);
    }
}

pub proof fn lemma_generics_view_prefix(a: Vec<GenericArgument>, b: Vec<GenericArgument>, n: nat)
    requires
        n <= a.len(),
        n <= b.len(),
        forall|k: int| 0 <= k < n ==> a@[k] == b@[k],
    ensures
        generics_view(a, n) == generics_view(b, n),
    decreases n,
{
    if n > 0 {
        lemma_generics_view_prefix(a, b, (n - 1) as nat);
    }
}

pub proof fn lemma_types_view_len(v: Vec<RustType>, n: nat)
    requires
        n <= v.len(),
    ensures
        types_view(v, n).len() == n,
        forall|k: int| 0 <= k < n ==> #[trigger] types_view(v, n)[k] == type_view(v@[k]),
    decreases n,
{
    if n > 0 {
        lemma_types_view_len(v, (n - 1) as nat);
    }
}

pub proof fn lemma_segments_view_len(v: Vec<PathSegment>, n: nat)
    requires
        n <= v.len(),
    ensures
        segments_view(v, n).len() == n,
        forall|k: int| 0 <= k < n ==> #[trigger] segments_view(v, n)[k] == segment_view(v@[k]),
    decreases n,
{
    if n > 0 {
        lemma_segments_view_len(v, (n - 1) as nat);
    }
}

pub proof fn lemma_generics_view_len(v: Vec<GenericArgument>, n: nat)
    requires
        n <= v.len(),
    ensures
        generics_view(v, n).len() == n,
        forall|k: int| 0 <= k < n ==> #[trigger] generics_view(v, n)[k] == generic_view(v@[k]),
    decreases n,
{
    if n > 0 {
        lemma_generics_view_len(v, (n - 1) as nat);
    }
}

fn clone_opt(o: &Option<String>) -> (r: Option<String>)
    ensures
        crate::attr::opt_view(r) == crate::attr::opt_view(*o),
{
    match o {
        Some(s) => Some(s.clone()),
        None => None,
    }
}

/// A copy of a type.
pub fn clone_type(t: &RustType) -> (r: RustType)
    ensures
        r@ == t@,
    decreases t, 0nat,
{
    match t {
        RustType::Path(lc, segs) => {
            let s = clone_segments(segs);
            RustType::Path(*lc, s)
        },
        RustType::Reference(l, m, e) => {
            let inner = clone_type(e);
            RustType::Reference(clone_opt(l), *m, Box::new(inner))
        },
        RustType::Tuple(v) => RustType::Tuple(clone_types(v)),
        RustType::Array(e, n) => {
            let inner = clone_type(e);
            RustType::Array(Box::new(inner), n.clone())
        },
        RustType::Text(s) => RustType::Text(s.clone()),
    }
}

fn clone_types(v: &Vec<RustType>) -> (r: Vec<RustType>)
    ensures
        r.len() == v.len(),
        types_view(r, r.len() as nat) == types_view(*v, v.len() as nat),
    decreases v, 0nat,
{
    let mut r: Vec<RustType> = Vec::new();
    let mut i: usize = 0;
    while i < v.len()
        invariant
            i <= v.len(),
            r.len() == i,
            types_view(r, i as nat) == types_view(*v, i as nat),
        decreases v.len() - i,
    {
        let c = clone_type(&v[i]);
        let ghost old_r = r;
        r.push(c);
        proof {
            lemma_types_view_prefix(old_r, r, i as nat);
        }
        i = i + 1;
    }
    r
}

fn clone_segments(v: &Vec<PathSegment>) -> (r: Vec<PathSegment>)
    ensures
        r.len() == v.len(),
        segments_view(r, r.len() as nat) == segments_view(*v, v.len() as nat),
    decreases v, 0nat,
{
    let mut r: Vec<PathSegment> = Vec::new();
    let mut i: usize = 0;
    while i < v.len()
        invariant
            i <= v.len(),
            r.len() == i,
            segments_view(r, i as nat) == segments_view(*v, i as nat),
        decreases v.len() - i,
    {
        let c = clone_segment(&v[i]);
        let ghost old_r = r;
        r.push(c);
        proof {
            lemma_segments_view_prefix(old_r, r, i as nat);
        }
        i = i + 1;
    }
    r
}

fn clone_segment(s: &PathSegment) -> (r: PathSegment)
    ensures
        segment_view(r) == segment_view(*s),
    decreases s, 0nat,
{
    PathSegment { ident: s.ident.clone(), args: clone_arguments(&s.args) }
}

fn clone_arguments(a: &PathArguments) -> (r: PathArguments)
    ensures
        arguments_view(r) == arguments_view(*a),
    decreases a, 0nat,
{
    match a {
        PathArguments::NoArgs => PathArguments::NoArgs,
        PathArguments::AngleBracketed(v) => PathArguments::AngleBracketed(clone_generics(v)),
        PathArguments::Parenthesized(s) => PathArguments::Parenthesized(s.clone()),
    }
}

fn clone_generic(g: &GenericArgument) -> (r: GenericArgument)
    ensures
        generic_view(r) == generic_view(*g),
    decreases g, 0nat,
{
    match g {
        GenericArgument::Lifetime(s) => GenericArgument::Lifetime(s.clone()),
        GenericArgument::Type(t) => GenericArgument::Type(clone_type(t)),
        GenericArgument::Other(s) => GenericArgument::Other(s.clone()),
    }
}

fn clone_generics(v: &Vec<GenericArgument>) -> (r: Vec<GenericArgument>)
    ensures
        r.len() == v.len(),
        generics_view(r, r.len() as nat) == generics_view(*v, v.len() as nat),
    decreases v, 0nat,
{
    let mut r: Vec<GenericArgument> = Vec::new();
    let mut i: usize = 0;
    while i < v.len()
        invariant
            i <= v.len(),
            r.len() == i,
            generics_view(r, i as nat) == generics_view(*v, i as nat),
        decreases v.len() - i,
    {
        let c = clone_generic(&v[i]);
        let ghost old_r = r;
        r.push(c);
        proof {
            lemma_generics_view_prefix(old_r, r, i as nat);
        }
        i = i + 1;
    }
    r
}

} // verus!

verus! {

/// The type with every lifetime in a reference dropped and every lifetime
/// argument of the last path segment replaced by `'_`, through references,
/// tuples, arrays and type arguments.
pub open spec fn erased(t: RustType) -> TypeView
    decreases t, 0nat,
{
    match t {
        RustType::Path(lc, segs) => TypeView::Path(lc, erased_segments(segs)),
        RustType::Reference(_, m, e) => TypeView::Reference(None, m, Box::new(erased(*e))),
        RustType::Tuple(v) => TypeView::Tuple(erased_types(v, v.len() as nat)),
        RustType::Array(e, n) => TypeView::Array(Box::new(erased(*e)), n@),
        RustType::Text(s) => TypeView::Text(s@),
    }
}

pub open spec fn erased_types(v: Vec<RustType>, n: nat) -> Seq<TypeView>
    decreases v, n,
{
    if n == 0 || n > v.len() {
        Seq::empty()
    } else {
        erased_types(v, (n - 1) as nat).push(erased(v[n - 1]))
    }
}

pub open spec fn erased_segments(segs: Vec<PathSegment>) -> Seq<SegmentView>
    decreases segs, 0nat,
{
    if segs.len() == 0 {
        Seq::empty()
    } else {
        segments_view(segs, (segs.len() - 1) as nat).push(erased_last(segs[segs.len() - 1]))
    }
}

pub open spec fn erased_last(s: PathSegment) -> SegmentView
    decreases s, 0nat,
{
    SegmentView {
        ident: s.ident@,
        args: match s.args {
            PathArguments::AngleBracketed(g) => ArgumentsView::AngleBracketed(
                erased_generics(g, g.len() as nat),
            ),
            a => arguments_view(a),
        },
    }
}

pub open spec fn erased_generics(v: Vec<GenericArgument>, n: nat) -> Seq<GenericView>
    decreases v, n,
{
    if n == 0 || n > v.len() {
        Seq::empty()
    } else {
        erased_generics(v, (n - 1) as nat).push(erased_generic(v[n - 1]))
    }
}

pub open spec fn erased_generic(g: GenericArgument) -> GenericView
    decreases g, 0nat,
{
    match g {
        GenericArgument::Lifetime(_) => GenericView::Lifetime("'_"@),
        GenericArgument::Type(t) => GenericView::Type(erased(t)),
        GenericArgument::Other(s) => GenericView::Other(s@),
    }
}

pub proof fn lemma_erased_types_prefix(a: Vec<RustType>, b: Vec<RustType>, n: nat)
    requires
        n <= a.len(),
        n <= b.len(),
        forall|k: int| 0 <= k < n ==> a@[k] == b@[k],
    ensures
        erased_types(a, n) == erased_types(b, n),
    decreases n,
{
    if n > 0 {
        lemma_erased_types_prefix(a, b, (n - 1) as nat);
    }
}

pub proof fn lemma_erased_generics_prefix(a: Vec<GenericArgument>, b: Vec<GenericArgument>, n: nat)
    requires
        n <= a.len(),
        n <= b.len(),
        forall|k: int| 0 <= k < n ==> a@[k] == b@[k],
    ensures
        erased_generics(a, n) == erased_generics(b, n),
    decreases n,
{
    if n > 0 {
        lemma_erased_generics_prefix(a, b, (n - 1) as nat);
    }
}

/// `ty` with its lifetimes removed as [`erased`] says: `&'a T` becomes
/// `&T` and `T<'a, S>` becomes `T<'_, S>`.
pub fn remove_lifetime(ty: &RustType) -> (r: RustType)
    ensures
        r@ == erased(*ty),
    decreases ty, 0nat,
{
    match ty {
        RustType::Path(lc, segs) => {
            let s = erase_segments(segs);
            RustType::Path(*lc, s)
        },
        RustType::Reference(_, m, e) => {
            let inner = remove_lifetime(e);
            RustType::Reference(None, *m, Box::new(inner))
        },
        RustType::Tuple(v) => RustType::Tuple(erase_types(v)),
        RustType::Array(e, n) => {
            let inner = remove_lifetime(e);
            RustType::Array(Box::new(inner), n.clone())
        },
        RustType::Text(s) => RustType::Text(s.clone()),
    }
}

fn erase_types(v: &Vec<RustType>) -> (r: Vec<RustType>)
    ensures
        r.len() == v.len(),
        types_view(r, r.len() as nat) == erased_types(*v, v.len() as nat),
    decreases v, 0nat,
{
    let mut r: Vec<RustType> = Vec::new();
    let mut i: usize = 0;
    while i < v.len()
        invariant
            i <= v.len(),
            r.len() == i,
            types_view(r, i as nat) == erased_types(*v, i as nat),
        decreases v.len() - i,
    {
        let c = remove_lifetime(&v[i]);
        let ghost old_r = r;
        r.push(c);
        proof {
            lemma_types_view_prefix(old_r, r, i as nat);
        }
        i = i + 1;
    }
    r
}

fn erase_segments(segs: &Vec<PathSegment>) -> (r: Vec<PathSegment>)
    ensures
        segments_view(r, r.len() as nat) == erased_segments(*segs),
    decreases segs, 0nat,
{
    let n = segs.len();
    if n == 0 {
        return Vec::new();
    }
    let mut r: Vec<PathSegment> = Vec::new();
    let mut i: usize = 0;
    while i < n - 1
        invariant
            n == segs.len(),
            n > 0,
            i <= n - 1,
            r.len() == i,
            segments_view(r, i as nat) == segments_view(*segs, i as nat),
        decreases n - i,
    {
        let c = clone_segment(&segs[i]);
        let ghost old_r = r;
        r.push(c);
        proof {
            lemma_segments_view_prefix(old_r, r, i as nat);
        }
        i = i + 1;
    }
    let last = &segs[n - 1];
    let args = match &last.args {
        PathArguments::AngleBracketed(g) => PathArguments::AngleBracketed(erase_generics(g)),
        a => clone_arguments(a),
    };
    let seg = PathSegment { ident: last.ident.clone(), args };
    assert(segment_view(seg) == erased_last(segs@[n - 1]));
    let ghost old_r = r;
    r.push(seg);
    proof {
        lemma_segments_view_prefix(old_r, r, (n - 1) as nat);
    }
    assert(segments_view(r, n as nat) == segments_view(r, (n - 1) as nat).push(segment_view(r@[n - 1])));
    r
}

fn erase_generics(v: &Vec<GenericArgument>) -> (r: Vec<GenericArgument>)
    ensures
        r.len() == v.len(),
        generics_view(r, r.len() as nat) == erased_generics(*v, v.len() as nat),
    decreases v, 0nat,
{
    let mut r: Vec<GenericArgument> = Vec::new();
    let mut i: usize = 0;
    while i < v.len()
        invariant
            i <= v.len(),
            r.len() == i,
            generics_view(r, i as nat) == erased_generics(*v, i as nat),
        decreases v.len() - i,
    {
        let c = match &v[i] {
            GenericArgument::Lifetime(_) => GenericArgument::Lifetime(String::from_str("'_")),
            GenericArgument::Type(t) => GenericArgument::Type(remove_lifetime(t)),
            GenericArgument::Other(s) => GenericArgument::Other(s.clone()),
        };
        assert(generic_view(c) == erased_generic(v@[i as int]));
        let ghost old_r = r;
        r.push(c);
        proof {
            lemma_generics_view_prefix(old_r, r, i as nat);
        }
        i = i + 1;
    }
    r
}

} // verus!

verus! {

/// The identifier of the last segment of a path.
pub open spec fn last_ident(segs: Vec<PathSegment>) -> Option<Seq<char>> {
    if segs.len() == 0 {
        None
    } else {
        Some(segs[segs.len() - 1].ident@)
    }
}

/// The type with `Self` replaced by `s` where the rewrite of a method
/// signature reaches: a path whose last segment is `Self` becomes `s`; otherwise the
/// type arguments of its last segment are rewritten; a reference's target
/// is rewritten; every other type stays.
pub open spec fn replaced(t: RustType, s: TypeView) -> TypeView
    decreases t, 0nat,
{
    match t {
        RustType::Path(lc, segs) => if last_ident(segs) == Some("Self"@) {
            s
        } else {
            TypeView::Path(lc, replaced_segments(segs, s))
        },
        RustType::Reference(l, m, e) => TypeView::Reference(
            crate::attr::opt_view(l),
            m,
            Box::new(replaced(*e, s)),
        ),
        _ => type_view(t),
    }
}

pub open spec fn replaced_segments(segs: Vec<PathSegment>, s: TypeView) -> Seq<SegmentView>
    decreases segs, 0nat,
{
    if segs.len() == 0 {
        Seq::empty()
    } else {
        segments_view(segs, (segs.len() - 1) as nat).push(
            replaced_last(segs[segs.len() - 1], s),
        )
    }
}

pub open spec fn replaced_last(seg: PathSegment, s: TypeView) -> SegmentView
    decreases seg, 0nat,
{
    SegmentView {
        ident: seg.ident@,
        args: match seg.args {
            PathArguments::AngleBracketed(g) => ArgumentsView::AngleBracketed(
                replaced_generics(g, g.len() as nat, s),
            ),
            a => arguments_view(a),
        },
    }
}

pub open spec fn replaced_generics(v: Vec<GenericArgument>, n: nat, s: TypeView) -> Seq<
    GenericView,
>
    decreases v, n,
{
    if n == 0 || n > v.len() {
        Seq::empty()
    } else {
        replaced_generics(v, (n - 1) as nat, s).push(
            match v[n - 1] {
                GenericArgument::Type(t) => GenericView::Type(replaced(t, s)),
                g => generic_view(g),
            },
        )
    }
}

fn last_ident_is(segs: &Vec<PathSegment>, name: &str) -> (r: bool)
    ensures
        r == (last_ident(*segs) == Some(name@)),
{
    segs.len() > 0 && str_is(segs[segs.len() - 1].ident.as_str(), name)
}

/// `ty` with `Self` replaced by `self_ty` as [`replaced`] says.
pub fn replace_self_type(ty: &RustType, self_ty: &RustType) -> (r: RustType)
    ensures
        r@ == replaced(*ty, self_ty@),
    decreases ty, 0nat,
{
    match ty {
        RustType::Path(lc, segs) => {
            if last_ident_is(segs, "Self") {
                clone_type(self_ty)
            } else {
                let s = replace_segments(segs, self_ty);
                RustType::Path(*lc, s)
            }
        },
        RustType::Reference(l, m, e) => {
            let inner = replace_self_type(e, self_ty);
            RustType::Reference(clone_opt(l), *m, Box::new(inner))
        },
        _ => clone_type(ty),
    }
}

fn replace_segments(segs: &Vec<PathSegment>, self_ty: &RustType) -> (r: Vec<PathSegment>)
    ensures
        segments_view(r, r.len() as nat) == replaced_segments(*segs, self_ty@),
    decreases segs, 0nat,
{
    let n = segs.len();
    if n == 0 {
        return Vec::new();
    }
    let mut r: Vec<PathSegment> = Vec::new();
    let mut i: usize = 0;
    while i < n - 1
        invariant
            n == segs.len(),
            n > 0,
            i <= n - 1,
            r.len() == i,
            segments_view(r, i as nat) == segments_view(*segs, i as nat),
        decreases n - i,
    {
        let c = clone_segment(&segs[i]);
        let ghost old_r = r;
        r.push(c);
        proof {
            lemma_segments_view_prefix(old_r, r, i as nat);
        }
        i = i + 1;
    }
    let last = &segs[n - 1];
    let args = match &last.args {
        PathArguments::AngleBracketed(g) => PathArguments::AngleBracketed(
            replace_generics(g, self_ty),
        ),
        a => clone_arguments(a),
    };
    let seg = PathSegment { ident: last.ident.clone(), args };
    assert(segment_view(seg) == replaced_last(segs@[n - 1], self_ty@));
    let ghost old_r = r;
    r.push(seg);
    proof {
        lemma_segments_view_prefix(old_r, r, (n - 1) as nat);
    }
    assert(segments_view(r, n as nat) == segments_view(r, (n - 1) as nat).push(
        segment_view(r@[n - 1]),
    ));
    r
}

pub proof fn lemma_replaced_generics_prefix(
    a: Vec<GenericArgument>,
    b: Vec<GenericArgument>,
    n: nat,
    s: TypeView,
)
    requires
        n <= a.len(),
        n <= b.len(),
        forall|k: int| 0 <= k < n ==> a@[k] == b@[k],
    ensures
        replaced_generics(a, n, s) == replaced_generics(b, n, s),
    decreases n,
{
    if n > 0 {
        lemma_replaced_generics_prefix(a, b, (n - 1) as nat, s);
    }
}

fn replace_generics(v: &Vec<GenericArgument>, self_ty: &RustType) -> (r: Vec<GenericArgument>)
    ensures
        r.len() == v.len(),
        generics_view(r, r.len() as nat) == replaced_generics(*v, v.len() as nat, self_ty@),
    decreases v, 0nat,
{
    let mut r: Vec<GenericArgument> = Vec::new();
    let mut i: usize = 0;
    while i < v.len()
        invariant
            i <= v.len(),
            r.len() == i,
            generics_view(r, i as nat) == replaced_generics(*v, i as nat, self_ty@),
        decreases v.len() - i,
    {
        let c = match &v[i] {
            GenericArgument::Type(t) => GenericArgument::Type(replace_self_type(t, self_ty)),
            g => clone_generic(g),
        };
        assert(generic_view(c) == (match v@[i as int] {
            GenericArgument::Type(t) => GenericView::Type(replaced(t, self_ty@)),
            g => generic_view(g),
        }));
        let ghost old_r = r;
        r.push(c);
        proof {
            lemma_generics_view_prefix(old_r, r, i as nat);
        }
        i = i + 1;
    }
    r
}

/// The index of the first type among generic arguments, from `i` on.
pub open spec fn first_type_arg(g: Vec<GenericArgument>, i: int) -> Option<int>
    decreases g.len() - i,
{
    if i < 0 || i >= g.len() {
        None
    } else if g[i] is Type {
        Some(i)
    } else {
        first_type_arg(g, i + 1)
    }
}

/// The type `T` of `PyResult<T>` (however the path to `PyResult` is
/// written): the first type argument of a path whose last segment is
/// `PyResult<...>`; any other type is itself.
pub open spec fn unwrapped_pyresult(t: RustType) -> RustType {
    match t {
        RustType::Path(_, segs) => if last_ident(segs) == Some("PyResult"@) {
            match segs[segs.len() - 1].args {
                PathArguments::AngleBracketed(g) => match first_type_arg(g, 0) {
                    Some(k) => g[k]->Type_0,
                    None => t,
                },
                _ => t,
            }
        } else {
            t
        },
        _ => t,
    }
}

/// Extracts `T` from `PyResult<T>` (see [`unwrapped_pyresult`]).
#[verifier::loop_isolation(false)]
pub fn unwrap_pyresult(ty: &RustType) -> (r: &RustType)
    ensures
        *r == unwrapped_pyresult(*ty),
{
    match ty {
        RustType::Path(_, segs) => {
            if last_ident_is(segs, "PyResult") {
                match &segs[segs.len() - 1].args {
                    PathArguments::AngleBracketed(g) => {
                        let mut i: usize = 0;
                        while i < g.len()
                            invariant
                                i <= g.len(),
                                first_type_arg(*g, 0) == first_type_arg(*g, i as int),
                            decreases g.len() - i,
                        {
                            match &g[i] {
                                GenericArgument::Type(t) => {
                                    return t;
                                },
                                _ => {},
                            }
                            i = i + 1;
                        }
                        ty
                    },
                    _ => ty,
                }
            } else {
                ty
            }
        },
        _ => ty,
    }
}

} // verus!

verus! {

proof fn lemma_push_eq<A>(a: Seq<A>, x: A, b: Seq<A>, y: A)
    requires
        a.push(x) == b.push(y),
    ensures
        a == b,
        x == y,
{
    assert(a.push(x).drop_last() =~= a);
    assert(b.push(y).drop_last() =~= b);
    assert(a.push(x).last() == x);
    assert(b.push(y).last() == y);
}

proof fn lemma_segments_len(v: Vec<PathSegment>, n: nat)
    requires
        n <= v.len(),
    ensures
        segments_view(v, n).len() == n,
    decreases n,
{
    if n > 0 {
        lemma_segments_len(v, (n - 1) as nat);
    }
}

proof fn lemma_generics_len(v: Vec<GenericArgument>, n: nat)
    requires
        n <= v.len(),
    ensures
        generics_view(v, n).len() == n,
    decreases n,
{
    if n > 0 {
        lemma_generics_len(v, (n - 1) as nat);
    }
}

proof fn lemma_types_len(v: Vec<RustType>, n: nat)
    requires
        n <= v.len(),
    ensures
        types_view(v, n).len() == n,
    decreases n,
{
    if n > 0 {
        lemma_types_len(v, (n - 1) as nat);
    }
}

proof fn lemma_same_kind(t1: RustType, t2: RustType)
    requires
        t1@ == t2@,
    ensures
        t1 is Path <==> t2 is Path,
        t1 is Reference <==> t2 is Reference,
        t1 is Tuple <==> t2 is Tuple,
        t1 is Array <==> t2 is Array,
        t1 is Text <==> t2 is Text,
{
    match t1 {
        RustType::Path(..) => match t2 {
            RustType::Path(..) => {},
            RustType::Reference(..) => {},
            RustType::Tuple(..) => {},
            RustType::Array(..) => {},
            RustType::Text(..) => {},
        },
        RustType::Reference(..) => match t2 {
            RustType::Path(..) => {},
            RustType::Reference(..) => {},
            RustType::Tuple(..) => {},
            RustType::Array(..) => {},
            RustType::Text(..) => {},
        },
        RustType::Tuple(..) => match t2 {
            RustType::Path(..) => {},
            RustType::Reference(..) => {},
            RustType::Tuple(..) => {},
            RustType::Array(..) => {},
            RustType::Text(..) => {},
        },
        RustType::Array(..) => match t2 {
            RustType::Path(..) => {},
            RustType::Reference(..) => {},
            RustType::Tuple(..) => {},
            RustType::Array(..) => {},
            RustType::Text(..) => {},
        },
        RustType::Text(..) => match t2 {
            RustType::Path(..) => {},
            RustType::Reference(..) => {},
            RustType::Tuple(..) => {},
            RustType::Array(..) => {},
            RustType::Text(..) => {},
        },
    }
}

/// Erasing lifetimes and replacing `Self` depend on a type only through
/// its view.
pub proof fn lemma_view_determines(t1: RustType, t2: RustType, s: TypeView)
    requires
        t1@ == t2@,
    ensures
        erased(t1) == erased(t2),
        replaced(t1, s) == replaced(t2, s),
    decreases t1, 0nat,
{
    lemma_same_kind(t1, t2);
    match t1 {
        RustType::Path(lc1, segs1) => {
            match t2 {
                RustType::Path(lc2, segs2) => {
                    lemma_segments_len(segs1, segs1.len() as nat);
                    lemma_segments_len(segs2, segs2.len() as nat);
                    if segs1.len() > 0 {
                        let k = (segs1.len() - 1) as nat;
                        lemma_push_eq(
                            segments_view(segs1, k),
                            segment_view(segs1[k as int]),
                            segments_view(segs2, k),
                            segment_view(segs2[k as int]),
                        );
                        lemma_last_determines(segs1[k as int], segs2[k as int], s);
                        assert(segs1[k as int].ident@ == segs2[k as int].ident@);
                        assert(last_ident(segs1) == last_ident(segs2));
                        assert(erased_segments(segs1) == erased_segments(segs2));
                    assert(last_ident(segs1) == last_ident(segs2));
                    assert(replaced_segments(segs1, s) == replaced_segments(segs2, s));
                        assert(replaced_segments(segs1, s) == replaced_segments(segs2, s));
                    } else {
                        assert(segs2.len() == 0);
                    }
                    assert(lc1 == lc2);
                    assert(erased(t1) == TypeView::Path(lc1, erased_segments(segs1)));
                    assert(erased(t2) == TypeView::Path(lc2, erased_segments(segs2)));
                    assert(erased_segments(segs1) == erased_segments(segs2));
                    assert(last_ident(segs1) == last_ident(segs2));
                    assert(replaced_segments(segs1, s) == replaced_segments(segs2, s));
                },
                _ => {},
            }
        },
        RustType::Reference(l1, m1, e1) => {
            match t2 {
                RustType::Reference(l2, m2, e2) => {
                    lemma_view_determines(*e1, *e2, s);
                },
                _ => {},
            }
        },
        RustType::Tuple(v1) => {
            match t2 {
                RustType::Tuple(v2) => {
                    lemma_types_len(v1, v1.len() as nat);
                    lemma_types_len(v2, v2.len() as nat);
                    lemma_types_determine(v1, v2, v1.len() as nat);
                },
                _ => {},
            }
        },
        RustType::Array(e1, n1) => {
            match t2 {
                RustType::Array(e2, n2) => {
                    lemma_view_determines(*e1, *e2, s);
                },
                _ => {},
            }
        },
        RustType::Text(_) => {},
    }
}

proof fn lemma_last_determines(seg1: PathSegment, seg2: PathSegment, s: TypeView)
    requires
        segment_view(seg1) == segment_view(seg2),
    ensures
        erased_last(seg1) == erased_last(seg2),
        replaced_last(seg1, s) == replaced_last(seg2, s),
    decreases seg1, 0nat,
{
    match seg1.args {
        PathArguments::AngleBracketed(g1) => {
            match seg2.args {
                PathArguments::AngleBracketed(g2) => {
                    lemma_generics_len(g1, g1.len() as nat);
                    lemma_generics_len(g2, g2.len() as nat);
                    lemma_generics_determine(g1, g2, g1.len() as nat, s);
                },
                _ => {},
            }
        },
        _ => {},
    }
}

proof fn lemma_generics_determine(g1: Vec<GenericArgument>, g2: Vec<GenericArgument>, n: nat, s: TypeView)
    requires
        n <= g1.len(),
        n <= g2.len(),
        generics_view(g1, n) == generics_view(g2, n),
    ensures
        erased_generics(g1, n) == erased_generics(g2, n),
        replaced_generics(g1, n, s) == replaced_generics(g2, n, s),
    decreases g1, n,
{
    if n > 0 {
        lemma_push_eq(
            generics_view(g1, (n - 1) as nat),
            generic_view(g1[n - 1]),
            generics_view(g2, (n - 1) as nat),
            generic_view(g2[n - 1]),
        );
        lemma_generics_determine(g1, g2, (n - 1) as nat, s);
        match g1[n - 1] {
            GenericArgument::Type(t1) => {
                match g2[n - 1] {
                    GenericArgument::Type(t2) => {
                        lemma_view_determines(t1, t2, s);
                    },
                    _ => {},
                }
            },
            GenericArgument::Lifetime(_) => {
                match g2[n - 1] {
                    GenericArgument::Lifetime(_) => {},
                    _ => {},
                }
            },
            GenericArgument::Other(_) => {
                match g2[n - 1] {
                    GenericArgument::Other(_) => {},
                    _ => {},
                }
            },
        }
        assert(erased_generic(g1[n - 1]) == erased_generic(g2[n - 1]));
    }
}

proof fn lemma_types_determine(v1: Vec<RustType>, v2: Vec<RustType>, n: nat)
    requires
        n <= v1.len(),
        n <= v2.len(),
        types_view(v1, n) == types_view(v2, n),
    ensures
        erased_types(v1, n) == erased_types(v2, n),
    decreases v1, n,
{
    if n > 0 {
        lemma_push_eq(
            types_view(v1, (n - 1) as nat),
            type_view(v1[n - 1]),
            types_view(v2, (n - 1) as nat),
            type_view(v2[n - 1]),
        );
        lemma_types_determine(v1, v2, (n - 1) as nat);
        lemma_view_determines(v1[n - 1], v2[n - 1], TypeView::Tuple(Seq::empty()));
    }
}

} // verus!

verus! {

/// Erasing lifetimes a second time changes nothing: a type whose view is
/// an erased type erases to that same view. So
/// `remove_lifetime(&remove_lifetime(t))` has the view of
/// `remove_lifetime(t)`.
pub proof fn law_erasing_lifetimes_is_idempotent(t: RustType, t2: RustType)
    requires
        t2@ == erased(t),
    ensures
        erased(t2) == erased(t),
    decreases t, 0nat,
{
    match t {
        RustType::Path(lc, segs) => {
            match t2 {
                RustType::Path(lc2, segs2) => {
                    lemma_segments_len(segs2, segs2.len() as nat);
                    if segs.len() > 0 {
                        let k = (segs.len() - 1) as nat;
                        lemma_segments_len(segs, k);
                        assert(erased(t) == TypeView::Path(lc, erased_segments(segs)));
                        assert(t2@ == TypeView::Path(lc2, segments_view(segs2, segs2.len() as nat)));
                        assert(erased_segments(segs) == segments_view(segs, k).push(
                            erased_last(segs[k as int]),
                        ));
                        assert(segs2.len() == segs.len());
                        assert(segments_view(segs2, segs2.len() as nat) == segments_view(segs2, k).push(
                            segment_view(segs2[k as int]),
                        ));
                        lemma_push_eq(
                            segments_view(segs2, k),
                            segment_view(segs2[k as int]),
                            segments_view(segs, k),
                            erased_last(segs[k as int]),
                        );
                        lemma_last_erased_again(segs[k as int], segs2[k as int]);
                        assert(erased_segments(segs2) == erased_segments(segs));
                    } else {
                        assert(segs2.len() == 0);
                        assert(erased_segments(segs2) == erased_segments(segs));
                    }
                },
                RustType::Reference(..) => {},
                RustType::Tuple(..) => {},
                RustType::Array(..) => {},
                RustType::Text(..) => {},
            }
        },
        RustType::Reference(l, m, e) => {
            match t2 {
                RustType::Reference(l2, m2, e2) => {
                    law_erasing_lifetimes_is_idempotent(*e, *e2);
                },
                RustType::Path(..) => {},
                RustType::Tuple(..) => {},
                RustType::Array(..) => {},
                RustType::Text(..) => {},
            }
        },
        RustType::Tuple(v) => {
            match t2 {
                RustType::Tuple(v2) => {
                    lemma_types_len(v2, v2.len() as nat);
                    lemma_erased_types_len(v, v.len() as nat);
                    lemma_types_erased_again(v, v2, v.len() as nat);
                },
                RustType::Reference(..) => {},
                RustType::Path(..) => {},
                RustType::Array(..) => {},
                RustType::Text(..) => {},
            }
        },
        RustType::Array(e, n) => {
            match t2 {
                RustType::Array(e2, n2) => {
                    law_erasing_lifetimes_is_idempotent(*e, *e2);
                },
                RustType::Reference(..) => {},
                RustType::Tuple(..) => {},
                RustType::Path(..) => {},
                RustType::Text(..) => {},
            }
        },
        RustType::Text(_) => {
            match t2 {
                RustType::Text(..) => {},
                RustType::Reference(..) => {},
                RustType::Tuple(..) => {},
                RustType::Array(..) => {},
                RustType::Path(..) => {},
            }
        },
    }
}

proof fn lemma_erased_types_len(v: Vec<RustType>, n: nat)
    requires
        n <= v.len(),
    ensures
        erased_types(v, n).len() == n,
    decreases n,
{
    if n > 0 {
        lemma_erased_types_len(v, (n - 1) as nat);
    }
}

proof fn lemma_erased_generics_len(v: Vec<GenericArgument>, n: nat)
    requires
        n <= v.len(),
    ensures
        erased_generics(v, n).len() == n,
    decreases n,
{
    if n > 0 {
        lemma_erased_generics_len(v, (n - 1) as nat);
    }
}

proof fn lemma_last_erased_again(seg: PathSegment, seg2: PathSegment)
    requires
        segment_view(seg2) == erased_last(seg),
    ensures
        erased_last(seg2) == erased_last(seg),
    decreases seg, 0nat,
{
    match seg.args {
        PathArguments::AngleBracketed(g) => {
            match seg2.args {
                PathArguments::AngleBracketed(g2) => {
                    lemma_generics_len(g2, g2.len() as nat);
                    lemma_erased_generics_len(g, g.len() as nat);
                    lemma_generics_erased_again(g, g2, g.len() as nat);
                },
                PathArguments::NoArgs => {},
                PathArguments::Parenthesized(..) => {},
            }
        },
        PathArguments::NoArgs => {
            match seg2.args {
                PathArguments::AngleBracketed(..) => {},
                PathArguments::NoArgs => {},
                PathArguments::Parenthesized(..) => {},
            }
        },
        PathArguments::Parenthesized(..) => {
            match seg2.args {
                PathArguments::AngleBracketed(..) => {},
                PathArguments::NoArgs => {},
                PathArguments::Parenthesized(..) => {},
            }
        },
    }
}

proof fn lemma_generics_erased_again(g: Vec<GenericArgument>, g2: Vec<GenericArgument>, n: nat)
    requires
        n <= g.len(),
        n <= g2.len(),
        generics_view(g2, n) == erased_generics(g, n),
    ensures
        erased_generics(g2, n) == erased_generics(g, n),
    decreases g, n,
{
    if n > 0 {
        lemma_push_eq(
            generics_view(g2, (n - 1) as nat),
            generic_view(g2[n - 1]),
            erased_generics(g, (n - 1) as nat),
            erased_generic(g[n - 1]),
        );
        lemma_generics_erased_again(g, g2, (n - 1) as nat);
        match g[n - 1] {
            GenericArgument::Type(t) => {
                match g2[n - 1] {
                    GenericArgument::Type(t2) => {
                        law_erasing_lifetimes_is_idempotent(t, t2);
                    },
                    GenericArgument::Lifetime(..) => {},
                    GenericArgument::Other(..) => {},
                }
            },
            GenericArgument::Lifetime(_) => {
                match g2[n - 1] {
                    GenericArgument::Type(..) => {},
                    GenericArgument::Lifetime(..) => {},
                    GenericArgument::Other(..) => {},
                }
            },
            GenericArgument::Other(_) => {
                match g2[n - 1] {
                    GenericArgument::Type(..) => {},
                    GenericArgument::Lifetime(..) => {},
                    GenericArgument::Other(..) => {},
                }
            },
        }
        assert(erased_generic(g2[n - 1]) == erased_generic(g[n - 1]));
    }
}

proof fn lemma_types_erased_again(v: Vec<RustType>, v2: Vec<RustType>, n: nat)
    requires
        n <= v.len(),
        n <= v2.len(),
        types_view(v2, n) == erased_types(v, n),
    ensures
        erased_types(v2, n) == erased_types(v, n),
    decreases v, n,
{
    if n > 0 {
        lemma_push_eq(
            types_view(v2, (n - 1) as nat),
            type_view(v2[n - 1]),
            erased_types(v, (n - 1) as nat),
            erased(v[n - 1]),
        );
        lemma_types_erased_again(v, v2, (n - 1) as nat);
        law_erasing_lifetimes_is_idempotent(v[n - 1], v2[n - 1]);
    }
}

} // verus!
