//! Finding settings of a given kind among the settings read from PyO3's
//! attributes.

use vstd::prelude::*;
use crate::attr::{Attr, AttrView};

verus! {

/// A kind of [`Attr`], without its payload.
#[derive(Debug, Clone, Copy, PartialEq, Eq, Structural)]
pub enum AttrTag {
    Name,
    Get,
    GetAll,
    SetField,
    SetAll,
    Module,
    Constructor,
    Signature,
    RenameAll,
    Extends,
    New,
    Getter,
    Setter,
    StaticMethod,
    ClassMethod,
    ClassAttr,
}

/// Whether a setting is of the given kind.
pub open spec fn tagged(a: AttrView, t: AttrTag) -> bool {
    match t {
        AttrTag::Name => a is Name,
        AttrTag::Get => a is Get,
        AttrTag::GetAll => a is GetAll,
        AttrTag::SetField => a is SetField,
        AttrTag::SetAll => a is SetAll,
        AttrTag::Module => a is Module,
        AttrTag::Constructor => a is Constructor,
        AttrTag::Signature => a is Signature,
        AttrTag::RenameAll => a is RenameAll,
        AttrTag::Extends => a is Extends,
        AttrTag::New => a is New,
        AttrTag::Getter => a is Getter,
        AttrTag::Setter => a is Setter,
        AttrTag::StaticMethod => a is StaticMethod,
        AttrTag::ClassMethod => a is ClassMethod,
        AttrTag::ClassAttr => a is ClassAttr,
    }
}

/// The index of the first setting of kind `t` at or after `i`, or the
/// length of `s` when there is none.
pub open spec fn first_tagged(s: Seq<AttrView>, t: AttrTag, i: int) -> int
    decreases s.len() - i,
{
    if 0 <= i < s.len() {
        if tagged(s[i], t) {
            i
        } else {
            first_tagged(s, t, i + 1)
        }
    } else {
        s.len() as int
    }
}

/// Whether some setting of `s` is of kind `t`.
pub open spec fn has_tagged(s: Seq<AttrView>, t: AttrTag) -> bool {
    first_tagged(s, t, 0) < s.len()
}

/// The index of the last setting of kind `t` among the first `n`.
pub open spec fn last_tagged(s: Seq<AttrView>, t: AttrTag, n: nat) -> Option<int>
    decreases n,
{
    if n == 0 || n > s.len() {
        None
    } else if tagged(s[n - 1], t) {
        Some(n - 1)
    } else {
        last_tagged(s, t, (n - 1) as nat)
    }
}

pub proof fn lemma_first_tagged_bounds(s: Seq<AttrView>, t: AttrTag, i: int)
    requires
        0 <= i <= s.len(),
    ensures
        i <= first_tagged(s, t, i) <= s.len(),
        first_tagged(s, t, i) < s.len() ==> tagged(s[first_tagged(s, t, i)], t),
        forall|j: int| i <= j < first_tagged(s, t, i) ==> !tagged(#[trigger] s[j], t),
    decreases s.len() - i,
{
    if i < s.len() && !tagged(s[i], t) {
        lemma_first_tagged_bounds(s, t, i + 1);
    }
}

pub proof fn lemma_last_tagged_bounds(s: Seq<AttrView>, t: AttrTag, n: nat)
    requires
        n <= s.len(),
    ensures
        match last_tagged(s, t, n) {
            Some(k) => 0 <= k < n && tagged(s[k], t),
            None => forall|j: int| 0 <= j < n ==> !tagged(#[trigger] s[j], t),
        },
    decreases n,
{
    if n > 0 && !tagged(s[n - 1], t) {
        lemma_last_tagged_bounds(s, t, (n - 1) as nat);
    }
}

/// Whether a setting is of the given kind.
pub fn attr_tagged(a: &Attr, t: AttrTag) -> (r: bool)
    ensures
        r == tagged(a@, t),
{
    match t {
        AttrTag::Name => matches!(a, Attr::Name(_)),
        AttrTag::Get => matches!(a, Attr::Get),
        AttrTag::GetAll => matches!(a, Attr::GetAll),
        AttrTag::SetField => matches!(a, Attr::SetField),
        AttrTag::SetAll => matches!(a, Attr::SetAll),
        AttrTag::Module => matches!(a, Attr::Module(_)),
        AttrTag::Constructor => matches!(a, Attr::Constructor(_)),
        AttrTag::Signature => matches!(a, Attr::Signature(_)),
        AttrTag::RenameAll => matches!(a, Attr::RenameAll(_)),
        AttrTag::Extends => matches!(a, Attr::Extends(_)),
        AttrTag::New => matches!(a, Attr::New),
        AttrTag::Getter => matches!(a, Attr::Getter(_)),
        AttrTag::Setter => matches!(a, Attr::Setter(_)),
        AttrTag::StaticMethod => matches!(a, Attr::StaticMethod),
        AttrTag::ClassMethod => matches!(a, Attr::ClassMethod),
        AttrTag::ClassAttr => matches!(a, Attr::ClassAttr),
    }
}

/// The index of the first setting of kind `t` (see [`first_tagged`]).
pub fn first_of(v: &Vec<Attr>, t: AttrTag) -> (r: usize)
    ensures
        r == first_tagged(v@.map_values(|a: Attr| a@), t, 0),
        r <= v.len(),
{
    let ghost s = v@.map_values(|a: Attr| a@);
    let mut i: usize = 0;
    while i < v.len()
        invariant
            i <= v.len(),
            s == v@.map_values(|a: Attr| a@),
            first_tagged(s, t, 0) == first_tagged(s, t, i as int),
        decreases v.len() - i,
    {
        assert(s[i as int] == v@[i as int]@);
        if attr_tagged(&v[i], t) {
            return i;
        }
        i = i + 1;
    }
    i
}

/// The index of the last setting of kind `t`, if any.
pub fn last_of(v: &Vec<Attr>, t: AttrTag) -> (r: Option<usize>)
    ensures
        match (r, last_tagged(v@.map_values(|a: Attr| a@), t, v.len() as nat)) {
            (Some(a), Some(b)) => a == b,
            (None, None) => true,
            _ => false,
        },
{
    let ghost s = v@.map_values(|a: Attr| a@);
    let mut found: Option<usize> = None;
    let mut i: usize = 0;
    while i < v.len()
        invariant
            i <= v.len(),
            s == v@.map_values(|a: Attr| a@),
            match (found, last_tagged(s, t, i as nat)) {
                (Some(a), Some(b)) => a == b,
                (None, None) => true,
                _ => false,
            },
        decreases v.len() - i,
    {
        assert(s[i as int] == v@[i as int]@);
        if attr_tagged(&v[i], t) {
            found = Some(i);
        }
        i = i + 1;
    }
    found
}

/// Whether some setting is of kind `t`.
pub fn has_attr(v: &Vec<Attr>, t: AttrTag) -> (r: bool)
    ensures
        r == has_tagged(v@.map_values(|a: Attr| a@), t),
{
    first_of(v, t) < v.len()
}

} // verus!
