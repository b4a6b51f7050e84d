//! A record with a lifetime and two type parameters, both fields filterable.
use vstd::prelude::*;
use vstd::std_specs::convert::IntoSpec;

use crate::key::FilterKey;
use crate::value_set::{admits, converted, holds_conversion_of, is_conversion_from, ValueSet};
use crate::Filter;

verus! {

/// A record whose `name_a` and `name_b` are filterable.
pub struct Generics<'a, A, B> {
    pub name_a: &'a A,
    pub name_b: B,
}

/// The filter of `Generics`: the accepted values of `name_a` and of `name_b`.
#[non_exhaustive]
pub struct GenericsFilter<'a, A: FilterKey, B: FilterKey> {
    pub name_as: ValueSet<&'a A>,
    pub name_bs: ValueSet<B>,
}

impl<'a, A: FilterKey, B: FilterKey> GenericsFilter<'a, A, B> {
    pub closed spec fn wf(&self) -> bool {
        self.name_as.wf() && self.name_bs.wf()
    }

    /// Whether `item` satisfies the filter: each field passes its own constraint.
    pub open spec fn accepts(&self, item: &Generics<'a, A, B>) -> bool {
        admits(self.name_as@, item.name_a@) && admits(self.name_bs@, item.name_b@)
    }

    /// Adds one accepted value of `name_a`.
    pub fn with_name_a<V: Into<&'a A>>(self, name_a: V) -> (r: Self)
        requires
            self.wf(),
        ensures
            r.wf(),
            r.name_bs@ == self.name_bs@,
            exists|t: &'a A| call_ensures(V::into, (name_a,), t) && r.name_as@ == self.name_as@.insert(t@),
            V::obeys_into_spec() ==> r.name_as@ == self.name_as@.insert(name_a.into_spec()@),
    {
        let mut f = self;
        f.name_as.insert_from(name_a);
        f
    }

    /// Adds each of `name_as` as an accepted value of `name_a`.
    pub fn with_name_as<V: Into<&'a A>>(self, name_as: Vec<V>) -> (r: Self)
        requires
            self.wf(),
        ensures
            r.wf(),
            self.name_as@.subset_of(r.name_as@),
            forall|i: int| 0 <= i < name_as@.len() ==> holds_conversion_of::<V, &'a A>(r.name_as@, #[trigger] name_as@[i]),
            forall|x: A::V| #[trigger] r.name_as@.contains(x) ==> self.name_as@.contains(x) || is_conversion_from::<V, &'a A>(name_as@, 0, x),
            r.name_bs@ == self.name_bs@,
            V::obeys_into_spec() ==> r.name_as@ == self.name_as@.union(
                converted::<V, &'a A>(name_as@),
            ),
    {
        let mut f = self;
        f.name_as.insert_all(name_as);
        f
    }

    /// Adds one accepted value of `name_b`.
    pub fn with_name_b<V: Into<B>>(self, name_b: V) -> (r: Self)
        requires
            self.wf(),
        ensures
            r.wf(),
            r.name_as@ == self.name_as@,
            exists|t: B| call_ensures(V::into, (name_b,), t) && r.name_bs@ == self.name_bs@.insert(t@),
            V::obeys_into_spec() ==> r.name_bs@ == self.name_bs@.insert(name_b.into_spec()@),
    {
        let mut f = self;
        f.name_bs.insert_from(name_b);
        f
    }

    /// Adds each of `name_bs` as an accepted value of `name_b`.
    pub fn with_name_bs<V: Into<B>>(self, name_bs: Vec<V>) -> (r: Self)
        requires
            self.wf(),
        ensures
            r.wf(),
            self.name_bs@.subset_of(r.name_bs@),
            forall|i: int| 0 <= i < name_bs@.len() ==> holds_conversion_of::<V, B>(r.name_bs@, #[trigger] name_bs@[i]),
            forall|x: B::V| #[trigger] r.name_bs@.contains(x) ==> self.name_bs@.contains(x) || is_conversion_from::<V, B>(name_bs@, 0, x),
            r.name_as@ == self.name_as@,
            V::obeys_into_spec() ==> r.name_bs@ == self.name_bs@.union(converted::<V, B>(name_bs@)),
    {
        let mut f = self;
        f.name_bs.insert_all(name_bs);
        f
    }

    /// Whether `item` satisfies the filter; the fields are tested in the order
    /// in which they are declared.
    pub fn matches(&self, item: &Generics<'a, A, B>) -> (r: bool)
        ensures
            r == self.accepts(item),
    {
        if !self.name_as.admits(&item.name_a) {
            return false;
        }
        if !self.name_bs.admits(&item.name_b) {
            return false;
        }
        true
    }
}

impl<'a, A: FilterKey, B: FilterKey> Default for GenericsFilter<'a, A, B> {
    fn default() -> (r: Self)
        ensures
            r.wf(),
            r.name_as@.is_empty(),
            r.name_bs@.is_empty(),
    {
        GenericsFilter { name_as: ValueSet::new(), name_bs: ValueSet::new() }
    }
}

impl<'a, A: FilterKey, B: FilterKey> Filter for Generics<'a, A, B> {
    type Filter = GenericsFilter<'a, A, B>;

    open spec fn unconstrained(f: GenericsFilter<'a, A, B>) -> bool {
        f.wf() && f.name_as@.is_empty() && f.name_bs@.is_empty()
    }

    open spec fn accepts(f: GenericsFilter<'a, A, B>, item: Generics<'a, A, B>) -> bool {
        f.accepts(&item)
    }

    proof fn lemma_unconstrained_accepts_all(f: GenericsFilter<'a, A, B>, item: Generics<'a, A, B>) {
    }

    fn filter() -> (f: GenericsFilter<'a, A, B>) {
        GenericsFilter::default()
    }
}

/// With one value accepted for `name_a` and none for `name_b`, the filter
/// admits exactly the records whose `name_a` is that value.
pub proof fn lemma_single_field<'a, A: FilterKey, B: FilterKey>(
    f: GenericsFilter<'a, A, B>,
    v: A::V,
    item: Generics<'a, A, B>,
)
    requires
        f.name_as@ == Set::<A::V>::empty().insert(v),
        f.name_bs@.is_empty(),
    ensures
        f.accepts(&item) <==> item.name_a@ == v,
{
    assert(f.name_as@.contains(v));
}

/// With both fields constrained, a record is admitted only when each field
/// holds one of its accepted values; holding one of them is not enough.
pub proof fn lemma_fields_are_conjoined<'a, A: FilterKey, B: FilterKey>(
    f: GenericsFilter<'a, A, B>,
    item: Generics<'a, A, B>,
)
    requires
        !f.name_as@.is_empty(),
        !f.name_bs@.is_empty(),
    ensures
        f.accepts(&item) <==> (f.name_as@.contains(item.name_a@) && f.name_bs@.contains(item.name_b@)),
        !f.name_bs@.contains(item.name_b@) ==> !f.accepts(&item),
        !f.name_as@.contains(item.name_a@) ==> !f.accepts(&item),
{
}

} // verus!
