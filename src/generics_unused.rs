//! A record with a lifetime and two type parameters, where only the field of
//! the second type parameter is filterable.
use vstd::prelude::*;
use vstd::std_specs::convert::IntoSpec;

use std::marker::PhantomData;

use crate::key::FilterKey;
use crate::value_set::{admits, converted, holds_conversion_of, is_conversion_from, ValueSet};
use crate::Filter;

verus! {

/// A record whose `name_b` is filterable and whose `name_a` is not.
pub struct Generics<'a, A, B> {
    pub name_a: &'a A,
    pub name_b: B,
}

/// The filter of `Generics`: the accepted values of `name_b`. The lifetime and
/// the first type parameter, which no filterable field uses, stand in markers
/// that hold nothing, so that the filter takes the record's parameters.
#[non_exhaustive]
pub struct GenericsFilter<'a, A, B: FilterKey> {
    pub name_bs: ValueSet<B>,
    pub _phantom_data0: PhantomData<&'a ()>,
    pub _phantom_data1: PhantomData<A>,
}

impl<'a, A, B: FilterKey> GenericsFilter<'a, A, B> {
    pub closed spec fn wf(&self) -> bool {
        self.name_bs.wf()
    }

    /// Whether `item` satisfies the filter; `name_a` plays no part.
    pub open spec fn accepts(&self, item: &Generics<'a, A, B>) -> bool {
        admits(self.name_bs@, item.name_b@)
    }

    /// Adds one accepted value of `name_b`.
    pub fn with_name_b<V: Into<B>>(self, name_b: V) -> (r: Self)
        requires
            self.wf(),
        ensures
            r.wf(),
            exists|t: B| call_ensures(V::into, (name_b,), t) && r.name_bs@ == self.name_bs@.insert(t@),
            V::obeys_into_spec() ==> r.name_bs@ == self.name_bs@.insert(name_b.into_spec()@),
    {
        let mut f = self;
        f.name_bs.insert_from(name_b);
        f
    }

    /// Adds each of `name_bs` as an accepted value of `name_b`.
    pub fn with_name_bs<V: Into<B>>(self, name_bs: Vec<V>) -> (r: Self)
        requires
            self.wf(),
        ensures
            r.wf(),
            self.name_bs@.subset_of(r.name_bs@),
            forall|i: int| 0 <= i < name_bs@.len() ==> holds_conversion_of::<V, B>(r.name_bs@, #[trigger] name_bs@[i]),
            forall|x: B::V| #[trigger] r.name_bs@.contains(x) ==> self.name_bs@.contains(x) || is_conversion_from::<V, B>(name_bs@, 0, x),
            V::obeys_into_spec() ==> r.name_bs@ == self.name_bs@.union(converted::<V, B>(name_bs@)),
    {
        let mut f = self;
        f.name_bs.insert_all(name_bs);
        f
    }

    /// Whether `item` satisfies the filter.
    pub fn matches(&self, item: &Generics<'a, A, B>) -> (r: bool)
        ensures
            r == self.accepts(item),
    {
        if !self.name_bs.admits(&item.name_b) {
            return false;
        }
        true
    }
}

impl<'a, A, B: FilterKey> Default for GenericsFilter<'a, A, B> {
    fn default() -> (r: Self)
        ensures
            r.wf(),
            r.name_bs@.is_empty(),
    {
        GenericsFilter { name_bs: ValueSet::new(), _phantom_data0: PhantomData, _phantom_data1: PhantomData }
    }
}

impl<'a, A, B: FilterKey> Filter for Generics<'a, A, B> {
    type Filter = GenericsFilter<'a, A, B>;

    open spec fn unconstrained(f: GenericsFilter<'a, A, B>) -> bool {
        f.wf() && f.name_bs@.is_empty()
    }

    open spec fn accepts(f: GenericsFilter<'a, A, B>, item: Generics<'a, A, B>) -> bool {
        f.accepts(&item)
    }

    proof fn lemma_unconstrained_accepts_all(f: GenericsFilter<'a, A, B>, item: Generics<'a, A, B>) {
    }

    fn filter() -> (f: GenericsFilter<'a, A, B>) {
        GenericsFilter::default()
    }
}

/// Whether a record is admitted does not depend on `name_a`, which is not
/// filterable: two records with the same `name_b` are admitted alike.
pub proof fn lemma_unfiltered_field_ignored<'a, A, B: FilterKey>(
    f: GenericsFilter<'a, A, B>,
    x: Generics<'a, A, B>,
    y: Generics<'a, A, B>,
)
    requires
        x.name_b@ == y.name_b@,
    ensures
        f.accepts(&x) == f.accepts(&y),
{
}

} // verus!
