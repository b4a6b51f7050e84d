//! A second record with one filterable text field.
use vstd::prelude::*;
use vstd::std_specs::convert::IntoSpec;

use crate::value_set::{admits, converted, holds_conversion_of, is_conversion_from, ValueSet};
use crate::Filter;

verus! {

/// A record whose `name` is filterable.
pub struct MyStruct {
    pub name: String,
}

/// The filter of `MyStruct`: the accepted values of `name`.
#[non_exhaustive]
pub struct MyStructFilter {
    pub names: ValueSet<String>,
}

impl MyStructFilter {
    pub closed spec fn wf(&self) -> bool {
        self.names.wf()
    }

    /// Whether `item` satisfies the filter.
    pub open spec fn accepts(&self, item: &MyStruct) -> bool {
        admits(self.names@, item.name@)
    }

    /// Adds one accepted value of `name`.
    pub fn with_name<V: Into<String>>(self, name: V) -> (r: Self)
        requires
            self.wf(),
        ensures
            r.wf(),
            exists|t: String| call_ensures(V::into, (name,), t) && r.names@ == self.names@.insert(t@),
            V::obeys_into_spec() ==> r.names@ == self.names@.insert(name.into_spec()@),
    {
        let mut f = self;
        f.names.insert_from(name);
        f
    }

    /// Adds each of `names` as an accepted value of `name`.
    pub fn with_names<V: Into<String>>(self, names: Vec<V>) -> (r: Self)
        requires
            self.wf(),
        ensures
            r.wf(),
            self.names@.subset_of(r.names@),
            forall|i: int| 0 <= i < names@.len() ==> holds_conversion_of::<V, String>(r.names@, #[trigger] names@[i]),
            forall|x: Seq<char>| #[trigger] r.names@.contains(x) ==> self.names@.contains(x) || is_conversion_from::<V, String>(names@, 0, x),
            V::obeys_into_spec() ==> r.names@ == self.names@.union(converted::<V, String>(names@)),
    {
        let mut f = self;
        f.names.insert_all(names);
        f
    }

    /// Whether `item` satisfies the filter.
    pub fn matches(&self, item: &MyStruct) -> (r: bool)
        ensures
            r == self.accepts(item),
    {
        if !self.names.admits(&item.name) {
            return false;
        }
        true
    }
}

impl Default for MyStructFilter {
    fn default() -> (r: Self)
        ensures
            r.wf(),
            r.names@.is_empty(),
    {
        MyStructFilter { names: ValueSet::new() }
    }
}

impl Filter for MyStruct {
    type Filter = MyStructFilter;

    open spec fn unconstrained(f: MyStructFilter) -> bool {
        f.wf() && f.names@.is_empty()
    }

    open spec fn accepts(f: MyStructFilter, item: MyStruct) -> bool {
        f.accepts(&item)
    }

    proof fn lemma_unconstrained_accepts_all(f: MyStructFilter, item: MyStruct) {
    }

    fn filter() -> (f: MyStructFilter) {
        MyStructFilter::default()
    }
}

} // verus!
