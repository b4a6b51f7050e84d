//! The set of accepted values of one filterable field.
use vstd::prelude::*;

use vstd::std_specs::convert::IntoSpec;

use crate::key::FilterKey;

verus! {

/// A field's constraint, given the set of its accepted values: an empty set
/// places no constraint, otherwise the value must be one of them.
pub open spec fn admits<V>(accepted: Set<V>, v: V) -> bool {
    accepted.is_empty() || accepted.contains(v)
}

/// The views of what the values of `values` convert into.
pub open spec fn converted<V: Into<T>, T: View>(values: Seq<V>) -> Set<T::V> {
    Set::new(|x: T::V| exists|i: int| 0 <= i < values.len() && (#[trigger] values[i]).into_spec()@ == x)
}

/// With nothing accepted, a field admits every value.
pub proof fn lemma_empty_admits_all<V>(v: V)
    ensures
        admits(Set::<V>::empty(), v),
{
}

/// With one value accepted, a field admits exactly that value.
pub proof fn lemma_single_value_admits_it<V>(v: V, x: V)
    ensures
        admits(Set::<V>::empty().insert(v), x) <==> x == v,
{
    assert(Set::<V>::empty().insert(v).contains(v));
}

/// Accepting many values at once admits what any one of them, accepted alone,
/// would admit, and nothing more.
pub proof fn lemma_bulk_is_union<V: Into<T>, T: View>(values: Seq<V>, x: T::V)
    requires
        values.len() > 0,
    ensures
        admits(Set::<T::V>::empty().union(converted::<V, T>(values)), x) <==> exists|i: int|
            0 <= i < values.len() && admits(
                Set::<T::V>::empty().insert((#[trigger] values[i]).into_spec()@),
                x,
            ),
{
    let all = Set::<T::V>::empty().union(converted::<V, T>(values));
    assert(all.contains(values[0].into_spec()@));
    if admits(all, x) {
        let i = choose|i: int| 0 <= i < values.len() && (#[trigger] values[i]).into_spec()@ == x;
        assert(Set::<T::V>::empty().insert(values[i].into_spec()@).contains(x));
    }
    if exists|i: int|
        0 <= i < values.len() && admits(Set::<T::V>::empty().insert((#[trigger] values[i]).into_spec()@), x) {
        let i = choose|i: int|
            0 <= i < values.len() && admits(Set::<T::V>::empty().insert((#[trigger] values[i]).into_spec()@), x);
        assert(Set::<T::V>::empty().insert(values[i].into_spec()@).contains(values[i].into_spec()@));
        assert(converted::<V, T>(values).contains(values[i].into_spec()@));
    }
}

/// A value repeated among many values accepted at once changes nothing.
pub proof fn lemma_bulk_ignores_repeats<V: Into<T>, T: View>(values: Seq<V>, i: int)
    requires
        0 <= i < values.len(),
    ensures
        converted::<V, T>(values.push(values[i])) == converted::<V, T>(values),
{
    let more = values.push(values[i]);
    assert(converted::<V, T>(more) =~= converted::<V, T>(values)) by {
        assert forall|x: T::V| converted::<V, T>(values).contains(x) implies converted::<V, T>(more).contains(x) by {
            let k = choose|k: int| 0 <= k < values.len() && (#[trigger] values[k]).into_spec()@ == x;
            assert(more[k] == values[k]);
        }
        assert forall|x: T::V| converted::<V, T>(more).contains(x) implies converted::<V, T>(values).contains(x) by {
            let k = choose|k: int| 0 <= k < more.len() && (#[trigger] more[k]).into_spec()@ == x;
            if k < values.len() {
                assert(more[k] == values[k]);
            } else {
                assert(more[k] == values[i]);
            }
        }
    }
}

/// Some value that `v` converts into has its view in `s`.
pub open spec fn holds_conversion_of<V: Into<T>, T: View>(s: Set<T::V>, v: V) -> bool {
    exists|t: T| call_ensures(V::into, (v,), t) && s.contains(t@)
}

/// `x` is the view of a value that one of `values`, from position `lo` on,
/// converts into.
pub open spec fn is_conversion_from<V: Into<T>, T: View>(values: Seq<V>, lo: int, x: T::V) -> bool {
    exists|i: int, t: T| lo <= i < values.len() && #[trigger] call_ensures(V::into, (values[i],), t) && t@ == x
}

/// The accepted values of one field, without repeats.
pub struct ValueSet<T> {
    items: Vec<T>,
}

impl<T: FilterKey> View for ValueSet<T> {
    type V = Set<T::V>;

    closed spec fn view(&self) -> Set<T::V> {
        Set::new(|v: T::V| exists|i: int| 0 <= i < self.items@.len() && #[trigger] self.items@[i]@ == v)
    }
}

impl<T: FilterKey> ValueSet<T> {
    /// No two stored values have the same view.
    pub closed spec fn wf(&self) -> bool {
        forall|i: int, j: int|
            0 <= i < j < self.items@.len() ==> #[trigger] self.items@[i]@ != #[trigger] self.items@[j]@
    }

    /// An empty set of accepted values.
    pub fn new() -> (r: Self)
        ensures
            r.wf(),
            r@ == Set::<T::V>::empty(),
    {
        let r = ValueSet { items: Vec::new() };
        assert(r@ =~= Set::<T::V>::empty());
        r
    }

    /// Whether no value is accepted yet.
    pub fn is_empty(&self) -> (r: bool)
        ensures
            r == self@.is_empty(),
    {
        if self.items.len() == 0 {
            assert(self@ =~= Set::<T::V>::empty());
            true
        } else {
            assert(self@.contains(self.items@[0]@));
            false
        }
    }

    /// Whether `v` is among the accepted values.
    pub fn contains(&self, v: &T) -> (r: bool)
        ensures
            r == self@.contains(v@),
    {
        let mut i: usize = 0;
        while i < self.items.len()
            invariant
                0 <= i <= self.items@.len(),
                forall|k: int| 0 <= k < i ==> self.items@[k]@ != v@,
            decreases self.items@.len() - i,
        {
            if self.items[i].same(v) {
                assert(self@.contains(v@));
                return true;
            }
            i = i + 1;
        }
        false
    }

    /// Adds `v` to the accepted values; a value already there changes nothing.
    pub fn insert(&mut self, v: T)
        requires
            old(self).wf(),
        ensures
            final(self).wf(),
            final(self)@ == old(self)@.insert(v@),
    {
        if !self.contains(&v) {
            let ghost before = self.items@;
            self.items.push(v);
            assert(self.items@.len() == before.len() + 1);
            assert(forall|k: int| 0 <= k < before.len() ==> self.items@[k] == before[k]);
            assert(self@ =~= old(self)@.insert(v@)) by {
                assert(self.items@[before.len() as int]@ == v@);
            }
        } else {
            assert(self@ =~= old(self)@.insert(v@));
        }
    }

    /// Whether the field value `v` passes this field's constraint.
    pub fn admits(&self, v: &T) -> (r: bool)
        ensures
            r == admits(self@, v@),
    {
        self.is_empty() || self.contains(v)
    }

    /// Converts `v` and adds it to the accepted values.
    pub fn insert_from<V: Into<T>>(&mut self, v: V)
        requires
            old(self).wf(),
        ensures
            final(self).wf(),
            exists|t: T| call_ensures(V::into, (v,), t) && final(self)@ == old(self)@.insert(t@),
            V::obeys_into_spec() ==> final(self)@ == old(self)@.insert(v.into_spec()@),
    {
        let t: T = v.into();
        self.insert(t);
    }

    /// Converts each of `values` and adds it to the accepted values.
    pub fn insert_all<V: Into<T>>(&mut self, values: Vec<V>)
        requires
            old(self).wf(),
        ensures
            final(self).wf(),
            old(self)@.subset_of(final(self)@),
            forall|i: int| 0 <= i < values@.len() ==> holds_conversion_of::<V, T>(final(self)@, #[trigger] values@[i]),
            forall|x: T::V| #[trigger] final(self)@.contains(x) ==> old(self)@.contains(x) || is_conversion_from::<V, T>(values@, 0, x),
            V::obeys_into_spec() ==> final(self)@ == old(self)@.union(converted::<V, T>(values@)),
    {
        let ghost all = values@;
        let mut values = values;
        while values.len() > 0
            invariant
                self.wf(),
                values@.len() <= all.len(),
                values@ == all.subrange(0, values@.len() as int),
                old(self)@.subset_of(self@),
                forall|k: int| values@.len() <= k < all.len() ==> holds_conversion_of::<V, T>(self@, #[trigger] all[k]),
                forall|x: T::V| #[trigger] self@.contains(x) ==> old(self)@.contains(x) || is_conversion_from::<V, T>(all, values@.len() as int, x),
                V::obeys_into_spec() ==> self@ == old(self)@.union(
                    converted::<V, T>(all.subrange(values@.len() as int, all.len() as int)),
                ),
            decreases values@.len(),
        {
            let ghost n = values@.len() as int;
            let v = values.pop().unwrap();
            assert(v == all[n - 1]);
            let ghost before = self@;
            self.insert_from(v);
            proof {
                let t = choose|t: T| call_ensures(V::into, (v,), t) && self@ == before.insert(t@);
                assert(holds_conversion_of::<V, T>(self@, all[n - 1]));
                assert forall|k: int| n - 1 <= k < all.len() implies holds_conversion_of::<V, T>(self@, #[trigger] all[k]) by {
                    if k >= n {
                        assert(holds_conversion_of::<V, T>(before, all[k]));
                        let w = choose|w: T| call_ensures(V::into, (all[k],), w) && before.contains(w@);
                        assert(self@.contains(w@));
                    }
                }
                assert forall|x: T::V| #[trigger] self@.contains(x) implies old(self)@.contains(x) || is_conversion_from::<V, T>(all, n - 1, x) by {
                    if x == t@ {
                        assert(call_ensures(V::into, (all[n - 1],), t));
                    } else {
                        assert(before.contains(x));
                        if !old(self)@.contains(x) {
                            let (i, w) = choose|i: int, w: T| n <= i < all.len() && #[trigger] call_ensures(V::into, (all[i],), w) && w@ == x;
                            assert(call_ensures(V::into, (all[i],), w));
                        }
                    }
                }
                if V::obeys_into_spec() {
                    let rest = all.subrange(n, all.len() as int);
                    let more = all.subrange(n - 1, all.len() as int);
                    assert(converted::<V, T>(more) =~= converted::<V, T>(rest).insert(v.into_spec()@)) by {
                        assert(more[0] == v);
                        assert forall|x: T::V| converted::<V, T>(rest).contains(x) implies converted::<V, T>(more).contains(x) by {
                            let i = choose|i: int| 0 <= i < rest.len() && (#[trigger] rest[i]).into_spec()@ == x;
                            assert(more[i + 1] == rest[i]);
                        }
                        assert forall|x: T::V| converted::<V, T>(more).contains(x) implies x == v.into_spec()@ || converted::<V, T>(rest).contains(x) by {
                            let i = choose|i: int| 0 <= i < more.len() && (#[trigger] more[i]).into_spec()@ == x;
                            if i > 0 {
                                assert(rest[i - 1] == more[i]);
                            }
                        }
                    }
                    assert(self@ =~= old(self)@.union(converted::<V, T>(more)));
                }
            }
        }
        proof {
            assert(all.subrange(0, all.len() as int) =~= all);
        }
    }
}

} // verus!
