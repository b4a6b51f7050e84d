//! Values that a filter can hold and compare.
use vstd::prelude::*;

verus! {

/// A value that can be stored in a filter's accepted set: two values are the
/// same exactly when their views are equal.
pub trait FilterKey: View + Sized {
    fn same(&self, other: &Self) -> (r: bool)
        ensures
            r == (self@ == other@),
    ;
}

impl FilterKey for String {
    fn same(&self, other: &Self) -> (r: bool) {
        *self == *other
    }
}

impl<'a, T: FilterKey> FilterKey for &'a T {
    fn same(&self, other: &Self) -> (r: bool) {
        (**self).same(*other)
    }
}

impl FilterKey for () {
    fn same(&self, other: &Self) -> (r: bool) {
        true
    }
}

impl FilterKey for bool {
    fn same(&self, other: &Self) -> (r: bool) {
        *self == *other
    }
}

impl FilterKey for u64 {
    fn same(&self, other: &Self) -> (r: bool) {
        *self == *other
    }
}

impl FilterKey for i64 {
    fn same(&self, other: &Self) -> (r: bool) {
        *self == *other
    }
}

impl FilterKey for u32 {
    fn same(&self, other: &Self) -> (r: bool) {
        *self == *other
    }
}

impl FilterKey for i32 {
    fn same(&self, other: &Self) -> (r: bool) {
        *self == *other
    }
}

} // verus!
