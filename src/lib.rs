//! Struct filters: for a record type, a companion filter type that holds a set
//! of accepted values per filterable field, builder methods that add accepted
//! values, and a predicate that tells whether a record satisfies the filter.
//!
//! Within a field the accepted values are alternatives (OR); across fields every
//! constrained field must hold (AND); a field with no accepted values places no
//! constraint on records.
use vstd::prelude::*;

pub mod basic;
pub mod generator;
pub mod generics;
pub mod generics_unused;
pub mod key;
pub mod my_struct;
pub mod value_set;

pub use basic::{Basic, BasicFilter};
pub use key::FilterKey;
pub use my_struct::{MyStruct, MyStructFilter};
pub use value_set::ValueSet;

verus! {

/// Create a filter for this record type.
pub trait Filter: Sized {
    /// The filter type that belongs to this record type.
    type Filter;

    /// The filter places no constraint on any field.
    spec fn unconstrained(f: Self::Filter) -> bool;

    /// The filter admits the record.
    spec fn accepts(f: Self::Filter, item: Self) -> bool;

    /// A filter with no constraint admits every record.
    proof fn lemma_unconstrained_accepts_all(f: Self::Filter, item: Self)
        requires
            Self::unconstrained(f),
        ensures
            Self::accepts(f, item),
    ;

    /// Create a new filter for this type with no rules.
    fn filter() -> (f: Self::Filter)
        ensures
            Self::unconstrained(f),
    ;
}

} // verus!
