use struf::generics_unused::Generics;
use struf::Filter;

#[test]
fn generics_unused_test_single() {
    let name_b = "name_b".to_string();
    let filter = Generics::filter().with_name_b(name_b.clone());
    // Match on B
    assert!(filter.matches(&Generics {
        name_a: &"",
        name_b: name_b.clone(),
    }));
    // No match on B
    assert!(!filter.matches(&Generics {
        name_a: &"",
        name_b: "not b".to_string(),
    }));
}

#[test]
fn generics_unused_test_multiple() {
    let name_1 = "name_1".to_string();
    let name_2 = "name_2".to_string();
    let filter = Generics::filter().with_name_bs(vec![&name_1, &name_2]);

    // Match
    assert!(filter.matches(&Generics {
        name_a: &3,
        name_b: name_1.clone()
    }));

    // Match
    assert!(filter.matches(&Generics {
        name_a: &3,
        name_b: name_2.clone()
    }));

    // Does not match
    assert!(!filter.matches(&Generics {
        name_a: &3,
        name_b: "not b".to_string()
    }));
}

#[test]
fn unfiltered_field_never_matters() {
    let filter = Generics::filter().with_name_b(true);
    assert!(filter.matches(&Generics { name_a: &1u32, name_b: true }));
    assert!(filter.matches(&Generics { name_a: &2u32, name_b: true }));
    assert!(!filter.matches(&Generics { name_a: &1u32, name_b: false }));
    assert!(!filter.matches(&Generics { name_a: &2u32, name_b: false }));
}
