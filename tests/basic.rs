use struf::basic::Basic;
use struf::Filter;

#[test]
fn basic_test_single() {
    let filter = Basic::filter().with_name("my_name");
    assert!(filter.matches(&Basic {
        name: "my_name".to_string()
    }));
    assert!(!filter.matches(&Basic {
        name: "not_my_name".to_string()
    }));
}

#[test]
fn basic_test_multiple() {
    let filter = Basic::filter().with_names(vec!["name_a", "name_b"]);
    assert!(filter.matches(&Basic {
        name: "name_a".to_string()
    }));
    assert!(filter.matches(&Basic {
        name: "name_b".to_string()
    }));
    assert!(!filter.matches(&Basic {
        name: "name_c".to_string()
    }));
}

#[test]
fn empty_filter_matches_every_record() {
    let filter = Basic::filter();
    assert!(filter.names.is_empty());
    assert!(filter.matches(&Basic {
        name: String::new()
    }));
    assert!(filter.matches(&Basic {
        name: "anything".to_string()
    }));
}

#[test]
fn single_value_added_from_owned_string() {
    let filter = Basic::filter().with_name("my_name".to_string());
    assert!(filter.names.contains(&"my_name".to_string()));
    assert!(!filter.names.contains(&"other".to_string()));
    assert!(filter.matches(&Basic {
        name: "my_name".to_string()
    }));
    assert!(!filter.matches(&Basic {
        name: "other".to_string()
    }));
}

#[test]
fn bulk_add_equals_single_adds() {
    let bulk = Basic::filter().with_names(vec!["a", "b"]);
    let single_a = Basic::filter().with_name("a");
    let single_b = Basic::filter().with_name("b");
    for name in ["a", "b", "c", ""] {
        let item = Basic {
            name: name.to_string(),
        };
        assert_eq!(
            bulk.matches(&item),
            single_a.matches(&item) || single_b.matches(&item)
        );
    }
}

#[test]
fn repeated_values_do_not_change_the_result() {
    let with_repeats = Basic::filter().with_names(vec!["a", "a", "b", "a"]);
    let without = Basic::filter().with_names(vec!["a", "b"]);
    for name in ["a", "b", "c"] {
        let item = Basic {
            name: name.to_string(),
        };
        assert_eq!(with_repeats.matches(&item), without.matches(&item));
    }
}

#[test]
fn bulk_add_of_nothing_keeps_the_filter_open() {
    let filter = Basic::filter().with_names(Vec::<&str>::new());
    assert!(filter.matches(&Basic {
        name: "x".to_string()
    }));
}

#[test]
fn single_and_bulk_adds_accumulate() {
    let filter = Basic::filter().with_name("a").with_names(vec!["b"]);
    assert!(filter.matches(&Basic { name: "a".to_string() }));
    assert!(filter.matches(&Basic { name: "b".to_string() }));
    assert!(!filter.matches(&Basic { name: "c".to_string() }));
}
