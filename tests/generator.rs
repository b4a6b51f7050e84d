use struf::generator::{
    filter, read_plural, AttrOption, FieldSchema, GenError, Marker, OptionValue, ParamKind,
    RecordSchema, Shape,
};

fn plain(name: &str) -> FieldSchema {
    FieldSchema {
        name: name.to_string(),
        type_params: vec![],
        annotation: None,
    }
}

fn annotated(name: &str, options: Vec<AttrOption>) -> FieldSchema {
    FieldSchema {
        name: name.to_string(),
        type_params: vec![],
        annotation: Some(options),
    }
}

fn plural(value: &str) -> AttrOption {
    AttrOption {
        key: "plural".to_string(),
        value: OptionValue::Text(value.to_string()),
    }
}

fn record(name: &str, params: Vec<ParamKind>, fields: Vec<FieldSchema>) -> RecordSchema {
    RecordSchema {
        name: name.to_string(),
        shape: Shape::NamedStruct,
        params,
        fields,
    }
}

#[test]
fn plan_of_a_single_filterable_field() {
    let plan = filter(&record("Basic", vec![], vec![annotated("name", vec![])])).ok().unwrap();
    assert_eq!(plan.name, "BasicFilter");
    assert_eq!(plan.fields.len(), 1);
    assert_eq!(plan.fields[0].index, 0);
    assert_eq!(plan.fields[0].field, "name");
    assert_eq!(plan.fields[0].member, "names");
    assert_eq!(plan.fields[0].with_singular, "with_name");
    assert_eq!(plan.fields[0].with_plural, "with_names");
    assert!(plan.markers.is_empty());
    assert!(plan.bounded.is_empty());
}

#[test]
fn explicit_plural_names_the_member_and_bulk_method() {
    let plan = filter(&record(
        "Person",
        vec![],
        vec![annotated("person", vec![plural("people")])],
    ))
    .ok()
    .unwrap();
    assert_eq!(plan.fields[0].member, "people");
    assert_eq!(plan.fields[0].with_singular, "with_person");
    assert_eq!(plan.fields[0].with_plural, "with_people");
}

#[test]
fn unannotated_fields_are_left_out_in_order() {
    let plan = filter(&record(
        "Generics",
        vec![],
        vec![plain("name_a"), annotated("name_b", vec![]), plain("c"), annotated("d", vec![])],
    ))
    .ok()
    .unwrap();
    assert_eq!(plan.fields.len(), 2);
    assert_eq!(plan.fields[0].index, 1);
    assert_eq!(plan.fields[0].member, "name_bs");
    assert_eq!(plan.fields[1].index, 3);
    assert_eq!(plan.fields[1].with_plural, "with_ds");
}

#[test]
fn record_without_filterable_fields_plans_none() {
    let plan = filter(&record("Empty", vec![], vec![plain("a")])).ok().unwrap();
    assert_eq!(plan.name, "EmptyFilter");
    assert!(plan.fields.is_empty());
}

fn typed(name: &str, type_params: Vec<usize>, filterable: bool) -> FieldSchema {
    FieldSchema {
        name: name.to_string(),
        type_params,
        annotation: if filterable { Some(vec![]) } else { None },
    }
}

#[test]
fn generic_parameters_get_markers_and_type_bounds() {
    // A record with a lifetime, a type, a constant and a type parameter, both
    // types used by filterable fields.
    let plan = filter(&record(
        "Generics",
        vec![ParamKind::Lifetime, ParamKind::Type, ParamKind::Const, ParamKind::Type],
        vec![typed("name_a", vec![1], true), typed("name_b", vec![3], true)],
    ))
    .ok()
    .unwrap();
    assert!(
        plan.markers
            == vec![
                Marker { index: 0, lifetime: true },
                Marker { index: 1, lifetime: false },
                Marker { index: 3, lifetime: false },
            ]
    );
    assert_eq!(plan.bounded, vec![1, 3]);
}

#[test]
fn type_parameter_of_unfiltered_field_gets_a_marker_and_no_bound() {
    let plan = filter(&record(
        "Generics",
        vec![ParamKind::Lifetime, ParamKind::Type, ParamKind::Type],
        vec![typed("name_a", vec![1], false), typed("name_b", vec![2], true)],
    ))
    .ok()
    .unwrap();
    assert_eq!(plan.markers.len(), 3);
    assert_eq!(plan.bounded, vec![2]);
    assert_eq!(plan.fields.len(), 1);
    assert_eq!(plan.fields[0].with_plural, "with_name_bs");
}

#[test]
fn only_named_structs_are_accepted() {
    for shape in [Shape::TupleStruct, Shape::UnitStruct, Shape::Enum, Shape::Union] {
        let input = RecordSchema {
            name: "T".to_string(),
            shape,
            params: vec![],
            fields: vec![],
        };
        assert!(matches!(filter(&input), Err(GenError::NotNamedStruct)));
    }
}

#[test]
fn unknown_option_is_refused() {
    let bad = AttrOption {
        key: "plurals".to_string(),
        value: OptionValue::Text("xs".to_string()),
    };
    let result = filter(&record("R", vec![], vec![annotated("x", vec![bad])]));
    match result {
        Err(GenError::UnknownOption(key)) => assert_eq!(key, "plurals"),
        _ => panic!("expected an unknown option"),
    }
}

#[test]
fn plural_that_is_not_text_is_refused() {
    let bad = AttrOption {
        key: "plural".to_string(),
        value: OptionValue::Other,
    };
    let result = filter(&record("R", vec![], vec![annotated("x", vec![bad])]));
    assert!(matches!(result, Err(GenError::PluralNotText)));
}

#[test]
fn plural_given_twice_is_refused() {
    let result = filter(&record(
        "R",
        vec![],
        vec![annotated("x", vec![plural("a"), plural("b")])],
    ));
    assert!(matches!(result, Err(GenError::DuplicatePlural)));
}

#[test]
fn first_bad_field_decides_the_error() {
    let not_text = AttrOption {
        key: "plural".to_string(),
        value: OptionValue::Other,
    };
    let result = filter(&record(
        "R",
        vec![],
        vec![
            annotated("a", vec![plural("as")]),
            annotated("b", vec![not_text]),
            annotated("c", vec![plural("x"), plural("y")]),
        ],
    ));
    assert!(matches!(result, Err(GenError::PluralNotText)));
}

#[test]
fn read_plural_reads_the_option() {
    assert!(matches!(read_plural(&vec![]), Ok(None)));
    match read_plural(&vec![plural("geese")]) {
        Ok(Some(p)) => assert_eq!(p, "geese"),
        _ => panic!("expected a plural"),
    }
}
