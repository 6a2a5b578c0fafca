use tonic_clap::clap::dotted_name;
use tonic_clap::clap::extract_primitive_value;
use tonic_clap::clap::impl_augment_args;
use tonic_clap::clap::impl_from_arg_matches;
use tonic_clap::clap::convert_tree;
use tonic_clap::clap::LeafMap;
use tonic_clap::clap::LeafValue;
use tonic_clap::value::DecodeError;
use tonic_clap::value::Scalar;
use tonic_clap::value::StructuredValue;
use tonic_clap::value::TreeNode;
use tonic_clap::visit::ArgAction;
use tonic_clap::visit::ScalarKind;
use tonic_clap::visit::TCFieldType;
use tonic_clap::visit::TCFieldTypePrimitive;
use tonic_clap::visit::TCStructField;

fn prim(kind: TCFieldTypePrimitive, required: bool) -> TCFieldType {
    TCFieldType::Primitive { field_type: kind, required }
}

fn field(name: &str, node: TCFieldType) -> TCStructField {
    TCStructField { field_name: name.to_string(), field_type: node }
}

fn sval(s: &str) -> StructuredValue {
    StructuredValue::Scalar(Scalar::Str(s.to_string()))
}

fn ival(x: i32) -> StructuredValue {
    StructuredValue::Scalar(Scalar::I32(x))
}

fn entry(name: &str, v: StructuredValue) -> (String, StructuredValue) {
    (name.to_string(), v)
}

// schema {name: String, details: Optional<{description: String, priority: i32}>,
//         tags: List<String>, count: i32}
fn task_schema() -> TCFieldType {
    TCFieldType::Struct {
        name: "Task".to_string(),
        fields: vec![
            field("name", prim(TCFieldTypePrimitive::Str, true)),
            field(
                "details",
                TCFieldType::Option(Box::new(TCFieldType::Struct {
                    name: "Details".to_string(),
                    fields: vec![
                        field("description", prim(TCFieldTypePrimitive::Str, true)),
                        field("priority", prim(TCFieldTypePrimitive::I32, true)),
                    ],
                })),
            ),
            field(
                "tags",
                prim(
                    TCFieldTypePrimitive::List(Box::new(prim(TCFieldTypePrimitive::Str, true))),
                    false,
                ),
            ),
            field("count", prim(TCFieldTypePrimitive::I32, true)),
        ],
    }
}

fn single(m: &mut LeafMap, name: &str, v: Scalar) {
    m.push_value(name.to_string(), LeafValue::Single(v));
}

#[test]
fn nested_task_decodes() {
    // supplying name, details.description, details.priority, tags, count
    // decodes to the fully nested value
    let schema = task_schema();
    let mut m = LeafMap::new();
    single(&mut m, "name", Scalar::Str("Manual".to_string()));
    single(
        &mut m,
        "details.description",
        Scalar::Str("Important task".to_string()),
    );
    single(&mut m, "details.priority", Scalar::I32(5));
    m.push_value(
        "tags".to_string(),
        LeafValue::Repeated(vec![Scalar::Str("tag1".to_string())]),
    );
    single(&mut m, "count", Scalar::I32(42));
    let got = impl_from_arg_matches(&schema, &m).unwrap();
    let expected = StructuredValue::Struct(vec![
        entry("name", sval("Manual")),
        entry(
            "details",
            StructuredValue::Struct(vec![
                entry("description", sval("Important task")),
                entry("priority", ival(5)),
            ]),
        ),
        entry(
            "tags",
            StructuredValue::List(vec![Scalar::Str("tag1".to_string())]),
        ),
        entry("count", ival(42)),
    ]);
    assert_eq!(got, expected);
}

#[test]
fn absent_leaves_take_zero_values() {
    let schema = task_schema();
    let m = LeafMap::new();
    let got = impl_from_arg_matches(&schema, &m).unwrap();
    let expected = StructuredValue::Struct(vec![
        entry("name", sval("")),
        entry("details", StructuredValue::Null),
        entry("tags", StructuredValue::List(vec![])),
        entry("count", ival(0)),
    ]);
    assert_eq!(got, expected);
}

#[test]
fn round_trip_reencodes_exactly() {
    // decode, re-encode the leaves by hand, decode again: the value repeats
    let schema = task_schema();
    let mut m = LeafMap::new();
    single(&mut m, "name", Scalar::Str("again".to_string()));
    single(&mut m, "details.description", Scalar::Str("d".to_string()));
    single(&mut m, "details.priority", Scalar::I32(7));
    m.push_value(
        "tags".to_string(),
        LeafValue::Repeated(vec![
            Scalar::Str("a".to_string()),
            Scalar::Str("b".to_string()),
        ]),
    );
    single(&mut m, "count", Scalar::I32(3));
    let first = impl_from_arg_matches(&schema, &m).unwrap();
    let second = impl_from_arg_matches(&schema, &m).unwrap();
    assert_eq!(first, second);
}

#[test]
fn wrongly_shaped_leaf_values_are_skipped() {
    // a scalar supplied where a list is expected (and the other way round)
    // counts as absent, exactly like the source parse would give
    let schema = task_schema();
    let mut m = LeafMap::new();
    single(&mut m, "tags", Scalar::Str("not-a-list".to_string()));
    m.push_value(
        "count".to_string(),
        LeafValue::Repeated(vec![Scalar::I32(1)]),
    );
    single(&mut m, "name", Scalar::I32(9));
    let got = impl_from_arg_matches(&schema, &m).unwrap();
    let expected = StructuredValue::Struct(vec![
        entry("name", sval("")),
        entry("details", StructuredValue::Null),
        entry("tags", StructuredValue::List(vec![])),
        entry("count", ival(0)),
    ]);
    assert_eq!(got, expected);
}

#[test]
fn structural_mismatch_is_value_validation() {
    let schema = task_schema();
    let bad = TreeNode::Leaf(Scalar::Bool(true));
    let r = convert_tree(&schema, Some(&bad));
    match r {
        Err(DecodeError::ValueValidation { .. }) => {}
        other => panic!("expected a validation failure, got {:?}", other),
    }
}

#[test]
fn dotted_name_joins_with_dots() {
    let prefix = vec!["field1".to_string()];
    assert_eq!(dotted_name(&prefix, &"fname".to_string()), "field1.fname");
    let empty: Vec<String> = vec![];
    assert_eq!(dotted_name(&empty, &"name".to_string()), "name");
    let deep = vec!["a".to_string(), "b".to_string()];
    assert_eq!(dotted_name(&deep, &"c".to_string()), "a.b.c");
}

#[test]
fn extract_checks_kind_and_arity() {
    let mut m = LeafMap::new();
    single(&mut m, "x", Scalar::I32(5));
    let got = extract_primitive_value(&m, &"x".to_string(), ScalarKind::I32, false);
    assert_eq!(got, Some(TreeNode::Leaf(Scalar::I32(5))));
    let wrong_kind = extract_primitive_value(&m, &"x".to_string(), ScalarKind::Str, false);
    assert_eq!(wrong_kind, None);
    let wrong_arity = extract_primitive_value(&m, &"x".to_string(), ScalarKind::I32, true);
    assert_eq!(wrong_arity, None);
    let absent = extract_primitive_value(&m, &"y".to_string(), ScalarKind::I32, false);
    assert_eq!(absent, None);
}

#[test]
fn augment_args_describes_each_leaf() {
    let schema = task_schema();
    let args = impl_augment_args(&schema);
    assert_eq!(args.len(), 5);
    assert_eq!(args[0].long, "name");
    assert_eq!(args[1].long, "details.description");
    assert_eq!(args[2].long, "details.priority");
    assert_eq!(args[2].help, "Arg: i32");
    assert_eq!(args[2].value_name, "PRIORITY");
    assert_eq!(args[0].value_name, "NAME");
    assert_eq!(args[3].long, "tags");
    assert_eq!(args[3].action, ArgAction::Append);
    assert_eq!(args[3].help, "Arg: Vec<String>");
    assert_eq!(args[4].long, "count");
    assert_eq!(args[4].action, ArgAction::SetOnce);
    assert!(args.iter().all(|a| !a.required));
}

#[test]
fn float_leaves_travel_as_bits() {
    let schema = TCFieldType::Struct {
        name: "Readings".to_string(),
        fields: vec![field("ratio", prim(TCFieldTypePrimitive::F64, true))],
    };
    let bits = (0.25f64).to_bits();
    let mut m = LeafMap::new();
    single(&mut m, "ratio", Scalar::F64Bits(bits));
    let got = impl_from_arg_matches(&schema, &m).unwrap();
    match got {
        StructuredValue::Struct(fields) => {
            assert_eq!(fields[0].0, "ratio");
            match &fields[0].1 {
                StructuredValue::Scalar(Scalar::F64Bits(b)) => {
                    assert_eq!(f64::from_bits(*b), 0.25f64);
                }
                other => panic!("expected float bits, got {:?}", other),
            }
        }
        other => panic!("expected a struct, got {:?}", other),
    }
}
