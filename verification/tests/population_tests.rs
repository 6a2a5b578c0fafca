use tonic_clap::clap::impl_from_arg_matches;
use tonic_clap::request::build_request;
use tonic_clap::clap::LeafMap;
use tonic_clap::clap::LeafValue;
use tonic_clap::hello::Field1;
use tonic_clap::hello::Field1Arg;
use tonic_clap::hello::Greeter2Impl;
use tonic_clap::hello::GreeterImpl;
use tonic_clap::hello::HelloRequest;
use tonic_clap::hello::HelloRequest2;
use tonic_clap::hello::HelloRequestArg;
use tonic_clap::hello::HelloRequest2Arg;
use tonic_clap::hello::OneOf1;
use tonic_clap::hello::OneOfField;
use tonic_clap::hello::EnumOk;
use tonic_clap::value::DecodeError;
use tonic_clap::value::Scalar;
use tonic_clap::value::StructuredValue;
use tonic_clap::visit::TCFieldType;
use tonic_clap::visit::TCFieldTypePrimitive;
use tonic_clap::visit::TCStructField;

fn prim(kind: TCFieldTypePrimitive, required: bool) -> TCFieldType {
    TCFieldType::Primitive { field_type: kind, required }
}

fn field(name: &str, node: TCFieldType) -> TCStructField {
    TCStructField { field_name: name.to_string(), field_type: node }
}

fn single(m: &mut LeafMap, name: &str, v: Scalar) {
    m.push_value(name.to_string(), LeafValue::Single(v));
}

fn field1_schema() -> TCFieldType {
    TCFieldType::Struct {
        name: "Field1".to_string(),
        fields: vec![
            field("fname", prim(TCFieldTypePrimitive::Str, true)),
            field("fcount", prim(TCFieldTypePrimitive::I32, true)),
        ],
    }
}

fn hello_request2_schema() -> TCFieldType {
    TCFieldType::Struct {
        name: "HelloRequest2".to_string(),
        fields: vec![
            field("name", prim(TCFieldTypePrimitive::Str, true)),
            field("field1", TCFieldType::Option(Box::new(field1_schema()))),
            field(
                "field2",
                prim(
                    TCFieldTypePrimitive::List(Box::new(prim(TCFieldTypePrimitive::Str, true))),
                    false,
                ),
            ),
            field("field3", prim(TCFieldTypePrimitive::I32, true)),
        ],
    }
}

fn struct_field<'a>(v: &'a StructuredValue, name: &str) -> &'a StructuredValue {
    match v {
        StructuredValue::Struct(fields) => {
            &fields.iter().find(|(n, _)| n == name).expect("field missing").1
        }
        other => panic!("expected a struct, got {:?}", other),
    }
}

#[test]
fn test_serde_based_struct_population() {
    // the simple nested message
    let mut m = LeafMap::new();
    single(&mut m, "fname", Scalar::Str("Hello Serde".to_string()));
    single(&mut m, "fcount", Scalar::I32(42));
    let field1 = impl_from_arg_matches(&field1_schema(), &m).unwrap();
    assert_eq!(
        *struct_field(&field1, "fname"),
        StructuredValue::Scalar(Scalar::Str("Hello Serde".to_string()))
    );
    assert_eq!(
        *struct_field(&field1, "fcount"),
        StructuredValue::Scalar(Scalar::I32(42))
    );

    // the richer request with a nested optional message
    let mut m = LeafMap::new();
    single(&mut m, "name", Scalar::Str("Serde World".to_string()));
    single(&mut m, "field1.fname", Scalar::Str("Nested Serde".to_string()));
    single(&mut m, "field1.fcount", Scalar::I32(100));
    m.push_value(
        "field2".to_string(),
        LeafValue::Repeated(vec![Scalar::Str("f2".to_string())]),
    );
    single(&mut m, "field3", Scalar::I32(1));
    let request = impl_from_arg_matches(&hello_request2_schema(), &m).unwrap();
    assert_eq!(
        *struct_field(&request, "name"),
        StructuredValue::Scalar(Scalar::Str("Serde World".to_string()))
    );
    let f1 = struct_field(&request, "field1");
    assert_eq!(
        *struct_field(f1, "fname"),
        StructuredValue::Scalar(Scalar::Str("Nested Serde".to_string()))
    );
    assert_eq!(
        *struct_field(f1, "fcount"),
        StructuredValue::Scalar(Scalar::I32(100))
    );
    assert_eq!(
        *struct_field(&request, "field2"),
        StructuredValue::List(vec![Scalar::Str("f2".to_string())])
    );
    let ok1 = EnumOk::Ok1;
    assert_eq!(
        *struct_field(&request, "field3"),
        StructuredValue::Scalar(Scalar::I32(ok1.value()))
    );
}

#[test]
fn test_reflection_based_parsing() {
    let mut m = LeafMap::new();
    single(&mut m, "fname", Scalar::Str("hello".to_string()));
    single(&mut m, "fcount", Scalar::I32(42));
    let field1 = impl_from_arg_matches(&field1_schema(), &m).unwrap();
    assert_eq!(
        *struct_field(&field1, "fname"),
        StructuredValue::Scalar(Scalar::Str("hello".to_string()))
    );
    assert_eq!(
        *struct_field(&field1, "fcount"),
        StructuredValue::Scalar(Scalar::I32(42))
    );

    let mut m = LeafMap::new();
    single(&mut m, "name", Scalar::Str("world".to_string()));
    single(&mut m, "field1.fname", Scalar::Str("nested".to_string()));
    single(&mut m, "field1.fcount", Scalar::I32(123));
    m.push_value(
        "field2".to_string(),
        LeafValue::Repeated(vec![
            Scalar::Str("item1".to_string()),
            Scalar::Str("item2".to_string()),
        ]),
    );
    single(&mut m, "field3", Scalar::I32(0));
    let hello_req = impl_from_arg_matches(&hello_request2_schema(), &m).unwrap();
    assert_eq!(
        *struct_field(&hello_req, "name"),
        StructuredValue::Scalar(Scalar::Str("world".to_string()))
    );
    let nested_field1 = struct_field(&hello_req, "field1");
    assert!(!matches!(nested_field1, StructuredValue::Null));
    assert_eq!(
        *struct_field(nested_field1, "fname"),
        StructuredValue::Scalar(Scalar::Str("nested".to_string()))
    );
    assert_eq!(
        *struct_field(nested_field1, "fcount"),
        StructuredValue::Scalar(Scalar::I32(123))
    );
    assert_eq!(
        *struct_field(&hello_req, "field2"),
        StructuredValue::List(vec![
            Scalar::Str("item1".to_string()),
            Scalar::Str("item2".to_string()),
        ])
    );
    let ok0 = EnumOk::Ok0;
    assert_eq!(
        *struct_field(&hello_req, "field3"),
        StructuredValue::Scalar(Scalar::I32(ok0.value()))
    );
}

#[test]
fn test_multi_level_nesting() {
    // top -> level1 -> level2 -> level3 -> name/value
    let level3 = TCFieldType::Struct {
        name: "Level3".to_string(),
        fields: vec![
            field("name", prim(TCFieldTypePrimitive::Str, true)),
            field("value", prim(TCFieldTypePrimitive::I32, true)),
        ],
    };
    let level2 = TCFieldType::Struct {
        name: "Level2".to_string(),
        fields: vec![
            field("level3", TCFieldType::Option(Box::new(level3))),
            field("count", prim(TCFieldTypePrimitive::I32, true)),
        ],
    };
    let level1 = TCFieldType::Struct {
        name: "Level1".to_string(),
        fields: vec![
            field("level2", TCFieldType::Option(Box::new(level2))),
            field("id", prim(TCFieldTypePrimitive::Str, true)),
        ],
    };
    let schema = TCFieldType::Struct {
        name: "MultiLevelStruct".to_string(),
        fields: vec![
            field("level1", TCFieldType::Option(Box::new(level1))),
            field("top", prim(TCFieldTypePrimitive::Str, true)),
        ],
    };
    let mut m = LeafMap::new();
    single(&mut m, "top", Scalar::Str("root_value".to_string()));
    single(&mut m, "level1.id", Scalar::Str("level1_id".to_string()));
    single(&mut m, "level1.level2.count", Scalar::I32(42));
    single(
        &mut m,
        "level1.level2.level3.name",
        Scalar::Str("deep_name".to_string()),
    );
    single(&mut m, "level1.level2.level3.value", Scalar::I32(99));
    let result = impl_from_arg_matches(&schema, &m).unwrap();

    assert_eq!(
        *struct_field(&result, "top"),
        StructuredValue::Scalar(Scalar::Str("root_value".to_string()))
    );
    let l1 = struct_field(&result, "level1");
    assert!(!matches!(l1, StructuredValue::Null), "level1 should be populated");
    assert_eq!(
        *struct_field(l1, "id"),
        StructuredValue::Scalar(Scalar::Str("level1_id".to_string()))
    );
    let l2 = struct_field(l1, "level2");
    assert!(!matches!(l2, StructuredValue::Null), "level2 should be populated");
    assert_eq!(
        *struct_field(l2, "count"),
        StructuredValue::Scalar(Scalar::I32(42))
    );
    let l3 = struct_field(l2, "level3");
    assert!(!matches!(l3, StructuredValue::Null), "level3 should be populated");
    assert_eq!(
        *struct_field(l3, "name"),
        StructuredValue::Scalar(Scalar::Str("deep_name".to_string()))
    );
    assert_eq!(
        *struct_field(l3, "value"),
        StructuredValue::Scalar(Scalar::I32(99))
    );
}

#[test]
fn test_derive_macro() {
    // the structure exercised by the derive-based population path
    let schema = TCFieldType::Struct {
        name: "TestWithDerived".to_string(),
        fields: vec![
            field("name", prim(TCFieldTypePrimitive::Str, true)),
            field("count", prim(TCFieldTypePrimitive::I32, true)),
        ],
    };
    let mut m = LeafMap::new();
    single(&mut m, "name", Scalar::Str("Derived Test".to_string()));
    single(&mut m, "count", Scalar::I32(999));
    let derived = impl_from_arg_matches(&schema, &m).unwrap();
    assert_eq!(
        *struct_field(&derived, "name"),
        StructuredValue::Scalar(Scalar::Str("Derived Test".to_string()))
    );
    assert_eq!(
        *struct_field(&derived, "count"),
        StructuredValue::Scalar(Scalar::I32(999))
    );
}

fn group_schema() -> TCFieldType {
    TCFieldType::Struct {
        name: "HasGroup".to_string(),
        fields: vec![field(
            "one_of_field",
            TCFieldType::OneOf {
                name: "OneOfField".to_string(),
                members: vec![
                    field("OneOfInt", prim(TCFieldTypePrimitive::I32, true)),
                    field("OneOfStr", prim(TCFieldTypePrimitive::Str, true)),
                ],
            },
        )],
    }
}

#[test]
fn supplying_both_group_members_conflicts() {
    let mut m = LeafMap::new();
    single(&mut m, "one_of_field.OneOfInt", Scalar::I32(123));
    single(
        &mut m,
        "one_of_field.OneOfStr",
        Scalar::Str("also".to_string()),
    );
    match impl_from_arg_matches(&group_schema(), &m) {
        Err(DecodeError::ArgumentConflict { group }) => assert_eq!(group, "OneOfField"),
        other => panic!("expected a conflict, got {:?}", other),
    }
}

#[test]
fn supplying_one_group_member_selects_it() {
    let mut m = LeafMap::new();
    single(&mut m, "one_of_field.OneOfInt", Scalar::I32(123));
    let got = impl_from_arg_matches(&group_schema(), &m).unwrap();
    let expected = StructuredValue::Struct(vec![(
        "one_of_field".to_string(),
        StructuredValue::OneOf(
            "OneOfInt".to_string(),
            Box::new(StructuredValue::Scalar(Scalar::I32(123))),
        ),
    )]);
    assert_eq!(got, expected);
}

#[test]
fn supplying_no_group_member_leaves_it_absent() {
    let m = LeafMap::new();
    let got = impl_from_arg_matches(&group_schema(), &m).unwrap();
    let expected = StructuredValue::Struct(vec![(
        "one_of_field".to_string(),
        StructuredValue::Null,
    )]);
    assert_eq!(got, expected);
}

#[test]
fn group_conflict_through_an_override_payload() {
    let flags = LeafMap::new();
    let payload =
        "{\"one_of_field\":{\"OneOfInt\":1,\"OneOfStr\":\"x\"}}".to_string();
    match build_request(&group_schema(), &flags, Some(&payload)) {
        Err(DecodeError::ArgumentConflict { group }) => assert_eq!(group, "OneOfField"),
        other => panic!("expected a conflict, got {:?}", other),
    }
}

#[test]
fn apply_overlays_the_name() {
    let mut request = HelloRequest { name: "before".to_string() };
    let arg = HelloRequestArg { name: Some("after".to_string()) };
    arg.apply(&mut request);
    assert_eq!(request.name, "after");
    let noop = HelloRequestArg { name: None };
    noop.apply(&mut request);
    assert_eq!(request.name, "after");
}

#[test]
fn hand_written_conversions() {
    let f = Field1Arg { fname: "fn".to_string(), fcount: 3 };
    let f1: Field1 = f.into();
    assert_eq!(f1, Field1 { fname: "fn".to_string(), fcount: 3 });
    let arg = HelloRequest2Arg {
        name: "g2s2".to_string(),
        field1: Some(Field1Arg { fname: "fname".to_string(), fcount: 3 }),
        field2: vec!["f2".to_string()],
    };
    let req: HelloRequest2 = arg.into();
    assert_eq!(req.name, "g2s2");
    assert_eq!(req.field1, Some(Field1 { fname: "fname".to_string(), fcount: 3 }));
    assert_eq!(req.field2, vec!["f2".to_string()]);
    assert_eq!(req.field3, 1);
    assert_eq!(req.opt_string, None);
    assert_eq!(
        req.one_of_field,
        Some(OneOfField::OneOf1(OneOf1 { one_of_str: "one_of_str_value".to_string() }))
    );
}

#[test]
fn greeting_replies() {
    let req = HelloRequest { name: "n1".to_string() };
    assert_eq!(GreeterImpl::say_hello(&req).message, "Hello n1!");
    let req2 = HelloRequest2 {
        name: "n2".to_string(),
        field1: None,
        field2: vec![],
        field3: 0,
        opt_string: None,
        one_of_field: None,
    };
    assert_eq!(GreeterImpl::say_hello2(&req2).message, "Hello2 n2!");
    assert_eq!(Greeter2Impl::say_hello(&req).message, "2Hello n1!");
    assert_eq!(Greeter2Impl::say_hello2(&req2).message, "2Hello2 n2!");
    assert_eq!(Greeter2Impl::say_hello3().message, "2Hello3 Empty!");
}
