use tonic_clap::visit::classify_type_path;
use tonic_clap::visit::strip_namespace;
use tonic_clap::visit::TypePathClass;
use tonic_clap::visit::ArgAction;
use tonic_clap::visit::LeafArgument;
use tonic_clap::visit::ScalarKind;
use tonic_clap::visit::TCFieldType;
use tonic_clap::visit::TCFieldTypePrimitive;
use tonic_clap::visit::TCStructField;

fn prim(kind: TCFieldTypePrimitive, required: bool) -> TCFieldType {
    TCFieldType::Primitive { field_type: kind, required }
}

fn field(name: &str, node: TCFieldType) -> TCStructField {
    TCStructField { field_name: name.to_string(), field_type: node }
}

#[test]
fn test_strip_namespace() {
    assert_eq!(strip_namespace("std::string::String"), "String");
    assert_eq!(strip_namespace("std::vec::Vec"), "Vec");
    assert_eq!(strip_namespace("Vec"), "Vec");
    assert_eq!(
        strip_namespace("alloc::vec::Vec<alloc::string::String>"),
        "Vec<alloc::string::String>"
    );
}

#[test]
fn visit_nested_flattens_leaves() {
    // schema {name: String, details: Option<{description: String, priority: i32}>,
    //         tags: Vec<String>, count: i32}
    let schema = TCFieldType::Struct {
        name: "Task".to_string(),
        fields: vec![
            field("name", prim(TCFieldTypePrimitive::Str, true)),
            field(
                "details",
                TCFieldType::Option(Box::new(TCFieldType::Struct {
                    name: "Details".to_string(),
                    fields: vec![
                        field("description", prim(TCFieldTypePrimitive::Str, true)),
                        field("priority", prim(TCFieldTypePrimitive::I32, true)),
                    ],
                })),
            ),
            field(
                "tags",
                prim(
                    TCFieldTypePrimitive::List(Box::new(prim(TCFieldTypePrimitive::Str, true))),
                    false,
                ),
            ),
            field("count", prim(TCFieldTypePrimitive::I32, true)),
        ],
    };
    let leaves = schema.visit_nested();
    let expected = vec![
        LeafArgument {
            prefix: vec![],
            field_name: "name".to_string(),
            kind: ScalarKind::Str,
            required: true,
            repeated: false,
        },
        LeafArgument {
            prefix: vec!["details".to_string()],
            field_name: "description".to_string(),
            kind: ScalarKind::Str,
            required: true,
            repeated: false,
        },
        LeafArgument {
            prefix: vec!["details".to_string()],
            field_name: "priority".to_string(),
            kind: ScalarKind::I32,
            required: true,
            repeated: false,
        },
        LeafArgument {
            prefix: vec![],
            field_name: "tags".to_string(),
            kind: ScalarKind::Str,
            required: false,
            repeated: true,
        },
        LeafArgument {
            prefix: vec![],
            field_name: "count".to_string(),
            kind: ScalarKind::I32,
            required: true,
            repeated: false,
        },
    ];
    assert_eq!(leaves, expected);
}

#[test]
fn unrepresentable_fields_are_skipped() {
    // a map-like field and a nested list emit no flags and raise no error
    let schema = TCFieldType::Struct {
        name: "Holder".to_string(),
        fields: vec![
            field("meta", TCFieldType::Unknown("HashMap<String, String>".to_string())),
            field(
                "matrix",
                prim(
                    TCFieldTypePrimitive::List(Box::new(prim(
                        TCFieldTypePrimitive::List(Box::new(prim(
                            TCFieldTypePrimitive::I32,
                            true,
                        ))),
                        false,
                    ))),
                    false,
                ),
            ),
            field("kept", prim(TCFieldTypePrimitive::Bool, true)),
        ],
    };
    let leaves = schema.visit_nested();
    assert_eq!(leaves.len(), 1);
    assert_eq!(leaves[0].field_name, "kept");
    assert_eq!(leaves[0].kind, ScalarKind::Bool);
}

#[test]
fn root_optional_leaf_loses_required() {
    // an Option-wrapped primitive at the root prefix is not required;
    // the same wrapping deeper down keeps the inner posture
    let schema = TCFieldType::Struct {
        name: "Req".to_string(),
        fields: vec![
            field(
                "opt_string",
                TCFieldType::Option(Box::new(prim(TCFieldTypePrimitive::Str, true))),
            ),
            field(
                "inner",
                TCFieldType::Struct {
                    name: "Inner".to_string(),
                    fields: vec![field(
                        "opt_deep",
                        TCFieldType::Option(Box::new(prim(TCFieldTypePrimitive::Str, true))),
                    )],
                },
            ),
        ],
    };
    let leaves = schema.visit_nested();
    assert_eq!(leaves.len(), 2);
    assert_eq!(leaves[0].field_name, "opt_string");
    assert!(!leaves[0].required);
    assert_eq!(leaves[1].field_name, "opt_deep");
    assert!(leaves[1].required);
}

#[test]
fn primitive_kind_queries() {
    let vec_str = TCFieldTypePrimitive::List(Box::new(prim(TCFieldTypePrimitive::Str, true)));
    assert!(vec_str.is_vec());
    assert!(vec_str.is_primitive_vec());
    let nested = TCFieldTypePrimitive::List(Box::new(prim(
        TCFieldTypePrimitive::List(Box::new(prim(TCFieldTypePrimitive::I32, true))),
        false,
    )));
    assert!(nested.is_vec());
    assert!(!nested.is_primitive_vec());
    assert!(!TCFieldTypePrimitive::I32.is_vec());
    let (kind, action) = vec_str.get_clap_value_parse();
    assert_eq!(kind, ScalarKind::Str);
    assert_eq!(action, ArgAction::Append);
    let (kind, action) = TCFieldTypePrimitive::I64.get_clap_value_parse();
    assert_eq!(kind, ScalarKind::I64);
    assert_eq!(action, ArgAction::SetOnce);
    let node = prim(TCFieldTypePrimitive::Bool, true);
    assert!(node.is_primitive());
    assert!(node.is_primitive_required());
    assert_eq!(*node.as_primitive(), TCFieldTypePrimitive::Bool);
}

#[test]
fn display_primitive_type_forms() {
    assert_eq!(TCFieldTypePrimitive::I32.display_primitive_type(), "i32");
    assert_eq!(TCFieldTypePrimitive::F64.display_primitive_type(), "f64");
    assert_eq!(TCFieldTypePrimitive::Str.display_primitive_type(), "String");
    let vec_str = TCFieldTypePrimitive::List(Box::new(prim(TCFieldTypePrimitive::Str, true)));
    assert_eq!(vec_str.display_primitive_type(), "Vec<String>");
}

#[test]
fn compile_protos_collects_distinct_directories() {
    let protos = vec![
        "protos/a.proto".to_string(),
        "protos/b.proto".to_string(),
        "other/deep/c.proto".to_string(),
        "bare.proto".to_string(),
    ];
    let dirs = tonic_clap::protos::compile_protos(&protos);
    assert_eq!(
        dirs,
        vec!["protos".to_string(), "other/deep".to_string(), "".to_string()]
    );
}

#[test]
fn classify_type_paths() {
    assert_eq!(
        classify_type_path("String"),
        TypePathClass::Primitive(TCFieldTypePrimitive::Str)
    );
    assert_eq!(
        classify_type_path("i64"),
        TypePathClass::Primitive(TCFieldTypePrimitive::I64)
    );
    assert_eq!(
        classify_type_path("Vec<alloc::string::String>"),
        TypePathClass::ListOf("alloc::string::String".to_string())
    );
    assert_eq!(
        classify_type_path("Option<i64>"),
        TypePathClass::OptionOf("i64".to_string())
    );
    assert_eq!(classify_type_path("HelloRequest2"), TypePathClass::Message);
}
