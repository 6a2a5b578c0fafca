use tonic_clap::arg::CommonArgs;
use tonic_clap::arg::DefaultArgs;
use tonic_clap::arg::MainPlan;
use tonic_clap::arg::TcpArgs;
use tonic_clap::arg::TransportMode;
use tonic_clap::gen::generate;
use tonic_clap::gen::kebab_case;
use tonic_clap::gen::GenError;
use tonic_clap::gen::MethodDescriptor;
use tonic_clap::gen::ServiceDescriptor;
use tonic_clap::request::build_request;
use tonic_clap::request::plan_invocation;
use tonic_clap::request::DispatchOutcome;
use tonic_clap::request::RunAction;
use tonic_clap::clap::LeafMap;
use tonic_clap::clap::LeafValue;
use tonic_clap::value::set_nested_value;
use tonic_clap::value::DecodeError;
use tonic_clap::value::Scalar;
use tonic_clap::value::StructuredValue;
use tonic_clap::value::TreeNode;
use tonic_clap::value::ValueTree;
use tonic_clap::visit::TCFieldType;
use tonic_clap::visit::TCFieldTypePrimitive;
use tonic_clap::visit::TCStructField;

fn prim(kind: TCFieldTypePrimitive, required: bool) -> TCFieldType {
    TCFieldType::Primitive { field_type: kind, required }
}

fn field(name: &str, node: TCFieldType) -> TCStructField {
    TCStructField { field_name: name.to_string(), field_type: node }
}

fn hello_schema() -> TCFieldType {
    TCFieldType::Struct {
        name: "HelloRequest".to_string(),
        fields: vec![field("name", prim(TCFieldTypePrimitive::Str, true))],
    }
}

fn method(name: &str, streaming: bool) -> MethodDescriptor {
    MethodDescriptor {
        name: name.to_string(),
        input_schema: hello_schema(),
        client_streaming: false,
        server_streaming: streaming,
    }
}

#[test]
fn kebab_case_forms() {
    assert_eq!(kebab_case("Greeter"), "greeter");
    assert_eq!(kebab_case("Greeter2"), "greeter2");
    assert_eq!(kebab_case("SayHello"), "say-hello");
    assert_eq!(kebab_case("SayHello2"), "say-hello2");
    assert_eq!(kebab_case("say_hello"), "say-hello");
    assert_eq!(kebab_case("say_hello3"), "say-hello3");
}

#[test]
fn two_services_make_a_two_level_tree() {
    // services Greeter (SayHello, SayHello2) and Greeter2 (SayHello,
    // SayHello2, SayHello3) give top commands greeter and greeter2, each
    // with its own method commands
    let services = vec![
        ServiceDescriptor {
            name: "Greeter".to_string(),
            methods: vec![method("SayHello", false), method("SayHello2", false)],
        },
        ServiceDescriptor {
            name: "Greeter2".to_string(),
            methods: vec![
                method("SayHello", false),
                method("SayHello2", false),
                method("SayHello3", false),
            ],
        },
    ];
    let tree = generate(services).unwrap();
    assert_eq!(tree.services.len(), 2);
    assert_eq!(tree.services[0].name, "greeter");
    assert_eq!(tree.services[0].service_name, "Greeter");
    assert_eq!(tree.services[1].name, "greeter2");
    assert_eq!(tree.services[1].service_name, "Greeter2");
    let g1: Vec<&str> = tree.services[0].methods.iter().map(|m| m.name.as_str()).collect();
    assert_eq!(g1, vec!["say-hello", "say-hello2"]);
    let g2: Vec<&str> = tree.services[1].methods.iter().map(|m| m.name.as_str()).collect();
    assert_eq!(g2, vec!["say-hello", "say-hello2", "say-hello3"]);
    // dispatch lookup lands on the correspondingly named service and method
    let svc = tree.find_service(&"greeter2".to_string()).unwrap();
    assert_eq!(svc.service_name, "Greeter2");
    let mc = svc.find_method(&"say-hello3".to_string()).unwrap();
    assert_eq!(mc.method_name, "SayHello3");
    assert_eq!(mc.args.len(), 1);
    assert_eq!(mc.args[0].field_name, "name");
    assert!(tree.find_service(&"missing".to_string()).is_none());
}

#[test]
fn streaming_methods_are_excluded() {
    // one streaming and one non-streaming method leave exactly one command
    let services = vec![ServiceDescriptor {
        name: "Mixed".to_string(),
        methods: vec![method("Watch", true), method("Get", false)],
    }];
    let tree = generate(services).unwrap();
    assert_eq!(tree.services[0].methods.len(), 1);
    assert_eq!(tree.services[0].methods[0].name, "get");
    assert_eq!(tree.services[0].methods[0].method_name, "Get");
}

#[test]
fn client_streaming_is_excluded_too() {
    let services = vec![ServiceDescriptor {
        name: "Up".to_string(),
        methods: vec![
            MethodDescriptor {
                name: "Push".to_string(),
                input_schema: hello_schema(),
                client_streaming: true,
                server_streaming: false,
            },
        ],
    }];
    let tree = generate(services).unwrap();
    assert_eq!(tree.services[0].methods.len(), 0);
}

#[test]
fn colliding_service_names_are_rejected() {
    let services = vec![
        ServiceDescriptor { name: "Greeter".to_string(), methods: vec![] },
        ServiceDescriptor { name: "Greeter".to_string(), methods: vec![] },
    ];
    match generate(services) {
        Err(GenError::DuplicateService { name }) => assert_eq!(name, "Greeter"),
        other => panic!("expected a duplicate-service error, got {:?}", other),
    }
}

#[test]
fn override_payload_replaces_flags_outright() {
    // supplying only an override payload {"name":"n"} against the task
    // schema decodes to {name:"n", details:null, tags:[], count:0},
    // whatever leaf flags are also present
    let schema = TCFieldType::Struct {
        name: "Task".to_string(),
        fields: vec![
            field("name", prim(TCFieldTypePrimitive::Str, true)),
            field(
                "details",
                TCFieldType::Option(Box::new(TCFieldType::Struct {
                    name: "Details".to_string(),
                    fields: vec![
                        field("description", prim(TCFieldTypePrimitive::Str, true)),
                        field("priority", prim(TCFieldTypePrimitive::I32, true)),
                    ],
                })),
            ),
            field(
                "tags",
                prim(
                    TCFieldTypePrimitive::List(Box::new(prim(TCFieldTypePrimitive::Str, true))),
                    false,
                ),
            ),
            field("count", prim(TCFieldTypePrimitive::I32, true)),
        ],
    };
    let mut flags = LeafMap::new();
    flags.push_value(
        "name".to_string(),
        LeafValue::Single(Scalar::Str("ignored".to_string())),
    );
    flags.push_value("count".to_string(), LeafValue::Single(Scalar::I32(99)));
    let payload = "{ \"name\": \"n\" }".to_string();
    let got = build_request(&schema, &flags, Some(&payload)).unwrap();
    let expected = StructuredValue::Struct(vec![
        ("name".to_string(), StructuredValue::Scalar(Scalar::Str("n".to_string()))),
        ("details".to_string(), StructuredValue::Null),
        ("tags".to_string(), StructuredValue::List(vec![])),
        ("count".to_string(), StructuredValue::Scalar(Scalar::I32(0))),
    ]);
    assert_eq!(got, expected);
    // the same payload against different flags builds the same value
    let mut other_flags = LeafMap::new();
    other_flags.push_value(
        "name".to_string(),
        LeafValue::Single(Scalar::Str("different".to_string())),
    );
    let again = build_request(&schema, &other_flags, Some(&payload)).unwrap();
    assert_eq!(again, expected);
    // without the payload the flags decide
    let from_flags = build_request(&schema, &flags, None).unwrap();
    match &from_flags {
        StructuredValue::Struct(fields) => {
            assert_eq!(
                fields[0].1,
                StructuredValue::Scalar(Scalar::Str("ignored".to_string()))
            );
            assert_eq!(fields[3].1, StructuredValue::Scalar(Scalar::I32(99)));
        }
        other => panic!("expected a struct, got {:?}", other),
    }
}

#[test]
fn override_with_nested_object_and_array() {
    let schema = TCFieldType::Struct {
        name: "Task".to_string(),
        fields: vec![
            field("name", prim(TCFieldTypePrimitive::Str, true)),
            field(
                "details",
                TCFieldType::Option(Box::new(TCFieldType::Struct {
                    name: "Details".to_string(),
                    fields: vec![
                        field("description", prim(TCFieldTypePrimitive::Str, true)),
                        field("priority", prim(TCFieldTypePrimitive::I32, true)),
                    ],
                })),
            ),
            field(
                "tags",
                prim(
                    TCFieldTypePrimitive::List(Box::new(prim(TCFieldTypePrimitive::Str, true))),
                    false,
                ),
            ),
        ],
    };
    let flags = LeafMap::new();
    let payload =
        "{\"name\":\"x\",\"details\":{\"description\":\"d\",\"priority\":7},\"tags\":[\"a\",\"b\"]}"
            .to_string();
    let got = build_request(&schema, &flags, Some(&payload)).unwrap();
    let expected = StructuredValue::Struct(vec![
        ("name".to_string(), StructuredValue::Scalar(Scalar::Str("x".to_string()))),
        (
            "details".to_string(),
            StructuredValue::Struct(vec![
                (
                    "description".to_string(),
                    StructuredValue::Scalar(Scalar::Str("d".to_string())),
                ),
                ("priority".to_string(), StructuredValue::Scalar(Scalar::I32(7))),
            ]),
        ),
        (
            "tags".to_string(),
            StructuredValue::List(vec![
                Scalar::Str("a".to_string()),
                Scalar::Str("b".to_string()),
            ]),
        ),
    ]);
    assert_eq!(got, expected);
}

#[test]
fn malformed_override_is_value_validation() {
    let schema = hello_schema();
    let flags = LeafMap::new();
    let payload = "{ not json".to_string();
    match build_request(&schema, &flags, Some(&payload)) {
        Err(DecodeError::ValueValidation { .. }) => {}
        other => panic!("expected a validation failure, got {:?}", other),
    }
}

#[test]
fn override_range_checks_integers() {
    let schema = TCFieldType::Struct {
        name: "Counter".to_string(),
        fields: vec![field("count", prim(TCFieldTypePrimitive::U8, true))],
    };
    let flags = LeafMap::new();
    let fits = build_request(&schema, &flags, Some(&"{\"count\": 200}".to_string())).unwrap();
    assert_eq!(
        fits,
        StructuredValue::Struct(vec![(
            "count".to_string(),
            StructuredValue::Scalar(Scalar::U8(200)),
        )])
    );
    match build_request(&schema, &flags, Some(&"{\"count\": 300}".to_string())) {
        Err(DecodeError::ValueValidation { .. }) => {}
        other => panic!("expected a validation failure, got {:?}", other),
    }
}

#[test]
fn dry_run_stops_before_dispatch() {
    let schema = hello_schema();
    let mut flags = LeafMap::new();
    flags.push_value(
        "name".to_string(),
        LeafValue::Single(Scalar::Str("n1".to_string())),
    );
    match plan_invocation(&schema, &flags, None, true).unwrap() {
        RunAction::PrintOnly(v) => match v {
            StructuredValue::Struct(fields) => {
                assert_eq!(
                    fields[0].1,
                    StructuredValue::Scalar(Scalar::Str("n1".to_string()))
                );
            }
            other => panic!("expected a struct, got {:?}", other),
        },
        other => panic!("expected a print-only plan, got {:?}", other),
    }
    match plan_invocation(&schema, &flags, None, false).unwrap() {
        RunAction::Dispatch(_) => {}
        other => panic!("expected a dispatch plan, got {:?}", other),
    }
}

#[test]
fn dispatch_outcomes_exit_codes() {
    let ok = DispatchOutcome::Success { rendered: "reply".to_string() };
    assert_eq!(ok.exit_code(), 0);
    let bad = DispatchOutcome::Failure { status: "unavailable".to_string() };
    assert_eq!(bad.exit_code(), 1);
}

#[test]
fn run_plan_decides_before_connecting() {
    let absent: DefaultArgs<u8> = DefaultArgs { transport: None };
    assert_eq!(absent.run_plan(), MainPlan::NoTransport);
    let dry = DefaultArgs {
        transport: Some(TransportMode::Tcp(TcpArgs {
            url: "http://127.0.0.1:50051".to_string(),
            common: CommonArgs { json_data: None, dry_run: true },
            command: 7u8,
        })),
    };
    assert_eq!(dry.run_plan(), MainPlan::DryRunPrint);
    let live = DefaultArgs {
        transport: Some(TransportMode::Tcp(TcpArgs {
            url: "http://127.0.0.1:50051".to_string(),
            common: CommonArgs { json_data: None, dry_run: false },
            command: 7u8,
        })),
    };
    assert_eq!(live.run_plan(), MainPlan::Connect);
    match &live.transport {
        Some(t) => {
            assert_eq!(t.url(), "http://127.0.0.1:50051");
            assert!(!t.common().dry_run);
        }
        None => unreachable!(),
    }
}

#[test]
fn intermediate_overwrites_follow_the_later_leaf() {
    // a leaf whose path runs through a field that an earlier leaf set as a
    // scalar overwrites that scalar with a nested tree
    let t = ValueTree::new();
    let shallow = vec!["a".to_string()];
    let t = set_nested_value(t, &shallow, TreeNode::Leaf(Scalar::I32(1)));
    let deep = vec!["a".to_string(), "b".to_string()];
    let t = set_nested_value(t, &deep, TreeNode::Leaf(Scalar::I32(2)));
    match t.get(&"a".to_string()) {
        Some(TreeNode::Branch(inner)) => match inner.get(&"b".to_string()) {
            Some(TreeNode::Leaf(Scalar::I32(x))) => assert_eq!(*x, 2),
            other => panic!("expected the deeper leaf, got {:?}", other),
        },
        other => panic!("expected a nested tree, got {:?}", other),
    }
}

#[test]
fn leaf_map_lookup_takes_the_first_entry() {
    let mut m = LeafMap::new();
    m.push_value(
        "name".to_string(),
        LeafValue::Single(Scalar::Str("first".to_string())),
    );
    m.push_value(
        "name".to_string(),
        LeafValue::Single(Scalar::Str("second".to_string())),
    );
    match m.get(&"name".to_string()) {
        Some(LeafValue::Single(Scalar::Str(s))) => assert_eq!(s, "first"),
        other => panic!("expected the first entry, got {:?}", other),
    }
}

#[test]
fn kebab_case_keeps_other_text() {
    assert_eq!(kebab_case("already-kebab"), "already-kebab");
    assert_eq!(kebab_case("HTTPServer"), "httpserver");
    assert_eq!(kebab_case(""), "");
}
