use stencila::address::{resolve_address, Slot};
use stencila::diagnostics::{diagnostics, severity_of_level};
use stencila::digest::compilation_digest;
use stencila::address::find_node;
use stencila::execute::{
    commit_compile, compile_plan, compile_properties, compile_walk, replace_node_properties,
    replace_properties, stale_plan, walk_control, execute_plan, CompilePlan, ExecKind, WalkControl,
};
use stencila::node_type::NodeId;
use stencila::kernel::{kernel_not_found, ExecutionMessage, KernelOutcome, MessageLevel};
use stencila::node_property::NodeProperty;
use stencila::node_type::NodeType;
use stencila::operation::PatchError;
use stencila::value::{clone_value, values_equal, Node, Property, Value};

fn text(s: &str) -> Value {
    Value::String(s.to_string())
}

fn node(node_type: NodeType, uid: u64, props: Vec<(NodeProperty, Value)>) -> Value {
    Value::Node(Node {
        node_type,
        uid,
        properties: props
            .into_iter()
            .map(|(name, value)| Property { name, value })
            .collect(),
    })
}

fn math(uid: u64, code: &str, lang: Option<&str>) -> Value {
    node(
        NodeType::MathInline,
        uid,
        vec![
            (NodeProperty::Code, text(code)),
            (NodeProperty::MathLanguage, lang.map(text).unwrap_or(Value::Null)),
            (NodeProperty::Mathml, Value::Null),
            (NodeProperty::CompilationMessages, Value::Null),
            (NodeProperty::CompilationDigest, Value::Null),
        ],
    )
}

fn styled(uid: u64, code: &str) -> Value {
    node(
        NodeType::StyledBlock,
        uid,
        vec![
            (NodeProperty::Code, text(code)),
            (NodeProperty::StyleLanguage, Value::Null),
            (NodeProperty::Css, Value::Null),
            (NodeProperty::ClassList, Value::Null),
            (NodeProperty::CompilationMessages, Value::Null),
            (NodeProperty::CompilationDigest, Value::Null),
        ],
    )
}

fn doc(blocks: Vec<Value>) -> Value {
    node(NodeType::Article, 0, vec![(NodeProperty::Content, Value::Array(blocks))])
}

fn no_outcome() -> KernelOutcome {
    KernelOutcome { outputs: vec![], messages: vec![] }
}

fn prop(v: &Value, p: NodeProperty) -> Value {
    resolve_address(v, &vec![Slot::Property(p)]).unwrap()
}

#[test]
fn digest_depends_on_code_and_language() {
    let d = compilation_digest("a + b", "tex");
    assert_eq!(d, compilation_digest("a + b", "tex"));
    assert_ne!(d, compilation_digest("a + c", "tex"));
    assert_ne!(d, compilation_digest("a + b", "asciimath"));
    assert_ne!(compilation_digest("ab", ""), compilation_digest("a", "b"));
}

#[test]
fn digest_of_empty_input_is_fnv_of_separator() {
    // FNV-1a of the single byte 0xff.
    let expected = (0xcbf29ce484222325u64 ^ 0xff).wrapping_mul(0x100000001b3);
    assert_eq!(compilation_digest("", ""), expected);
}

#[test]
fn compile_twice_breaks_the_second_time() {
    let mut m = math(1, " x^2 ", Some("TeX"));
    let plan = compile_plan(&m).unwrap();
    let (digest, code, language) = match &plan {
        CompilePlan::Evaluate { digest, code, language } => (*digest, code.clone(), language.clone()),
        other => panic!("unexpected plan {:?}", other),
    };
    assert_eq!(code, "x^2");
    assert_eq!(language, "tex");
    assert_eq!(digest, compilation_digest(" x^2 ", "TeX"));
    assert_eq!(walk_control(&plan), WalkControl::Continue);

    let outcome = KernelOutcome { outputs: vec![text("<math/>")], messages: vec![] };
    assert_eq!(commit_compile(&mut m, &vec![], &plan, &outcome), Ok(true));
    assert!(values_equal(&prop(&m, NodeProperty::Mathml), &text("<math/>")));
    assert!(values_equal(&prop(&m, NodeProperty::CompilationDigest), &Value::UnsignedInteger(digest)));

    let again = compile_plan(&m).unwrap();
    assert!(matches!(again, CompilePlan::Unchanged));
    assert_eq!(walk_control(&again), WalkControl::Break);
}

#[test]
fn mathml_needs_no_kernel() {
    let m = math(1, "<math><mi>x</mi></math>", Some("MathML"));
    match compile_plan(&m).unwrap() {
        CompilePlan::Direct { output, .. } => assert_eq!(output, "<math><mi>x</mi></math>"),
        other => panic!("unexpected plan {:?}", other),
    }
}

#[test]
fn blank_code_clears_results() {
    let mut m = math(1, "   ", None);
    let plan = compile_plan(&m).unwrap();
    assert!(matches!(plan, CompilePlan::Clear { .. }));
    assert_eq!(commit_compile(&mut m, &vec![], &plan, &no_outcome()), Ok(true));
    assert!(values_equal(&prop(&m, NodeProperty::Mathml), &Value::Null));
    assert!(matches!(compile_plan(&m).unwrap(), CompilePlan::Unchanged));
}

#[test]
fn missing_code_stays_stale() {
    let m = node(NodeType::MathBlock, 1, vec![(NodeProperty::MathLanguage, Value::Null)]);
    assert!(matches!(compile_plan(&m).unwrap(), CompilePlan::MissingCode));
    assert!(compile_plan(&text("x")).is_none());
    let p = node(NodeType::Paragraph, 2, vec![]);
    assert!(compile_plan(&p).is_none());
}

#[test]
fn style_defaults_its_language() {
    let s = styled(3, "color: red");
    match compile_plan(&s).unwrap() {
        CompilePlan::Evaluate { language, code, .. } => {
            assert_eq!(language, "style");
            assert_eq!(code, "color: red");
        }
        other => panic!("unexpected plan {:?}", other),
    }
}

#[test]
fn style_results_go_to_css_and_classes() {
    let mut s = styled(3, "color: red");
    let plan = compile_plan(&s).unwrap();
    let outcome = KernelOutcome { outputs: vec![text(".a{color:red}"), text("a")], messages: vec![] };
    let props = compile_properties(ExecKind::Style, &plan, &outcome);
    let names: Vec<NodeProperty> = props.iter().map(|p| p.name).collect();
    assert_eq!(
        names,
        vec![
            NodeProperty::Css,
            NodeProperty::ClassList,
            NodeProperty::CompilationMessages,
            NodeProperty::CompilationDigest
        ]
    );
    assert_eq!(commit_compile(&mut s, &vec![], &plan, &outcome), Ok(true));
    assert!(values_equal(&prop(&s, NodeProperty::ClassList), &text("a")));
}

#[test]
fn stale_results_are_dropped() {
    let mut d = doc(vec![math(1, "x", None)]);
    let address = vec![Slot::Property(NodeProperty::Content), Slot::Index(0)];
    let target = resolve_address(&d, &address).unwrap();
    let plan = compile_plan(&target).unwrap();
    // The user edits the code before the result arrives.
    let edit = replace_properties(
        &address,
        &vec![Property { name: NodeProperty::Code, value: text("y") }],
    );
    d.apply_patch(&edit).unwrap();
    let before = clone_value(&d);
    let outcome = KernelOutcome { outputs: vec![text("<math/>")], messages: vec![] };
    assert_eq!(commit_compile(&mut d, &address, &plan, &outcome), Ok(false));
    assert!(values_equal(&d, &before));
    let bad = vec![Slot::Property(NodeProperty::Content), Slot::Index(4)];
    assert_eq!(commit_compile(&mut d, &bad, &plan, &outcome), Err(PatchError::InvalidAddress));
}

#[test]
fn sibling_edit_keeps_digest() {
    let mut d = doc(vec![math(1, "x", None), math(2, "y", None)]);
    let first = vec![Slot::Property(NodeProperty::Content), Slot::Index(0)];
    let second = vec![Slot::Property(NodeProperty::Content), Slot::Index(1)];
    let before = compile_plan(&resolve_address(&d, &first).unwrap()).unwrap();
    let edit = replace_properties(&second, &vec![Property { name: NodeProperty::Code, value: text("z") }]);
    d.apply_patch(&edit).unwrap();
    let after = compile_plan(&resolve_address(&d, &first).unwrap()).unwrap();
    match (before, after) {
        (CompilePlan::Evaluate { digest: a, .. }, CompilePlan::Evaluate { digest: b, .. }) => {
            assert_eq!(a, b)
        }
        _ => panic!("unexpected plans"),
    }
}

#[test]
fn walk_finds_stale_nodes_in_order() {
    let mut d = doc(vec![
        math(1, "a", None),
        node(NodeType::QuoteBlock, 5, vec![(NodeProperty::Content, Value::Array(vec![styled(2, "b")]))]),
        math(3, "c", None),
    ]);
    let tasks = compile_walk(&d);
    assert_eq!(tasks.len(), 3);
    assert_eq!(
        tasks[1].address,
        vec![
            Slot::Property(NodeProperty::Content),
            Slot::Index(1),
            Slot::Property(NodeProperty::Content),
            Slot::Index(0)
        ]
    );
    let outcome = KernelOutcome { outputs: vec![text("<math/>")], messages: vec![] };
    assert_eq!(commit_compile(&mut d, &tasks[0].address, &tasks[0].plan, &outcome), Ok(true));
    let tasks = compile_walk(&d);
    assert_eq!(tasks.len(), 2);
    assert_eq!(tasks[0].address, vec![
        Slot::Property(NodeProperty::Content),
        Slot::Index(1),
        Slot::Property(NodeProperty::Content),
        Slot::Index(0)
    ]);
}

#[test]
fn unknown_language_becomes_a_diagnostic() {
    let mut m = math(1, "x", Some("klingon"));
    let plan = compile_plan(&m).unwrap();
    let outcome = kernel_not_found("klingon");
    assert_eq!(outcome.messages[0].message, "No kernel available for language: klingon");
    assert_eq!(commit_compile(&mut m, &vec![], &plan, &outcome), Ok(true));
    match prop(&m, NodeProperty::CompilationMessages) {
        Value::Array(items) => assert_eq!(items.len(), 1),
        _ => panic!("expected messages"),
    }
    assert!(values_equal(&prop(&m, NodeProperty::Mathml), &text("")));
}

#[test]
fn messages_are_recorded() {
    let mut m = math(1, "x", None);
    let plan = compile_plan(&m).unwrap();
    let outcome = KernelOutcome {
        outputs: vec![],
        messages: vec![ExecutionMessage {
            level: MessageLevel::Warning,
            message: "careful".to_string(),
            error_type: None,
            stack_trace: None,
        }],
    };
    commit_compile(&mut m, &vec![], &plan, &outcome).unwrap();
    match prop(&m, NodeProperty::CompilationMessages) {
        Value::Array(items) => {
            let level = resolve_address(&items[0], &vec![Slot::Property(NodeProperty::Level)]).unwrap();
            assert!(values_equal(&level, &text("Warning")));
        }
        _ => panic!("expected messages"),
    }
}

#[test]
fn diagnostics_follow_document_order() {
    let mut d = doc(vec![math(1, "x", None), math(2, "y", None)]);
    let tasks = compile_walk(&d);
    let first = KernelOutcome {
        outputs: vec![],
        messages: vec![
            ExecutionMessage {
                level: MessageLevel::Error,
                message: "bad".to_string(),
                error_type: None,
                stack_trace: None,
            },
            ExecutionMessage {
                level: MessageLevel::Debug,
                message: "trace".to_string(),
                error_type: None,
                stack_trace: None,
            },
        ],
    };
    let second = KernelOutcome {
        outputs: vec![],
        messages: vec![ExecutionMessage {
            level: MessageLevel::Warning,
            message: "careful".to_string(),
            error_type: None,
            stack_trace: None,
        }],
    };
    assert_eq!(commit_compile(&mut d, &tasks[1].address, &tasks[1].plan, &second), Ok(true));
    assert_eq!(commit_compile(&mut d, &tasks[0].address, &tasks[0].plan, &first), Ok(true));
    let diags = diagnostics(&d);
    assert_eq!(diags.len(), 3);
    assert_eq!(diags[0].message, "bad");
    assert_eq!(diags[0].severity, 1);
    assert_eq!(diags[0].address, tasks[0].address);
    assert_eq!(diags[1].severity, 4);
    assert_eq!(diags[2].message, "careful");
    assert_eq!(diags[2].severity, 2);
    assert_eq!(diags[2].address, tasks[1].address);
}

#[test]
fn severities_by_level_name() {
    assert_eq!(severity_of_level("Exception"), 1);
    assert_eq!(severity_of_level("Info"), 3);
    assert_eq!(severity_of_level("Trace"), 4);
    assert_eq!(diagnostics(&text("x")).len(), 0);
}

#[test]
fn properties_are_replaced_by_node_id() {
    let mut d = doc(vec![math(1, "x", None), math(2, "y", None)]);
    let id = NodeId::new(NodeType::MathInline, 2);
    assert_eq!(
        find_node(&d, id),
        Some(vec![Slot::Property(NodeProperty::Content), Slot::Index(1)])
    );
    replace_node_properties(&mut d, id, &vec![Property { name: NodeProperty::Mathml, value: text("<m/>") }])
        .unwrap();
    let second = resolve_address(&d, &vec![Slot::Property(NodeProperty::Content), Slot::Index(1)]).unwrap();
    assert!(values_equal(&prop(&second, NodeProperty::Mathml), &text("<m/>")));

    let before = clone_value(&d);
    let missing = NodeId::new(NodeType::MathInline, 9);
    assert_eq!(find_node(&d, missing), None);
    assert_eq!(
        replace_node_properties(&mut d, missing, &vec![]),
        Err(PatchError::InvalidAddress)
    );
    let unknown = vec![Property { name: NodeProperty::Caption, value: text("c") }];
    assert_eq!(replace_node_properties(&mut d, id, &unknown), Err(PatchError::InvalidAddress));
    assert!(values_equal(&d, &before));
}

#[test]
fn stale_plans_from_trimmed_code_and_language() {
    assert!(matches!(
        stale_plan(ExecKind::Math, 7, "".to_string(), None),
        CompilePlan::Clear { digest: 7 }
    ));
    match stale_plan(ExecKind::Math, 7, "x".to_string(), None) {
        CompilePlan::Evaluate { language, .. } => assert_eq!(language, "tex"),
        other => panic!("unexpected plan {:?}", other),
    }
    assert!(matches!(
        stale_plan(ExecKind::Math, 7, "<math/>".to_string(), Some("mathml".to_string())),
        CompilePlan::Direct { .. }
    ));
    match stale_plan(ExecKind::Style, 3, "a".to_string(), Some("tailwind".to_string())) {
        CompilePlan::Evaluate { language, code, digest } => {
            assert_eq!(language, "tailwind");
            assert_eq!(code, "a");
            assert_eq!(digest, 3);
        }
        other => panic!("unexpected plan {:?}", other),
    }
}

#[test]
fn execute_replans_as_compile_does() {
    let mut s = styled(3, "color: red");
    let plan = execute_plan(&s).unwrap();
    assert!(matches!(plan, CompilePlan::Evaluate { .. }));
    let outcome = KernelOutcome { outputs: vec![text(".a{}"), text("a")], messages: vec![] };
    assert_eq!(commit_compile(&mut s, &vec![], &plan, &outcome), Ok(true));
    assert!(matches!(compile_plan(&s).unwrap(), CompilePlan::Unchanged));
    assert!(matches!(execute_plan(&s).unwrap(), CompilePlan::Unchanged));
    let edit = replace_properties(&vec![], &vec![Property { name: NodeProperty::Code, value: text("color: blue") }]);
    s.apply_patch(&edit).unwrap();
    match execute_plan(&s).unwrap() {
        CompilePlan::Evaluate { code, language, .. } => {
            assert_eq!(code, "color: blue");
            assert_eq!(language, "style");
        }
        other => panic!("unexpected plan {:?}", other),
    }
}
