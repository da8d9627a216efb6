use stencila::address::{resolve_address, Slot};
use stencila::differ::diff;
use stencila::node_property::NodeProperty;
use stencila::node_type::NodeType;
use stencila::operation::{OpKind, Operation, Patch, PatchError};
use stencila::value::{clone_value, values_equal, Node, Property, Value};

fn text(s: &str) -> Value {
    Value::String(s.to_string())
}

fn node(node_type: NodeType, uid: u64, props: Vec<(NodeProperty, Value)>) -> Value {
    Value::Node(Node {
        node_type,
        uid,
        properties: props
            .into_iter()
            .map(|(name, value)| Property { name, value })
            .collect(),
    })
}

fn para(uid: u64, inlines: Vec<Value>) -> Value {
    node(NodeType::Paragraph, uid, vec![(NodeProperty::Content, Value::Array(inlines))])
}

fn article(blocks: Vec<Value>) -> Value {
    node(
        NodeType::Article,
        0,
        vec![
            (NodeProperty::Title, text("A title")),
            (NodeProperty::Content, Value::Array(blocks)),
        ],
    )
}

fn same(a: &Value, b: &Value) -> bool {
    values_equal(a, b)
}

fn round_trip(a: &Value, b: &Value) -> usize {
    let patch = diff(a, b);
    let mut x = clone_value(a);
    x.apply_patch(&patch).expect("diff must apply");
    assert!(same(&x, b));
    patch.ops.len()
}

#[test]
fn diff_apply_round_trip_text_edit() {
    let a = article(vec![para(1, vec![text("Hello")]), para(2, vec![text("world")])]);
    let b = article(vec![para(1, vec![text("Hello")]), para(2, vec![text("there")])]);
    assert_eq!(round_trip(&a, &b), 1);
}

#[test]
fn diff_apply_round_trip_insert_and_remove() {
    let a = article(vec![para(1, vec![text("one")])]);
    let b = article(vec![
        para(1, vec![text("one")]),
        para(2, vec![text("two")]),
        para(3, vec![text("three")]),
    ]);
    assert_eq!(round_trip(&a, &b), 2);
    assert_eq!(round_trip(&b, &a), 1);
}

#[test]
fn diff_apply_round_trip_type_change() {
    let a = node(NodeType::Emphasis, 4, vec![(NodeProperty::Content, Value::Array(vec![text("x")]))]);
    let b = node(NodeType::Strong, 4, vec![(NodeProperty::Content, Value::Array(vec![text("y")]))]);
    let patch = diff(&a, &b);
    assert!(matches!(patch.ops[0], Operation::Transform { .. }));
    assert_eq!(round_trip(&a, &b), 2);
}

#[test]
fn diff_apply_round_trip_unrelated_values() {
    let a = article(vec![para(1, vec![text("x")])]);
    let b = Value::Integer(42);
    assert_eq!(round_trip(&a, &b), 1);
    let c = node(NodeType::Heading, 9, vec![(NodeProperty::Level, Value::Integer(1))]);
    assert_eq!(round_trip(&a, &c), 1);
}

#[test]
fn empty_diff_is_empty_and_a_no_op() {
    let a = article(vec![para(1, vec![text("Hello")])]);
    let b = clone_value(&a);
    let patch = diff(&a, &b);
    assert_eq!(patch.ops.len(), 0);
    let mut x = clone_value(&a);
    x.apply_patch(&patch).unwrap();
    assert!(same(&x, &a));
}

#[test]
fn address_past_end_is_invalid() {
    let a = article(vec![para(1, vec![text("Hello")])]);
    let past = vec![Slot::Property(NodeProperty::Content), Slot::Index(1)];
    assert!(resolve_address(&a, &past).is_none());
    let inside = vec![Slot::Property(NodeProperty::Content), Slot::Index(0)];
    assert!(resolve_address(&a, &inside).is_some());

    let mut x = clone_value(&a);
    let op = Operation::Remove { address: vec![Slot::Property(NodeProperty::Content), Slot::Index(2)], items: 1 };
    assert_eq!(x.apply_op(&op), Err(PatchError::InvalidAddress));
    let unknown = Operation::Replace {
        address: vec![Slot::Property(NodeProperty::Caption)],
        items: 1,
        value: text("x"),
    };
    assert_eq!(x.apply_op(&unknown), Err(PatchError::InvalidAddress));
    assert!(same(&x, &a));
}

#[test]
fn move_on_text_is_unsupported() {
    let a = article(vec![para(1, vec![text("Hello")])]);
    let mut x = clone_value(&a);
    let op = Operation::Move {
        from: vec![Slot::Property(NodeProperty::Title)],
        items: 1,
        to: vec![Slot::Property(NodeProperty::Content), Slot::Index(0)],
    };
    assert_eq!(x.apply_op(&op), Err(PatchError::InvalidPatchOperation(OpKind::Move)));
    assert!(same(&x, &a));

    let replace = Operation::Replace {
        address: vec![Slot::Property(NodeProperty::Title)],
        items: 1,
        value: text("New title"),
    };
    x.apply_op(&replace).unwrap();
    let title = resolve_address(&x, &vec![Slot::Property(NodeProperty::Title)]).unwrap();
    assert!(same(&title, &text("New title")));
}

#[test]
fn patch_is_atomic() {
    let a = article(vec![para(1, vec![text("Hello")])]);
    let mut x = clone_value(&a);
    let patch = Patch::new(vec![
        Operation::Replace {
            address: vec![Slot::Property(NodeProperty::Title)],
            items: 1,
            value: text("Changed"),
        },
        Operation::Add {
            address: vec![Slot::Property(NodeProperty::Content), Slot::Index(5)],
            value: para(2, vec![]),
        },
    ]);
    assert_eq!(x.apply_patch(&patch), Err(PatchError::InvalidAddress));
    assert!(same(&x, &a));
}

#[test]
fn move_and_copy_ranges() {
    let a = Value::Array(vec![text("a"), text("b"), text("c"), text("d")]);
    let mut x = clone_value(&a);
    x.apply_op(&Operation::Move { from: vec![Slot::Index(0)], items: 2, to: vec![Slot::Index(2)] })
        .unwrap();
    assert!(same(&x, &Value::Array(vec![text("c"), text("d"), text("a"), text("b")])));
    x.apply_op(&Operation::Copy { from: vec![Slot::Index(3)], items: 1, to: vec![Slot::Index(0)] })
        .unwrap();
    assert!(same(&x, &Value::Array(vec![text("b"), text("c"), text("d"), text("a"), text("b")])));
    x.apply_op(&Operation::Remove { address: vec![Slot::Index(1)], items: 3 }).unwrap();
    assert!(same(&x, &Value::Array(vec![text("b"), text("b")])));
    x.apply_op(&Operation::Replace { address: vec![Slot::Index(0)], items: 2, value: text("z") })
        .unwrap();
    assert!(same(&x, &Value::Array(vec![text("z")])));
}

#[test]
fn transform_checks_the_source_type() {
    let a = node(NodeType::Emphasis, 1, vec![(NodeProperty::Content, Value::Array(vec![]))]);
    let mut x = clone_value(&a);
    let wrong = Operation::Transform { address: vec![], from_type: NodeType::Strong, to_type: NodeType::Subscript };
    assert_eq!(x.apply_op(&wrong), Err(PatchError::InvalidPatchOperation(OpKind::Transform)));
    let right = Operation::Transform { address: vec![], from_type: NodeType::Emphasis, to_type: NodeType::Strong };
    x.apply_op(&right).unwrap();
    match &x {
        Value::Node(n) => assert_eq!(n.node_type, NodeType::Strong),
        _ => panic!("expected a node"),
    }
}

#[test]
fn add_into_text_is_unsupported() {
    let mut x = text("abc");
    let op = Operation::Add { address: vec![Slot::Index(0)], value: text("z") };
    assert_eq!(x.apply_op(&op), Err(PatchError::InvalidPatchOperation(OpKind::Add)));
}

#[test]
fn reordered_nodes_are_moved_not_replaced() {
    let a = article(vec![
        para(1, vec![text("one")]),
        para(2, vec![text("two")]),
        para(3, vec![text("three")]),
    ]);
    let b = article(vec![
        para(3, vec![text("three")]),
        para(1, vec![text("one")]),
        para(2, vec![text("two")]),
    ]);
    let patch = diff(&a, &b);
    assert_eq!(patch.ops.len(), 1);
    match &patch.ops[0] {
        Operation::Move { from, items, to } => {
            assert_eq!(from, &vec![Slot::Property(NodeProperty::Content), Slot::Index(2)]);
            assert_eq!(*items, 1);
            assert_eq!(to, &vec![Slot::Property(NodeProperty::Content), Slot::Index(0)]);
        }
        other => panic!("expected a move, got {:?}", other),
    }
    assert_eq!(round_trip(&a, &b), 1);
}

#[test]
fn moved_and_edited_nodes() {
    let a = Value::Array(vec![para(1, vec![text("a")]), para(2, vec![text("b")]), text("c")]);
    let b = Value::Array(vec![para(2, vec![text("B")]), text("c"), para(1, vec![text("a")]), para(4, vec![])]);
    round_trip(&a, &b);
    round_trip(&b, &a);
}

#[test]
fn nodes_without_ids_are_not_moved() {
    let a = Value::Array(vec![para(0, vec![text("x")]), para(0, vec![text("y")])]);
    let b = Value::Array(vec![para(0, vec![text("y")]), para(0, vec![text("x")])]);
    let patch = diff(&a, &b);
    assert!(patch.ops.iter().all(|op| !matches!(op, Operation::Move { .. })));
    round_trip(&a, &b);
}
