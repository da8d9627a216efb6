//! Document trees and the values that patches carry.
//!
//! A document is a tree of [`Value`]s. A [`Node`] is a typed value with an
//! identifier and an ordered list of named properties; arrays hold ordered
//! children. Every value has a mathematical model, a [`Tree`], over which
//! the behaviour of patches and diffs is stated.

use vstd::prelude::*;

use crate::node_property::NodeProperty;
use crate::node_type::{NodeId, NodeType};

verus! {

/// A value of a document tree.
#[derive(Debug)]
pub enum Value {
    /// The absence of a value (an unset optional property).
    Null,
    Boolean(bool),
    Integer(i64),
    UnsignedInteger(u64),
    String(String),
    Array(Vec<Value>),
    Node(Node),
}

/// A typed node of a document tree.
#[derive(Debug)]
pub struct Node {
    pub node_type: NodeType,
    pub uid: u64,
    pub properties: Vec<Property>,
}

/// A named property of a node.
#[derive(Debug)]
pub struct Property {
    pub name: NodeProperty,
    pub value: Value,
}

/// The mathematical model of a [`Value`].
pub enum Tree {
    Null,
    Boolean(bool),
    Integer(i64),
    UnsignedInteger(u64),
    Text(Seq<char>),
    Array(Seq<Tree>),
    Node(NodeType, u64, Seq<(NodeProperty, Tree)>),
}

/// The model of a value.
pub open spec fn tree_of(v: &Value) -> Tree
    decreases v,
{
    match v {
        Value::Null => Tree::Null,
        Value::Boolean(b) => Tree::Boolean(*b),
        Value::Integer(i) => Tree::Integer(*i),
        Value::UnsignedInteger(u) => Tree::UnsignedInteger(*u),
        Value::String(s) => Tree::Text(s@),
        Value::Array(items) => Tree::Array(trees_of(items@)),
        Value::Node(node) => Tree::Node(node.node_type, node.uid, props_of(node.properties@)),
    }
}

/// The models of a sequence of values.
pub open spec fn trees_of(s: Seq<Value>) -> Seq<Tree>
    decreases s,
{
    if s.len() == 0 {
        Seq::empty()
    } else {
        trees_of(s.drop_last()).push(tree_of(&s.last()))
    }
}

/// The models of a sequence of properties.
pub open spec fn props_of(s: Seq<Property>) -> Seq<(NodeProperty, Tree)>
    decreases s,
{
    if s.len() == 0 {
        Seq::empty()
    } else {
        props_of(s.drop_last()).push((s.last().name, tree_of(&s.last().value)))
    }
}

impl View for Value {
    type V = Tree;

    open spec fn view(&self) -> Tree {
        tree_of(self)
    }
}

impl Node {
    /// The identifier of this node.
    pub fn node_id(&self) -> (r: NodeId)
        ensures
            r.node_type == self.node_type,
            r.uid == self.uid,
    {
        NodeId::new(self.node_type, self.uid)
    }
}

/// The models of a sequence of values are those of its elements.
pub proof fn lemma_trees_of(s: Seq<Value>)
    ensures
        trees_of(s).len() == s.len(),
        forall|i: int| 0 <= i < s.len() ==> #[trigger] trees_of(s)[i] == tree_of(&s[i]),
    decreases s.len(),
{
    if s.len() > 0 {
        lemma_trees_of(s.drop_last());
    }
}

/// The models of a sequence of properties are those of its elements.
pub proof fn lemma_props_of(s: Seq<Property>)
    ensures
        props_of(s).len() == s.len(),
        forall|i: int|
            0 <= i < s.len() ==> #[trigger] props_of(s)[i] == (s[i].name, tree_of(&s[i].value)),
    decreases s.len(),
{
    if s.len() > 0 {
        lemma_props_of(s.drop_last());
    }
}

/// Two sequences of values with the same element models have the same models.
pub proof fn lemma_trees_of_ext(s: Seq<Value>, t: Seq<Value>)
    requires
        s.len() == t.len(),
        forall|i: int| 0 <= i < s.len() ==> tree_of(&#[trigger] s[i]) == tree_of(&t[i]),
    ensures
        trees_of(s) == trees_of(t),
{
    lemma_trees_of(s);
    lemma_trees_of(t);
    assert(trees_of(s) =~= trees_of(t));
}

/// Two sequences of properties with the same element models have the same models.
pub proof fn lemma_props_of_ext(s: Seq<Property>, t: Seq<Property>)
    requires
        s.len() == t.len(),
        forall|i: int|
            0 <= i < s.len() ==> (#[trigger] s[i]).name == t[i].name && tree_of(&s[i].value)
                == tree_of(&t[i].value),
    ensures
        props_of(s) == props_of(t),
{
    lemma_props_of(s);
    lemma_props_of(t);
    assert(props_of(s) =~= props_of(t));
}

/// A copy of `v` with the same model.
pub fn clone_value(v: &Value) -> (r: Value)
    ensures
        r@ == v@,
    decreases v,
{
    match v {
        Value::Null => Value::Null,
        Value::Boolean(b) => Value::Boolean(*b),
        Value::Integer(i) => Value::Integer(*i),
        Value::UnsignedInteger(u) => Value::UnsignedInteger(*u),
        Value::String(s) => Value::String(s.clone()),
        Value::Array(items) => {
            let out = clone_values(items);
            proof {
                lemma_trees_of_ext(out@, items@);
            }
            Value::Array(out)
        },
        Value::Node(node) => {
            let props = clone_properties(&node.properties);
            proof {
                lemma_props_of_ext(props@, node.properties@);
            }
            Value::Node(Node { node_type: node.node_type, uid: node.uid, properties: props })
        },
    }
}

/// A copy of a list of values with the same models.
pub fn clone_values(items: &Vec<Value>) -> (r: Vec<Value>)
    ensures
        r@.len() == items@.len(),
        forall|j: int| 0 <= j < items@.len() ==> tree_of(&#[trigger] r@[j]) == tree_of(&items@[j]),
        trees_of(r@) == trees_of(items@),
    decreases items,
{
    let mut out: Vec<Value> = Vec::new();
    let mut i: usize = 0;
    while i < items.len()
        invariant
            i <= items.len(),
            out@.len() == i,
            forall|j: int| 0 <= j < i ==> tree_of(&#[trigger] out@[j]) == tree_of(&items@[j]),
        decreases items.len() - i,
    {
        proof {
            assert(decreases_to!(items => items@[i as int]));
        }
        let c = clone_value(&items[i]);
        out.push(c);
        i = i + 1;
    }
    proof {
        lemma_trees_of_ext(out@, items@);
    }
    out
}

/// A copy of a list of properties with the same names and value models.
pub fn clone_properties(props: &Vec<Property>) -> (r: Vec<Property>)
    ensures
        r@.len() == props@.len(),
        forall|j: int|
            0 <= j < props@.len() ==> (#[trigger] r@[j]).name == props@[j].name && tree_of(
                &r@[j].value,
            ) == tree_of(&props@[j].value),
        props_of(r@) == props_of(props@),
    decreases props,
{
    let mut out: Vec<Property> = Vec::new();
    let mut i: usize = 0;
    while i < props.len()
        invariant
            i <= props.len(),
            out@.len() == i,
            forall|j: int|
                0 <= j < i ==> (#[trigger] out@[j]).name == props@[j].name && tree_of(
                    &out@[j].value,
                ) == tree_of(&props@[j].value),
        decreases props.len() - i,
    {
        proof {
            assert(decreases_to!(props => props@[i as int]));
        }
        let c = clone_value(&props[i].value);
        out.push(Property { name: props[i].name, value: c });
        i = i + 1;
    }
    proof {
        lemma_props_of_ext(out@, props@);
    }
    out
}

/// Whether two values have the same model.
pub fn values_equal(a: &Value, b: &Value) -> (r: bool)
    ensures
        r == (a@ == b@),
    decreases a,
{
    match (a, b) {
        (Value::Null, Value::Null) => true,
        (Value::Boolean(x), Value::Boolean(y)) => *x == *y,
        (Value::Integer(x), Value::Integer(y)) => *x == *y,
        (Value::UnsignedInteger(x), Value::UnsignedInteger(y)) => *x == *y,
        (Value::String(x), Value::String(y)) => {
            let r = *x == *y;
            assert(r == (x@ == y@));
            r
        },
        (Value::Array(xs), Value::Array(ys)) => all_values_equal(xs, ys),
        (Value::Node(x), Value::Node(y)) => {
            if x.node_type != y.node_type || x.uid != y.uid {
                return false;
            }
            properties_equal(&x.properties, &y.properties)
        },
        _ => {
            assert(a@ != b@);
            false
        },
    }
}

/// Whether two lists of values have the same models.
pub fn all_values_equal(xs: &Vec<Value>, ys: &Vec<Value>) -> (r: bool)
    ensures
        r == (trees_of(xs@) == trees_of(ys@)),
    decreases xs,
{
    proof {
        lemma_trees_of(xs@);
        lemma_trees_of(ys@);
    }
    if xs.len() != ys.len() {
        return false;
    }
    let mut i: usize = 0;
    while i < xs.len()
        invariant
            i <= xs.len(),
            xs.len() == ys.len(),
            forall|j: int| 0 <= j < i ==> tree_of(&#[trigger] xs@[j]) == tree_of(&ys@[j]),
        decreases xs.len() - i,
    {
        proof {
            assert(decreases_to!(xs => xs@[i as int]));
        }
        if !values_equal(&xs[i], &ys[i]) {
            proof {
                lemma_trees_of(xs@);
                lemma_trees_of(ys@);
            }
            assert(trees_of(xs@)[i as int] != trees_of(ys@)[i as int]);
            return false;
        }
        i = i + 1;
    }
    proof {
        lemma_trees_of_ext(xs@, ys@);
    }
    true
}

/// Whether two lists of properties have the same model.
pub fn properties_equal(xs: &Vec<Property>, ys: &Vec<Property>) -> (r: bool)
    ensures
        r == (props_of(xs@) == props_of(ys@)),
    decreases xs,
{
    proof {
        lemma_props_of(xs@);
        lemma_props_of(ys@);
    }
    if xs.len() != ys.len() {
        return false;
    }
    let mut i: usize = 0;
    while i < xs.len()
        invariant
            i <= xs.len(),
            xs.len() == ys.len(),
            forall|j: int|
                0 <= j < i ==> (#[trigger] xs@[j]).name == ys@[j].name && tree_of(&xs@[j].value)
                    == tree_of(&ys@[j].value),
        decreases xs.len() - i,
    {
        proof {
            assert(decreases_to!(xs => xs@[i as int]));
        }
        if xs[i].name != ys[i].name || !values_equal(&xs[i].value, &ys[i].value) {
            proof {
                lemma_props_of(xs@);
                lemma_props_of(ys@);
            }
            assert(props_of(xs@)[i as int] != props_of(ys@)[i as int]);
            return false;
        }
        i = i + 1;
    }
    proof {
        lemma_props_of_ext(xs@, ys@);
    }
    true
}

/// Text, or nothing.
pub open spec fn optional_text(o: Option<String>) -> Tree {
    match o {
        Some(s) => Tree::Text(s@),
        None => Tree::Null,
    }
}

/// Text as a value, or nothing.
pub fn optional_text_value(o: &Option<String>) -> (r: Value)
    ensures
        r@ == optional_text(*o),
{
    match o {
        Some(s) => Value::String(s.clone()),
        None => Value::Null,
    }
}

/// A list of texts as an array.
pub open spec fn texts_tree(v: Seq<String>) -> Tree {
    Tree::Array(v.map_values(|s: String| Tree::Text(s@)))
}

/// A list of texts as an array value.
pub fn texts_value(v: &Vec<String>) -> (r: Value)
    ensures
        r@ == texts_tree(v@),
{
    let mut out: Vec<Value> = Vec::new();
    let mut i: usize = 0;
    while i < v.len()
        invariant
            i <= v@.len(),
            out@.len() == i,
            forall|j: int| 0 <= j < i ==> tree_of(&#[trigger] out@[j]) == Tree::Text(v@[j]@),
        decreases v@.len() - i,
    {
        out.push(Value::String(v[i].clone()));
        i = i + 1;
    }
    proof {
        lemma_trees_of(out@);
        assert(trees_of(out@) =~= v@.map_values(|s: String| Tree::Text(s@)));
    }
    Value::Array(out)
}

/// An optional list of texts as an array, or nothing.
pub open spec fn optional_texts(o: Option<Vec<String>>) -> Tree {
    match o {
        Some(v) => texts_tree(v@),
        None => Tree::Null,
    }
}

/// An optional list of texts as an array value, or nothing.
pub fn optional_texts_value(o: &Option<Vec<String>>) -> (r: Value)
    ensures
        r@ == optional_texts(*o),
{
    match o {
        Some(v) => texts_value(v),
        None => Value::Null,
    }
}

/// An optional list of values as an array, or nothing.
pub open spec fn optional_values(o: Option<Vec<Value>>) -> Tree {
    match o {
        Some(v) => Tree::Array(trees_of(v@)),
        None => Tree::Null,
    }
}

/// An optional list of values as an array value, or nothing.
pub fn optional_values_value(o: &Option<Vec<Value>>) -> (r: Value)
    ensures
        r@ == optional_values(*o),
{
    match o {
        Some(v) => Value::Array(clone_values(v)),
        None => Value::Null,
    }
}

/// A list of values as an array value.
pub fn array_value(v: &Vec<Value>) -> (r: Value)
    ensures
        r@ == Tree::Array(trees_of(v@)),
{
    Value::Array(clone_values(v))
}

/// A node of type `node_type` with id `uid` and the given properties.
pub fn node_value(node_type: NodeType, uid: u64, properties: Vec<Property>) -> (r: Value)
    ensures
        r@ == Tree::Node(node_type, uid, props_of(properties@)),
{
    Value::Node(Node { node_type, uid, properties })
}

} // verus!
