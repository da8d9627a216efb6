//! Addresses: paths that locate a value inside a document tree.

use vstd::prelude::*;

use crate::node_property::NodeProperty;
use crate::node_type::NodeId;
use crate::value::{
    clone_value, lemma_props_of, lemma_trees_of, props_of, tree_of, trees_of, Property, Tree,
    Value,
};

verus! {

/// One segment of an address: a property of a node, or a position in an array.
#[derive(Debug, Clone, Copy, PartialEq, Eq, Structural)]
pub enum Slot {
    Property(NodeProperty),
    Index(usize),
}

/// A path of slots, resolved left to right from the root of a tree.
pub type Address = Vec<Slot>;

/// The position of the first property named `name` at or after `start`.
pub open spec fn find_from(props: Seq<(NodeProperty, Tree)>, name: NodeProperty, start: int) -> Option<int>
    decreases props.len() - start,
{
    if start < 0 || start >= props.len() {
        None
    } else if props[start].0 == name {
        Some(start)
    } else {
        find_from(props, name, start + 1)
    }
}

/// The position of the first property named `name`.
pub open spec fn find_property(props: Seq<(NodeProperty, Tree)>, name: NodeProperty) -> Option<int> {
    find_from(props, name, 0)
}

/// The child of `t` that `slot` designates, if there is one.
pub open spec fn step(t: Tree, slot: Slot) -> Option<Tree> {
    match slot {
        Slot::Index(i) => match t {
            Tree::Array(items) => if i < items.len() {
                Some(items[i as int])
            } else {
                None
            },
            _ => None,
        },
        Slot::Property(p) => match t {
            Tree::Node(_, _, props) => match find_property(props, p) {
                Some(k) => Some(props[k].1),
                None => None,
            },
            _ => None,
        },
    }
}

/// `t` with the child that `slot` designates replaced by `c`.
pub open spec fn put(t: Tree, slot: Slot, c: Tree) -> Tree {
    match slot {
        Slot::Index(i) => match t {
            Tree::Array(items) => Tree::Array(items.update(i as int, c)),
            _ => t,
        },
        Slot::Property(p) => match t {
            Tree::Node(ty, uid, props) => match find_property(props, p) {
                Some(k) => Tree::Node(ty, uid, props.update(k, (p, c))),
                None => t,
            },
            _ => t,
        },
    }
}

/// The value that `path` locates in `t`, if the path resolves.
pub open spec fn resolve(t: Tree, path: Seq<Slot>) -> Option<Tree>
    decreases path.len(),
{
    if path.len() == 0 {
        Some(t)
    } else {
        match step(t, path[0]) {
            Some(c) => resolve(c, path.drop_first()),
            None => None,
        }
    }
}

/// The first-property search finds the first property with the name, or none.
pub proof fn lemma_find_from(props: Seq<(NodeProperty, Tree)>, name: NodeProperty, start: int)
    requires
        0 <= start,
    ensures
        find_from(props, name, start) matches Some(k) ==> start <= k < props.len() && props[k].0
            == name && forall|j: int| start <= j < k ==> props[j].0 != name,
        find_from(props, name, start) is None ==> forall|j: int|
            start <= j < props.len() ==> props[j].0 != name,
    decreases props.len() - start,
{
    if start < props.len() && props[start].0 != name {
        lemma_find_from(props, name, start + 1);
    }
}

/// The first-property search looks at names only.
pub proof fn lemma_find_from_names(
    a: Seq<(NodeProperty, Tree)>,
    b: Seq<(NodeProperty, Tree)>,
    name: NodeProperty,
    start: int,
)
    requires
        a.len() == b.len(),
        forall|j: int| 0 <= j < a.len() ==> (#[trigger] a[j]).0 == b[j].0,
    ensures
        find_from(a, name, start) == find_from(b, name, start),
    decreases a.len() - start,
{
    if 0 <= start < a.len() && a[start].0 != name {
        lemma_find_from_names(a, b, name, start + 1);
    }
}

/// Resolving a path extended by one slot takes one more step.
pub proof fn lemma_resolve_push(t: Tree, path: Seq<Slot>, s: Slot)
    ensures
        resolve(t, path.push(s)) == match resolve(t, path) {
            Some(x) => step(x, s),
            None => None,
        },
    decreases path.len(),
{
    if path.len() == 0 {
        assert(path.push(s).drop_first() =~= Seq::<Slot>::empty());
        match step(t, s) {
            Some(c) => {
                assert(resolve(c, Seq::<Slot>::empty()) == Some(c));
            },
            None => {},
        }
    } else {
        assert(path.push(s).drop_first() =~= path.drop_first().push(s));
        match step(t, path[0]) {
            Some(c) => lemma_resolve_push(c, path.drop_first(), s),
            None => {},
        }
    }
}

/// An index at or past the end of the array that a path locates does not resolve.
pub proof fn lemma_index_out_of_range(t: Tree, path: Seq<Slot>, i: usize)
    requires
        resolve(t, path) matches Some(Tree::Array(items)) && i >= items.len(),
    ensures
        resolve(t, path.push(Slot::Index(i))) is None,
{
    lemma_resolve_push(t, path, Slot::Index(i));
}

/// The position of the first property of `node` named `name`.
pub fn find_property_index(props: &Vec<Property>, name: NodeProperty) -> (r: Option<usize>)
    ensures
        r matches Some(k) ==> k < props@.len() && props@[k as int].name == name && find_property(
            props_of(props@),
            name,
        ) == Some(k as int),
        r is None ==> find_property(props_of(props@), name) is None,
{
    proof {
        lemma_props_of(props@);
    }
    let mut i: usize = 0;
    while i < props.len()
        invariant
            i <= props.len(),
            props_of(props@).len() == props@.len(),
            find_from(props_of(props@), name, 0) == find_from(props_of(props@), name, i as int),
        decreases props.len() - i,
    {
        proof {
            lemma_props_of(props@);
        }
        if props[i].name == name {
            assert(props_of(props@)[i as int].0 == name);
            return Some(i);
        }
        assert(props_of(props@)[i as int].0 != name);
        i = i + 1;
    }
    None
}

/// The child of `t` that `slot` designates.
pub fn child<'a>(t: &'a Value, slot: Slot) -> (r: Option<&'a Value>)
    ensures
        r matches Some(c) ==> step(t@, slot) == Some(c@),
        r is None ==> step(t@, slot) is None,
{
    match (t, slot) {
        (Value::Array(items), Slot::Index(i)) => {
            proof {
                lemma_trees_of(items@);
            }
            if i < items.len() {
                Some(&items[i])
            } else {
                None
            }
        },
        (Value::Node(node), Slot::Property(p)) => {
            proof {
                lemma_props_of(node.properties@);
            }
            match find_property_index(&node.properties, p) {
                Some(k) => Some(&node.properties[k].value),
                None => None,
            }
        },
        _ => None,
    }
}

/// The value that `path[k..end]` locates in `t`.
pub fn resolve_range<'a>(t: &'a Value, path: &Address, k: usize, end: usize) -> (r: Option<&'a Value>)
    requires
        k <= end <= path@.len(),
    ensures
        r matches Some(c) ==> resolve(t@, path@.subrange(k as int, end as int)) == Some(c@),
        r is None ==> resolve(t@, path@.subrange(k as int, end as int)) is None,
    decreases end - k,
{
    if k == end {
        return Some(t);
    }
    assert(path@.subrange(k as int, end as int).drop_first() =~= path@.subrange(
        k as int + 1,
        end as int,
    ));
    match child(t, path[k]) {
        Some(c) => resolve_range(c, path, k + 1, end),
        None => None,
    }
}

/// A copy of the value that `address` locates in `root`, or `None` where a
/// property does not exist, an index is out of range, or a slot steps into
/// a value that has no children.
pub fn resolve_address(root: &Value, address: &Address) -> (r: Option<Value>)
    ensures
        r matches Some(c) ==> resolve(root@, address@) == Some(c@),
        r is None ==> resolve(root@, address@) is None,
{
    assert(address@.subrange(0, address@.len() as int) =~= address@);
    match resolve_range(root, address, 0, address.len()) {
        Some(c) => Some(clone_value(c)),
        None => None,
    }
}

/// A copy of a path.
pub fn copy_path(p: &Address) -> (r: Address)
    ensures
        r@ == p@,
{
    let mut out: Address = Vec::new();
    let mut i: usize = 0;
    while i < p.len()
        invariant
            i <= p@.len(),
            out@ == p@.subrange(0, i as int),
        decreases p@.len() - i,
    {
        out.push(p[i]);
        i = i + 1;
        assert(out@ =~= p@.subrange(0, i as int));
    }
    assert(p@.subrange(0, p@.len() as int) =~= p@);
    out
}

/// A copy of a path, extended by one slot.
pub fn path_with(p: &Address, s: Slot) -> (r: Address)
    ensures
        r@ == p@.push(s),
{
    let mut out = copy_path(p);
    out.push(s);
    out
}

/// The address of the first node, in pre-order, that has id `id`, in `t`
/// located at `path`.
pub open spec fn locate(t: Tree, id: NodeId, path: Seq<Slot>) -> Option<Seq<Slot>>
    decreases t,
{
    match t {
        Tree::Node(ty, uid, props) => if ty == id.node_type && uid == id.uid {
            Some(path)
        } else {
            locate_props(props, id, path)
        },
        Tree::Array(items) => locate_items(items, id, path),
        _ => None,
    }
}

/// The first address of a node with id `id` among the elements of an array.
pub open spec fn locate_items(items: Seq<Tree>, id: NodeId, path: Seq<Slot>) -> Option<Seq<Slot>>
    decreases items,
{
    if items.len() == 0 {
        None
    } else {
        match locate_items(items.drop_last(), id, path) {
            Some(p) => Some(p),
            None => locate(items.last(), id, path.push(Slot::Index((items.len() - 1) as usize))),
        }
    }
}

/// The first address of a node with id `id` among the values of properties.
pub open spec fn locate_props(props: Seq<(NodeProperty, Tree)>, id: NodeId, path: Seq<Slot>) -> Option<
    Seq<Slot>,
>
    decreases props,
{
    if props.len() == 0 {
        None
    } else {
        match locate_props(props.drop_last(), id, path) {
            Some(p) => Some(p),
            None => locate(props.last().1, id, path.push(Slot::Property(props.last().0))),
        }
    }
}

/// A match in a prefix of the elements is the first match of them all.
proof fn lemma_locate_items_prefix(items: Seq<Tree>, id: NodeId, path: Seq<Slot>, i: int)
    requires
        0 <= i <= items.len(),
        locate_items(items.take(i), id, path) is Some,
    ensures
        locate_items(items, id, path) == locate_items(items.take(i), id, path),
    decreases items.len() - i,
{
    if i < items.len() {
        let next = items.take(i + 1);
        assert(next.drop_last() =~= items.take(i));
        lemma_locate_items_prefix(items, id, path, i + 1);
    } else {
        assert(items.take(i) =~= items);
    }
}

/// A match in a prefix of the properties is the first match of them all.
proof fn lemma_locate_props_prefix(
    props: Seq<(NodeProperty, Tree)>,
    id: NodeId,
    path: Seq<Slot>,
    i: int,
)
    requires
        0 <= i <= props.len(),
        locate_props(props.take(i), id, path) is Some,
    ensures
        locate_props(props, id, path) == locate_props(props.take(i), id, path),
    decreases props.len() - i,
{
    if i < props.len() {
        let next = props.take(i + 1);
        assert(next.drop_last() =~= props.take(i));
        lemma_locate_props_prefix(props, id, path, i + 1);
    } else {
        assert(props.take(i) =~= props);
    }
}

fn locate_value(v: &Value, id: NodeId, path: &Address) -> (r: Option<Address>)
    ensures
        r matches Some(p) ==> locate(v@, id, path@) == Some(p@),
        r is None ==> locate(v@, id, path@) is None,
    decreases v,
{
    match v {
        Value::Node(node) => {
            if node.node_type == id.node_type && node.uid == id.uid {
                Some(copy_path(path))
            } else {
                locate_in_props(&node.properties, id, path)
            }
        },
        Value::Array(items) => locate_in_items(items, id, path),
        _ => None,
    }
}

fn locate_in_items(items: &Vec<Value>, id: NodeId, path: &Address) -> (r: Option<Address>)
    ensures
        r matches Some(p) ==> locate_items(trees_of(items@), id, path@) == Some(p@),
        r is None ==> locate_items(trees_of(items@), id, path@) is None,
    decreases items,
{
    proof {
        lemma_trees_of(items@);
    }
    let ghost all = trees_of(items@);
    let mut i: usize = 0;
    assert(all.take(0) =~= Seq::<Tree>::empty());
    while i < items.len()
        invariant
            i <= items@.len(),
            all == trees_of(items@),
            all.len() == items@.len(),
            forall|j: int|
                0 <= j < items@.len() ==> #[trigger] all[j] == tree_of(&items@[j]),
            locate_items(all.take(i as int), id, path@) is None,
        decreases items@.len() - i,
    {
        let sub = path_with(path, Slot::Index(i));
        proof {
            assert(decreases_to!(items => items@[i as int]));
            let next = all.take(i + 1);
            assert(next.drop_last() =~= all.take(i as int));
            assert(next.last() == all[i as int]);
        }
        match locate_value(&items[i], id, &sub) {
            Some(p) => {
                proof {
                    lemma_locate_items_prefix(all, id, path@, i + 1);
                }
                return Some(p);
            },
            None => {},
        }
        i = i + 1;
    }
    assert(all.take(items@.len() as int) =~= all);
    None
}

fn locate_in_props(props: &Vec<Property>, id: NodeId, path: &Address) -> (r: Option<
    Address,
>)
    ensures
        r matches Some(p) ==> locate_props(props_of(props@), id, path@) == Some(p@),
        r is None ==> locate_props(props_of(props@), id, path@) is None,
    decreases props,
{
    proof {
        lemma_props_of(props@);
    }
    let ghost all = props_of(props@);
    let mut i: usize = 0;
    assert(all.take(0) =~= Seq::<(NodeProperty, Tree)>::empty());
    while i < props.len()
        invariant
            i <= props@.len(),
            all == props_of(props@),
            all.len() == props@.len(),
            forall|j: int|
                0 <= j < props@.len() ==> #[trigger] all[j] == (
                    props@[j].name,
                    tree_of(&props@[j].value),
                ),
            locate_props(all.take(i as int), id, path@) is None,
        decreases props@.len() - i,
    {
        let sub = path_with(path, Slot::Property(props[i].name));
        proof {
            assert(decreases_to!(props => props@[i as int]));
            let next = all.take(i + 1);
            assert(next.drop_last() =~= all.take(i as int));
            assert(next.last() == all[i as int]);
        }
        match locate_value(&props[i].value, id, &sub) {
            Some(p) => {
                proof {
                    lemma_locate_props_prefix(all, id, path@, i + 1);
                }
                return Some(p);
            },
            None => {},
        }
        i = i + 1;
    }
    assert(all.take(props@.len() as int) =~= all);
    None
}

/// The address of the first node, in pre-order, with id `id` in `root`.
pub fn find_node(root: &Value, id: NodeId) -> (r: Option<Address>)
    ensures
        r matches Some(p) ==> locate(root@, id, Seq::empty()) == Some(p@),
        r is None ==> locate(root@, id, Seq::empty()) is None,
{
    let path: Address = Vec::new();
    assert(path@ =~= Seq::<Slot>::empty());
    locate_value(root, id, &path)
}

} // verus!
