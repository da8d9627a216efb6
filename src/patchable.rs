//! Applying operations and patches to document trees.
//!
//! The meaning of each operation is stated over [`Tree`]s by
//! [`apply_op_spec`]; the executable functions are proved to compute it.

use vstd::prelude::*;

use crate::address::{
    child, find_property, find_property_index, lemma_find_from, lemma_find_from_names, put,
    resolve, resolve_range, step, Address, Slot,
};
use crate::node_property::NodeProperty;
use crate::node_type::NodeType;
use crate::operation::{ops_model, OpKind, OpModel, Operation, Patch, PatchError};
use crate::value::{
    clone_properties, clone_value, clone_values, lemma_props_of, lemma_trees_of, props_of,
    tree_of, trees_of, Node, Property, Tree, Value,
};

verus! {

/// An edit of the value at the end of a path.
pub enum Edit {
    /// Replace the value.
    Assign(Tree),
    /// In an array, remove the elements `[i, i + n)` and insert the given
    /// ones at `i`; any other value refuses with the given kind.
    Splice(Option<usize>, usize, Seq<Tree>, OpKind),
    /// Change the type of a node of the first type to the second.
    Transform(NodeType, NodeType),
}

/// The result of an edit on the value that it reaches.
pub open spec fn local(t: Tree, e: Edit) -> Result<Tree, PatchError> {
    match e {
        Edit::Assign(v) => Ok(v),
        Edit::Splice(idx, n, ins, kind) => match t {
            Tree::Array(a) => match idx {
                Some(i) => if i + n <= a.len() {
                    Ok(Tree::Array(a.take(i as int) + ins + a.skip(i + n)))
                } else {
                    Err(PatchError::InvalidAddress)
                },
                None => Err(PatchError::InvalidPatchOperation(kind)),
            },
            _ => Err(PatchError::InvalidPatchOperation(kind)),
        },
        Edit::Transform(from, to) => match t {
            Tree::Node(ty, uid, props) => if ty == from {
                Ok(Tree::Node(to, uid, props))
            } else {
                Err(PatchError::InvalidPatchOperation(OpKind::Transform))
            },
            _ => Err(PatchError::InvalidPatchOperation(OpKind::Transform)),
        },
    }
}

/// The result of applying `e` to the value that `path` locates in `t`.
pub open spec fn edit(t: Tree, path: Seq<Slot>, e: Edit) -> Result<Tree, PatchError>
    decreases path.len(),
{
    if path.len() == 0 {
        local(t, e)
    } else {
        match step(t, path[0]) {
            None => Err(PatchError::InvalidAddress),
            Some(c) => match edit(c, path.drop_first(), e) {
                Ok(c2) => Ok(put(t, path[0], c2)),
                Err(err) => Err(err),
            },
        }
    }
}

/// For an operation on array elements: the path to the array and the index
/// in it. An address that does not end in an index designates no array
/// position.
pub open spec fn target_of(address: Seq<Slot>) -> (Seq<Slot>, Option<usize>) {
    if address.len() > 0 {
        match address.last() {
            Slot::Index(i) => (address.drop_last(), Some(i)),
            Slot::Property(_) => (address, None),
        }
    } else {
        (address, None)
    }
}

/// The `n` array elements at `from`.
pub open spec fn take(t: Tree, from: Seq<Slot>, n: usize, kind: OpKind) -> Result<
    Seq<Tree>,
    PatchError,
> {
    match resolve(t, target_of(from).0) {
        None => Err(PatchError::InvalidAddress),
        Some(x) => match x {
            Tree::Array(a) => match target_of(from).1 {
                Some(i) => if i + n <= a.len() {
                    Ok(a.subrange(i as int, i + n))
                } else {
                    Err(PatchError::InvalidAddress)
                },
                None => Err(PatchError::InvalidPatchOperation(kind)),
            },
            _ => Err(PatchError::InvalidPatchOperation(kind)),
        },
    }
}

/// The result of applying one operation to a tree.
pub open spec fn apply_op_spec(t: Tree, op: OpModel) -> Result<Tree, PatchError> {
    match op {
        OpModel::Add(a, v) => edit(
            t,
            target_of(a).0,
            Edit::Splice(target_of(a).1, 0, seq![v], OpKind::Add),
        ),
        OpModel::Remove(a, n) => edit(
            t,
            target_of(a).0,
            Edit::Splice(target_of(a).1, n, Seq::empty(), OpKind::Remove),
        ),
        OpModel::Replace(a, n, v) => match target_of(a).1 {
            Some(i) => edit(t, target_of(a).0, Edit::Splice(Some(i), n, seq![v], OpKind::Replace)),
            None => edit(t, a, Edit::Assign(v)),
        },
        OpModel::Move(from, n, to) => match take(t, from, n, OpKind::Move) {
            Err(e) => Err(e),
            Ok(items) => match edit(
                t,
                target_of(from).0,
                Edit::Splice(target_of(from).1, n, Seq::empty(), OpKind::Move),
            ) {
                Err(e) => Err(e),
                Ok(t2) => edit(
                    t2,
                    target_of(to).0,
                    Edit::Splice(target_of(to).1, 0, items, OpKind::Move),
                ),
            },
        },
        OpModel::Copy(from, n, to) => match take(t, from, n, OpKind::Copy) {
            Err(e) => Err(e),
            Ok(items) => edit(
                t,
                target_of(to).0,
                Edit::Splice(target_of(to).1, 0, items, OpKind::Copy),
            ),
        },
        OpModel::Transform(a, from, to) => edit(t, a, Edit::Transform(from, to)),
    }
}

/// The result of applying operations one after the other; the first
/// failure is the result.
pub open spec fn apply_ops(t: Tree, ops: Seq<OpModel>) -> Result<Tree, PatchError>
    decreases ops.len(),
{
    if ops.len() == 0 {
        Ok(t)
    } else {
        match apply_op_spec(t, ops[0]) {
            Ok(t2) => apply_ops(t2, ops.drop_first()),
            Err(e) => Err(e),
        }
    }
}

/// The model of a result that holds a value.
pub open spec fn tree_result(r: Result<Value, PatchError>) -> Result<Tree, PatchError> {
    match r {
        Ok(v) => Ok(v@),
        Err(e) => Err(e),
    }
}

/// An executable [`Edit`].
pub enum EditOp {
    Assign(Value),
    Splice(Option<usize>, usize, Vec<Value>, OpKind),
    Transform(NodeType, NodeType),
}

impl View for EditOp {
    type V = Edit;

    open spec fn view(&self) -> Edit {
        match self {
            EditOp::Assign(v) => Edit::Assign(v@),
            EditOp::Splice(i, n, ins, kind) => Edit::Splice(*i, *n, trees_of(ins@), *kind),
            EditOp::Transform(from, to) => Edit::Transform(*from, *to),
        }
    }
}

/// Appends copies of `src[from..to]` to `out`.
fn push_clones(out: &mut Vec<Value>, src: &Vec<Value>, from: usize, to: usize)
    requires
        from <= to <= src@.len(),
    ensures
        trees_of(final(out)@) == trees_of(old(out)@) + trees_of(src@).subrange(
            from as int,
            to as int,
        ),
{
    proof {
        lemma_trees_of(src@);
    }
    let mut i: usize = from;
    assert(trees_of(out@) + trees_of(src@).subrange(from as int, from as int) =~= trees_of(out@));
    while i < to
        invariant
            from <= i <= to <= src@.len(),
            trees_of(src@).len() == src@.len(),
            forall|j: int| 0 <= j < src@.len() ==> #[trigger] trees_of(src@)[j] == tree_of(&src@[j]),
            trees_of(out@) == trees_of(old(out)@) + trees_of(src@).subrange(from as int, i as int),
        decreases to - i,
    {
        let c = clone_value(&src[i]);
        let ghost before = out@;
        out.push(c);
        proof {
            assert(out@.drop_last() =~= before);
            assert(trees_of(src@).subrange(from as int, i + 1) =~= trees_of(src@).subrange(
                from as int,
                i as int,
            ).push(tree_of(&src@[i as int])));
        }
        i = i + 1;
    }
}

/// `a[..start] ++ insert ++ a[start + remove..]`, as copies.
fn splice_values(a: &Vec<Value>, start: usize, remove: usize, insert: &Vec<Value>) -> (r: Vec<
    Value,
>)
    requires
        start + remove <= a@.len(),
    ensures
        trees_of(r@) == trees_of(a@).take(start as int) + trees_of(insert@) + trees_of(a@).skip(
            start + remove,
        ),
{
    proof {
        lemma_trees_of(a@);
        lemma_trees_of(insert@);
    }
    let mut out: Vec<Value> = Vec::new();
    let alen = a.len();
    assert(start + remove <= alen);
    let resume: usize = start + remove;
    push_clones(&mut out, a, 0, start);
    push_clones(&mut out, insert, 0, insert.len());
    push_clones(&mut out, a, resume, a.len());
    proof {
        assert(trees_of(Seq::<Value>::empty()) =~= Seq::<Tree>::empty());
        assert(trees_of(insert@).subrange(0, insert@.len() as int) =~= trees_of(insert@));
        assert(trees_of(a@).subrange(0, start as int) =~= trees_of(a@).take(start as int));
        assert(trees_of(a@).subrange(resume as int, a@.len() as int) =~= trees_of(a@).skip(
            resume as int,
        ));
    }
    out
}

/// The result of an edit on the value that it reaches.
fn local_exec(t: &Value, e: &EditOp) -> (r: Result<Value, PatchError>)
    ensures
        tree_result(r) == local(t@, e@),
{
    match e {
        EditOp::Assign(v) => Ok(clone_value(v)),
        EditOp::Splice(idx, n, ins, kind) => match t {
            Value::Array(a) => match idx {
                Some(i) => {
                    proof {
                        lemma_trees_of(a@);
                    }
                    if *i <= a.len() && *n <= a.len() - *i {
                        Ok(Value::Array(splice_values(a, *i, *n, ins)))
                    } else {
                        Err(PatchError::InvalidAddress)
                    }
                },
                None => Err(PatchError::InvalidPatchOperation(*kind)),
            },
            _ => Err(PatchError::InvalidPatchOperation(*kind)),
        },
        EditOp::Transform(from, to) => match t {
            Value::Node(node) => {
                if node.node_type == *from {
                    let props = clone_properties(&node.properties);
                    Ok(Value::Node(Node { node_type: *to, uid: node.uid, properties: props }))
                } else {
                    Err(PatchError::InvalidPatchOperation(OpKind::Transform))
                }
            },
            _ => Err(PatchError::InvalidPatchOperation(OpKind::Transform)),
        },
    }
}

/// `t` with the child at `slot` replaced by `c`; `slot` must designate a child.
fn put_exec(t: &Value, slot: Slot, c: Value) -> (r: Value)
    requires
        step(t@, slot) is Some,
    ensures
        r@ == put(t@, slot, c@),
{
    match (t, slot) {
        (Value::Array(items), Slot::Index(i)) => {
            proof {
                lemma_trees_of(items@);
            }
            let mut out = clone_values(items);
            let ghost before = out@;
            out.set(i, c);
            proof {
                lemma_trees_of(out@);
                lemma_trees_of(before);
                assert(trees_of(out@) =~= trees_of(items@).update(i as int, c@));
            }
            Value::Array(out)
        },
        (Value::Node(node), Slot::Property(p)) => {
            proof {
                lemma_props_of(node.properties@);
            }
            let k = find_property_index(&node.properties, p).unwrap();
            let mut props = clone_properties(&node.properties);
            props.set(k, Property { name: p, value: c });
            proof {
                lemma_props_of(props@);
                assert(props_of(props@) =~= props_of(node.properties@).update(k as int, (p, c@)));
            }
            Value::Node(Node { node_type: node.node_type, uid: node.uid, properties: props })
        },
        _ => {
            proof {
                assert(false);
            }
            Value::Null
        },
    }
}

/// The result of applying `e` to the value that `path[k..end]` locates in `t`.
fn edit_range(t: &Value, path: &Address, k: usize, end: usize, e: &EditOp) -> (r: Result<
    Value,
    PatchError,
>)
    requires
        k <= end <= path@.len(),
    ensures
        tree_result(r) == edit(t@, path@.subrange(k as int, end as int), e@),
    decreases end - k,
{
    if k == end {
        return local_exec(t, e);
    }
    assert(path@.subrange(k as int, end as int).drop_first() =~= path@.subrange(
        k as int + 1,
        end as int,
    ));
    match child(t, path[k]) {
        None => Err(PatchError::InvalidAddress),
        Some(c) => match edit_range(c, path, k + 1, end, e) {
            Ok(c2) => Ok(put_exec(t, path[k], c2)),
            Err(err) => Err(err),
        },
    }
}

/// Where `address` ends in an index: the length of the path to the array,
/// and the index.
fn split_target(address: &Address) -> (r: (usize, Option<usize>))
    ensures
        r.0 <= address@.len(),
        address@.subrange(0, r.0 as int) == target_of(address@).0,
        r.1 == target_of(address@).1,
{
    let n = address.len();
    if n > 0 {
        match address[n - 1] {
            Slot::Index(i) => {
                assert(address@.subrange(0, n - 1) =~= address@.drop_last());
                (n - 1, Some(i))
            },
            Slot::Property(_) => {
                assert(address@.subrange(0, n as int) =~= address@);
                (n, None)
            },
        }
    } else {
        assert(address@.subrange(0, 0) =~= address@);
        (n, None)
    }
}

/// Copies of the `n` array elements at `from`.
fn take_exec(t: &Value, from: &Address, n: usize, kind: OpKind) -> (r: Result<Vec<Value>, PatchError>)
    ensures
        match r {
            Ok(items) => take(t@, from@, n, kind) == Ok::<Seq<Tree>, PatchError>(trees_of(items@)),
            Err(e) => take(t@, from@, n, kind) == Err::<Seq<Tree>, PatchError>(e),
        },
{
    let (end, idx) = split_target(from);
    match resolve_range(t, from, 0, end) {
        None => Err(PatchError::InvalidAddress),
        Some(x) => match x {
            Value::Array(a) => match idx {
                Some(i) => {
                    proof {
                        lemma_trees_of(a@);
                    }
                    if i <= a.len() && n <= a.len() - i {
                        let mut out: Vec<Value> = Vec::new();
                        let mut j: usize = i;
                        let stop: usize = i + n;
                        while j < stop
                            invariant
                                stop == i + n,
                                i <= j <= i + n,
                                i + n <= a@.len(),
                                out@.len() == j - i,
                                forall|x: int|
                                    0 <= x < j - i ==> tree_of(&#[trigger] out@[x]) == tree_of(
                                        &a@[i + x],
                                    ),
                            decreases i + n - j,
                        {
                            out.push(clone_value(&a[j]));
                            j = j + 1;
                        }
                        proof {
                            lemma_trees_of(out@);
                            lemma_trees_of(a@);
                            assert(trees_of(out@) =~= trees_of(a@).subrange(i as int, i + n));
                        }
                        Ok(out)
                    } else {
                        Err(PatchError::InvalidAddress)
                    }
                },
                None => Err(PatchError::InvalidPatchOperation(kind)),
            },
            _ => Err(PatchError::InvalidPatchOperation(kind)),
        },
    }
}

/// The result of an edit on the value that `address[..end]` locates.
fn edit_prefix(t: &Value, address: &Address, end: usize, e: &EditOp) -> (r: Result<
    Value,
    PatchError,
>)
    requires
        end <= address@.len(),
    ensures
        tree_result(r) == edit(t@, address@.subrange(0, end as int), e@),
{
    edit_range(t, address, 0, end, e)
}

/// The result of applying `op` to `t`.
pub fn applied(t: &Value, op: &Operation) -> (r: Result<Value, PatchError>)
    ensures
        tree_result(r) == apply_op_spec(t@, op@),
{
    match op {
        Operation::Add { address, value } => {
            let (end, idx) = split_target(address);
            let ins = vec![clone_value(value)];
            proof {
                assert(trees_of(ins@) =~= seq![value@]) by {
                    lemma_trees_of(ins@);
                }
            }
            edit_prefix(t, address, end, &EditOp::Splice(idx, 0, ins, OpKind::Add))
        },
        Operation::Remove { address, items } => {
            let (end, idx) = split_target(address);
            let ins: Vec<Value> = Vec::new();
            proof {
                assert(trees_of(ins@) =~= Seq::<Tree>::empty());
            }
            edit_prefix(t, address, end, &EditOp::Splice(idx, *items, ins, OpKind::Remove))
        },
        Operation::Replace { address, items, value } => {
            let (end, idx) = split_target(address);
            match idx {
                Some(i) => {
                    let ins = vec![clone_value(value)];
                    proof {
                        assert(trees_of(ins@) =~= seq![value@]) by {
                            lemma_trees_of(ins@);
                        }
                    }
                    edit_prefix(
                        t,
                        address,
                        end,
                        &EditOp::Splice(Some(i), *items, ins, OpKind::Replace),
                    )
                },
                None => {
                    assert(address@.subrange(0, address@.len() as int) =~= address@);
                    edit_prefix(t, address, address.len(), &EditOp::Assign(clone_value(value)))
                },
            }
        },
        Operation::Move { from, items, to } => {
            let taken = match take_exec(t, from, *items, OpKind::Move) {
                Ok(taken) => taken,
                Err(e) => return Err(e),
            };
            let (fend, fidx) = split_target(from);
            let ins: Vec<Value> = Vec::new();
            proof {
                assert(trees_of(ins@) =~= Seq::<Tree>::empty());
            }
            let t2 = match edit_prefix(
                t,
                from,
                fend,
                &EditOp::Splice(fidx, *items, ins, OpKind::Move),
            ) {
                Ok(t2) => t2,
                Err(e) => return Err(e),
            };
            let (tend, tidx) = split_target(to);
            edit_prefix(&t2, to, tend, &EditOp::Splice(tidx, 0, taken, OpKind::Move))
        },
        Operation::Copy { from, items, to } => {
            let taken = match take_exec(t, from, *items, OpKind::Copy) {
                Ok(taken) => taken,
                Err(e) => return Err(e),
            };
            let (tend, tidx) = split_target(to);
            edit_prefix(t, to, tend, &EditOp::Splice(tidx, 0, taken, OpKind::Copy))
        },
        Operation::Transform { address, from_type, to_type } => {
            assert(address@.subrange(0, address@.len() as int) =~= address@);
            edit_prefix(t, address, address.len(), &EditOp::Transform(*from_type, *to_type))
        },
    }
}

impl Value {
    /// Applies one operation. On failure the value is left as it was.
    pub fn apply_op(&mut self, op: &Operation) -> (r: Result<(), PatchError>)
        ensures
            match apply_op_spec(old(self)@, op@) {
                Ok(t) => r is Ok && final(self)@ == t,
                Err(e) => r == Err::<(), PatchError>(e) && *final(self) == *old(self),
            },
    {
        match applied(self, op) {
            Ok(v) => {
                *self = v;
                Ok(())
            },
            Err(e) => Err(e),
        }
    }

    /// Applies the operations of a patch in order. If any of them fails, the
    /// whole patch is rejected and the value is left exactly as it was.
    pub fn apply_patch(&mut self, patch: &Patch) -> (r: Result<(), PatchError>)
        ensures
            match apply_ops(old(self)@, patch.model()) {
                Ok(t) => r is Ok && final(self)@ == t,
                Err(e) => r == Err::<(), PatchError>(e) && *final(self) == *old(self),
            },
    {
        let ghost ops = patch.model();
        let mut cur = clone_value(self);
        let mut i: usize = 0;
        assert(ops.skip(0) =~= ops);
        while i < patch.ops.len()
            invariant
                i <= patch.ops@.len(),
                ops == ops_model(patch.ops@),
                apply_ops(self@, ops) == apply_ops(cur@, ops.skip(i as int)),
            decreases patch.ops@.len() - i,
        {
            proof {
                assert(ops.skip(i as int)[0] == patch.ops@[i as int]@);
                assert(ops.skip(i as int).drop_first() =~= ops.skip(i + 1));
            }
            match applied(&cur, &patch.ops[i]) {
                Ok(v) => {
                    cur = v;
                },
                Err(e) => {
                    return Err(e);
                },
            }
            i = i + 1;
        }
        proof {
            assert(ops.skip(i as int) =~= Seq::<OpModel>::empty());
        }
        *self = cur;
        Ok(())
    }
}

} // verus!

verus! {

/// Replacing a child by itself changes nothing.
pub proof fn lemma_put_same(t: Tree, s: Slot)
    requires
        step(t, s) is Some,
    ensures
        put(t, s, step(t, s)->0) == t,
{
    match s {
        Slot::Index(i) => match t {
            Tree::Array(items) => {
                assert(items.update(i as int, items[i as int]) =~= items);
            },
            _ => {},
        },
        Slot::Property(p) => match t {
            Tree::Node(ty, uid, props) => {
                lemma_find_from(props, p, 0);
                let k = find_property(props, p)->0;
                assert(props.update(k, (p, props[k].1)) =~= props);
            },
            _ => {},
        },
    }
}

/// After replacing a child, the slot designates the new child.
pub proof fn lemma_step_put(t: Tree, s: Slot, c: Tree)
    requires
        step(t, s) is Some,
    ensures
        step(put(t, s, c), s) == Some(c),
{
    match s {
        Slot::Index(i) => {},
        Slot::Property(p) => match t {
            Tree::Node(ty, uid, props) => {
                lemma_find_from(props, p, 0);
                let k = find_property(props, p)->0;
                let props2 = props.update(k, (p, c));
                assert forall|j: int| 0 <= j < props.len() implies (#[trigger] props[j]).0
                    == props2[j].0 by {}
                lemma_find_from_names(props, props2, p, 0);
            },
            _ => {},
        },
    }
}

/// Replacing a child twice is replacing it once, with the second child.
pub proof fn lemma_put_put(t: Tree, s: Slot, c1: Tree, c2: Tree)
    requires
        step(t, s) is Some,
    ensures
        put(put(t, s, c1), s, c2) == put(t, s, c2),
{
    match s {
        Slot::Index(i) => match t {
            Tree::Array(items) => {
                assert(items.update(i as int, c1).update(i as int, c2) =~= items.update(
                    i as int,
                    c2,
                ));
            },
            _ => {},
        },
        Slot::Property(p) => match t {
            Tree::Node(ty, uid, props) => {
                lemma_find_from(props, p, 0);
                let k = find_property(props, p)->0;
                let props2 = props.update(k, (p, c1));
                assert forall|j: int| 0 <= j < props.len() implies (#[trigger] props[j]).0
                    == props2[j].0 by {}
                lemma_find_from_names(props, props2, p, 0);
                assert(props2.update(k, (p, c2)) =~= props.update(k, (p, c2)));
            },
            _ => {},
        },
    }
}

/// An edit is the assignment of its local result.
pub proof fn lemma_edit_local(t: Tree, p: Seq<Slot>, e: Edit)
    requires
        resolve(t, p) is Some,
    ensures
        edit(t, p, e) == match local(resolve(t, p)->0, e) {
            Ok(y) => edit(t, p, Edit::Assign(y)),
            Err(err) => Err(err),
        },
    decreases p.len(),
{
    if p.len() > 0 {
        let c = step(t, p[0])->0;
        lemma_edit_local(c, p.drop_first(), e);
    }
}

/// Assigning at a path extended by one slot assigns the updated parent.
pub proof fn lemma_edit_assign_push(t: Tree, p: Seq<Slot>, s: Slot, y: Tree)
    requires
        resolve(t, p) is Some,
        step(resolve(t, p)->0, s) is Some,
    ensures
        edit(t, p.push(s), Edit::Assign(y)) == edit(
            t,
            p,
            Edit::Assign(put(resolve(t, p)->0, s, y)),
        ),
    decreases p.len(),
{
    if p.len() == 0 {
        assert(p.push(s).drop_first() =~= Seq::<Slot>::empty());
        assert(p.push(s)[0] == s);
        let c = step(t, s)->0;
        assert(edit(c, Seq::<Slot>::empty(), Edit::Assign(y)) == Ok::<Tree, PatchError>(y));
    } else {
        assert(p.push(s).drop_first() =~= p.drop_first().push(s));
        assert(p.push(s)[0] == p[0]);
        let c = step(t, p[0])->0;
        lemma_edit_assign_push(c, p.drop_first(), s, y);
    }
}

/// Assigning at a path that resolves succeeds, and the path then locates
/// the assigned value.
pub proof fn lemma_edit_assign_ok(t: Tree, p: Seq<Slot>, y: Tree)
    requires
        resolve(t, p) is Some,
    ensures
        edit(t, p, Edit::Assign(y)) is Ok,
        resolve(edit(t, p, Edit::Assign(y))->Ok_0, p) == Some(y),
    decreases p.len(),
{
    if p.len() > 0 {
        let c = step(t, p[0])->0;
        lemma_edit_assign_ok(c, p.drop_first(), y);
        let c2 = edit(c, p.drop_first(), Edit::Assign(y))->Ok_0;
        lemma_step_put(t, p[0], c2);
    }
}

/// Assigning twice at a path is assigning once, with the second value.
pub proof fn lemma_edit_assign_twice(t: Tree, p: Seq<Slot>, x: Tree, y: Tree)
    requires
        resolve(t, p) is Some,
    ensures
        edit(t, p, Edit::Assign(x)) is Ok,
        edit(edit(t, p, Edit::Assign(x))->Ok_0, p, Edit::Assign(y)) == edit(
            t,
            p,
            Edit::Assign(y),
        ),
    decreases p.len(),
{
    lemma_edit_assign_ok(t, p, x);
    if p.len() > 0 {
        let c = step(t, p[0])->0;
        lemma_edit_assign_twice(c, p.drop_first(), x, y);
        lemma_edit_assign_ok(c, p.drop_first(), x);
        lemma_edit_assign_ok(c, p.drop_first(), y);
        let c2 = edit(c, p.drop_first(), Edit::Assign(x))->Ok_0;
        let c3 = edit(c, p.drop_first(), Edit::Assign(y))->Ok_0;
        lemma_step_put(t, p[0], c2);
        lemma_put_put(t, p[0], c2, c3);
    }
}

/// Assigning the value that a path already locates changes nothing.
pub proof fn lemma_edit_assign_same(t: Tree, p: Seq<Slot>)
    requires
        resolve(t, p) is Some,
    ensures
        edit(t, p, Edit::Assign(resolve(t, p)->0)) == Ok::<Tree, PatchError>(t),
    decreases p.len(),
{
    if p.len() > 0 {
        let c = step(t, p[0])->0;
        lemma_edit_assign_same(c, p.drop_first());
        lemma_put_same(t, p[0]);
    }
}

/// Applying one more operation after a list of them.
pub proof fn lemma_apply_ops_push(t: Tree, ops: Seq<OpModel>, op: OpModel)
    ensures
        apply_ops(t, ops.push(op)) == match apply_ops(t, ops) {
            Ok(t2) => apply_op_spec(t2, op),
            Err(e) => Err(e),
        },
    decreases ops.len(),
{
    if ops.len() == 0 {
        assert(ops.push(op).drop_first() =~= Seq::<OpModel>::empty());
        match apply_op_spec(t, op) {
            Ok(t2) => {
                assert(apply_ops(t2, Seq::<OpModel>::empty()) == Ok::<Tree, PatchError>(t2));
            },
            Err(e) => {},
        }
    } else {
        assert(ops.push(op).drop_first() =~= ops.drop_first().push(op));
        assert(ops.push(op)[0] == ops[0]);
        match apply_op_spec(t, ops[0]) {
            Ok(t2) => lemma_apply_ops_push(t2, ops.drop_first(), op),
            Err(e) => {},
        }
    }
}

/// Replacing one property leaves the others as they were.
pub proof fn lemma_put_other_property(t: Tree, p: NodeProperty, v: Tree, n: NodeProperty)
    requires
        step(t, Slot::Property(p)) is Some,
        n != p,
    ensures
        step(put(t, Slot::Property(p), v), Slot::Property(n)) == step(t, Slot::Property(n)),
        put(t, Slot::Property(p), v) matches Tree::Node(ty2, uid2, _) && t matches Tree::Node(
            ty,
            uid,
            _,
        ) && ty2 == ty && uid2 == uid,
{
    match t {
        Tree::Node(ty, uid, props) => {
            lemma_find_from(props, p, 0);
            lemma_find_from(props, n, 0);
            let k = find_property(props, p)->0;
            let props2 = props.update(k, (p, v));
            assert forall|j: int| 0 <= j < props.len() implies (#[trigger] props[j]).0
                == props2[j].0 by {}
            lemma_find_from_names(props, props2, n, 0);
        },
        _ => {},
    }
}

/// An address whose final index exceeds the length of the array that the
/// rest of it locates does not resolve, and `Add`, `Remove` and `Replace`
/// at it fail with `InvalidAddress`.
pub proof fn law_index_past_end_is_invalid(t: Tree, path: Seq<Slot>, i: usize, n: usize, v: Tree)
    requires
        resolve(t, path) matches Some(Tree::Array(items)) && i > items.len(),
    ensures
        resolve(t, path.push(Slot::Index(i))) is None,
        apply_op_spec(t, OpModel::Add(path.push(Slot::Index(i)), v)) == Err::<Tree, PatchError>(
            PatchError::InvalidAddress,
        ),
        apply_op_spec(t, OpModel::Remove(path.push(Slot::Index(i)), n)) == Err::<
            Tree,
            PatchError,
        >(PatchError::InvalidAddress),
        apply_op_spec(t, OpModel::Replace(path.push(Slot::Index(i)), n, v)) == Err::<
            Tree,
            PatchError,
        >(PatchError::InvalidAddress),
{
    crate::address::lemma_index_out_of_range(t, path, i);
    assert(path.push(Slot::Index(i)).drop_last() =~= path);
    lemma_edit_local(t, path, Edit::Splice(Some(i), 0, seq![v], OpKind::Add));
    lemma_edit_local(t, path, Edit::Splice(Some(i), n, Seq::empty(), OpKind::Remove));
    lemma_edit_local(t, path, Edit::Splice(Some(i), n, seq![v], OpKind::Replace));
}

/// Text supports `Replace` only: a `Move` out of text, or out of an index
/// into text, fails with `InvalidPatchOperation(Move)`. (That the tree is
/// then left unchanged is the contract of [`Value::apply_op`].)
pub proof fn law_move_out_of_text_is_unsupported(
    t: Tree,
    from: Seq<Slot>,
    n: usize,
    to: Seq<Slot>,
)
    requires
        resolve(t, target_of(from).0) matches Some(Tree::Text(_)),
    ensures
        apply_op_spec(t, OpModel::Move(from, n, to)) == Err::<Tree, PatchError>(
            PatchError::InvalidPatchOperation(OpKind::Move),
        ),
{
}

/// Text supports `Replace`: replacing the text at an address that
/// resolves to text succeeds, and the address then locates the new value.
pub proof fn law_replace_text(t: Tree, address: Seq<Slot>, v: Tree)
    requires
        resolve(t, address) matches Some(Tree::Text(_)),
        target_of(address).1 is None,
    ensures
        apply_op_spec(t, OpModel::Replace(address, 1, v)) is Ok,
        resolve(apply_op_spec(t, OpModel::Replace(address, 1, v))->Ok_0, address) == Some(v),
{
    lemma_edit_assign_ok(t, address, v);
}

/// Applying the empty patch changes nothing.
pub proof fn law_empty_patch_is_identity(t: Tree)
    ensures
        apply_ops(t, Seq::empty()) == Ok::<Tree, PatchError>(t),
{
}

/// An edit at a path that does not resolve fails with `InvalidAddress`.
pub proof fn lemma_edit_unresolved(t: Tree, p: Seq<Slot>, e: Edit)
    requires
        resolve(t, p) is None,
    ensures
        edit(t, p, e) == Err::<Tree, PatchError>(PatchError::InvalidAddress),
    decreases p.len(),
{
    if p.len() > 0 {
        match step(t, p[0]) {
            Some(c) => lemma_edit_unresolved(c, p.drop_first(), e),
            None => {},
        }
    }
}

/// A `Transform` at an address whose final index exceeds the length of
/// the array that the rest of it locates fails with `InvalidAddress`.
pub proof fn law_transform_past_end_is_invalid(
    t: Tree,
    path: Seq<Slot>,
    i: usize,
    from: NodeType,
    to: NodeType,
)
    requires
        resolve(t, path) matches Some(Tree::Array(items)) && i > items.len(),
    ensures
        apply_op_spec(t, OpModel::Transform(path.push(Slot::Index(i)), from, to)) == Err::<
            Tree,
            PatchError,
        >(PatchError::InvalidAddress),
{
    crate::address::lemma_index_out_of_range(t, path, i);
    lemma_edit_unresolved(t, path.push(Slot::Index(i)), Edit::Transform(from, to));
}

/// A `Move` or `Copy` whose source index exceeds the length of its array
/// fails with `InvalidAddress`.
pub proof fn law_move_copy_source_past_end_is_invalid(
    t: Tree,
    path: Seq<Slot>,
    i: usize,
    n: usize,
    to: Seq<Slot>,
)
    requires
        resolve(t, path) matches Some(Tree::Array(items)) && i > items.len(),
    ensures
        apply_op_spec(t, OpModel::Move(path.push(Slot::Index(i)), n, to)) == Err::<
            Tree,
            PatchError,
        >(PatchError::InvalidAddress),
        apply_op_spec(t, OpModel::Copy(path.push(Slot::Index(i)), n, to)) == Err::<
            Tree,
            PatchError,
        >(PatchError::InvalidAddress),
{
    assert(path.push(Slot::Index(i)).drop_last() =~= path);
}

/// A `Copy` whose source resolves, to a target index that exceeds the
/// length of the target array, fails with `InvalidAddress`.
pub proof fn law_copy_target_past_end_is_invalid(
    t: Tree,
    from: Seq<Slot>,
    n: usize,
    path: Seq<Slot>,
    j: usize,
)
    requires
        take(t, from, n, OpKind::Copy) is Ok,
        resolve(t, path) matches Some(Tree::Array(items)) && j > items.len(),
    ensures
        apply_op_spec(t, OpModel::Copy(from, n, path.push(Slot::Index(j)))) == Err::<
            Tree,
            PatchError,
        >(PatchError::InvalidAddress),
{
    assert(path.push(Slot::Index(j)).drop_last() =~= path);
    let items = take(t, from, n, OpKind::Copy)->Ok_0;
    lemma_edit_local(t, path, Edit::Splice(Some(j), 0, items, OpKind::Copy));
}

/// A `Move` whose source resolves, to a target index that exceeds the
/// length of the target array once the moved elements are removed, fails
/// with `InvalidAddress`.
pub proof fn law_move_target_past_end_is_invalid(
    t: Tree,
    from: Seq<Slot>,
    n: usize,
    path: Seq<Slot>,
    j: usize,
)
    requires
        take(t, from, n, OpKind::Move) is Ok,
        edit(t, target_of(from).0, Edit::Splice(target_of(from).1, n, Seq::empty(), OpKind::Move))
            matches Ok(t2) && resolve(t2, path) matches Some(Tree::Array(items)) && j
            > items.len(),
    ensures
        apply_op_spec(t, OpModel::Move(from, n, path.push(Slot::Index(j)))) == Err::<
            Tree,
            PatchError,
        >(PatchError::InvalidAddress),
{
    assert(path.push(Slot::Index(j)).drop_last() =~= path);
    let items = take(t, from, n, OpKind::Move)->Ok_0;
    let t2 = edit(
        t,
        target_of(from).0,
        Edit::Splice(target_of(from).1, n, Seq::empty(), OpKind::Move),
    )->Ok_0;
    lemma_edit_local(t2, path, Edit::Splice(Some(j), 0, items, OpKind::Move));
}

/// A `Copy` to a target index that exceeds the length of the target array
/// fails, whatever its source: with `InvalidAddress` where the source
/// resolves, with the source's error otherwise.
pub proof fn law_copy_target_past_end_fails(
    t: Tree,
    from: Seq<Slot>,
    n: usize,
    path: Seq<Slot>,
    j: usize,
)
    requires
        resolve(t, path) matches Some(Tree::Array(items)) && j > items.len(),
    ensures
        apply_op_spec(t, OpModel::Copy(from, n, path.push(Slot::Index(j)))) is Err,
{
    if take(t, from, n, OpKind::Copy) is Ok {
        law_copy_target_past_end_is_invalid(t, from, n, path, j);
    }
}

/// A `Move` to a target index that exceeds the length of the target array
/// (once the moved elements are removed) fails, whatever its source: with
/// `InvalidAddress` where the source resolves, with the source's error
/// otherwise.
pub proof fn law_move_target_past_end_fails(
    t: Tree,
    from: Seq<Slot>,
    n: usize,
    path: Seq<Slot>,
    j: usize,
)
    requires
        edit(t, target_of(from).0, Edit::Splice(target_of(from).1, n, Seq::empty(), OpKind::Move))
            matches Ok(t2) ==> resolve(t2, path) matches Some(Tree::Array(items)) && j
            > items.len(),
    ensures
        apply_op_spec(t, OpModel::Move(from, n, path.push(Slot::Index(j)))) is Err,
{
    if take(t, from, n, OpKind::Move) is Ok {
        if edit(
            t,
            target_of(from).0,
            Edit::Splice(target_of(from).1, n, Seq::empty(), OpKind::Move),
        ) is Ok {
            law_move_target_past_end_is_invalid(t, from, n, path, j);
        }
    }
}

} // verus!
