//! Computing the patch that turns one document tree into another.
//!
//! The differ walks both trees together. Equal values give no operation.
//! Arrays are first aligned by node id: for each shared position, in
//! order, where the new element is a node with an id (a non-zero uid) that
//! the old element at that position lacks, the first later old element
//! with that id is moved there. The aligned positions are then diffed one
//! by one; surplus elements are removed with one `Remove`, and missing ones
//! are added one `Add` at a time. Nodes with the same id and the same
//! property names (each name once, in the same order) are diffed property
//! by property, preceded by a `Transform` when their types differ. Any
//! other pair of values gives one `Replace`.

use vstd::prelude::*;

use crate::address::{
    copy_path, find_property, find_property_index, lemma_find_from_names, lemma_resolve_push,
    path_with, resolve, Address, Slot,
};
use crate::node_property::NodeProperty;
use crate::node_type::NodeType;
use crate::operation::{ops_model, OpKind, OpModel, Operation, Patch, PatchError};
use crate::patchable::{
    apply_op_spec, apply_ops, edit, lemma_apply_ops_push, lemma_edit_assign_ok,
    lemma_edit_assign_push, lemma_edit_assign_same, lemma_edit_assign_twice, lemma_edit_local,
    target_of, Edit,
};
use crate::value::{
    clone_value, lemma_props_of, lemma_trees_of, props_of, tree_of, trees_of, values_equal,
    Property, Tree, Value,
};

verus! {

/// Whether two property lists have the same names in the same order, with
/// no name twice.
pub open spec fn same_shape(xp: Seq<(NodeProperty, Tree)>, yp: Seq<(NodeProperty, Tree)>) -> bool {
    &&& xp.len() == yp.len()
    &&& forall|k: int| 0 <= k < xp.len() ==> (#[trigger] xp[k]).0 == yp[k].0
    &&& forall|k: int| 0 <= k < xp.len() ==> find_property(xp, (#[trigger] xp[k]).0) == Some(k)
}

/// The operations that the differ gives for turning `a`, at `path`, into `b`.
pub open spec fn diff_ops(a: Tree, b: Tree, path: Seq<Slot>) -> Seq<OpModel>
    decreases a, 0int,
{
    if a == b {
        Seq::empty()
    } else {
        match a {
            Tree::Array(xs) => match b {
                Tree::Array(ys) => {
                    let m = if xs.len() < ys.len() {
                        xs.len() as int
                    } else {
                        ys.len() as int
                    };
                    let al = align(xs, identity(xs.len()), ys, path, 0, m);
                    al.0 + items_ops(xs, al.1, ys, path, m) + tail_ops(arranged(xs, al.1), ys, path)
                },
                _ => seq![OpModel::Replace(path, 1, b)],
            },
            Tree::Node(xt, xu, xp) => match b {
                Tree::Node(yt, yu, yp) => if xu == yu && same_shape(xp, yp) {
                    transform_ops(xt, yt, path) + props_ops(xp, yp, path, xp.len() as int)
                } else {
                    seq![OpModel::Replace(path, 1, b)]
                },
                _ => seq![OpModel::Replace(path, 1, b)],
            },
            _ => seq![OpModel::Replace(path, 1, b)],
        }
    }
}

/// The operations for the first `k` positions of the array `xs`, taken in
/// the order `order`, and the array `ys`.
pub open spec fn items_ops(
    xs: Seq<Tree>,
    order: Seq<int>,
    ys: Seq<Tree>,
    path: Seq<Slot>,
    k: int,
) -> Seq<OpModel>
    decreases xs, k,
{
    if k <= 0 || k > order.len() {
        Seq::empty()
    } else {
        items_ops(xs, order, ys, path, k - 1) + if 0 <= order[k - 1] < xs.len() {
            diff_ops(xs[order[k - 1]], ys[k - 1], path.push(Slot::Index((k - 1) as usize)))
        } else {
            Seq::empty()
        }
    }
}

/// The id of a node value, if it has one (a uid of 0 is no id).
pub open spec fn uid_of(t: Tree) -> Option<u64> {
    match t {
        Tree::Node(_, uid, _) => if uid != 0 {
            Some(uid)
        } else {
            None
        },
        _ => None,
    }
}

/// The positions `0..n` in order.
pub open spec fn identity(n: nat) -> Seq<int> {
    Seq::new(n, |i: int| i)
}

/// The elements of `xs` in the order `order`.
pub open spec fn arranged(xs: Seq<Tree>, order: Seq<int>) -> Seq<Tree> {
    Seq::new(order.len(), |k: int| xs[order[k]])
}

/// The first position at or after `start` whose element has the id `u`.
pub open spec fn find_uid(xs: Seq<Tree>, order: Seq<int>, u: u64, start: int) -> Option<int>
    decreases order.len() - start,
{
    if start < 0 || start >= order.len() {
        None
    } else if uid_of(xs[order[start]]) == Some(u) {
        Some(start)
    } else {
        find_uid(xs, order, u, start + 1)
    }
}

/// Aligning position `j` by id: where `ys[j]` has an id that the element
/// at `j` lacks, the first later element with that id is moved to `j`.
pub open spec fn align_step(
    xs: Seq<Tree>,
    order: Seq<int>,
    ys: Seq<Tree>,
    path: Seq<Slot>,
    j: int,
) -> (Seq<OpModel>, Seq<int>) {
    match uid_of(ys[j]) {
        Some(u) => if uid_of(xs[order[j]]) == Some(u) {
            (Seq::empty(), order)
        } else {
            match find_uid(xs, order, u, j + 1) {
                Some(k) => (
                    seq![
                        OpModel::Move(
                            path.push(Slot::Index(k as usize)),
                            1,
                            path.push(Slot::Index(j as usize)),
                        ),
                    ],
                    order.remove(k).insert(j, order[k]),
                ),
                None => (Seq::empty(), order),
            }
        },
        None => (Seq::empty(), order),
    }
}

/// The moves that align positions `j..m` by id, and the resulting order.
pub open spec fn align(
    xs: Seq<Tree>,
    order: Seq<int>,
    ys: Seq<Tree>,
    path: Seq<Slot>,
    j: int,
    m: int,
) -> (Seq<OpModel>, Seq<int>)
    decreases m - j,
{
    if j >= m {
        (Seq::empty(), order)
    } else {
        let step = align_step(xs, order, ys, path, j);
        let rest = align(xs, step.1, ys, path, j + 1, m);
        (step.0 + rest.0, rest.1)
    }
}

/// The operations for the surplus or missing elements of an array: one
/// `Remove` of the surplus, or one `Add` per missing element, in order.
pub open spec fn tail_ops(xs: Seq<Tree>, ys: Seq<Tree>, path: Seq<Slot>) -> Seq<OpModel> {
    if xs.len() > ys.len() {
        seq![OpModel::Remove(path.push(Slot::Index(ys.len() as usize)), (xs.len() - ys.len()) as usize)]
    } else {
        Seq::new(
            (ys.len() - xs.len()) as nat,
            |j: int| OpModel::Add(path.push(Slot::Index((xs.len() + j) as usize)), ys[xs.len() + j]),
        )
    }
}

/// A `Transform` where the node types differ.
pub open spec fn transform_ops(from: NodeType, to: NodeType, path: Seq<Slot>) -> Seq<OpModel> {
    if from != to {
        seq![OpModel::Transform(path, from, to)]
    } else {
        Seq::empty()
    }
}

/// The operations for the first `k` properties of two nodes of the same shape.
pub open spec fn props_ops(
    xp: Seq<(NodeProperty, Tree)>,
    yp: Seq<(NodeProperty, Tree)>,
    path: Seq<Slot>,
    k: int,
) -> Seq<OpModel>
    decreases xp, k,
{
    if k <= 0 || k > xp.len() {
        Seq::empty()
    } else {
        props_ops(xp, yp, path, k - 1) + diff_ops(
            xp[k - 1].1,
            yp[k - 1].1,
            path.push(Slot::Property(xp[k - 1].0)),
        )
    }
}

/// Appends `op` to `ops`.
fn emit(ops: &mut Vec<Operation>, op: Operation)
    ensures
        ops_model(final(ops)@) == ops_model(old(ops)@).push(op@),
        final(ops)@.len() == old(ops)@.len() + 1,
{
    let ghost m = op@;
    ops.push(op);
    assert(ops_model(ops@) =~= ops_model(old(ops)@).push(m));
}

/// Applying one more operation whose effect is an assignment at `p`.
proof fn lemma_extend(
    root: Tree,
    ops: Seq<OpModel>,
    base: Tree,
    p: Seq<Slot>,
    cur: Tree,
    op: OpModel,
    next: Tree,
)
    requires
        resolve(base, p) is Some,
        apply_ops(root, ops) == edit(base, p, Edit::Assign(cur)),
        edit(base, p, Edit::Assign(cur)) is Ok ==> apply_op_spec(
            edit(base, p, Edit::Assign(cur))->Ok_0,
            op,
        ) == edit(edit(base, p, Edit::Assign(cur))->Ok_0, p, Edit::Assign(next)),
    ensures
        apply_ops(root, ops.push(op)) == edit(base, p, Edit::Assign(next)),
{
    lemma_edit_assign_ok(base, p, cur);
    lemma_edit_assign_twice(base, p, cur, next);
    lemma_apply_ops_push(root, ops, op);
}

/// Whether two property lists have the same names in the same order, with
/// no name twice.
fn same_distinct_names(xs: &Vec<Property>, ys: &Vec<Property>) -> (r: bool)
    ensures
        r == same_shape(props_of(xs@), props_of(ys@)),
        r ==> xs@.len() == ys@.len(),
        r ==> forall|k: int| 0 <= k < xs@.len() ==> (#[trigger] xs@[k]).name == ys@[k].name,
        r ==> forall|k: int|
            0 <= k < xs@.len() ==> find_property(props_of(xs@), (#[trigger] xs@[k]).name) == Some(
                k,
            ),
{
    let ghost px = props_of(xs@);
    let ghost py = props_of(ys@);
    proof {
        lemma_props_of(xs@);
        lemma_props_of(ys@);
    }
    if xs.len() != ys.len() {
        return false;
    }
    let mut k: usize = 0;
    while k < xs.len()
        invariant
            k <= xs@.len(),
            xs@.len() == ys@.len(),
            px == props_of(xs@),
            py == props_of(ys@),
            px.len() == xs@.len(),
            py.len() == ys@.len(),
            forall|j: int|
                0 <= j < xs@.len() ==> #[trigger] px[j] == (xs@[j].name, tree_of(&xs@[j].value)),
            forall|j: int|
                0 <= j < ys@.len() ==> #[trigger] py[j] == (ys@[j].name, tree_of(&ys@[j].value)),
            forall|j: int| 0 <= j < k ==> (#[trigger] xs@[j]).name == ys@[j].name,
            forall|j: int|
                0 <= j < k ==> find_property(props_of(xs@), (#[trigger] xs@[j]).name) == Some(j),
        decreases xs@.len() - k,
    {
        if xs[k].name != ys[k].name {
            assert(px[k as int].0 != py[k as int].0);
            return false;
        }
        match find_property_index(xs, xs[k].name) {
            Some(j) => {
                if j != k {
                    assert(px[k as int].0 == xs@[k as int].name);
                    return false;
                }
            },
            None => {
                assert(px[k as int].0 == xs@[k as int].name);
                return false;
            },
        }
        k = k + 1;
    }
    assert forall|j: int| 0 <= j < px.len() implies (#[trigger] px[j]).0 == py[j].0 by {
        assert(xs@[j].name == ys@[j].name);
    }
    assert forall|j: int| 0 <= j < px.len() implies find_property(px, (#[trigger] px[j]).0) == Some(
        j,
    ) by {
        assert(px[j].0 == xs@[j].name);
    }
    true
}

/// Appends to `ops` the operations that turn the value `a`, located at
/// `path` in `base`, into `b`.
fn diff_value(
    a: &Value,
    b: &Value,
    path: &Address,
    ops: &mut Vec<Operation>,
    Ghost(root): Ghost<Tree>,
    Ghost(base): Ghost<Tree>,
)
    requires
        apply_ops(root, ops_model(old(ops)@)) == Ok::<Tree, PatchError>(base),
        resolve(base, path@) == Some(a@),
    ensures
        apply_ops(root, ops_model(final(ops)@)) == edit(base, path@, Edit::Assign(b@)),
        ops_model(final(ops)@) == ops_model(old(ops)@) + diff_ops(a@, b@, path@),
        a@ == b@ ==> final(ops)@ == old(ops)@,
    decreases a,
{
    if values_equal(a, b) {
        proof {
            lemma_edit_assign_same(base, path@);
            assert(ops_model(ops@) + diff_ops(a@, b@, path@) =~= ops_model(ops@));
        }
        return ;
    }
    let ghost start = ops_model(ops@);
    match (a, b) {
        (Value::Array(xs), Value::Array(ys)) => {
            diff_arrays(xs, ys, path, ops, Ghost(root), Ghost(base));
            proof {
                let tx = trees_of(xs@);
                let ty = trees_of(ys@);
                lemma_trees_of(xs@);
                lemma_trees_of(ys@);
                assert(a@ == Tree::Array(tx));
                assert(b@ == Tree::Array(ty));
                let m = if xs@.len() < ys@.len() {
                    xs@.len() as int
                } else {
                    ys@.len() as int
                };
                let al = align(tx, identity(xs@.len()), ty, path@, 0, m);
                assert(diff_ops(a@, b@, path@) == al.0 + items_ops(tx, al.1, ty, path@, m)
                    + tail_ops(arranged(tx, al.1), ty, path@));
                assert(ops_model(ops@) =~= start + diff_ops(a@, b@, path@));
            }
            return ;
        },
        (Value::Node(x), Value::Node(y)) => {
            if x.uid == y.uid && same_distinct_names(&x.properties, &y.properties) {
                let ghost n1 = Tree::Node(y.node_type, x.uid, props_of(x.properties@));
                let ghost base1 = base;
                let ghost start = ops_model(ops@);
                if x.node_type != y.node_type {
                    let ghost before = ops_model(ops@);
                    let op = Operation::Transform {
                        address: copy_path(path),
                        from_type: x.node_type,
                        to_type: y.node_type,
                    };
                    emit(ops, op);
                    proof {
                        lemma_apply_ops_push(
                            root,
                            before,
                            OpModel::Transform(path@, x.node_type, y.node_type),
                        );
                        lemma_edit_local(base, path@, Edit::Transform(x.node_type, y.node_type));
                        lemma_edit_assign_ok(base, path@, n1);
                        base1 = edit(base, path@, Edit::Assign(n1))->Ok_0;
                    }
                }
                diff_props(
                    &x.properties,
                    &y.properties,
                    y.node_type,
                    x.uid,
                    path,
                    ops,
                    Ghost(root),
                    Ghost(base1),
                );
                proof {
                    if x.node_type != y.node_type {
                        lemma_edit_assign_twice(base, path@, n1, b@);
                    }
                    assert(ops_model(ops@) =~= start + diff_ops(a@, b@, path@));
                }
                return ;
            }
        },
        _ => {},
    }
    let ghost before = ops_model(ops@);
    let op = Operation::Replace { address: copy_path(path), items: 1, value: clone_value(b) };
    emit(ops, op);
    proof {
        assert(diff_ops(a@, b@, path@) == seq![OpModel::Replace(path@, 1, b@)]);
        lemma_replace_effect(root, before, base, path@, b@);
    }
}

/// A `Replace` at a path that resolves assigns its value there.
proof fn lemma_replace_effect(
    root: Tree,
    before: Seq<OpModel>,
    base: Tree,
    path: Seq<Slot>,
    v: Tree,
)
    requires
        apply_ops(root, before) == Ok::<Tree, PatchError>(base),
        resolve(base, path) is Some,
    ensures
        apply_ops(root, before.push(OpModel::Replace(path, 1, v))) == edit(
            base,
            path,
            Edit::Assign(v),
        ),
{
    lemma_apply_ops_push(root, before, OpModel::Replace(path, 1, v));
    match target_of(path).1 {
        Some(i) => {
            let pre = path.drop_last();
            assert(pre.push(Slot::Index(i)) =~= path);
            lemma_resolve_push(base, pre, Slot::Index(i));
            let x = resolve(base, pre)->0;
            let items = x->Array_0;
            lemma_edit_local(base, pre, Edit::Splice(Some(i), 1, seq![v], OpKind::Replace));
            assert(items.take(i as int) + seq![v] + items.skip(i + 1) =~= items.update(i as int, v));
            lemma_edit_assign_push(base, pre, Slot::Index(i), v);
        },
        None => {},
    }
}

/// The order of a list of positions, as integers.
pub open spec fn order_model(o: Seq<usize>) -> Seq<int> {
    o.map_values(|i: usize| i as int)
}

/// The id of a node value, if it has one.
fn node_uid(v: &Value) -> (r: Option<u64>)
    ensures
        r == uid_of(v@),
{
    match v {
        Value::Node(n) => if n.uid != 0 {
            Some(n.uid)
        } else {
            None
        },
        _ => None,
    }
}

/// The first position at or after `start` of `order` whose element of
/// `xs` has the id `u`.
fn find_uid_exec(xs: &Vec<Value>, order: &Vec<usize>, u: u64, start: usize) -> (r: Option<usize>)
    requires
        forall|k: int| 0 <= k < order@.len() ==> (#[trigger] order@[k]) < xs@.len(),
    ensures
        r matches Some(k) ==> start <= k < order@.len() && find_uid(
            trees_of(xs@),
            order_model(order@),
            u,
            start as int,
        ) == Some(k as int),
        r is None ==> find_uid(trees_of(xs@), order_model(order@), u, start as int) is None,
{
    proof {
        lemma_trees_of(xs@);
    }
    let ghost tx = trees_of(xs@);
    let ghost om = order_model(order@);
    let mut i: usize = start;
    while i < order.len()
        invariant
            start <= i,
            tx == trees_of(xs@),
            om == order_model(order@),
            tx.len() == xs@.len(),
            forall|j: int| 0 <= j < xs@.len() ==> #[trigger] tx[j] == tree_of(&xs@[j]),
            forall|k: int| 0 <= k < order@.len() ==> (#[trigger] order@[k]) < xs@.len(),
            find_uid(tx, om, u, start as int) == find_uid(tx, om, u, i as int),
        decreases order@.len() - i,
    {
        let id = node_uid(&xs[order[i]]);
        assert(om[i as int] == order@[i as int] as int);
        match id {
            Some(x) => {
                if x == u {
                    return Some(i);
                }
            },
            None => {},
        }
        i = i + 1;
    }
    None
}

/// Moving one array element from `k` back to `j` gives the array with that
/// element removed and inserted at `j`.
proof fn lemma_move_effect(t: Tree, path: Seq<Slot>, cur: Seq<Tree>, k: int, j: int)
    requires
        resolve(t, path) == Some(Tree::Array(cur)),
        0 <= j < k < cur.len(),
        cur.len() <= usize::MAX,
    ensures
        apply_op_spec(
            t,
            OpModel::Move(path.push(Slot::Index(k as usize)), 1, path.push(Slot::Index(j as usize))),
        ) == edit(t, path, Edit::Assign(Tree::Array(cur.remove(k).insert(j, cur[k])))),
{
    assert(path.push(Slot::Index(k as usize)).drop_last() =~= path);
    assert(path.push(Slot::Index(j as usize)).drop_last() =~= path);
    let removed = cur.take(k) + Seq::<Tree>::empty() + cur.skip(k + 1);
    lemma_edit_local(t, path, Edit::Splice(Some(k as usize), 1, Seq::empty(), OpKind::Move));
    lemma_edit_assign_ok(t, path, Tree::Array(removed));
    let t2 = edit(t, path, Edit::Assign(Tree::Array(removed)))->Ok_0;
    let moved = cur.subrange(k, k + 1);
    lemma_edit_local(t2, path, Edit::Splice(Some(j as usize), 0, moved, OpKind::Move));
    let result = removed.take(j) + moved + removed.skip(j);
    assert(result =~= cur.remove(k).insert(j, cur[k]));
    lemma_edit_assign_twice(t, path, Tree::Array(removed), Tree::Array(result));
}

/// Moves elements of the array `xs`, located at `path` in `base`, so that
/// positions whose counterpart in `ys` is a node with an id hold the node
/// with that id where `xs` has one later. Returns the resulting order of
/// the elements of `xs`.
fn align_children(
    xs: &Vec<Value>,
    ys: &Vec<Value>,
    path: &Address,
    ops: &mut Vec<Operation>,
    Ghost(root): Ghost<Tree>,
    Ghost(base): Ghost<Tree>,
) -> (r: Vec<usize>)
    requires
        apply_ops(root, ops_model(old(ops)@)) == Ok::<Tree, PatchError>(base),
        resolve(base, path@) == Some(Tree::Array(trees_of(xs@))),
    ensures
        r@.len() == xs@.len(),
        forall|k: int| 0 <= k < r@.len() ==> (#[trigger] r@[k]) < xs@.len(),
        ({
            let m = if xs@.len() < ys@.len() {
                xs@.len() as int
            } else {
                ys@.len() as int
            };
            let al = align(
                trees_of(xs@),
                identity(xs@.len()),
                trees_of(ys@),
                path@,
                0,
                m,
            );
            &&& ops_model(final(ops)@) == ops_model(old(ops)@) + al.0
            &&& order_model(r@) == al.1
        }),
        apply_ops(root, ops_model(final(ops)@)) == edit(
            base,
            path@,
            Edit::Assign(Tree::Array(arranged(trees_of(xs@), order_model(r@)))),
        ),
{
    let ghost tx = trees_of(xs@);
    let ghost ty = trees_of(ys@);
    proof {
        lemma_trees_of(xs@);
        lemma_trees_of(ys@);
    }
    let n = xs.len();
    let m: usize = if xs.len() < ys.len() {
        xs.len()
    } else {
        ys.len()
    };
    let mut order: Vec<usize> = Vec::new();
    let mut i: usize = 0;
    while i < n
        invariant
            i <= n,
            n == xs@.len(),
            order_model(order@) == identity(i as nat),
            order@.len() == i,
            forall|k: int| 0 <= k < i ==> (#[trigger] order@[k]) == k,
        decreases n - i,
    {
        order.push(i);
        i = i + 1;
        assert(order_model(order@) =~= identity(i as nat));
    }
    let ghost full = align(tx, identity(n as nat), ty, path@, 0, m as int);
    let ghost done = Seq::<OpModel>::empty();
    proof {
        assert(arranged(tx, order_model(order@)) =~= tx);
        lemma_edit_assign_same(base, path@);
        assert(ops_model(ops@) + done =~= ops_model(ops@));
    }
    let mut j: usize = 0;
    while j < m
        invariant
            j <= m,
            m <= n,
            m <= ys@.len(),
            n == xs@.len(),
            tx == trees_of(xs@),
            ty == trees_of(ys@),
            tx.len() == xs@.len(),
            ty.len() == ys@.len(),
            forall|x: int| 0 <= x < xs@.len() ==> #[trigger] tx[x] == tree_of(&xs@[x]),
            forall|x: int| 0 <= x < ys@.len() ==> #[trigger] ty[x] == tree_of(&ys@[x]),
            order@.len() == n,
            forall|k: int| 0 <= k < order@.len() ==> (#[trigger] order@[k]) < n,
            full == align(tx, identity(n as nat), ty, path@, 0, m as int),
            full == (
                done + align(tx, order_model(order@), ty, path@, j as int, m as int).0,
                align(tx, order_model(order@), ty, path@, j as int, m as int).1,
            ),
            ops_model(ops@) == ops_model(old(ops)@) + done,
            resolve(base, path@) is Some,
            apply_ops(root, ops_model(ops@)) == edit(
                base,
                path@,
                Edit::Assign(Tree::Array(arranged(tx, order_model(order@)))),
            ),
        decreases m - j,
    {
        let ghost om = order_model(order@);
        let ghost cur = arranged(tx, om);
        let ghost step = align_step(tx, om, ty, path@, j as int);
        proof {
            assert(om[j as int] == order@[j as int] as int);
        }
        let mut moved = false;
        match node_uid(&ys[j]) {
            Some(u) => {
                let here = node_uid(&xs[order[j]]);
                let same = match here {
                    Some(h) => h == u,
                    None => false,
                };
                if !same {
                    match find_uid_exec(xs, &order, u, j + 1) {
                        Some(k) => {
                            let ghost before = ops_model(ops@);
                            let op = Operation::Move {
                                from: path_with(path, Slot::Index(k)),
                                items: 1,
                                to: path_with(path, Slot::Index(j)),
                            };
                            emit(ops, op);
                            let v = order.remove(k);
                            order.insert(j, v);
                            proof {
                                let om2 = order_model(order@);
                                assert(om2 =~= om.remove(k as int).insert(j as int, om[k as int]));
                                let next = arranged(tx, om2);
                                assert(next =~= cur.remove(k as int).insert(j as int, cur[k as int]));
                                lemma_edit_assign_ok(base, path@, Tree::Array(cur));
                                let b = edit(base, path@, Edit::Assign(Tree::Array(cur)))->Ok_0;
                                lemma_move_effect(b, path@, cur, k as int, j as int);
                                lemma_extend(
                                    root,
                                    before,
                                    base,
                                    path@,
                                    Tree::Array(cur),
                                    OpModel::Move(
                                        path@.push(Slot::Index(k)),
                                        1,
                                        path@.push(Slot::Index(j)),
                                    ),
                                    Tree::Array(next),
                                );
                                assert(step.1 == om2);
                                done = done + step.0;
                                assert(ops_model(ops@) =~= ops_model(old(ops)@) + done);
                            }
                            moved = true;
                        },
                        None => {},
                    }
                }
            },
            None => {},
        }
        proof {
            if !moved {
                assert(step.0 =~= Seq::<OpModel>::empty());
                assert(step.1 == om);
                assert(done + step.0 =~= done);
            }
            let rest = align(tx, step.1, ty, path@, j + 1, m as int);
            assert(align(tx, om, ty, path@, j as int, m as int) == (step.0 + rest.0, rest.1));
            assert(full.0 =~= (done) + rest.0);
        }
        j = j + 1;
    }
    proof {
        assert(align(tx, order_model(order@), ty, path@, m as int, m as int).0 =~= Seq::<
            OpModel,
        >::empty());
        assert(done + Seq::<OpModel>::empty() =~= done);
    }
    order
}

/// Appends to `ops` the removal of the elements of `cx` past the end of
/// `ys`, or the addition of the elements of `ys` past the end of `cx`,
/// where the array at `path` holds `ys` up to `common` and `cx` after.
fn emit_tail(
    ys: &Vec<Value>,
    path: &Address,
    ops: &mut Vec<Operation>,
    Ghost(root): Ghost<Tree>,
    Ghost(base_al): Ghost<Tree>,
    Ghost(cx): Ghost<Seq<Tree>>,
    common: usize,
    xlen: usize,
)
    requires
        cx.len() == xlen,
        common == if xlen < ys@.len() {
            xlen
        } else {
            ys@.len() as usize
        },
        resolve(base_al, path@) is Some,
        apply_ops(root, ops_model(old(ops)@)) == edit(
            base_al,
            path@,
            Edit::Assign(
                Tree::Array(trees_of(ys@).take(common as int) + cx.skip(common as int)),
            ),
        ),
    ensures
        apply_ops(root, ops_model(final(ops)@)) == edit(
            base_al,
            path@,
            Edit::Assign(Tree::Array(trees_of(ys@))),
        ),
        ops_model(final(ops)@) == ops_model(old(ops)@) + tail_ops(cx, trees_of(ys@), path@),
{
    let ghost ty = trees_of(ys@);
    proof {
        lemma_trees_of(ys@);
    }
    let ghost shared = ops_model(ops@);
    if xlen > common {
        let ghost cur = Tree::Array(ty.take(common as int) + cx.skip(common as int));
        let ghost before = ops_model(ops@);
        let op = Operation::Remove {
            address: path_with(path, Slot::Index(common)),
            items: xlen - common,
        };
        emit(ops, op);
        proof {
            assert(path@.push(Slot::Index(common)).drop_last() =~= path@);
            lemma_edit_assign_ok(base_al, path@, cur);
            let base_m = edit(base_al, path@, Edit::Assign(cur))->Ok_0;
            lemma_edit_local(
                base_m,
                path@,
                Edit::Splice(
                    Some(common),
                    (xlen - common) as usize,
                    Seq::empty(),
                    OpKind::Remove,
                ),
            );
            let items = ty.take(common as int) + cx.skip(common as int);
            assert(items.take(common as int) + Seq::<Tree>::empty() + items.skip(
                xlen as int,
            ) =~= ty);
            lemma_extend(
                root,
                before,
                base_al,
                path@,
                cur,
                OpModel::Remove(path@.push(Slot::Index(common)), (xlen - common) as usize),
                Tree::Array(ty),
            );
            assert(ops_model(ops@) =~= shared + tail_ops(cx, ty, path@));
        }
    } else {
        proof {
            assert(ty.take(common as int) + cx.skip(common as int) =~= ty.take(common as int));
        }
        let mut j: usize = common;
        assert(shared + tail_ops(cx, ty, path@).take(0) =~= shared);
        while j < ys.len()
            invariant
                common <= j <= ys@.len(),
                common == xlen,
                cx.len() == xlen,
                ops_model(ops@) == shared + tail_ops(cx, ty, path@).take(j - common),
                ty == trees_of(ys@),
                ty.len() == ys@.len(),
                forall|x: int| 0 <= x < ys@.len() ==> #[trigger] ty[x] == tree_of(&ys@[x]),
                resolve(base_al, path@) is Some,
                apply_ops(root, ops_model(ops@)) == edit(
                    base_al,
                    path@,
                    Edit::Assign(Tree::Array(ty.take(j as int))),
                ),
            decreases ys@.len() - j,
        {
            let ghost cur = Tree::Array(ty.take(j as int));
            let ghost next = Tree::Array(ty.take(j + 1));
            let ghost before = ops_model(ops@);
            let value = clone_value(&ys[j]);
            let op = Operation::Add { address: path_with(path, Slot::Index(j)), value };
            emit(ops, op);
            proof {
                assert(path@.push(Slot::Index(j)).drop_last() =~= path@);
                lemma_edit_assign_ok(base_al, path@, cur);
                let base_j = edit(base_al, path@, Edit::Assign(cur))->Ok_0;
                lemma_edit_local(
                    base_j,
                    path@,
                    Edit::Splice(Some(j), 0, seq![ty[j as int]], OpKind::Add),
                );
                let items = ty.take(j as int);
                assert(items.take(j as int) + seq![ty[j as int]] + items.skip(j as int) =~= ty.take(
                    j + 1,
                ));
                lemma_extend(
                    root,
                    before,
                    base_al,
                    path@,
                    cur,
                    OpModel::Add(path@.push(Slot::Index(j)), ty[j as int]),
                    next,
                );
                let tail = tail_ops(cx, ty, path@);
                assert(tail[j - common] == OpModel::Add(path@.push(Slot::Index(j)), ty[j as int]));
                assert(tail.take(j + 1 - common) =~= tail.take(j - common).push(tail[j - common]));
                assert(ops_model(ops@) =~= shared + tail.take(j + 1 - common));
            }
            j = j + 1;
        }
        proof {
            assert(ty.take(ys@.len() as int) =~= ty);
            assert(tail_ops(cx, ty, path@).take(ys@.len() - common) =~= tail_ops(cx, ty, path@));
        }
    }
}

/// Appends to `ops` the operations that turn the array `xs`, located at
/// `path` in `base`, into `ys`: moves that align nodes by id, then one
/// diff per shared position, then the removal or addition of the rest.
fn diff_arrays(
    xs: &Vec<Value>,
    ys: &Vec<Value>,
    path: &Address,
    ops: &mut Vec<Operation>,
    Ghost(root): Ghost<Tree>,
    Ghost(base): Ghost<Tree>,
)
    requires
        apply_ops(root, ops_model(old(ops)@)) == Ok::<Tree, PatchError>(base),
        resolve(base, path@) == Some(Tree::Array(trees_of(xs@))),
    ensures
        apply_ops(root, ops_model(final(ops)@)) == edit(
            base,
            path@,
            Edit::Assign(Tree::Array(trees_of(ys@))),
        ),
        ({
            let tx = trees_of(xs@);
            let ty = trees_of(ys@);
            let m = if xs@.len() < ys@.len() {
                xs@.len() as int
            } else {
                ys@.len() as int
            };
            let al = align(tx, identity(xs@.len()), ty, path@, 0, m);
            ops_model(final(ops)@) == ops_model(old(ops)@) + (al.0 + items_ops(
                tx,
                al.1,
                ty,
                path@,
                m,
            ) + tail_ops(arranged(tx, al.1), ty, path@))
        }),
    decreases xs,
{
    let ghost start = ops_model(ops@);
    let order = align_children(xs, ys, path, ops, Ghost(root), Ghost(base));
    let ghost tx = trees_of(xs@);
    let ghost ty = trees_of(ys@);
    let ghost om = order_model(order@);
    let ghost cx = arranged(tx, om);
    let ghost aligned_ops = ops_model(ops@);
    proof {
        lemma_trees_of(xs@);
        lemma_trees_of(ys@);
        lemma_edit_assign_ok(base, path@, Tree::Array(cx));
    }
    let ghost base_al = edit(base, path@, Edit::Assign(Tree::Array(cx)))->Ok_0;
    proof {
        lemma_edit_assign_same(base_al, path@);
        assert(ty.take(0) + cx.skip(0) =~= cx);
        assert(aligned_ops + items_ops(tx, om, ty, path@, 0) =~= aligned_ops);
    }
    let common: usize = if xs.len() < ys.len() {
        xs.len()
    } else {
        ys.len()
    };
    let mut k: usize = 0;
    while k < common
        invariant
            k <= common,
            common <= xs@.len(),
            common <= ys@.len(),
            common == xs@.len() || common == ys@.len(),
            tx == trees_of(xs@),
            ty == trees_of(ys@),
            tx.len() == xs@.len(),
            ty.len() == ys@.len(),
            forall|j: int| 0 <= j < xs@.len() ==> #[trigger] tx[j] == tree_of(&xs@[j]),
            forall|j: int| 0 <= j < ys@.len() ==> #[trigger] ty[j] == tree_of(&ys@[j]),
            order@.len() == xs@.len(),
            forall|j: int| 0 <= j < order@.len() ==> (#[trigger] order@[j]) < xs@.len(),
            om == order_model(order@),
            cx == arranged(tx, om),
            resolve(base_al, path@) is Some,
            apply_ops(root, ops_model(ops@)) == edit(
                base_al,
                path@,
                Edit::Assign(Tree::Array(ty.take(k as int) + cx.skip(k as int))),
            ),
            ops_model(ops@) == aligned_ops + items_ops(tx, om, ty, path@, k as int),
        decreases common - k,
    {
        let ghost cur = Tree::Array(ty.take(k as int) + cx.skip(k as int));
        let ghost next = Tree::Array(ty.take(k + 1) + cx.skip(k + 1));
        let ghost sub_path = path@.push(Slot::Index(k));
        proof {
            lemma_edit_assign_ok(base_al, path@, cur);
        }
        let ghost base_k = edit(base_al, path@, Edit::Assign(cur))->Ok_0;
        let sub = path_with(path, Slot::Index(k));
        let x = order[k];
        proof {
            lemma_resolve_push(base_k, path@, Slot::Index(k));
            assert(om[k as int] == x as int);
            assert(cx[k as int] == tx[x as int]);
            assert((ty.take(k as int) + cx.skip(k as int))[k as int] == cx[k as int]);
            assert(decreases_to!(xs => xs@[x as int]));
        }
        diff_value(&xs[x], &ys[k], &sub, ops, Ghost(root), Ghost(base_k));
        proof {
            lemma_edit_assign_push(base_k, path@, Slot::Index(k), ty[k as int]);
            assert((ty.take(k as int) + cx.skip(k as int)).update(k as int, ty[k as int])
                =~= ty.take(k + 1) + cx.skip(k + 1));
            lemma_edit_assign_twice(base_al, path@, cur, next);
            assert(items_ops(tx, om, ty, path@, k + 1) == items_ops(tx, om, ty, path@, k as int)
                + diff_ops(tx[om[k as int]], ty[k as int], sub_path));
            assert(ops_model(ops@) =~= aligned_ops + items_ops(tx, om, ty, path@, k + 1));
        }
        k = k + 1;
    }
    let ghost shared = ops_model(ops@);
    emit_tail(ys, path, ops, Ghost(root), Ghost(base_al), Ghost(cx), common, xs.len());
    proof {
        lemma_edit_assign_twice(base, path@, Tree::Array(cx), Tree::Array(ty));
        let m = common as int;
        let al = align(tx, identity(xs@.len()), ty, path@, 0, m);
        assert(aligned_ops == start + al.0);
        assert(ops_model(ops@) =~= start + (al.0 + items_ops(tx, om, ty, path@, m) + tail_ops(
            cx,
            ty,
            path@,
        )));
    }
}

/// Appends to `ops` the operations that turn the properties `xs` of the
/// node located at `path` in `base` into `ys`, which have the same names.
fn diff_props(
    xs: &Vec<Property>,
    ys: &Vec<Property>,
    node_type: NodeType,
    uid: u64,
    path: &Address,
    ops: &mut Vec<Operation>,
    Ghost(root): Ghost<Tree>,
    Ghost(base): Ghost<Tree>,
)
    requires
        xs@.len() == ys@.len(),
        forall|k: int| 0 <= k < xs@.len() ==> (#[trigger] xs@[k]).name == ys@[k].name,
        forall|k: int|
            0 <= k < xs@.len() ==> find_property(props_of(xs@), (#[trigger] xs@[k]).name) == Some(
                k,
            ),
        apply_ops(root, ops_model(old(ops)@)) == Ok::<Tree, PatchError>(base),
        resolve(base, path@) == Some(Tree::Node(node_type, uid, props_of(xs@))),
    ensures
        apply_ops(root, ops_model(final(ops)@)) == edit(
            base,
            path@,
            Edit::Assign(Tree::Node(node_type, uid, props_of(ys@))),
        ),
        ops_model(final(ops)@) == ops_model(old(ops)@) + props_ops(
            props_of(xs@),
            props_of(ys@),
            path@,
            xs@.len() as int,
        ),
    decreases xs,
{
    let ghost px = props_of(xs@);
    let ghost py = props_of(ys@);
    proof {
        lemma_props_of(xs@);
        lemma_props_of(ys@);
        lemma_edit_assign_same(base, path@);
        assert(py.take(0) + px.skip(0) =~= px);
    }
    let mut k: usize = 0;
    while k < xs.len()
        invariant
            k <= xs@.len(),
            xs@.len() == ys@.len(),
            px == props_of(xs@),
            py == props_of(ys@),
            px.len() == xs@.len(),
            py.len() == ys@.len(),
            forall|j: int|
                0 <= j < xs@.len() ==> #[trigger] px[j] == (xs@[j].name, tree_of(&xs@[j].value)),
            forall|j: int|
                0 <= j < ys@.len() ==> #[trigger] py[j] == (ys@[j].name, tree_of(&ys@[j].value)),
            forall|j: int| 0 <= j < xs@.len() ==> (#[trigger] xs@[j]).name == ys@[j].name,
            forall|j: int|
                0 <= j < xs@.len() ==> find_property(px, (#[trigger] xs@[j]).name) == Some(j),
            resolve(base, path@) is Some,
            apply_ops(root, ops_model(ops@)) == edit(
                base,
                path@,
                Edit::Assign(Tree::Node(node_type, uid, py.take(k as int) + px.skip(k as int))),
            ),
            ops_model(ops@) == ops_model(old(ops)@) + props_ops(px, py, path@, k as int),
        decreases xs@.len() - k,
    {
        let ghost mix = py.take(k as int) + px.skip(k as int);
        let ghost cur = Tree::Node(node_type, uid, mix);
        let ghost next = Tree::Node(node_type, uid, py.take(k + 1) + px.skip(k + 1));
        let name = xs[k].name;
        proof {
            lemma_edit_assign_ok(base, path@, cur);
            assert forall|j: int| 0 <= j < px.len() implies (#[trigger] px[j]).0 == mix[j].0 by {
                if j < k {
                    assert(px[j].0 == xs@[j].name);
                    assert(py[j].0 == ys@[j].name);
                }
            }
            lemma_find_from_names(px, mix, name, 0);
            assert(find_property(px, xs@[k as int].name) == Some(k as int));
            assert(mix[k as int] == px[k as int]);
        }
        let ghost base_k = edit(base, path@, Edit::Assign(cur))->Ok_0;
        let sub = path_with(path, Slot::Property(name));
        proof {
            lemma_resolve_push(base_k, path@, Slot::Property(name));
            assert(decreases_to!(xs => xs@[k as int]));
        }
        diff_value(&xs[k].value, &ys[k].value, &sub, ops, Ghost(root), Ghost(base_k));
        proof {
            lemma_edit_assign_push(
                base_k,
                path@,
                Slot::Property(name),
                tree_of(&ys@[k as int].value),
            );
            assert(mix.update(k as int, (name, tree_of(&ys@[k as int].value))) =~= py.take(k + 1)
                + px.skip(k + 1));
            lemma_edit_assign_twice(base, path@, cur, next);
            assert(props_ops(px, py, path@, k + 1) == props_ops(px, py, path@, k as int) + diff_ops(
                px[k as int].1,
                py[k as int].1,
                path@.push(Slot::Property(name)),
            ));
            assert(ops_model(ops@) =~= ops_model(old(ops)@) + props_ops(px, py, path@, k + 1));
        }
        k = k + 1;
    }
    proof {
        assert(py.take(xs@.len() as int) + px.skip(xs@.len() as int) =~= py);
    }
}

/// The patch that turns `old` into `new`.
///
/// Applying it to `old` gives `new`; where the two are equal it holds no
/// operation.
pub fn diff(old: &Value, new: &Value) -> (r: Patch)
    ensures
        apply_ops(old@, r.model()) == Ok::<Tree, PatchError>(new@),
        r.model() == diff_ops(old@, new@, Seq::empty()),
        old@ == new@ ==> r.ops@.len() == 0,
        r.node_id is None,
        r.author is None,
{
    let mut ops: Vec<Operation> = Vec::new();
    let path: Address = Vec::new();
    proof {
        assert(ops_model(ops@) =~= Seq::<OpModel>::empty());
        assert(path@ =~= Seq::<Slot>::empty());
    }
    diff_value(old, new, &path, &mut ops, Ghost(old@), Ghost(old@));
    assert(ops_model(ops@) =~= diff_ops(old@, new@, Seq::empty()));
    Patch::new(ops)
}

} // verus!
