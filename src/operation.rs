//! Operations and patches: descriptions of edits to a document tree.

use vstd::prelude::*;

use crate::address::{Address, Slot};
use crate::node_type::{NodeId, NodeType};
use crate::schema::AuthorRoleName;
use crate::value::{Tree, Value};

verus! {

/// The kind of an operation.
#[derive(Debug, Clone, Copy, PartialEq, Eq, Structural)]
pub enum OpKind {
    Add,
    Remove,
    Replace,
    Move,
    Copy,
    Transform,
}

/// Why an operation could not be applied.
#[derive(Debug, Clone, Copy, PartialEq, Eq, Structural)]
pub enum PatchError {
    /// A slot of an address does not exist: an unknown property, an index
    /// out of range, or a step into a value without children.
    InvalidAddress,
    /// The value at the address does not support the operation.
    InvalidPatchOperation(OpKind),
    /// A value does not have the shape that a type expects.
    InvalidValueConversion,
}

/// A single edit of a document tree.
///
/// `items` counts the array elements that an operation spans, starting at
/// the final index of its address.
#[derive(Debug)]
pub enum Operation {
    /// Inserts `value` into an array, before the final index of `address`.
    Add { address: Address, value: Value },
    /// Removes `items` elements of an array, from the final index of `address`.
    Remove { address: Address, items: usize },
    /// Where `address` ends in an index, replaces `items` elements of an
    /// array from that index by `value`; otherwise replaces the value that
    /// `address` locates by `value`.
    Replace { address: Address, items: usize, value: Value },
    /// Removes `items` elements of an array at `from`, then inserts them at `to`.
    Move { from: Address, items: usize, to: Address },
    /// Inserts a copy of `items` elements of an array at `from` at `to`.
    Copy { from: Address, items: usize, to: Address },
    /// Changes the type of the node at `address` from `from_type` to `to_type`.
    Transform { address: Address, from_type: NodeType, to_type: NodeType },
}

/// The model of an [`Operation`].
pub enum OpModel {
    Add(Seq<Slot>, Tree),
    Remove(Seq<Slot>, usize),
    Replace(Seq<Slot>, usize, Tree),
    Move(Seq<Slot>, usize, Seq<Slot>),
    Copy(Seq<Slot>, usize, Seq<Slot>),
    Transform(Seq<Slot>, NodeType, NodeType),
}

impl View for Operation {
    type V = OpModel;

    open spec fn view(&self) -> OpModel {
        match self {
            Operation::Add { address, value } => OpModel::Add(address@, value@),
            Operation::Remove { address, items } => OpModel::Remove(address@, *items),
            Operation::Replace { address, items, value } => OpModel::Replace(
                address@,
                *items,
                value@,
            ),
            Operation::Move { from, items, to } => OpModel::Move(from@, *items, to@),
            Operation::Copy { from, items, to } => OpModel::Copy(from@, *items, to@),
            Operation::Transform { address, from_type, to_type } => OpModel::Transform(
                address@,
                *from_type,
                *to_type,
            ),
        }
    }
}

/// Who produced a patch, and in what role.
#[derive(Debug)]
pub struct PatchAuthor {
    pub name: String,
    pub role: AuthorRoleName,
}

/// An ordered list of operations, applied strictly in order.
#[derive(Debug)]
pub struct Patch {
    /// The node that the patch targets, if it targets one.
    pub node_id: Option<NodeId>,
    /// The author of the edit, if known.
    pub author: Option<PatchAuthor>,
    pub ops: Vec<Operation>,
}

/// The models of a sequence of operations.
pub open spec fn ops_model(ops: Seq<Operation>) -> Seq<OpModel> {
    ops.map_values(|o: Operation| o@)
}

impl Patch {
    /// A patch without target or author.
    pub fn new(ops: Vec<Operation>) -> (r: Patch)
        ensures
            r.ops == ops,
            r.node_id is None,
            r.author is None,
    {
        Patch { node_id: None, author: None, ops }
    }

    /// The models of the operations of this patch.
    pub open spec fn model(&self) -> Seq<OpModel> {
        ops_model(self.ops@)
    }
}

} // verus!
