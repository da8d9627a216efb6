//! The closed set of node types, and node identifiers.

use vstd::prelude::*;

verus! {

/// The type of a document node.
#[derive(Debug, Clone, Copy, PartialEq, Eq, Structural, PartialOrd, Ord, Hash)]
pub enum NodeType {
    Null,
    Boolean,
    Integer,
    UnsignedInteger,
    Number,
    String,
    Cord,
    Text,
    Emphasis,
    Strong,
    Strikeout,
    Subscript,
    Superscript,
    Underline,
    Insert,
    Link,
    Parameter,
    AudioObject,
    ImageObject,
    MediaObject,
    Paragraph,
    Heading,
    ThematicBreak,
    QuoteBlock,
    List,
    ListItem,
    Table,
    TableRow,
    TableCell,
    CodeFragment,
    CodeBlock,
    CodeExpression,
    CodeChunk,
    MathFragment,
    MathInline,
    MathBlock,
    StyledBlock,
    InsertBlock,
    InsertInline,
    ReplaceBlock,
    ReplaceInline,
    CodeError,
    ExecutionMessage,
    DateValidator,
    Person,
    Organization,
    SoftwareApplication,
    AuthorRole,
    ProvenanceCount,
    Duration,
    Timestamp,
    Thing,
    Article,
}

/// A stable identifier of a node: the node's type and an id that is
/// unique among the nodes of a document.
#[derive(Debug, Clone, Copy, PartialEq, Eq, Structural, Hash)]
pub struct NodeId {
    pub node_type: NodeType,
    pub uid: u64,
}

impl NodeId {
    /// Creates the identifier of the node of type `node_type` with id `uid`.
    pub fn new(node_type: NodeType, uid: u64) -> (r: NodeId)
        ensures
            r.node_type == node_type,
            r.uid == uid,
    {
        NodeId { node_type, uid }
    }
}

} // verus!
