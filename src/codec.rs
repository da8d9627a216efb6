//! What the JATS codec supports: the formats and node types that it can
//! decode and encode, and with what loss.

use vstd::prelude::*;

use crate::node_type::NodeType;

verus! {

/// A document format.
#[derive(Debug, Clone, Copy, PartialEq, Eq, Structural)]
pub enum Format {
    Jats,
    Json,
    Markdown,
    Html,
    Text,
}

/// How well a codec supports a format or a node type.
#[derive(Debug, Clone, Copy, PartialEq, Eq, Structural)]
pub enum CodecSupport {
    /// Not supported.
    NoSupport,
    /// Supported, with much loss.
    HighLoss,
    /// Supported, with little loss.
    LowLoss,
    /// Supported without loss.
    NoLoss,
}

/// The development status of a codec.
#[derive(Debug, Clone, Copy, PartialEq, Eq, Structural)]
pub enum CodecStatus {
    UnderDevelopment,
    Alpha,
    Beta,
    Stable,
}

/// A codec for JATS, the Journal Article Tag Suite.
#[derive(Debug)]
pub struct JatsCodec;

/// The support for decoding from, or encoding to, a format.
pub open spec fn jats_format_support(format: Format) -> CodecSupport {
    match format {
        Format::Jats => CodecSupport::LowLoss,
        _ => CodecSupport::NoSupport,
    }
}

/// The support for decoding nodes of a type.
pub open spec fn jats_from_type(t: NodeType) -> CodecSupport {
    match t {
        NodeType::Text | NodeType::Emphasis | NodeType::Strong | NodeType::Strikeout
        | NodeType::Subscript | NodeType::Superscript | NodeType::Underline | NodeType::Insert
        | NodeType::Paragraph | NodeType::ThematicBreak => CodecSupport::NoLoss,
        NodeType::Article => CodecSupport::LowLoss,
        _ => CodecSupport::NoSupport,
    }
}

/// The support for encoding nodes of a type.
pub open spec fn jats_to_type(t: NodeType) -> CodecSupport {
    match t {
        NodeType::String | NodeType::Cord | NodeType::Text | NodeType::Emphasis
        | NodeType::Strong | NodeType::Strikeout | NodeType::Subscript | NodeType::Superscript
        | NodeType::Underline | NodeType::Insert | NodeType::Heading | NodeType::Paragraph
        | NodeType::ThematicBreak | NodeType::CodeFragment | NodeType::CodeBlock
        | NodeType::MathFragment | NodeType::MathBlock => CodecSupport::NoLoss,
        NodeType::Null | NodeType::Boolean | NodeType::Integer | NodeType::UnsignedInteger
        | NodeType::Number | NodeType::Link | NodeType::Parameter | NodeType::AudioObject
        | NodeType::ImageObject | NodeType::MediaObject | NodeType::List | NodeType::ListItem
        | NodeType::Table | NodeType::TableRow | NodeType::TableCell | NodeType::CodeExpression
        | NodeType::CodeChunk | NodeType::Article => CodecSupport::LowLoss,
        _ => CodecSupport::NoSupport,
    }
}

impl JatsCodec {
    /// The name of the codec.
    pub fn name(&self) -> (r: &'static str)
        ensures
            r@ == "jats"@,
    {
        "jats"
    }

    /// The development status of the codec.
    pub fn status(&self) -> (r: CodecStatus)
        ensures
            r == CodecStatus::UnderDevelopment,
    {
        CodecStatus::UnderDevelopment
    }

    /// How well the codec decodes from `format`.
    pub fn supports_from_format(&self, format: Format) -> (r: CodecSupport)
        ensures
            r == jats_format_support(format),
    {
        match format {
            Format::Jats => CodecSupport::LowLoss,
            _ => CodecSupport::NoSupport,
        }
    }

    /// How well the codec encodes to `format`.
    pub fn supports_to_format(&self, format: Format) -> (r: CodecSupport)
        ensures
            r == jats_format_support(format),
    {
        match format {
            Format::Jats => CodecSupport::LowLoss,
            _ => CodecSupport::NoSupport,
        }
    }

    /// How well the codec decodes nodes of type `node_type`.
    pub fn supports_from_type(&self, node_type: NodeType) -> (r: CodecSupport)
        ensures
            r == jats_from_type(node_type),
    {
        match node_type {
            NodeType::Text | NodeType::Emphasis | NodeType::Strong | NodeType::Strikeout
            | NodeType::Subscript | NodeType::Superscript | NodeType::Underline
            | NodeType::Insert | NodeType::Paragraph | NodeType::ThematicBreak => {
                CodecSupport::NoLoss
            },
            NodeType::Article => CodecSupport::LowLoss,
            _ => CodecSupport::NoSupport,
        }
    }

    /// How well the codec encodes nodes of type `node_type`.
    pub fn supports_to_type(&self, node_type: NodeType) -> (r: CodecSupport)
        ensures
            r == jats_to_type(node_type),
    {
        match node_type {
            NodeType::String | NodeType::Cord | NodeType::Text | NodeType::Emphasis
            | NodeType::Strong | NodeType::Strikeout | NodeType::Subscript
            | NodeType::Superscript | NodeType::Underline | NodeType::Insert
            | NodeType::Heading | NodeType::Paragraph | NodeType::ThematicBreak
            | NodeType::CodeFragment | NodeType::CodeBlock | NodeType::MathFragment
            | NodeType::MathBlock => CodecSupport::NoLoss,
            NodeType::Null | NodeType::Boolean | NodeType::Integer | NodeType::UnsignedInteger
            | NodeType::Number | NodeType::Link | NodeType::Parameter | NodeType::AudioObject
            | NodeType::ImageObject | NodeType::MediaObject | NodeType::List
            | NodeType::ListItem | NodeType::Table | NodeType::TableRow | NodeType::TableCell
            | NodeType::CodeExpression | NodeType::CodeChunk | NodeType::Article => {
                CodecSupport::LowLoss
            },
            _ => CodecSupport::NoSupport,
        }
    }
}

} // verus!
