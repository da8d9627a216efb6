//! Typed document nodes, and their encoding as document trees.
//!
//! Inline and block content is held as [`Value`]s, the form in which the
//! differ and the patch engine work on documents. Each typed node encodes
//! itself as a node value with one property per field, in a fixed order.

use vstd::prelude::*;

use crate::node_property::NodeProperty;
use crate::node_type::{NodeId, NodeType};
use crate::operation::PatchError;
use crate::value::{
    array_value, clone_values, lemma_props_of, lemma_trees_of, node_value, optional_text,
    optional_text_value, optional_texts, optional_texts_value, optional_values,
    optional_values_value, props_of, texts_tree, texts_value, tree_of, trees_of, Property, Tree,
    Value,
};

verus! {

/// Inline content: a node value of an inline type, or text.
pub type Inline = Value;

/// Block content: a node value of a block type.
pub type Block = Value;

/// The role of an author of content.
#[derive(Debug, Clone, Copy, PartialEq, Eq, Structural, PartialOrd, Ord, Hash)]
pub enum AuthorRoleName {
    /// Imported content from an external format into a new document.
    Importer,
    /// Wrote content including inserting, deleting and replacing prose and code.
    Writer,
    /// Verified the accuracy of content, usually generated by software.
    Verifier,
    /// Instructed another author to create content.
    Instructor,
    /// Prompted another author to generate content.
    Prompter,
    /// Software that generated content such as prose, code, or images.
    Generator,
}

/// An author of content.
#[derive(Debug)]
pub enum Author {
    /// A person, with given and family names.
    Person { given_names: Vec<String>, family_names: Vec<String> },
    /// An organization, with a name or a legal name.
    Organization { name: Option<String>, legal_name: Option<String> },
    /// A software application, with its name and version.
    SoftwareApplication { application_name: String, version: Option<String> },
    /// An author in a role, such as the software that generated content.
    AuthorRole { role_name: AuthorRoleName, author: Option<Box<Author>> },
}

/// The status of a suggested edit.
#[derive(Debug, Clone, Copy, PartialEq, Eq, Structural)]
pub enum SuggestionStatus {
    Original,
    Accepted,
    Rejected,
}

/// An integer or a string, such as a page number ("135" or "xiii").
#[derive(Debug)]
pub enum IntegerOrString {
    Integer(i64),
    String(String),
}

/// Emphasized content.
#[derive(Debug)]
pub struct Emphasis {
    pub id: Option<String>,
    pub content: Vec<Inline>,
}

/// Subscripted content.
#[derive(Debug)]
pub struct Subscript {
    pub id: Option<String>,
    pub content: Vec<Inline>,
}

/// Superscripted content.
#[derive(Debug)]
pub struct Superscript {
    pub id: Option<String>,
    pub content: Vec<Inline>,
}

/// A thematic break, such as a scene change or a transition to another topic.
#[derive(Debug)]
pub struct ThematicBreak {
    pub id: Option<String>,
}

/// A section quoted from somewhere else.
#[derive(Debug)]
pub struct QuoteBlock {
    pub id: Option<String>,
    /// The source of the quote.
    pub cite: Option<String>,
    pub content: Vec<Block>,
}

/// An error that occurred when parsing, compiling or executing code.
#[derive(Debug)]
pub struct CodeError {
    pub id: Option<String>,
    /// The error message or brief description of the error.
    pub error_message: String,
    /// The type of error, such as "SyntaxError".
    pub error_type: Option<String>,
    /// The stack trace leading up to the error.
    pub stack_trace: Option<String>,
}

/// A validator specifying the constraints on a date.
#[derive(Debug)]
pub struct DateValidator {
    pub id: Option<String>,
    /// The inclusive lower limit, as an ISO 8601 date.
    pub minimum: Option<String>,
    /// The inclusive upper limit, as an ISO 8601 date.
    pub maximum: Option<String>,
}

/// Non-core optional fields of a heading.
#[derive(Debug)]
pub struct HeadingOptions {
    /// The names of the authors of the heading.
    pub authors: Option<Vec<String>>,
}

/// A heading.
#[derive(Debug)]
pub struct Heading {
    pub id: Option<String>,
    /// The level of the heading.
    pub level: i64,
    pub content: Vec<Inline>,
    pub options: HeadingOptions,
}

/// A count of the characters of content that came from one category of
/// provenance (such as human-written or machine-generated).
#[derive(Debug)]
pub struct ProvenanceCount {
    pub provenance_category: String,
    pub character_count: i64,
    pub character_percent: Option<i64>,
}

/// A span of time in a unit (such as "Millisecond").
#[derive(Debug)]
pub struct Duration {
    pub value: i64,
    pub time_unit: String,
}

/// A point in time, counted in a unit since the Unix epoch.
#[derive(Debug)]
pub struct Timestamp {
    pub value: i64,
    pub time_unit: String,
}

/// A suggestion to insert some block content.
#[derive(Debug)]
pub struct InsertBlock {
    pub id: Option<String>,
    /// Whether the suggestion is proposed, accepted, or rejected.
    pub suggestion_status: Option<SuggestionStatus>,
    /// The authors of the suggestion.
    pub authors: Option<Vec<Author>>,
    /// A summary of the provenance of the content within the suggestion.
    pub provenance: Option<Vec<ProvenanceCount>>,
    /// Time taken to generate the suggestion.
    pub execution_duration: Option<Duration>,
    /// When the generation ended.
    pub execution_ended: Option<Timestamp>,
    /// Feedback on the suggestion.
    pub feedback: Option<String>,
    /// The content that is suggested to be inserted.
    pub content: Vec<Block>,
    /// The id of the node within its document.
    pub uid: u64,
}

/// Non-core optional fields of the most generic type of item.
#[derive(Debug)]
pub struct ThingOptions {
    pub alternate_names: Option<Vec<String>>,
    pub description: Option<Vec<Block>>,
    pub name: Option<String>,
    pub url: Option<String>,
}

/// The most generic type of item.
#[derive(Debug)]
pub struct Thing {
    pub id: Option<String>,
    pub options: ThingOptions,
}

/// Non-core optional fields of an article.
#[derive(Debug)]
pub struct ArticleOptions {
    pub alternate_names: Option<Vec<String>>,
    pub description: Option<String>,
    pub name: Option<String>,
    pub url: Option<String>,
    pub keywords: Option<Vec<String>>,
    pub genre: Option<Vec<String>>,
    /// The page on which the article starts.
    pub page_start: Option<IntegerOrString>,
    /// The page on which the article ends.
    pub page_end: Option<IntegerOrString>,
    /// Any description of pages that is not separated into start and end.
    pub pagination: Option<String>,
}

/// An article, including news and scholarly articles.
#[derive(Debug)]
pub struct Article {
    pub id: Option<String>,
    pub title: Option<Vec<Inline>>,
    pub content: Vec<Block>,
    pub options: ArticleOptions,
}

/// The name of a suggestion status.
pub open spec fn status_name(s: SuggestionStatus) -> Seq<char> {
    match s {
        SuggestionStatus::Original => "Original"@,
        SuggestionStatus::Accepted => "Accepted"@,
        SuggestionStatus::Rejected => "Rejected"@,
    }
}

/// A suggestion status as a value, or nothing.
pub open spec fn optional_status(o: Option<SuggestionStatus>) -> Tree {
    match o {
        Some(s) => Tree::Text(status_name(s)),
        None => Tree::Null,
    }
}

fn optional_status_value(o: Option<SuggestionStatus>) -> (r: Value)
    ensures
        r@ == optional_status(o),
{
    match o {
        Some(SuggestionStatus::Original) => Value::String("Original".to_owned()),
        Some(SuggestionStatus::Accepted) => Value::String("Accepted".to_owned()),
        Some(SuggestionStatus::Rejected) => Value::String("Rejected".to_owned()),
        None => Value::Null,
    }
}

/// A page number as a value, or nothing.
pub open spec fn optional_page(o: Option<IntegerOrString>) -> Tree {
    match o {
        Some(IntegerOrString::Integer(i)) => Tree::Integer(i),
        Some(IntegerOrString::String(s)) => Tree::Text(s@),
        None => Tree::Null,
    }
}

fn optional_page_value(o: &Option<IntegerOrString>) -> (r: Value)
    ensures
        r@ == optional_page(*o),
{
    match o {
        Some(IntegerOrString::Integer(i)) => Value::Integer(*i),
        Some(IntegerOrString::String(s)) => Value::String(s.clone()),
        None => Value::Null,
    }
}

/// The encoding of a node whose fields are an id and content.
pub open spec fn marked_tree(ty: NodeType, id: Option<String>, content: Seq<Value>) -> Tree {
    Tree::Node(
        ty,
        0,
        seq![
            (NodeProperty::Id, optional_text(id)),
            (NodeProperty::Content, Tree::Array(trees_of(content))),
        ],
    )
}

fn marked_value(ty: NodeType, id: &Option<String>, content: &Vec<Value>) -> (r: Value)
    ensures
        r@ == marked_tree(ty, *id, content@),
{
    let props = vec![
        Property { name: NodeProperty::Id, value: optional_text_value(id) },
        Property { name: NodeProperty::Content, value: array_value(content) },
    ];
    proof {
        lemma_props_of(props@);
        assert(props_of(props@) =~= marked_tree(ty, *id, content@)->Node_2);
    }
    node_value(ty, 0, props)
}

/// The name of an author role.
pub open spec fn role_name_text(r: AuthorRoleName) -> Seq<char> {
    match r {
        AuthorRoleName::Importer => "Importer"@,
        AuthorRoleName::Writer => "Writer"@,
        AuthorRoleName::Verifier => "Verifier"@,
        AuthorRoleName::Instructor => "Instructor"@,
        AuthorRoleName::Prompter => "Prompter"@,
        AuthorRoleName::Generator => "Generator"@,
    }
}

fn role_name_value(r: AuthorRoleName) -> (v: Value)
    ensures
        v@ == Tree::Text(role_name_text(r)),
{
    let t = match r {
        AuthorRoleName::Importer => "Importer".to_owned(),
        AuthorRoleName::Writer => "Writer".to_owned(),
        AuthorRoleName::Verifier => "Verifier".to_owned(),
        AuthorRoleName::Instructor => "Instructor".to_owned(),
        AuthorRoleName::Prompter => "Prompter".to_owned(),
        AuthorRoleName::Generator => "Generator".to_owned(),
    };
    Value::String(t)
}

/// The encoding of an author as a node.
pub open spec fn author_tree(a: Author) -> Tree
    decreases a,
{
    match a {
        Author::Person { given_names, family_names } => Tree::Node(
            NodeType::Person,
            0,
            seq![
                (NodeProperty::GivenNames, texts_tree(given_names@)),
                (NodeProperty::FamilyNames, texts_tree(family_names@)),
            ],
        ),
        Author::Organization { name, legal_name } => Tree::Node(
            NodeType::Organization,
            0,
            seq![
                (NodeProperty::Name, optional_text(name)),
                (NodeProperty::LegalName, optional_text(legal_name)),
            ],
        ),
        Author::SoftwareApplication { application_name, version } => Tree::Node(
            NodeType::SoftwareApplication,
            0,
            seq![
                (NodeProperty::Name, Tree::Text(application_name@)),
                (NodeProperty::Version, optional_text(version)),
            ],
        ),
        Author::AuthorRole { role_name, author } => Tree::Node(
            NodeType::AuthorRole,
            0,
            seq![
                (NodeProperty::RoleName, Tree::Text(role_name_text(role_name))),
                (
                    NodeProperty::Author,
                    match author {
                        Some(b) => author_tree(*b),
                        None => Tree::Null,
                    },
                ),
            ],
        ),
    }
}

/// The encoding of an author as a node.
pub fn author_value(a: &Author) -> (r: Value)
    ensures
        r@ == author_tree(*a),
    decreases a,
{
    let (ty, props) = match a {
        Author::Person { given_names, family_names } => (
            NodeType::Person,
            vec![
                Property { name: NodeProperty::GivenNames, value: texts_value(given_names) },
                Property { name: NodeProperty::FamilyNames, value: texts_value(family_names) },
            ],
        ),
        Author::Organization { name, legal_name } => (
            NodeType::Organization,
            vec![
                Property { name: NodeProperty::Name, value: optional_text_value(name) },
                Property { name: NodeProperty::LegalName, value: optional_text_value(legal_name) },
            ],
        ),
        Author::SoftwareApplication { application_name, version } => (
            NodeType::SoftwareApplication,
            vec![
                Property { name: NodeProperty::Name, value: Value::String(application_name.clone()) },
                Property { name: NodeProperty::Version, value: optional_text_value(version) },
            ],
        ),
        Author::AuthorRole { role_name, author } => {
            let inner = match author {
                Some(b) => author_value(&**b),
                None => Value::Null,
            };
            (
                NodeType::AuthorRole,
                vec![
                    Property { name: NodeProperty::RoleName, value: role_name_value(*role_name) },
                    Property { name: NodeProperty::Author, value: inner },
                ],
            )
        },
    };
    proof {
        lemma_props_of(props@);
        assert(props_of(props@) =~= author_tree(*a)->Node_2);
    }
    node_value(ty, 0, props)
}

/// A list of authors as an array, or nothing.
pub open spec fn optional_authors(o: Option<Vec<Author>>) -> Tree {
    match o {
        Some(v) => Tree::Array(Seq::new(v@.len(), |i: int| author_tree(v@[i]))),
        None => Tree::Null,
    }
}

fn optional_authors_value(o: &Option<Vec<Author>>) -> (r: Value)
    ensures
        r@ == optional_authors(*o),
{
    match o {
        Some(v) => {
            let mut out: Vec<Value> = Vec::new();
            let mut i: usize = 0;
            while i < v.len()
                invariant
                    i <= v@.len(),
                    out@.len() == i,
                    forall|j: int| 0 <= j < i ==> tree_of(&#[trigger] out@[j]) == author_tree(v@[j]),
                decreases v@.len() - i,
            {
                out.push(author_value(&v[i]));
                i = i + 1;
            }
            proof {
                lemma_trees_of(out@);
                assert(trees_of(out@) =~= Seq::new(v@.len(), |i: int| author_tree(v@[i])));
            }
            Value::Array(out)
        },
        None => Value::Null,
    }
}

/// The encoding of a provenance count as a node.
pub open spec fn provenance_tree(p: ProvenanceCount) -> Tree {
    Tree::Node(
        NodeType::ProvenanceCount,
        0,
        seq![
            (NodeProperty::ProvenanceCategory, Tree::Text(p.provenance_category@)),
            (NodeProperty::CharacterCount, Tree::Integer(p.character_count)),
            (
                NodeProperty::CharacterPercent,
                match p.character_percent {
                    Some(x) => Tree::Integer(x),
                    None => Tree::Null,
                },
            ),
        ],
    )
}

fn provenance_value(p: &ProvenanceCount) -> (r: Value)
    ensures
        r@ == provenance_tree(*p),
{
    let percent = match p.character_percent {
        Some(x) => Value::Integer(x),
        None => Value::Null,
    };
    let props = vec![
        Property {
            name: NodeProperty::ProvenanceCategory,
            value: Value::String(p.provenance_category.clone()),
        },
        Property { name: NodeProperty::CharacterCount, value: Value::Integer(p.character_count) },
        Property { name: NodeProperty::CharacterPercent, value: percent },
    ];
    proof {
        lemma_props_of(props@);
        assert(props_of(props@) =~= provenance_tree(*p)->Node_2);
    }
    node_value(NodeType::ProvenanceCount, 0, props)
}

/// A list of provenance counts as an array, or nothing.
pub open spec fn optional_provenance(o: Option<Vec<ProvenanceCount>>) -> Tree {
    match o {
        Some(v) => Tree::Array(v@.map_values(|p: ProvenanceCount| provenance_tree(p))),
        None => Tree::Null,
    }
}

fn optional_provenance_value(o: &Option<Vec<ProvenanceCount>>) -> (r: Value)
    ensures
        r@ == optional_provenance(*o),
{
    match o {
        Some(v) => {
            let mut out: Vec<Value> = Vec::new();
            let mut i: usize = 0;
            while i < v.len()
                invariant
                    i <= v@.len(),
                    out@.len() == i,
                    forall|j: int| 0 <= j < i ==> tree_of(&#[trigger] out@[j]) == provenance_tree(v@[j]),
                decreases v@.len() - i,
            {
                out.push(provenance_value(&v[i]));
                i = i + 1;
            }
            proof {
                lemma_trees_of(out@);
                assert(trees_of(out@) =~= v@.map_values(|p: ProvenanceCount| provenance_tree(p)));
            }
            Value::Array(out)
        },
        None => Value::Null,
    }
}

/// A duration as a node, or nothing.
pub open spec fn optional_duration(o: Option<Duration>) -> Tree {
    match o {
        Some(d) => Tree::Node(
            NodeType::Duration,
            0,
            seq![
                (NodeProperty::Value, Tree::Integer(d.value)),
                (NodeProperty::TimeUnit, Tree::Text(d.time_unit@)),
            ],
        ),
        None => Tree::Null,
    }
}

fn optional_duration_value(o: &Option<Duration>) -> (r: Value)
    ensures
        r@ == optional_duration(*o),
{
    match o {
        Some(d) => {
            let props = vec![
                Property { name: NodeProperty::Value, value: Value::Integer(d.value) },
                Property { name: NodeProperty::TimeUnit, value: Value::String(d.time_unit.clone()) },
            ];
            proof {
                lemma_props_of(props@);
                assert(props_of(props@) =~= optional_duration(*o)->Node_2);
            }
            node_value(NodeType::Duration, 0, props)
        },
        None => Value::Null,
    }
}

/// A timestamp as a node, or nothing.
pub open spec fn optional_timestamp(o: Option<Timestamp>) -> Tree {
    match o {
        Some(t) => Tree::Node(
            NodeType::Timestamp,
            0,
            seq![
                (NodeProperty::Value, Tree::Integer(t.value)),
                (NodeProperty::TimeUnit, Tree::Text(t.time_unit@)),
            ],
        ),
        None => Tree::Null,
    }
}

fn optional_timestamp_value(o: &Option<Timestamp>) -> (r: Value)
    ensures
        r@ == optional_timestamp(*o),
{
    match o {
        Some(t) => {
            let props = vec![
                Property { name: NodeProperty::Value, value: Value::Integer(t.value) },
                Property { name: NodeProperty::TimeUnit, value: Value::String(t.time_unit.clone()) },
            ];
            proof {
                lemma_props_of(props@);
                assert(props_of(props@) =~= optional_timestamp(*o)->Node_2);
            }
            node_value(NodeType::Timestamp, 0, props)
        },
        None => Value::Null,
    }
}

impl Emphasis {
    /// The encoding of this node as a document tree.
    pub open spec fn tree(&self) -> Tree {
        marked_tree(NodeType::Emphasis, self.id, self.content@)
    }

    /// This node as a document value.
    pub fn to_value(&self) -> (r: Value)
        ensures
            r@ == self.tree(),
    {
        marked_value(NodeType::Emphasis, &self.id, &self.content)
    }
}

impl Subscript {
    /// The encoding of this node as a document tree.
    pub open spec fn tree(&self) -> Tree {
        marked_tree(NodeType::Subscript, self.id, self.content@)
    }

    /// This node as a document value.
    pub fn to_value(&self) -> (r: Value)
        ensures
            r@ == self.tree(),
    {
        marked_value(NodeType::Subscript, &self.id, &self.content)
    }
}

impl Superscript {
    /// Superscripted `content`, without id.
    pub fn new(content: Vec<Inline>) -> (r: Superscript)
        ensures
            r.content == content,
            r.id is None,
    {
        Superscript { id: None, content }
    }

    /// The encoding of this node as a document tree.
    pub open spec fn tree(&self) -> Tree {
        marked_tree(NodeType::Superscript, self.id, self.content@)
    }

    /// This node as a document value.
    pub fn to_value(&self) -> (r: Value)
        ensures
            r@ == self.tree(),
    {
        marked_value(NodeType::Superscript, &self.id, &self.content)
    }
}

impl ThematicBreak {
    /// The encoding of this node as a document tree.
    pub open spec fn tree(&self) -> Tree {
        Tree::Node(NodeType::ThematicBreak, 0, seq![(NodeProperty::Id, optional_text(self.id))])
    }

    /// This node as a document value.
    pub fn to_value(&self) -> (r: Value)
        ensures
            r@ == self.tree(),
    {
        let props = vec![Property { name: NodeProperty::Id, value: optional_text_value(&self.id) }];
        proof {
            lemma_props_of(props@);
            assert(props_of(props@) =~= self.tree()->Node_2);
        }
        node_value(NodeType::ThematicBreak, 0, props)
    }
}

impl QuoteBlock {
    /// The encoding of this node as a document tree.
    pub open spec fn tree(&self) -> Tree {
        Tree::Node(
            NodeType::QuoteBlock,
            0,
            seq![
                (NodeProperty::Id, optional_text(self.id)),
                (NodeProperty::Cite, optional_text(self.cite)),
                (NodeProperty::Content, Tree::Array(trees_of(self.content@))),
            ],
        )
    }

    /// This node as a document value.
    pub fn to_value(&self) -> (r: Value)
        ensures
            r@ == self.tree(),
    {
        let props = vec![
            Property { name: NodeProperty::Id, value: optional_text_value(&self.id) },
            Property { name: NodeProperty::Cite, value: optional_text_value(&self.cite) },
            Property { name: NodeProperty::Content, value: array_value(&self.content) },
        ];
        proof {
            lemma_props_of(props@);
            assert(props_of(props@) =~= self.tree()->Node_2);
        }
        node_value(NodeType::QuoteBlock, 0, props)
    }
}

impl CodeError {
    /// The encoding of this node as a document tree.
    pub open spec fn tree(&self) -> Tree {
        Tree::Node(
            NodeType::CodeError,
            0,
            seq![
                (NodeProperty::Id, optional_text(self.id)),
                (NodeProperty::Message, Tree::Text(self.error_message@)),
                (NodeProperty::ErrorType, optional_text(self.error_type)),
                (NodeProperty::StackTrace, optional_text(self.stack_trace)),
            ],
        )
    }

    /// This node as a document value.
    pub fn to_value(&self) -> (r: Value)
        ensures
            r@ == self.tree(),
    {
        let props = vec![
            Property { name: NodeProperty::Id, value: optional_text_value(&self.id) },
            Property { name: NodeProperty::Message, value: Value::String(self.error_message.clone()) },
            Property { name: NodeProperty::ErrorType, value: optional_text_value(&self.error_type) },
            Property {
                name: NodeProperty::StackTrace,
                value: optional_text_value(&self.stack_trace),
            },
        ];
        proof {
            lemma_props_of(props@);
            assert(props_of(props@) =~= self.tree()->Node_2);
        }
        node_value(NodeType::CodeError, 0, props)
    }
}

impl DateValidator {
    /// A validator without limits.
    pub fn new() -> (r: DateValidator)
        ensures
            r.id is None,
            r.minimum is None,
            r.maximum is None,
    {
        DateValidator { id: None, minimum: None, maximum: None }
    }

    /// The encoding of this node as a document tree.
    pub open spec fn tree(&self) -> Tree {
        Tree::Node(
            NodeType::DateValidator,
            0,
            seq![
                (NodeProperty::Id, optional_text(self.id)),
                (NodeProperty::Minimum, optional_text(self.minimum)),
                (NodeProperty::Maximum, optional_text(self.maximum)),
            ],
        )
    }

    /// This node as a document value.
    pub fn to_value(&self) -> (r: Value)
        ensures
            r@ == self.tree(),
    {
        let props = vec![
            Property { name: NodeProperty::Id, value: optional_text_value(&self.id) },
            Property { name: NodeProperty::Minimum, value: optional_text_value(&self.minimum) },
            Property { name: NodeProperty::Maximum, value: optional_text_value(&self.maximum) },
        ];
        proof {
            lemma_props_of(props@);
            assert(props_of(props@) =~= self.tree()->Node_2);
        }
        node_value(NodeType::DateValidator, 0, props)
    }
}

impl Heading {
    /// A heading of `level` with `content`, without id or authors.
    pub fn new(level: i64, content: Vec<Inline>) -> (r: Heading)
        ensures
            r.level == level,
            r.content == content,
            r.id is None,
            r.options.authors is None,
    {
        Heading { id: None, level, content, options: HeadingOptions { authors: None } }
    }

    /// The encoding of this node as a document tree.
    pub open spec fn tree(&self) -> Tree {
        Tree::Node(
            NodeType::Heading,
            0,
            seq![
                (NodeProperty::Id, optional_text(self.id)),
                (NodeProperty::Level, Tree::Integer(self.level)),
                (NodeProperty::Content, Tree::Array(trees_of(self.content@))),
                (NodeProperty::Authors, optional_texts(self.options.authors)),
            ],
        )
    }

    /// This node as a document value.
    pub fn to_value(&self) -> (r: Value)
        ensures
            r@ == self.tree(),
    {
        let props = vec![
            Property { name: NodeProperty::Id, value: optional_text_value(&self.id) },
            Property { name: NodeProperty::Level, value: Value::Integer(self.level) },
            Property { name: NodeProperty::Content, value: array_value(&self.content) },
            Property {
                name: NodeProperty::Authors,
                value: optional_texts_value(&self.options.authors),
            },
        ];
        proof {
            lemma_props_of(props@);
            assert(props_of(props@) =~= self.tree()->Node_2);
        }
        node_value(NodeType::Heading, 0, props)
    }
}

impl InsertBlock {
    /// The type of this node.
    pub fn node_type(&self) -> (r: NodeType)
        ensures
            r == NodeType::InsertBlock,
    {
        NodeType::InsertBlock
    }

    /// The identifier of this node.
    pub fn node_id(&self) -> (r: NodeId)
        ensures
            r.node_type == NodeType::InsertBlock,
            r.uid == self.uid,
    {
        NodeId::new(NodeType::InsertBlock, self.uid)
    }

    /// A suggestion to insert `content`, with no other field set.
    pub fn new(content: Vec<Block>) -> (r: InsertBlock)
        ensures
            r.content == content,
            r.id is None,
            r.suggestion_status is None,
            r.authors is None,
            r.provenance is None,
            r.execution_duration is None,
            r.execution_ended is None,
            r.feedback is None,
            r.uid == 0,
    {
        InsertBlock {
            id: None,
            suggestion_status: None,
            authors: None,
            provenance: None,
            execution_duration: None,
            execution_ended: None,
            feedback: None,
            content,
            uid: 0,
        }
    }

    /// The encoding of this node as a document tree.
    pub open spec fn tree(&self) -> Tree {
        Tree::Node(
            NodeType::InsertBlock,
            self.uid,
            seq![
                (NodeProperty::Id, optional_text(self.id)),
                (NodeProperty::SuggestionStatus, optional_status(self.suggestion_status)),
                (NodeProperty::Authors, optional_authors(self.authors)),
                (NodeProperty::Provenance, optional_provenance(self.provenance)),
                (NodeProperty::ExecutionDuration, optional_duration(self.execution_duration)),
                (NodeProperty::ExecutionEnded, optional_timestamp(self.execution_ended)),
                (NodeProperty::Feedback, optional_text(self.feedback)),
                (NodeProperty::Content, Tree::Array(trees_of(self.content@))),
            ],
        )
    }

    /// This node as a document value.
    pub fn to_value(&self) -> (r: Value)
        ensures
            r@ == self.tree(),
    {
        let props = vec![
            Property { name: NodeProperty::Id, value: optional_text_value(&self.id) },
            Property {
                name: NodeProperty::SuggestionStatus,
                value: optional_status_value(self.suggestion_status),
            },
            Property { name: NodeProperty::Authors, value: optional_authors_value(&self.authors) },
            Property {
                name: NodeProperty::Provenance,
                value: optional_provenance_value(&self.provenance),
            },
            Property {
                name: NodeProperty::ExecutionDuration,
                value: optional_duration_value(&self.execution_duration),
            },
            Property {
                name: NodeProperty::ExecutionEnded,
                value: optional_timestamp_value(&self.execution_ended),
            },
            Property { name: NodeProperty::Feedback, value: optional_text_value(&self.feedback) },
            Property { name: NodeProperty::Content, value: array_value(&self.content) },
        ];
        proof {
            lemma_props_of(props@);
            assert(props_of(props@) =~= self.tree()->Node_2);
        }
        node_value(NodeType::InsertBlock, self.uid, props)
    }
}

impl Thing {
    /// The encoding of this node as a document tree.
    pub open spec fn tree(&self) -> Tree {
        Tree::Node(
            NodeType::Thing,
            0,
            seq![
                (NodeProperty::Id, optional_text(self.id)),
                (NodeProperty::AlternateNames, optional_texts(self.options.alternate_names)),
                (NodeProperty::Description, optional_values(self.options.description)),
                (NodeProperty::Name, optional_text(self.options.name)),
                (NodeProperty::Url, optional_text(self.options.url)),
            ],
        )
    }

    /// This node as a document value.
    pub fn to_value(&self) -> (r: Value)
        ensures
            r@ == self.tree(),
    {
        let props = vec![
            Property { name: NodeProperty::Id, value: optional_text_value(&self.id) },
            Property {
                name: NodeProperty::AlternateNames,
                value: optional_texts_value(&self.options.alternate_names),
            },
            Property {
                name: NodeProperty::Description,
                value: optional_values_value(&self.options.description),
            },
            Property { name: NodeProperty::Name, value: optional_text_value(&self.options.name) },
            Property { name: NodeProperty::Url, value: optional_text_value(&self.options.url) },
        ];
        proof {
            lemma_props_of(props@);
            assert(props_of(props@) =~= self.tree()->Node_2);
        }
        node_value(NodeType::Thing, 0, props)
    }
}

impl ArticleOptions {
    /// Options with no field set.
    pub fn new() -> (r: ArticleOptions)
        ensures
            r.alternate_names is None,
            r.description is None,
            r.name is None,
            r.url is None,
            r.keywords is None,
            r.genre is None,
            r.page_start is None,
            r.page_end is None,
            r.pagination is None,
    {
        ArticleOptions {
            alternate_names: None,
            description: None,
            name: None,
            url: None,
            keywords: None,
            genre: None,
            page_start: None,
            page_end: None,
            pagination: None,
        }
    }
}

impl Article {
    /// An article with `content`, with no other field set.
    pub fn new(content: Vec<Block>) -> (r: Article)
        ensures
            r.content == content,
            r.id is None,
            r.title is None,
            r.options.alternate_names is None,
            r.options.description is None,
            r.options.name is None,
            r.options.url is None,
            r.options.keywords is None,
            r.options.genre is None,
            r.options.page_start is None,
            r.options.page_end is None,
            r.options.pagination is None,
    {
        Article { id: None, title: None, content, options: ArticleOptions::new() }
    }

    /// The encoding of this node as a document tree.
    pub open spec fn tree(&self) -> Tree {
        Tree::Node(
            NodeType::Article,
            0,
            seq![
                (NodeProperty::Id, optional_text(self.id)),
                (NodeProperty::Title, optional_values(self.title)),
                (NodeProperty::Content, Tree::Array(trees_of(self.content@))),
                (NodeProperty::AlternateNames, optional_texts(self.options.alternate_names)),
                (NodeProperty::Description, optional_text(self.options.description)),
                (NodeProperty::Name, optional_text(self.options.name)),
                (NodeProperty::Url, optional_text(self.options.url)),
                (NodeProperty::Keywords, optional_texts(self.options.keywords)),
                (NodeProperty::Genre, optional_texts(self.options.genre)),
                (NodeProperty::PageStart, optional_page(self.options.page_start)),
                (NodeProperty::PageEnd, optional_page(self.options.page_end)),
                (NodeProperty::Pagination, optional_text(self.options.pagination)),
            ],
        )
    }

    /// This node as a document value.
    pub fn to_value(&self) -> (r: Value)
        ensures
            r@ == self.tree(),
    {
        let o = &self.options;
        let props = vec![
            Property { name: NodeProperty::Id, value: optional_text_value(&self.id) },
            Property { name: NodeProperty::Title, value: optional_values_value(&self.title) },
            Property { name: NodeProperty::Content, value: array_value(&self.content) },
            Property {
                name: NodeProperty::AlternateNames,
                value: optional_texts_value(&o.alternate_names),
            },
            Property { name: NodeProperty::Description, value: optional_text_value(&o.description) },
            Property { name: NodeProperty::Name, value: optional_text_value(&o.name) },
            Property { name: NodeProperty::Url, value: optional_text_value(&o.url) },
            Property { name: NodeProperty::Keywords, value: optional_texts_value(&o.keywords) },
            Property { name: NodeProperty::Genre, value: optional_texts_value(&o.genre) },
            Property { name: NodeProperty::PageStart, value: optional_page_value(&o.page_start) },
            Property { name: NodeProperty::PageEnd, value: optional_page_value(&o.page_end) },
            Property { name: NodeProperty::Pagination, value: optional_text_value(&o.pagination) },
        ];
        proof {
            lemma_props_of(props@);
            assert(props_of(props@) =~= self.tree()->Node_2);
        }
        node_value(NodeType::Article, 0, props)
    }
}

/// Whether a value is text or nothing.
pub open spec fn is_optional_text(t: Tree) -> bool {
    t is Null || t is Text
}

/// Whether a value is an array of texts, or nothing.
pub open spec fn is_optional_texts(t: Tree) -> bool {
    match t {
        Tree::Null => true,
        Tree::Array(items) => forall|i: int| 0 <= i < items.len() ==> (#[trigger] items[i]) is Text,
        _ => false,
    }
}

/// The optional text that a value holds.
fn optional_text_from(v: &Value) -> (r: Result<Option<String>, PatchError>)
    ensures
        r is Ok <==> is_optional_text(v@),
        r matches Ok(o) ==> optional_text(o) == v@,
        r is Err ==> r == Err::<Option<String>, PatchError>(PatchError::InvalidValueConversion),
{
    match v {
        Value::Null => Ok(None),
        Value::String(s) => Ok(Some(s.clone())),
        _ => Err(PatchError::InvalidValueConversion),
    }
}

/// The optional list of texts that a value holds.
fn optional_texts_from(v: &Value) -> (r: Result<Option<Vec<String>>, PatchError>)
    ensures
        r is Ok <==> is_optional_texts(v@),
        r matches Ok(o) ==> optional_texts(o) == v@,
        r is Err ==> r == Err::<Option<Vec<String>>, PatchError>(
            PatchError::InvalidValueConversion,
        ),
{
    match v {
        Value::Null => Ok(None),
        Value::Array(items) => {
            proof {
                lemma_trees_of(items@);
            }
            let mut out: Vec<String> = Vec::new();
            let mut i: usize = 0;
            while i < items.len()
                invariant
                    i <= items@.len(),
                    out@.len() == i,
                    v@ == Tree::Array(trees_of(items@)),
                    trees_of(items@).len() == items@.len(),
                    forall|j: int|
                        0 <= j < items@.len() ==> #[trigger] trees_of(items@)[j] == tree_of(
                            &items@[j],
                        ),
                    forall|j: int| 0 <= j < i ==> trees_of(items@)[j] == Tree::Text(#[trigger] out@[j]@),
                decreases items@.len() - i,
            {
                match &items[i] {
                    Value::String(s) => {
                        out.push(s.clone());
                    },
                    _ => {
                        assert(!(trees_of(items@)[i as int] is Text));
                        return Err(PatchError::InvalidValueConversion);
                    },
                }
                i = i + 1;
            }
            assert(texts_tree(out@)->Array_0 =~= trees_of(items@));
            assert forall|j: int| 0 <= j < trees_of(items@).len() implies (#[trigger] trees_of(
                items@,
            )[j]) is Text by {
                assert(trees_of(items@)[j] == Tree::Text(out@[j]@));
            }
            Ok(Some(out))
        },
        _ => Err(PatchError::InvalidValueConversion),
    }
}

/// The array content that a value holds.
fn content_from(v: &Value) -> (r: Result<Vec<Value>, PatchError>)
    ensures
        r is Ok <==> v@ is Array,
        r matches Ok(c) ==> Tree::Array(trees_of(c@)) == v@,
        r is Err ==> r == Err::<Vec<Value>, PatchError>(PatchError::InvalidValueConversion),
{
    match v {
        Value::Array(items) => Ok(clone_values(items)),
        _ => Err(PatchError::InvalidValueConversion),
    }
}

/// Whether a value has the shape of the encoding of a node with an id
/// and content, of type `ty`.
pub open spec fn marked_shape(ty: NodeType, t: Tree) -> bool {
    match t {
        Tree::Node(nt, uid, ps) => nt == ty && uid == 0 && ps.len() == 2 && ps[0].0
            == NodeProperty::Id && is_optional_text(ps[0].1) && ps[1].0 == NodeProperty::Content
            && ps[1].1 is Array,
        _ => false,
    }
}

/// The id and content of a value of the shape of `marked_tree(ty, ..)`.
fn marked_from(ty: NodeType, v: &Value) -> (r: Result<(Option<String>, Vec<Value>), PatchError>)
    ensures
        r is Ok <==> marked_shape(ty, v@),
        r matches Ok((id, content)) ==> marked_tree(ty, id, content@) == v@,
        r is Err ==> r == Err::<(Option<String>, Vec<Value>), PatchError>(
            PatchError::InvalidValueConversion,
        ),
{
    match v {
        Value::Node(n) => {
            proof {
                lemma_props_of(n.properties@);
            }
            if n.node_type != ty || n.uid != 0 || n.properties.len() != 2 {
                return Err(PatchError::InvalidValueConversion);
            }
            if n.properties[0].name != NodeProperty::Id || n.properties[1].name
                != NodeProperty::Content {
                return Err(PatchError::InvalidValueConversion);
            }
            let id = optional_text_from(&n.properties[0].value)?;
            let content = content_from(&n.properties[1].value)?;
            assert(marked_tree(ty, id, content@)->Node_2 =~= props_of(n.properties@));
            Ok((id, content))
        },
        _ => Err(PatchError::InvalidValueConversion),
    }
}

impl Emphasis {
    /// The node that a value encodes; `InvalidValueConversion` where the
    /// value does not have the shape of the encoding.
    pub fn from_value(v: &Value) -> (r: Result<Emphasis, PatchError>)
        ensures
            r is Ok <==> marked_shape(NodeType::Emphasis, v@),
            r matches Ok(e) ==> e.tree() == v@,
            r is Err ==> r == Err::<Emphasis, PatchError>(PatchError::InvalidValueConversion),
    {
        let (id, content) = marked_from(NodeType::Emphasis, v)?;
        Ok(Emphasis { id, content })
    }
}

impl Subscript {
    /// The node that a value encodes; `InvalidValueConversion` where the
    /// value does not have the shape of the encoding.
    pub fn from_value(v: &Value) -> (r: Result<Subscript, PatchError>)
        ensures
            r is Ok <==> marked_shape(NodeType::Subscript, v@),
            r matches Ok(e) ==> e.tree() == v@,
            r is Err ==> r == Err::<Subscript, PatchError>(PatchError::InvalidValueConversion),
    {
        let (id, content) = marked_from(NodeType::Subscript, v)?;
        Ok(Subscript { id, content })
    }
}

impl Superscript {
    /// The node that a value encodes; `InvalidValueConversion` where the
    /// value does not have the shape of the encoding.
    pub fn from_value(v: &Value) -> (r: Result<Superscript, PatchError>)
        ensures
            r is Ok <==> marked_shape(NodeType::Superscript, v@),
            r matches Ok(e) ==> e.tree() == v@,
            r is Err ==> r == Err::<Superscript, PatchError>(PatchError::InvalidValueConversion),
    {
        let (id, content) = marked_from(NodeType::Superscript, v)?;
        Ok(Superscript { id, content })
    }
}

/// Whether a value has the shape of the encoding of a heading.
pub open spec fn heading_shape(t: Tree) -> bool {
    match t {
        Tree::Node(nt, uid, ps) => nt == NodeType::Heading && uid == 0 && ps.len() == 4 && ps[0].0
            == NodeProperty::Id && is_optional_text(ps[0].1) && ps[1].0 == NodeProperty::Level
            && ps[1].1 is Integer && ps[2].0 == NodeProperty::Content && ps[2].1 is Array
            && ps[3].0 == NodeProperty::Authors && is_optional_texts(ps[3].1),
        _ => false,
    }
}

impl Heading {
    /// The heading that a value encodes; `InvalidValueConversion` where the
    /// value does not have the shape of the encoding.
    pub fn from_value(v: &Value) -> (r: Result<Heading, PatchError>)
        ensures
            r is Ok <==> heading_shape(v@),
            r matches Ok(h) ==> h.tree() == v@,
            r is Err ==> r == Err::<Heading, PatchError>(PatchError::InvalidValueConversion),
    {
        match v {
            Value::Node(n) => {
                proof {
                    lemma_props_of(n.properties@);
                }
                if n.node_type != NodeType::Heading || n.uid != 0 || n.properties.len() != 4 {
                    return Err(PatchError::InvalidValueConversion);
                }
                let ps = &n.properties;
                if ps[0].name != NodeProperty::Id || ps[1].name != NodeProperty::Level
                    || ps[2].name != NodeProperty::Content || ps[3].name
                    != NodeProperty::Authors {
                    return Err(PatchError::InvalidValueConversion);
                }
                let id = optional_text_from(&ps[0].value)?;
                let level = match &ps[1].value {
                    Value::Integer(l) => *l,
                    _ => return Err(PatchError::InvalidValueConversion),
                };
                let content = content_from(&ps[2].value)?;
                let authors = optional_texts_from(&ps[3].value)?;
                let h = Heading { id, level, content, options: HeadingOptions { authors } };
                assert(h.tree()->Node_2 =~= props_of(n.properties@));
                Ok(h)
            },
            _ => Err(PatchError::InvalidValueConversion),
        }
    }
}

/// A heading's value converts back to a heading with the same encoding:
/// `from_value` undoes `to_value`.
pub proof fn law_heading_value_round_trip(h: Heading)
    ensures
        heading_shape(h.tree()),
{
    match h.options.authors {
        Some(v) => {
            let items = texts_tree(v@)->Array_0;
            assert forall|i: int| 0 <= i < items.len() implies (#[trigger] items[i]) is Text by {}
        },
        None => {},
    }
}

/// A marked node's value converts back to a node with the same encoding.
pub proof fn law_marked_value_round_trip(ty: NodeType, id: Option<String>, content: Seq<Value>)
    ensures
        marked_shape(ty, marked_tree(ty, id, content)),
{
}

} // verus!
