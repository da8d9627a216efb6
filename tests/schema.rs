use stencila::address::{resolve_address, Slot};
use stencila::codec::{CodecStatus, CodecSupport, Format, JatsCodec};
use stencila::config::json_pointer;
use stencila::differ::diff;
use stencila::node_property::NodeProperty;
use stencila::node_type::NodeType;
use stencila::operation::PatchError;
use stencila::schema::{
    Article, DateValidator, Emphasis, Heading, InsertBlock, IntegerOrString, QuoteBlock,
    Subscript, SuggestionStatus, Superscript, ThematicBreak,
};
use stencila::value::{clone_value, values_equal, Value};

fn text(s: &str) -> Value {
    Value::String(s.to_string())
}

#[test]
fn constructors_set_only_their_arguments() {
    let h = Heading::new(2, vec![text("Intro")]);
    assert_eq!(h.level, 2);
    assert_eq!(h.content.len(), 1);
    assert!(h.id.is_none());
    assert!(h.options.authors.is_none());

    let a = Article::new(vec![]);
    assert!(a.title.is_none());
    assert!(a.options.page_start.is_none());

    let s = Superscript::new(vec![text("2")]);
    assert!(s.id.is_none());

    let d = DateValidator::new();
    assert!(d.minimum.is_none() && d.maximum.is_none());

    let i = InsertBlock::new(vec![]);
    assert_eq!(i.node_type(), NodeType::InsertBlock);
    assert_eq!(i.node_id().uid, 0);
    assert_eq!(i.node_id().node_type, NodeType::InsertBlock);
}

#[test]
fn typed_nodes_encode_their_fields() {
    let h = Heading::new(3, vec![text("Title")]);
    let v = h.to_value();
    let level = resolve_address(&v, &vec![Slot::Property(NodeProperty::Level)]).unwrap();
    assert!(values_equal(&level, &Value::Integer(3)));
    let first = resolve_address(
        &v,
        &vec![Slot::Property(NodeProperty::Content), Slot::Index(0)],
    )
    .unwrap();
    assert!(values_equal(&first, &text("Title")));

    let mut a = Article::new(vec![ThematicBreak { id: None }.to_value()]);
    a.options.page_start = Some(IntegerOrString::Integer(1));
    a.options.page_end = Some(IntegerOrString::String("MXC".to_string()));
    let v = a.to_value();
    let end = resolve_address(&v, &vec![Slot::Property(NodeProperty::PageEnd)]).unwrap();
    assert!(values_equal(&end, &text("MXC")));

    let mut i = InsertBlock::new(vec![]);
    i.suggestion_status = Some(SuggestionStatus::Accepted);
    i.uid = 7;
    match i.to_value() {
        Value::Node(n) => {
            assert_eq!(n.uid, 7);
            assert_eq!(n.node_type, NodeType::InsertBlock);
        }
        _ => panic!("expected a node"),
    }
}

#[test]
fn typed_documents_round_trip_through_diff() {
    let old = Article::new(vec![
        Heading::new(1, vec![text("One")]).to_value(),
        QuoteBlock { id: None, cite: None, content: vec![] }.to_value(),
    ])
    .to_value();
    let new = Article::new(vec![
        Heading::new(2, vec![Emphasis { id: None, content: vec![text("One")] }.to_value()]).to_value(),
    ])
    .to_value();
    let patch = diff(&old, &new);
    let mut x = clone_value(&old);
    x.apply_patch(&patch).unwrap();
    assert!(values_equal(&x, &new));
}

#[test]
fn json_pointers() {
    assert_eq!(json_pointer("upgrade.auto"), "/upgrade/auto");
    assert_eq!(json_pointer("/serve/port"), "/serve/port");
    assert_eq!(json_pointer(".a"), "/a");
    assert_eq!(json_pointer(""), "/");
}

#[test]
fn jats_support() {
    let c = JatsCodec;
    assert_eq!(c.name(), "jats");
    assert_eq!(c.status(), CodecStatus::UnderDevelopment);
    assert_eq!(c.supports_from_format(Format::Jats), CodecSupport::LowLoss);
    assert_eq!(c.supports_to_format(Format::Markdown), CodecSupport::NoSupport);
    assert_eq!(c.supports_from_type(NodeType::Paragraph), CodecSupport::NoLoss);
    assert_eq!(c.supports_from_type(NodeType::Article), CodecSupport::LowLoss);
    assert_eq!(c.supports_from_type(NodeType::Heading), CodecSupport::NoSupport);
    assert_eq!(c.supports_to_type(NodeType::Heading), CodecSupport::NoLoss);
    assert_eq!(c.supports_to_type(NodeType::Table), CodecSupport::LowLoss);
    assert_eq!(c.supports_to_type(NodeType::StyledBlock), CodecSupport::NoSupport);
}

#[test]
fn typed_nodes_convert_back_from_values() {
    let mut h = Heading::new(4, vec![text("Results")]);
    h.options.authors = Some(vec!["Ada".to_string()]);
    let back = Heading::from_value(&h.to_value()).unwrap();
    assert_eq!(back.level, 4);
    assert_eq!(back.options.authors, Some(vec!["Ada".to_string()]));
    assert!(values_equal(&back.to_value(), &h.to_value()));

    let e = Emphasis { id: Some("e1".to_string()), content: vec![text("x")] };
    let back = Emphasis::from_value(&e.to_value()).unwrap();
    assert_eq!(back.id.as_deref(), Some("e1"));

    assert_eq!(Subscript::from_value(&e.to_value()).err(), Some(PatchError::InvalidValueConversion));
    assert_eq!(Heading::from_value(&text("x")).err(), Some(PatchError::InvalidValueConversion));
    let s = Superscript::new(vec![]);
    assert!(Superscript::from_value(&s.to_value()).is_ok());
}

#[test]
fn reset_sections() {
    use_reset();
}

fn use_reset() {
    use_sections();
    let stored = || stencila::config::Config { serve: 1, upgrade: "weekly" };
    let defaults = || stencila::config::Config { serve: 0, upgrade: "daily" };
    let all = stencila::config::reset(stored(), defaults(), "all").unwrap();
    assert_eq!((all.serve, all.upgrade), (0, "daily"));
    let serve = stencila::config::reset(stored(), defaults(), "serve").unwrap();
    assert_eq!((serve.serve, serve.upgrade), (0, "weekly"));
    let upgrade = stencila::config::reset(stored(), defaults(), "upgrade").unwrap();
    assert_eq!((upgrade.serve, upgrade.upgrade), (1, "daily"));
    let e = stencila::config::reset(stored(), defaults(), "colour").unwrap_err();
    assert_eq!(e.message(), "No configuration property named: colour");
}

fn use_sections() {
    assert_eq!(stencila::config::section_to_reset("all").unwrap(), stencila::config::ConfigSection::All);
    assert_eq!(stencila::config::section_to_reset("serve").unwrap(), stencila::config::ConfigSection::Serve);
    assert_eq!(stencila::config::section_to_reset("upgrade").unwrap(), stencila::config::ConfigSection::Upgrade);
    assert!(stencila::config::section_to_reset("x").is_err());
}

#[test]
fn insert_block_encodes_authors_and_provenance() {
    use_insert_block();
}

fn use_insert_block() {
    let mut i = InsertBlock::new(vec![]);
    assert!(i.provenance.is_none() && i.execution_duration.is_none() && i.execution_ended.is_none());
    i.authors = Some(vec![stencila::schema::Author::AuthorRole {
        role_name: stencila::schema::AuthorRoleName::Generator,
        author: Some(Box::new(stencila::schema::Author::SoftwareApplication {
            application_name: "Bot".to_string(),
            version: None,
        })),
    }]);
    i.provenance = Some(vec![stencila::schema::ProvenanceCount {
        provenance_category: "Mw".to_string(),
        character_count: 12,
        character_percent: Some(100),
    }]);
    i.execution_duration = Some(stencila::schema::Duration { value: 250, time_unit: "Millisecond".to_string() });
    let v = i.to_value();
    let role = resolve_address(
        &v,
        &vec![Slot::Property(NodeProperty::Authors), Slot::Index(0), Slot::Property(NodeProperty::RoleName)],
    )
    .unwrap();
    assert!(values_equal(&role, &text("Generator")));
    let name = resolve_address(
        &v,
        &vec![
            Slot::Property(NodeProperty::Authors),
            Slot::Index(0),
            Slot::Property(NodeProperty::Author),
            Slot::Property(NodeProperty::Name),
        ],
    )
    .unwrap();
    assert!(values_equal(&name, &text("Bot")));
    let count = resolve_address(
        &v,
        &vec![
            Slot::Property(NodeProperty::Provenance),
            Slot::Index(0),
            Slot::Property(NodeProperty::CharacterCount),
        ],
    )
    .unwrap();
    assert!(values_equal(&count, &Value::Integer(12)));
    let unit = resolve_address(
        &v,
        &vec![Slot::Property(NodeProperty::ExecutionDuration), Slot::Property(NodeProperty::TimeUnit)],
    )
    .unwrap();
    assert!(values_equal(&unit, &text("Millisecond")));
    let ended = resolve_address(&v, &vec![Slot::Property(NodeProperty::ExecutionEnded)]).unwrap();
    assert!(values_equal(&ended, &Value::Null));
}
