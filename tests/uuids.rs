use regex::Regex;
use stencila::uuids::{generate, Family};

#[test]
fn test_node_id() {
    let id = generate(Family::Node);

    assert_eq!(id.len(), 23);

    let re = Regex::new(r"no\.[0-9a-zA-Z]{20}").unwrap();
    assert!(re.is_match(&id));
}

#[test]
fn test_project_id() {
    let id = generate(Family::Project);

    assert_eq!(id.len(), 23);

    let re = Regex::new(r"pr\.[0-9a-z]{20}").unwrap();
    assert!(re.is_match(&id));
}

#[test]
fn family_prefixes() {
    assert_eq!(Family::Node.prefix(), "no");
    assert_eq!(Family::Document.prefix(), "do");
    assert_eq!(Family::File.prefix(), "fi");
    assert_eq!(Family::Project.prefix(), "pr");
    assert_eq!(Family::Session.prefix(), "se");
}

#[test]
fn ids_differ() {
    let a = generate(Family::Session);
    let b = generate(Family::Session);
    assert!(a.starts_with("se."));
    assert_ne!(a, b);
}
