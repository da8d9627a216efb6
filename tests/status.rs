use stencila::node_type::NodeType;
use stencila::schema::{Author, AuthorRoleName};
use stencila::status::{
    author_names_exec, join_texts, status_details, statuses, Execution, ExecutionStatus,
    StatusNode, TextRange,
};

#[test]
fn pending_and_running_are_named() {
    assert_eq!(
        status_details(NodeType::MathBlock, ExecutionStatus::Pending, None, None, None),
        Some("Pending".to_string())
    );
    assert_eq!(
        status_details(NodeType::MathBlock, ExecutionStatus::Running, Some("2s"), None, None),
        Some("Running".to_string())
    );
}

#[test]
fn success_details() {
    let authors = vec!["Ada Lovelace".to_string(), "Calc v1".to_string()];
    assert_eq!(
        status_details(
            NodeType::StyledBlock,
            ExecutionStatus::Succeeded,
            Some("2 seconds"),
            Some("3 minutes ago"),
            Some(&authors)
        ),
        Some("Succeeded in 2 seconds, 3 minutes ago, by Ada Lovelace, Calc v1".to_string())
    );
    assert_eq!(
        status_details(NodeType::InsertBlock, ExecutionStatus::Succeeded, None, Some("now ago"), None),
        Some("Generated, just now".to_string())
    );
    assert_eq!(
        status_details(NodeType::MathInline, ExecutionStatus::Succeeded, None, None, None),
        Some("Succeeded".to_string())
    );
}

#[test]
fn failures_are_not_statuses() {
    for status in [ExecutionStatus::Warning, ExecutionStatus::Error, ExecutionStatus::Exception] {
        assert_eq!(status_details(NodeType::MathInline, status, None, None, None), None);
    }
}

#[test]
fn names_are_joined() {
    assert_eq!(join_texts(&vec![], ", "), "");
    assert_eq!(join_texts(&vec!["a".to_string()], ", "), "a");
    assert_eq!(join_texts(&vec!["a".to_string(), "b".to_string(), "c".to_string()], ", "), "a, b, c");
}

fn s(x: &str) -> String {
    x.to_string()
}

fn range(line: u32) -> TextRange {
    TextRange { start_line: line, start_column: 0, end_line: line, end_column: 4 }
}

fn node(line: u32, execution: Option<Execution>, children: Vec<StatusNode>) -> StatusNode {
    StatusNode { node_type: NodeType::CodeChunk, range: range(line), execution, children }
}

fn ran(status: ExecutionStatus) -> Option<Execution> {
    Some(Execution { status, duration: None, ended: None, authors: None })
}

#[test]
fn author_names_follow_their_kind() {
    let authors = vec![
        Author::Person { given_names: vec![s("Ada"), s("A.")], family_names: vec![s("Lovelace")] },
        Author::Organization { name: None, legal_name: Some(s("Acme Ltd")) },
        Author::Organization { name: None, legal_name: None },
        Author::SoftwareApplication { application_name: s("Calc"), version: Some(s("1.2")) },
        Author::AuthorRole {
            role_name: AuthorRoleName::Writer,
            author: Some(Box::new(Author::Organization { name: Some(s("Hidden")), legal_name: None })),
        },
        Author::AuthorRole {
            role_name: AuthorRoleName::Generator,
            author: Some(Box::new(Author::SoftwareApplication { application_name: s("Bot"), version: None })),
        },
    ];
    assert_eq!(
        author_names_exec(&authors),
        vec![s("Ada A. Lovelace"), s("Acme Ltd"), s("Unnamed Org"), s("Calc v1.2"), s("Bot")]
    );
}

#[test]
fn statuses_walk_in_pre_order() {
    let doc = node(
        0,
        None,
        vec![
            node(1, ran(ExecutionStatus::Running), vec![node(2, ran(ExecutionStatus::Pending), vec![])]),
            node(3, ran(ExecutionStatus::Error), vec![node(4, ran(ExecutionStatus::Pending), vec![])]),
            node(
                5,
                Some(Execution {
                    status: ExecutionStatus::Succeeded,
                    duration: Some(s("1 second")),
                    ended: Some(s("now ago")),
                    authors: Some(vec![Author::Person { given_names: vec![s("Ada")], family_names: vec![] }]),
                }),
                vec![],
            ),
        ],
    );
    let found = statuses(&doc);
    let lines: Vec<u32> = found.iter().map(|status| status.range.start_line).collect();
    assert_eq!(lines, vec![1, 2, 4, 5]);
    assert_eq!(found[0].details, "Running");
    assert_eq!(found[2].details, "Pending");
    assert_eq!(found[3].details, "Succeeded in 1 second, just now, by Ada");
    assert_eq!(found[3].status, ExecutionStatus::Succeeded);
}
