//! Execution status of nodes, and the status notifications that editors show.

use vstd::prelude::*;

use crate::node_type::NodeType;
use crate::schema::{Author, AuthorRoleName};
use crate::text::{same_text, texts};

verus! {

/// The execution status of a node: `Pending`, then `Running`, then one of
/// the outcomes.
#[derive(Debug, Clone, Copy, PartialEq, Eq, Structural)]
pub enum ExecutionStatus {
    Pending,
    Running,
    Succeeded,
    Warning,
    Error,
    Exception,
}

/// The texts joined, with `sep` between each two.
pub open spec fn join(parts: Seq<Seq<char>>, sep: Seq<char>) -> Seq<char>
    decreases parts.len(),
{
    if parts.len() == 0 {
        Seq::empty()
    } else if parts.len() == 1 {
        parts[0]
    } else {
        join(parts.drop_last(), sep) + sep + parts.last()
    }
}

/// Whether a node type is a suggestion that software generates.
pub open spec fn is_generated(ty: NodeType) -> bool {
    ty == NodeType::InsertBlock || ty == NodeType::InsertInline || ty == NodeType::ReplaceBlock
        || ty == NodeType::ReplaceInline
}

/// The details of a status notification for a node of type `ty`: the
/// status itself while pending or running; for a success, "Succeeded" (or
/// "Generated" for suggestions), then how long it took, when it ended, and
/// by whom. Other outcomes are not notified as statuses (they are reported
/// as diagnostics).
pub open spec fn status_text(
    ty: NodeType,
    status: ExecutionStatus,
    duration: Option<Seq<char>>,
    ended: Option<Seq<char>>,
    authors: Option<Seq<Seq<char>>>,
) -> Option<Seq<char>> {
    match status {
        ExecutionStatus::Pending => Some("Pending"@),
        ExecutionStatus::Running => Some("Running"@),
        ExecutionStatus::Succeeded => Some(
            (if is_generated(ty) {
                "Generated"@
            } else {
                "Succeeded"@
            }) + match duration {
                Some(d) => " in "@ + d,
                None => Seq::empty(),
            } + match ended {
                Some(e) => if e == "now ago"@ {
                    ", just now"@
                } else {
                    ", "@ + e
                },
                None => Seq::empty(),
            } + match authors {
                Some(a) => ", by "@ + join(a, ", "@),
                None => Seq::empty(),
            },
        ),
        _ => None,
    }
}

/// The names joined with `sep`.
pub fn join_texts(names: &Vec<String>, sep: &str) -> (r: String)
    ensures
        r@ == join(texts(names@), sep@),
{
    let ghost parts = texts(names@);
    let mut out = String::new();
    if names.len() == 0 {
        return out;
    }
    out.append(names[0].as_str());
    let mut i: usize = 1;
    assert(parts.take(1).drop_last() =~= Seq::<Seq<char>>::empty());
    assert(out@ =~= join(parts.take(1), sep@));
    while i < names.len()
        invariant
            1 <= i <= names@.len(),
            parts == texts(names@),
            out@ == join(parts.take(i as int), sep@),
        decreases names@.len() - i,
    {
        out.append(sep);
        out.append(names[i].as_str());
        proof {
            let next = parts.take(i + 1);
            assert(next.drop_last() =~= parts.take(i as int));
            assert(next.last() == names@[i as int]@);
        }
        i = i + 1;
    }
    assert(parts.take(names@.len() as int) =~= parts);
    out
}

/// The details of the status notification of a node of type `node_type`,
/// given the texts of its duration and end time, and its authors' names;
/// `None` where the status is not notified.
pub fn status_details(
    node_type: NodeType,
    status: ExecutionStatus,
    duration: Option<&str>,
    ended: Option<&str>,
    authors: Option<&Vec<String>>,
) -> (r: Option<String>)
    ensures
        r matches Some(t) ==> status_text(
            node_type,
            status,
            match duration {
                Some(d) => Some(d@),
                None => None,
            },
            match ended {
                Some(e) => Some(e@),
                None => None,
            },
            match authors {
                Some(a) => Some(texts(a@)),
                None => None,
            },
        ) == Some(t@),
        r is None ==> status_text(
            node_type,
            status,
            match duration {
                Some(d) => Some(d@),
                None => None,
            },
            match ended {
                Some(e) => Some(e@),
                None => None,
            },
            match authors {
                Some(a) => Some(texts(a@)),
                None => None,
            },
        ) is None,
{
    match status {
        ExecutionStatus::Pending => return Some("Pending".to_owned()),
        ExecutionStatus::Running => return Some("Running".to_owned()),
        ExecutionStatus::Succeeded => {},
        _ => return None,
    }
    let generated = match node_type {
        NodeType::InsertBlock | NodeType::InsertInline | NodeType::ReplaceBlock
        | NodeType::ReplaceInline => true,
        _ => false,
    };
    let mut out = if generated {
        "Generated".to_owned()
    } else {
        "Succeeded".to_owned()
    };
    let ghost head = out@;
    match duration {
        Some(d) => {
            out.append(" in ");
            out.append(d);
        },
        None => {},
    }
    let ghost with_duration = out@;
    match ended {
        Some(e) => {
            if same_text(e, "now ago") {
                out.append(", just now");
            } else {
                out.append(", ");
                out.append(e);
            }
        },
        None => {},
    }
    let ghost with_ended = out@;
    match authors {
        Some(a) => {
            out.append(", by ");
            let names = join_texts(a, ", ");
            out.append(names.as_str());
        },
        None => {},
    }
    proof {
        let dpart: Seq<char> = match duration {
            Some(d) => " in "@ + d@,
            None => Seq::empty(),
        };
        let epart: Seq<char> = match ended {
            Some(e) => if e@ == "now ago"@ {
                ", just now"@
            } else {
                ", "@ + e@
            },
            None => Seq::empty(),
        };
        let apart: Seq<char> = match authors {
            Some(a) => ", by "@ + join(texts(a@), ", "@),
            None => Seq::empty(),
        };
        assert(with_duration =~= head + dpart);
        assert(with_ended =~= head + dpart + epart);
        assert(out@ =~= head + dpart + epart + apart);
    }
    Some(out)
}

/// The author to show for an author of a success: a role shows only when
/// it is the generator's, as the author in that role.
pub open spec fn shown_author(a: Author) -> Option<Author> {
    match a {
        Author::AuthorRole { role_name, author } => if role_name == AuthorRoleName::Generator {
            match author {
                Some(b) => Some(*b),
                None => None,
            }
        } else {
            None
        },
        _ => Some(a),
    }
}

/// The name shown for an author: a person's given then family names,
/// separated by spaces; an organization's name, else its legal name, else
/// "Unnamed Org"; an application's name and " v" with its version; nothing
/// for a role.
pub open spec fn author_name(a: Author) -> Seq<char> {
    match a {
        Author::Person { given_names, family_names } => join(
            texts(given_names@) + texts(family_names@),
            " "@,
        ),
        Author::Organization { name, legal_name } => match name {
            Some(n) => n@,
            None => match legal_name {
                Some(l) => l@,
                None => "Unnamed Org"@,
            },
        },
        Author::SoftwareApplication { application_name, version } => application_name@ + match version {
            Some(v) => " v"@ + v@,
            None => Seq::empty(),
        },
        Author::AuthorRole { .. } => Seq::empty(),
    }
}

/// The names shown for a list of authors, in order.
pub open spec fn author_names(authors: Seq<Author>) -> Seq<Seq<char>>
    decreases authors.len(),
{
    if authors.len() == 0 {
        Seq::empty()
    } else {
        author_names(authors.drop_last()) + match shown_author(authors.last()) {
            Some(a) => seq![author_name(a)],
            None => Seq::empty(),
        }
    }
}

fn author_name_exec(a: &Author) -> (r: String)
    ensures
        r@ == author_name(*a),
{
    match a {
        Author::Person { given_names, family_names } => {
            let mut all: Vec<String> = Vec::new();
            let mut i: usize = 0;
            while i < given_names.len()
                invariant
                    i <= given_names@.len(),
                    texts(all@) == texts(given_names@).take(i as int),
                decreases given_names@.len() - i,
            {
                let ghost prev = all@;
                let c = given_names[i].clone();
                all.push(c);
                assert(all@ == prev.push(c));
                assert(texts(all@) =~= texts(prev).push(given_names@[i as int]@));
                assert(texts(all@) =~= texts(given_names@).take(i + 1));
                i = i + 1;
            }
            let mut j: usize = 0;
            assert(texts(given_names@).take(given_names@.len() as int) =~= texts(given_names@));
            while j < family_names.len()
                invariant
                    j <= family_names@.len(),
                    texts(all@) == texts(given_names@) + texts(family_names@).take(j as int),
                decreases family_names@.len() - j,
            {
                let ghost prev = all@;
                let c = family_names[j].clone();
                all.push(c);
                assert(all@ == prev.push(c));
                assert(texts(all@) =~= texts(prev).push(family_names@[j as int]@));
                assert(texts(all@) =~= texts(given_names@) + texts(family_names@).take(j + 1));
                j = j + 1;
            }
            assert(texts(family_names@).take(family_names@.len() as int) =~= texts(family_names@));
            join_texts(&all, " ")
        },
        Author::Organization { name, legal_name } => match name {
            Some(n) => n.clone(),
            None => match legal_name {
                Some(l) => l.clone(),
                None => "Unnamed Org".to_owned(),
            },
        },
        Author::SoftwareApplication { application_name, version } => match version {
            Some(v) => application_name.clone().concat(" v").concat(v.as_str()),
            None => {
                let r = application_name.clone();
                assert(r@ =~= application_name@ + Seq::<char>::empty());
                r
            },
        },
        Author::AuthorRole { .. } => String::new(),
    }
}

/// The names shown for a list of authors, in order.
pub fn author_names_exec(authors: &Vec<Author>) -> (r: Vec<String>)
    ensures
        texts(r@) == author_names(authors@),
{
    let mut out: Vec<String> = Vec::new();
    let mut i: usize = 0;
    assert(authors@.take(0) =~= Seq::<Author>::empty());
    while i < authors.len()
        invariant
            i <= authors@.len(),
            texts(out@) == author_names(authors@.take(i as int)),
        decreases authors@.len() - i,
    {
        let ghost prev = out@;
        proof {
            let next = authors@.take(i + 1);
            assert(next.drop_last() =~= authors@.take(i as int));
        }
        match &authors[i] {
            Author::AuthorRole { role_name, author } => {
                if *role_name == AuthorRoleName::Generator {
                    match author {
                        Some(b) => {
                            out.push(author_name_exec(&**b));
                            assert(texts(out@) =~= texts(prev).push(author_name(**b)));
                        },
                        None => {},
                    }
                }
            },
            other => {
                out.push(author_name_exec(other));
                assert(texts(out@) =~= texts(prev).push(author_name(*other)));
            },
        }
        proof {
            assert(texts(out@) =~= author_names(authors@.take(i + 1)));
        }
        i = i + 1;
    }
    assert(authors@.take(authors@.len() as int) =~= authors@);
    out
}

/// A span of source text: start and end line and column.
#[derive(Debug, Clone, Copy, PartialEq, Eq, Structural)]
pub struct TextRange {
    pub start_line: u32,
    pub start_column: u32,
    pub end_line: u32,
    pub end_column: u32,
}

/// What is known of a node's last execution. Times come as the text that
/// an editor shows (such as "2 seconds" or "now ago").
#[derive(Debug)]
pub struct Execution {
    pub status: ExecutionStatus,
    pub duration: Option<String>,
    pub ended: Option<String>,
    pub authors: Option<Vec<Author>>,
}

/// A node of a text document, as an editor sees it: its type, range,
/// execution, and children.
#[derive(Debug)]
pub struct StatusNode {
    pub node_type: NodeType,
    pub range: TextRange,
    pub execution: Option<Execution>,
    pub children: Vec<StatusNode>,
}

/// A status notification for the node at a range.
#[derive(Debug)]
pub struct Status {
    pub range: TextRange,
    pub status: ExecutionStatus,
    pub details: String,
}

/// The model of a list of notifications.
pub open spec fn statuses_model(v: Seq<Status>) -> Seq<(TextRange, ExecutionStatus, Seq<char>)> {
    v.map_values(|s: Status| (s.range, s.status, s.details@))
}

/// The details notified for an execution of a node of type `ty`.
pub open spec fn execution_text(ty: NodeType, ex: Execution) -> Option<Seq<char>> {
    status_text(
        ty,
        ex.status,
        match ex.duration {
            Some(d) => Some(d@),
            None => None,
        },
        match ex.ended {
            Some(e) => Some(e@),
            None => None,
        },
        match ex.authors {
            Some(a) => Some(author_names(a@)),
            None => None,
        },
    )
}

/// The notifications for a node and its descendants, in pre-order. A node
/// whose execution ended otherwise than in success is reported through
/// diagnostics instead: it gives no notification, its descendants still do.
pub open spec fn node_statuses(n: StatusNode) -> Seq<(TextRange, ExecutionStatus, Seq<char>)>
    decreases n,
{
    match n.execution {
        Some(ex) => match execution_text(n.node_type, ex) {
            Some(d) => seq![(n.range, ex.status, d)] + children_statuses(n.children@),
            None => children_statuses(n.children@),
        },
        None => children_statuses(n.children@),
    }
}

/// The notifications for a list of nodes, in order.
pub open spec fn children_statuses(cs: Seq<StatusNode>) -> Seq<(TextRange, ExecutionStatus, Seq<char>)>
    decreases cs,
{
    if cs.len() == 0 {
        Seq::empty()
    } else {
        children_statuses(cs.drop_last()) + node_statuses(cs.last())
    }
}

fn execution_details(ty: NodeType, ex: &Execution) -> (r: Option<String>)
    ensures
        r matches Some(t) ==> execution_text(ty, *ex) == Some(t@),
        r is None ==> execution_text(ty, *ex) is None,
{
    let duration = match &ex.duration {
        Some(d) => Some(d.as_str()),
        None => None,
    };
    let ended = match &ex.ended {
        Some(e) => Some(e.as_str()),
        None => None,
    };
    match &ex.authors {
        Some(a) => {
            let names = author_names_exec(a);
            status_details(ty, ex.status, duration, ended, Some(&names))
        },
        None => status_details(ty, ex.status, duration, ended, None),
    }
}

fn collect_node(n: &StatusNode, out: &mut Vec<Status>)
    ensures
        statuses_model(final(out)@) == statuses_model(old(out)@) + node_statuses(*n),
    decreases n,
{
    let ghost start = statuses_model(out@);
    match &n.execution {
        Some(ex) => match execution_details(n.node_type, ex) {
            Some(details) => {
                let ghost item = (n.range, ex.status, details@);
                out.push(Status { range: n.range, status: ex.status, details });
                assert(statuses_model(out@) =~= start.push(item));
                collect_children(&n.children, out);
                assert(statuses_model(out@) =~= start + node_statuses(*n));
            },
            None => {
                collect_children(&n.children, out);
            },
        },
        None => {
            collect_children(&n.children, out);
        },
    }
}

fn collect_children(cs: &Vec<StatusNode>, out: &mut Vec<Status>)
    ensures
        statuses_model(final(out)@) == statuses_model(old(out)@) + children_statuses(cs@),
    decreases cs,
{
    let mut i: usize = 0;
    assert(cs@.take(0) =~= Seq::<StatusNode>::empty());
    assert(statuses_model(out@) + children_statuses(cs@.take(0)) =~= statuses_model(out@));
    while i < cs.len()
        invariant
            i <= cs@.len(),
            statuses_model(out@) == statuses_model(old(out)@) + children_statuses(
                cs@.take(i as int),
            ),
        decreases cs@.len() - i,
    {
        proof {
            assert(decreases_to!(cs => cs@[i as int]));
            let next = cs@.take(i + 1);
            assert(next.drop_last() =~= cs@.take(i as int));
            assert(next.last() == cs@[i as int]);
        }
        collect_node(&cs[i], out);
        assert(statuses_model(out@) =~= statuses_model(old(out)@) + children_statuses(
            cs@.take(i + 1),
        ));
        i = i + 1;
    }
    assert(cs@.take(cs@.len() as int) =~= cs@);
}

/// The status notifications of a document, in pre-order.
pub fn statuses(root: &StatusNode) -> (r: Vec<Status>)
    ensures
        statuses_model(r@) == node_statuses(*root),
{
    let mut out: Vec<Status> = Vec::new();
    assert(statuses_model(out@) =~= Seq::<(TextRange, ExecutionStatus, Seq<char>)>::empty());
    collect_node(root, &mut out);
    assert(statuses_model(out@) =~= node_statuses(*root));
    out
}

} // verus!
