//! Diagnostics for editors: one for each message that compiling recorded
//! on a node, attached to the node's address, in document order.

use vstd::prelude::*;

use crate::address::{child, copy_path, path_with, Address, Slot};
use crate::execute::text_prop;
use crate::node_property::NodeProperty;
use crate::text::same_text;
use crate::value::{lemma_props_of, lemma_trees_of, props_of, tree_of, trees_of, Property, Tree, Value};

verus! {

/// A diagnostic: the address of the node it is about, its severity as the
/// language server protocol numbers it, and its message.
#[derive(Debug)]
pub struct Diagnostic {
    pub address: Address,
    pub severity: u8,
    pub message: String,
}

/// The model of a diagnostic.
pub open spec fn diagnostic_model(d: Diagnostic) -> (Seq<Slot>, u8, Seq<char>) {
    (d.address@, d.severity, d.message@)
}

/// The models of a list of diagnostics.
pub open spec fn diagnostics_model(v: Seq<Diagnostic>) -> Seq<(Seq<Slot>, u8, Seq<char>)> {
    v.map_values(|d: Diagnostic| diagnostic_model(d))
}

/// The severity of a message level, by the level's name: error 1,
/// warning 2, information 3, and hint 4 for any other level.
pub open spec fn severity_named(level: Seq<char>) -> u8 {
    if level == "Error"@ || level == "Exception"@ {
        1
    } else if level == "Warning"@ {
        2
    } else if level == "Info"@ {
        3
    } else {
        4
    }
}

/// The diagnostic that a message node gives, if it has a level and a message.
pub open spec fn message_diagnostic(m: Tree, path: Seq<Slot>) -> Seq<(Seq<Slot>, u8, Seq<char>)> {
    match (text_prop(m, NodeProperty::Level), text_prop(m, NodeProperty::Message)) {
        (Some(level), Some(message)) => seq![(path, severity_named(level), message)],
        _ => Seq::empty(),
    }
}

/// The diagnostics of a list of message nodes, in order.
pub open spec fn messages_diagnostics(ms: Seq<Tree>, path: Seq<Slot>) -> Seq<
    (Seq<Slot>, u8, Seq<char>),
>
    decreases ms.len(),
{
    if ms.len() == 0 {
        Seq::empty()
    } else {
        messages_diagnostics(ms.drop_last(), path) + message_diagnostic(ms.last(), path)
    }
}

/// The diagnostics of the compilation messages that node `t` holds.
pub open spec fn own_diagnostics(t: Tree, path: Seq<Slot>) -> Seq<(Seq<Slot>, u8, Seq<char>)> {
    match crate::execute::prop(t, NodeProperty::CompilationMessages) {
        Some(Tree::Array(ms)) => messages_diagnostics(ms, path),
        _ => Seq::empty(),
    }
}

/// The diagnostics of `t`, located at `path`: a node's own first, then
/// those of its properties' values, in order.
pub open spec fn diagnostics_of(t: Tree, path: Seq<Slot>) -> Seq<(Seq<Slot>, u8, Seq<char>)>
    decreases t,
{
    match t {
        Tree::Node(_, _, props) => own_diagnostics(t, path) + props_diagnostics(props, path),
        Tree::Array(items) => items_diagnostics(items, path),
        _ => Seq::empty(),
    }
}

/// The diagnostics of the elements of an array.
pub open spec fn items_diagnostics(items: Seq<Tree>, path: Seq<Slot>) -> Seq<
    (Seq<Slot>, u8, Seq<char>),
>
    decreases items,
{
    if items.len() == 0 {
        Seq::empty()
    } else {
        items_diagnostics(items.drop_last(), path) + diagnostics_of(
            items.last(),
            path.push(Slot::Index((items.len() - 1) as usize)),
        )
    }
}

/// The diagnostics of the values of a node's properties.
pub open spec fn props_diagnostics(props: Seq<(NodeProperty, Tree)>, path: Seq<Slot>) -> Seq<
    (Seq<Slot>, u8, Seq<char>),
>
    decreases props,
{
    if props.len() == 0 {
        Seq::empty()
    } else {
        props_diagnostics(props.drop_last(), path) + diagnostics_of(
            props.last().1,
            path.push(Slot::Property(props.last().0)),
        )
    }
}

fn text_property(v: &Value, name: NodeProperty) -> (r: Option<&String>)
    ensures
        r matches Some(s) ==> text_prop(v@, name) == Some(s@),
        r is None ==> text_prop(v@, name) is None,
{
    match child(v, Slot::Property(name)) {
        Some(Value::String(s)) => Some(s),
        _ => None,
    }
}

/// The severity of a message level, by the level's name.
pub fn severity_of_level(level: &str) -> (r: u8)
    ensures
        r == severity_named(level@),
{
    if same_text(level, "Error") || same_text(level, "Exception") {
        1
    } else if same_text(level, "Warning") {
        2
    } else if same_text(level, "Info") {
        3
    } else {
        4
    }
}

fn push_messages(ms: &Vec<Value>, path: &Address, out: &mut Vec<Diagnostic>)
    ensures
        diagnostics_model(final(out)@) == diagnostics_model(old(out)@) + messages_diagnostics(
            trees_of(ms@),
            path@,
        ),
{
    proof {
        lemma_trees_of(ms@);
    }
    let ghost all = trees_of(ms@);
    let mut i: usize = 0;
    assert(all.take(0) =~= Seq::<Tree>::empty());
    assert(diagnostics_model(out@) + messages_diagnostics(all.take(0), path@) =~= diagnostics_model(
        out@,
    ));
    while i < ms.len()
        invariant
            i <= ms@.len(),
            all == trees_of(ms@),
            all.len() == ms@.len(),
            forall|j: int| 0 <= j < ms@.len() ==> #[trigger] all[j] == tree_of(&ms@[j]),
            diagnostics_model(out@) == diagnostics_model(old(out)@) + messages_diagnostics(
                all.take(i as int),
                path@,
            ),
        decreases ms@.len() - i,
    {
        let ghost prev = out@;
        proof {
            let next = all.take(i + 1);
            assert(next.drop_last() =~= all.take(i as int));
            assert(next.last() == all[i as int]);
        }
        match (text_property(&ms[i], NodeProperty::Level), text_property(&ms[i], NodeProperty::Message)) {
            (Some(level), Some(message)) => {
                let d = Diagnostic {
                    address: copy_path(path),
                    severity: severity_of_level(level.as_str()),
                    message: message.clone(),
                };
                let ghost dm = diagnostic_model(d);
                out.push(d);
                assert(diagnostics_model(out@) =~= diagnostics_model(prev).push(dm));
            },
            _ => {},
        }
        proof {
            assert(diagnostics_model(out@) =~= diagnostics_model(old(out)@) + messages_diagnostics(
                all.take(i + 1),
                path@,
            ));
        }
        i = i + 1;
    }
    assert(all.take(ms@.len() as int) =~= all);
}

fn collect_value(v: &Value, path: &Address, out: &mut Vec<Diagnostic>)
    ensures
        diagnostics_model(final(out)@) == diagnostics_model(old(out)@) + diagnostics_of(v@, path@),
    decreases v,
{
    match v {
        Value::Node(node) => {
            let ghost start = diagnostics_model(out@);
            match child(v, Slot::Property(NodeProperty::CompilationMessages)) {
                Some(Value::Array(ms)) => push_messages(ms, path, out),
                _ => {
                    assert(diagnostics_model(out@) + own_diagnostics(v@, path@) =~= diagnostics_model(
                        out@,
                    ));
                },
            }
            collect_props(&node.properties, path, out);
            assert(diagnostics_model(out@) =~= start + diagnostics_of(v@, path@));
        },
        Value::Array(items) => {
            collect_values(items, path, out);
        },
        _ => {
            assert(diagnostics_model(out@) + diagnostics_of(v@, path@) =~= diagnostics_model(out@));
        },
    }
}

fn collect_values(items: &Vec<Value>, path: &Address, out: &mut Vec<Diagnostic>)
    ensures
        diagnostics_model(final(out)@) == diagnostics_model(old(out)@) + items_diagnostics(
            trees_of(items@),
            path@,
        ),
    decreases items,
{
    proof {
        lemma_trees_of(items@);
    }
    let ghost all = trees_of(items@);
    let mut i: usize = 0;
    assert(all.take(0) =~= Seq::<Tree>::empty());
    assert(diagnostics_model(out@) + items_diagnostics(all.take(0), path@) =~= diagnostics_model(
        out@,
    ));
    while i < items.len()
        invariant
            i <= items@.len(),
            all == trees_of(items@),
            all.len() == items@.len(),
            forall|j: int| 0 <= j < items@.len() ==> #[trigger] all[j] == tree_of(&items@[j]),
            diagnostics_model(out@) == diagnostics_model(old(out)@) + items_diagnostics(
                all.take(i as int),
                path@,
            ),
        decreases items@.len() - i,
    {
        let sub = path_with(path, Slot::Index(i));
        proof {
            assert(decreases_to!(items => items@[i as int]));
            let next = all.take(i + 1);
            assert(next.drop_last() =~= all.take(i as int));
            assert(next.last() == all[i as int]);
        }
        collect_value(&items[i], &sub, out);
        proof {
            assert(diagnostics_model(out@) =~= diagnostics_model(old(out)@) + items_diagnostics(
                all.take(i + 1),
                path@,
            ));
        }
        i = i + 1;
    }
    assert(all.take(items@.len() as int) =~= all);
}

fn collect_props(props: &Vec<Property>, path: &Address, out: &mut Vec<Diagnostic>)
    ensures
        diagnostics_model(final(out)@) == diagnostics_model(old(out)@) + props_diagnostics(
            props_of(props@),
            path@,
        ),
    decreases props,
{
    proof {
        lemma_props_of(props@);
    }
    let ghost all = props_of(props@);
    let mut i: usize = 0;
    assert(all.take(0) =~= Seq::<(NodeProperty, Tree)>::empty());
    assert(diagnostics_model(out@) + props_diagnostics(all.take(0), path@) =~= diagnostics_model(
        out@,
    ));
    while i < props.len()
        invariant
            i <= props@.len(),
            all == props_of(props@),
            all.len() == props@.len(),
            forall|j: int|
                0 <= j < props@.len() ==> #[trigger] all[j] == (
                    props@[j].name,
                    tree_of(&props@[j].value),
                ),
            diagnostics_model(out@) == diagnostics_model(old(out)@) + props_diagnostics(
                all.take(i as int),
                path@,
            ),
        decreases props@.len() - i,
    {
        let sub = path_with(path, Slot::Property(props[i].name));
        proof {
            assert(decreases_to!(props => props@[i as int]));
            let next = all.take(i + 1);
            assert(next.drop_last() =~= all.take(i as int));
            assert(next.last() == all[i as int]);
        }
        collect_value(&props[i].value, &sub, out);
        proof {
            assert(diagnostics_model(out@) =~= diagnostics_model(old(out)@) + props_diagnostics(
                all.take(i + 1),
                path@,
            ));
        }
        i = i + 1;
    }
    assert(all.take(props@.len() as int) =~= all);
}

/// The diagnostics of a document, in document order: for each node, one
/// per compilation message that it holds, then those of its descendants.
pub fn diagnostics(root: &Value) -> (r: Vec<Diagnostic>)
    ensures
        diagnostics_model(r@) == diagnostics_of(root@, Seq::empty()),
{
    let mut out: Vec<Diagnostic> = Vec::new();
    let path: Address = Vec::new();
    assert(diagnostics_model(out@) =~= Seq::<(Seq<Slot>, u8, Seq<char>)>::empty());
    assert(path@ =~= Seq::<Slot>::empty());
    collect_value(root, &path, &mut out);
    assert(diagnostics_model(out@) =~= diagnostics_of(root@, Seq::empty()));
    out
}

} // verus!
