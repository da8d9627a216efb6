//! The incremental compile step of executable nodes.
//!
//! Compiling a node recomputes its digest from its code and language. An
//! unchanged digest means nothing downstream can have changed: the walk
//! skips the node. Otherwise the node is stale, and the plan says whether a
//! kernel must evaluate its code. The results are written back as a patch
//! of `Replace` operations, never by mutating nodes directly.

use vstd::prelude::*;

use crate::address::{
    child, copy_path, find_node, lemma_resolve_push, locate, path_with, put, resolve, resolve_range,
    step, Address, Slot,
};
use crate::digest::{compilation_digest, digest_of};
use crate::kernel::{ExecutionMessage, KernelOutcome, MessageLevel};
use crate::node_property::NodeProperty;
use crate::node_type::{NodeId, NodeType};
use crate::operation::{ops_model, OpModel, Operation, Patch, PatchError};
use crate::patchable::{
    apply_ops, edit, lemma_apply_ops_push, lemma_edit_assign_ok, lemma_edit_assign_push,
    lemma_edit_local, lemma_put_other_property, lemma_step_put, local, Edit,
};
use crate::text::{lower_of, lowercase, same_text, trim_text, trimmed};
use crate::value::{
    clone_value, lemma_props_of, lemma_trees_of, optional_text, optional_text_value, props_of,
    tree_of, trees_of, Node, Property, Tree, Value,
};

verus! {

/// What the walk does after visiting a node.
#[derive(Debug, Clone, Copy, PartialEq, Eq, Structural)]
pub enum WalkControl {
    /// Descend into the node's children.
    Continue,
    /// Skip the node's children and go on with its siblings.
    Break,
    /// Abort the whole walk.
    Stop,
}

/// The kinds of executable nodes.
#[derive(Debug, Clone, Copy, PartialEq, Eq, Structural)]
pub enum ExecKind {
    /// Math whose code a kernel turns into MathML.
    Math,
    /// A styled block whose code a kernel turns into CSS and classes.
    Style,
}

/// The kind of executable node that a node type is, if any.
pub open spec fn exec_kind_of(ty: NodeType) -> Option<ExecKind> {
    match ty {
        NodeType::MathInline | NodeType::MathBlock => Some(ExecKind::Math),
        NodeType::StyledBlock => Some(ExecKind::Style),
        _ => None,
    }
}

/// The kind of executable node that a node type is, if any.
pub fn exec_kind(ty: NodeType) -> (r: Option<ExecKind>)
    ensures
        r == exec_kind_of(ty),
{
    match ty {
        NodeType::MathInline | NodeType::MathBlock => Some(ExecKind::Math),
        NodeType::StyledBlock => Some(ExecKind::Style),
        _ => None,
    }
}

/// The property that holds the language of an executable node's code.
pub open spec fn language_property_of(kind: ExecKind) -> NodeProperty {
    match kind {
        ExecKind::Math => NodeProperty::MathLanguage,
        ExecKind::Style => NodeProperty::StyleLanguage,
    }
}

/// The value of a node's property, if the node has it.
pub open spec fn prop(t: Tree, name: NodeProperty) -> Option<Tree> {
    step(t, Slot::Property(name))
}

/// The text of a node's property, if the node has it and it is text.
pub open spec fn text_prop(t: Tree, name: NodeProperty) -> Option<Seq<char>> {
    match prop(t, name) {
        Some(Tree::Text(s)) => Some(s),
        _ => None,
    }
}

/// What compiling an executable node requires.
#[derive(Debug)]
pub enum CompilePlan {
    /// The digest is unchanged: nothing to do, and no kernel is called.
    Unchanged,
    /// The node has no code to fingerprint: it stays stale.
    MissingCode,
    /// The code is blank: clear the derived properties, store the digest.
    Clear { digest: u64 },
    /// The code is its own result (MathML): store it and the digest.
    Direct { digest: u64, output: String },
    /// A kernel for `language` must evaluate `code`.
    Evaluate { digest: u64, code: String, language: String },
}

/// The model of a [`CompilePlan`].
pub enum PlanModel {
    Unchanged,
    MissingCode,
    Clear(u64),
    Direct(u64, Seq<char>),
    Evaluate(u64, Seq<char>, Seq<char>),
}

impl View for CompilePlan {
    type V = PlanModel;

    open spec fn view(&self) -> PlanModel {
        match self {
            CompilePlan::Unchanged => PlanModel::Unchanged,
            CompilePlan::MissingCode => PlanModel::MissingCode,
            CompilePlan::Clear { digest } => PlanModel::Clear(*digest),
            CompilePlan::Direct { digest, output } => PlanModel::Direct(*digest, output@),
            CompilePlan::Evaluate { digest, code, language } => PlanModel::Evaluate(
                *digest,
                code@,
                language@,
            ),
        }
    }
}

/// The digest of a node's current code and language, if it has code.
pub open spec fn current_digest(kind: ExecKind, t: Tree) -> Option<u64> {
    match text_prop(t, NodeProperty::Code) {
        None => None,
        Some(code) => Some(
            digest_of(
                code,
                match text_prop(t, language_property_of(kind)) {
                    Some(l) => l,
                    None => Seq::empty(),
                },
            ),
        ),
    }
}

/// The plan for a stale node of kind `kind` whose digest is `d`, given its
/// trimmed code and its language (in lower case, for math).
pub open spec fn stale_plan_of(kind: ExecKind, d: u64, code: Seq<char>, lang: Option<Seq<char>>) -> PlanModel {
    if code.len() == 0 {
        PlanModel::Clear(d)
    } else {
        match kind {
            ExecKind::Math => {
                let l = match lang {
                    Some(l) => l,
                    None => "tex"@,
                };
                if l == "mathml"@ {
                    PlanModel::Direct(d, code)
                } else {
                    PlanModel::Evaluate(d, code, l)
                }
            },
            ExecKind::Style => PlanModel::Evaluate(
                d,
                code,
                match lang {
                    Some(l) => l,
                    None => "style"@,
                },
            ),
        }
    }
}

/// The plan for recompiling an executable node of kind `kind`, whatever
/// digest it has stored.
pub open spec fn fresh_plan_for(kind: ExecKind, t: Tree) -> PlanModel {
    match current_digest(kind, t) {
        None => PlanModel::MissingCode,
        Some(d) => stale_plan_of(
            kind,
            d,
            trimmed(text_prop(t, NodeProperty::Code)->0),
            match text_prop(t, language_property_of(kind)) {
                Some(l) => Some(
                    match kind {
                        ExecKind::Math => lower_of(l),
                        ExecKind::Style => l,
                    },
                ),
                None => None,
            },
        ),
    }
}

/// The plan for compiling an executable node of kind `kind`: nothing to do
/// where the stored digest is current.
pub open spec fn plan_for(kind: ExecKind, t: Tree) -> PlanModel {
    match current_digest(kind, t) {
        Some(d) => if prop(t, NodeProperty::CompilationDigest) == Some(Tree::UnsignedInteger(d)) {
            PlanModel::Unchanged
        } else {
            fresh_plan_for(kind, t)
        },
        None => fresh_plan_for(kind, t),
    }
}

/// The plan for compiling `t`, where it is an executable node.
pub open spec fn plan_spec(t: Tree) -> Option<PlanModel> {
    match t {
        Tree::Node(ty, _, _) => match exec_kind_of(ty) {
            Some(kind) => Some(plan_for(kind, t)),
            None => None,
        },
        _ => None,
    }
}

/// The plan for executing `t`, where it is an executable node. Executing
/// a node re-invokes compiling it, so the plan is the compile plan: a node
/// whose code, language and dependencies are unchanged is skipped.
pub open spec fn execute_plan_spec(t: Tree) -> Option<PlanModel> {
    plan_spec(t)
}

/// What the walk does after compiling a node with a plan.
pub open spec fn control_of(plan: PlanModel) -> WalkControl {
    match plan {
        PlanModel::Unchanged => WalkControl::Break,
        _ => WalkControl::Continue,
    }
}

/// The text of a node's property, if the node has it and it is text.
fn text_property(v: &Value, name: NodeProperty) -> (r: Option<&str>)
    ensures
        r matches Some(s) ==> text_prop(v@, name) == Some(s@),
        r is None ==> text_prop(v@, name) is None,
{
    match child(v, Slot::Property(name)) {
        Some(Value::String(s)) => Some(s.as_str()),
        _ => None,
    }
}

/// The digest of a node's current code and language, if it has code.
fn digest_now(kind: ExecKind, v: &Value) -> (r: Option<u64>)
    ensures
        r == current_digest(kind, v@),
{
    let lang_prop = match kind {
        ExecKind::Math => NodeProperty::MathLanguage,
        ExecKind::Style => NodeProperty::StyleLanguage,
    };
    match text_property(v, NodeProperty::Code) {
        None => None,
        Some(code) => {
            let lang = match text_property(v, lang_prop) {
                Some(l) => l,
                None => {
                    proof {
                        reveal_strlit("");
                    }
                    assert(""@ =~= Seq::<char>::empty());
                    ""
                },
            };
            Some(compilation_digest(code, lang))
        },
    }
}

/// The plan for compiling `node`, or `None` where it is not executable.
pub fn compile_plan(node: &Value) -> (r: Option<CompilePlan>)
    ensures
        r matches Some(p) ==> plan_spec(node@) == Some(p@),
        r is None ==> plan_spec(node@) is None,
{
    let kind = match node {
        Value::Node(n) => match exec_kind(n.node_type) {
            Some(k) => k,
            None => return None,
        },
        _ => return None,
    };
    let d = match digest_now(kind, node) {
        Some(d) => d,
        None => return Some(CompilePlan::MissingCode),
    };
    match child(node, Slot::Property(NodeProperty::CompilationDigest)) {
        Some(Value::UnsignedInteger(x)) => {
            if *x == d {
                return Some(CompilePlan::Unchanged);
            }
        },
        _ => {},
    }
    Some(fresh_plan(kind, node))
}

/// The plan for executing `node`, or `None` where it is not executable:
/// executing re-invokes compiling, so this is [`compile_plan`]'s plan.
pub fn execute_plan(node: &Value) -> (r: Option<CompilePlan>)
    ensures
        r matches Some(p) ==> execute_plan_spec(node@) == Some(p@),
        r is None ==> execute_plan_spec(node@) is None,
{
    compile_plan(node)
}

/// The plan for recompiling a node of kind `kind`, whatever digest it has
/// stored.
fn fresh_plan(kind: ExecKind, node: &Value) -> (r: CompilePlan)
    ensures
        r@ == fresh_plan_for(kind, node@),
{
    let lang_prop = match kind {
        ExecKind::Math => NodeProperty::MathLanguage,
        ExecKind::Style => NodeProperty::StyleLanguage,
    };
    let d = match digest_now(kind, node) {
        Some(d) => d,
        None => return CompilePlan::MissingCode,
    };
    let code = trim_text(text_property(node, NodeProperty::Code).unwrap());
    let lang = match text_property(node, lang_prop) {
        Some(l) => match kind {
            ExecKind::Math => Some(lowercase(l)),
            ExecKind::Style => Some(l.to_owned()),
        },
        None => None,
    };
    stale_plan(kind, d, code, lang)
}

/// The plan for a stale node of kind `kind` whose digest is `digest`,
/// given its trimmed code and its language (in lower case, for math):
/// blank code is cleared; MathML is its own result; anything else goes to
/// the kernel of its language, `tex` for math and `style` for styles by
/// default.
pub fn stale_plan(kind: ExecKind, digest: u64, code: String, language: Option<String>) -> (r: CompilePlan)
    ensures
        r@ == stale_plan_of(
            kind,
            digest,
            code@,
            match language {
                Some(l) => Some(l@),
                None => None,
            },
        ),
{
    if code.as_str().is_empty() {
        return CompilePlan::Clear { digest };
    }
    match kind {
        ExecKind::Math => {
            let l = match language {
                Some(l) => l,
                None => "tex".to_owned(),
            };
            if same_text(l.as_str(), "mathml") {
                CompilePlan::Direct { digest, output: code }
            } else {
                CompilePlan::Evaluate { digest, code, language: l }
            }
        },
        ExecKind::Style => {
            let l = match language {
                Some(l) => l,
                None => "style".to_owned(),
            };
            CompilePlan::Evaluate { digest, code, language: l }
        },
    }
}

/// What the walk does after compiling a node with `plan`: skip the node's
/// children where nothing changed, descend otherwise.
pub fn walk_control(plan: &CompilePlan) -> (r: WalkControl)
    ensures
        r == control_of(plan@),
{
    match plan {
        CompilePlan::Unchanged => WalkControl::Break,
        _ => WalkControl::Continue,
    }
}

/// The name of a message level.
pub open spec fn level_name(level: MessageLevel) -> Seq<char> {
    match level {
        MessageLevel::Trace => "Trace"@,
        MessageLevel::Debug => "Debug"@,
        MessageLevel::Info => "Info"@,
        MessageLevel::Warning => "Warning"@,
        MessageLevel::Error => "Error"@,
        MessageLevel::Exception => "Exception"@,
    }
}

fn level_text(level: MessageLevel) -> (r: String)
    ensures
        r@ == level_name(level),
{
    match level {
        MessageLevel::Trace => "Trace".to_owned(),
        MessageLevel::Debug => "Debug".to_owned(),
        MessageLevel::Info => "Info".to_owned(),
        MessageLevel::Warning => "Warning".to_owned(),
        MessageLevel::Error => "Error".to_owned(),
        MessageLevel::Exception => "Exception".to_owned(),
    }
}

/// A diagnostic message as a node.
pub open spec fn message_tree(m: ExecutionMessage) -> Tree {
    Tree::Node(
        NodeType::ExecutionMessage,
        0,
        seq![
            (NodeProperty::Level, Tree::Text(level_name(m.level))),
            (NodeProperty::Message, Tree::Text(m.message@)),
            (NodeProperty::ErrorType, optional_text(m.error_type)),
            (NodeProperty::StackTrace, optional_text(m.stack_trace)),
        ],
    )
}

/// A list of messages as a value: nothing where the list is empty.
pub open spec fn messages_tree(ms: Seq<ExecutionMessage>) -> Tree {
    if ms.len() == 0 {
        Tree::Null
    } else {
        Tree::Array(ms.map_values(|m: ExecutionMessage| message_tree(m)))
    }
}

/// A diagnostic message as a node.
pub fn message_value(m: &ExecutionMessage) -> (r: Value)
    ensures
        r@ == message_tree(*m),
{
    let props = vec![
        Property { name: NodeProperty::Level, value: Value::String(level_text(m.level)) },
        Property { name: NodeProperty::Message, value: Value::String(m.message.clone()) },
        Property { name: NodeProperty::ErrorType, value: optional_text_value(&m.error_type) },
        Property { name: NodeProperty::StackTrace, value: optional_text_value(&m.stack_trace) },
    ];
    proof {
        lemma_props_of(props@);
        assert(props_of(props@) =~= message_tree(*m)->Node_2);
    }
    Value::Node(Node { node_type: NodeType::ExecutionMessage, uid: 0, properties: props })
}

/// A list of messages as a value: nothing where the list is empty.
pub fn messages_value(ms: &Vec<ExecutionMessage>) -> (r: Value)
    ensures
        r@ == messages_tree(ms@),
{
    if ms.len() == 0 {
        return Value::Null;
    }
    let mut out: Vec<Value> = Vec::new();
    let mut i: usize = 0;
    while i < ms.len()
        invariant
            i <= ms@.len(),
            out@.len() == i,
            forall|j: int| 0 <= j < i ==> tree_of(&#[trigger] out@[j]) == message_tree(ms@[j]),
        decreases ms@.len() - i,
    {
        out.push(message_value(&ms[i]));
        i = i + 1;
    }
    proof {
        lemma_trees_of(out@);
        assert(trees_of(out@) =~= ms@.map_values(|m: ExecutionMessage| message_tree(m)));
    }
    Value::Array(out)
}

/// The `i`th output, or nothing.
pub open spec fn nth_output(outputs: Seq<Tree>, i: int) -> Tree {
    if 0 <= i < outputs.len() {
        outputs[i]
    } else {
        Tree::Null
    }
}

/// The MathML that a kernel returned: its first output, or empty text
/// where the kernel failed and returned none.
pub open spec fn mathml_output(outputs: Seq<Tree>) -> Tree {
    if outputs.len() > 0 {
        outputs[0]
    } else {
        Tree::Text(Seq::empty())
    }
}

fn mathml_output_value(outputs: &Vec<Value>) -> (r: Value)
    ensures
        r@ == mathml_output(trees_of(outputs@)),
{
    proof {
        lemma_trees_of(outputs@);
    }
    if outputs.len() > 0 {
        clone_value(&outputs[0])
    } else {
        let empty = String::new();
        Value::String(empty)
    }
}

fn nth_output_value(outputs: &Vec<Value>, i: usize) -> (r: Value)
    ensures
        r@ == nth_output(trees_of(outputs@), i as int),
{
    proof {
        lemma_trees_of(outputs@);
    }
    if i < outputs.len() {
        clone_value(&outputs[i])
    } else {
        Value::Null
    }
}

/// The properties that compiling a node of kind `kind` with `plan` writes,
/// given the kernel's outputs and messages. The digest comes last.
pub open spec fn result_props(kind: ExecKind, plan: PlanModel, outputs: Seq<Tree>, messages: Tree) -> Seq<
    (NodeProperty, Tree),
> {
    match plan {
        PlanModel::Unchanged | PlanModel::MissingCode => Seq::empty(),
        PlanModel::Clear(d) => match kind {
            ExecKind::Math => seq![
                (NodeProperty::Mathml, Tree::Null),
                (NodeProperty::CompilationMessages, Tree::Null),
                (NodeProperty::CompilationDigest, Tree::UnsignedInteger(d)),
            ],
            ExecKind::Style => seq![
                (NodeProperty::Css, Tree::Null),
                (NodeProperty::ClassList, Tree::Null),
                (NodeProperty::CompilationMessages, Tree::Null),
                (NodeProperty::CompilationDigest, Tree::UnsignedInteger(d)),
            ],
        },
        PlanModel::Direct(d, output) => seq![
            (NodeProperty::Mathml, Tree::Text(output)),
            (NodeProperty::CompilationMessages, Tree::Null),
            (NodeProperty::CompilationDigest, Tree::UnsignedInteger(d)),
        ],
        PlanModel::Evaluate(d, _, _) => match kind {
            ExecKind::Math => seq![
                (NodeProperty::Mathml, mathml_output(outputs)),
                (NodeProperty::CompilationMessages, messages),
                (NodeProperty::CompilationDigest, Tree::UnsignedInteger(d)),
            ],
            ExecKind::Style => seq![
                (NodeProperty::Css, nth_output(outputs, 0)),
                (NodeProperty::ClassList, nth_output(outputs, 1)),
                (NodeProperty::CompilationMessages, messages),
                (NodeProperty::CompilationDigest, Tree::UnsignedInteger(d)),
            ],
        },
    }
}

/// The properties that compiling a node of kind `kind` with `plan` writes,
/// given what the kernel returned (ignored by plans that call no kernel).
pub fn compile_properties(kind: ExecKind, plan: &CompilePlan, outcome: &KernelOutcome) -> (r: Vec<
    Property,
>)
    ensures
        props_of(r@) == result_props(
            kind,
            plan@,
            trees_of(outcome.outputs@),
            messages_tree(outcome.messages@),
        ),
{
    let props: Vec<Property> = match plan {
        CompilePlan::Unchanged | CompilePlan::MissingCode => Vec::new(),
        CompilePlan::Clear { digest } => match kind {
            ExecKind::Math => vec![
                Property { name: NodeProperty::Mathml, value: Value::Null },
                Property { name: NodeProperty::CompilationMessages, value: Value::Null },
                Property {
                    name: NodeProperty::CompilationDigest,
                    value: Value::UnsignedInteger(*digest),
                },
            ],
            ExecKind::Style => vec![
                Property { name: NodeProperty::Css, value: Value::Null },
                Property { name: NodeProperty::ClassList, value: Value::Null },
                Property { name: NodeProperty::CompilationMessages, value: Value::Null },
                Property {
                    name: NodeProperty::CompilationDigest,
                    value: Value::UnsignedInteger(*digest),
                },
            ],
        },
        CompilePlan::Direct { digest, output } => vec![
            Property { name: NodeProperty::Mathml, value: Value::String(output.clone()) },
            Property { name: NodeProperty::CompilationMessages, value: Value::Null },
            Property {
                name: NodeProperty::CompilationDigest,
                value: Value::UnsignedInteger(*digest),
            },
        ],
        CompilePlan::Evaluate { digest, .. } => match kind {
            ExecKind::Math => vec![
                Property { name: NodeProperty::Mathml, value: mathml_output_value(&outcome.outputs) },
                Property {
                    name: NodeProperty::CompilationMessages,
                    value: messages_value(&outcome.messages),
                },
                Property {
                    name: NodeProperty::CompilationDigest,
                    value: Value::UnsignedInteger(*digest),
                },
            ],
            ExecKind::Style => vec![
                Property { name: NodeProperty::Css, value: nth_output_value(&outcome.outputs, 0) },
                Property {
                    name: NodeProperty::ClassList,
                    value: nth_output_value(&outcome.outputs, 1),
                },
                Property {
                    name: NodeProperty::CompilationMessages,
                    value: messages_value(&outcome.messages),
                },
                Property {
                    name: NodeProperty::CompilationDigest,
                    value: Value::UnsignedInteger(*digest),
                },
            ],
        },
    };
    proof {
        lemma_props_of(props@);
        assert(props_of(props@) =~= result_props(
            kind,
            plan@,
            trees_of(outcome.outputs@),
            messages_tree(outcome.messages@),
        ));
    }
    props
}

/// One `Replace` operation per property, at `prefix` extended by the
/// property's name.
pub open spec fn replace_ops(prefix: Seq<Slot>, props: Seq<(NodeProperty, Tree)>) -> Seq<OpModel> {
    Seq::new(
        props.len(),
        |i: int| OpModel::Replace(prefix.push(Slot::Property(props[i].0)), 1, props[i].1),
    )
}

/// The patch that replaces the given properties of the node at `address`.
pub fn replace_properties(address: &Address, props: &Vec<Property>) -> (r: Patch)
    ensures
        r.model() == replace_ops(address@, props_of(props@)),
{
    proof {
        lemma_props_of(props@);
    }
    let mut ops: Vec<Operation> = Vec::new();
    let mut i: usize = 0;
    while i < props.len()
        invariant
            i <= props@.len(),
            props_of(props@).len() == props@.len(),
            forall|j: int|
                0 <= j < props@.len() ==> #[trigger] props_of(props@)[j] == (
                    props@[j].name,
                    tree_of(&props@[j].value),
                ),
            ops_model(ops@) == replace_ops(address@, props_of(props@)).take(i as int),
        decreases props@.len() - i,
    {
        let op = Operation::Replace {
            address: path_with(address, Slot::Property(props[i].name)),
            items: 1,
            value: clone_value(&props[i].value),
        };
        let ghost prev = ops@;
        let ghost m = op@;
        ops.push(op);
        proof {
            let all = replace_ops(address@, props_of(props@));
            assert(ops_model(ops@) =~= ops_model(prev).push(m));
            assert(all[i as int] == m);
            assert(all.take(i + 1) =~= all.take(i as int).push(all[i as int]));
        }
        i = i + 1;
    }
    proof {
        assert(replace_ops(address@, props_of(props@)).take(props@.len() as int) =~= replace_ops(
            address@,
            props_of(props@),
        ));
    }
    Patch::new(ops)
}

/// Replaces properties of the node with id `id` (the first one, in
/// pre-order) through a patch tagged with that id. Where no node has the
/// id, or the patch fails, `root` is left as it was.
pub fn replace_node_properties(root: &mut Value, id: NodeId, props: &Vec<Property>) -> (r: Result<
    (),
    PatchError,
>)
    ensures
        match locate(old(root)@, id, Seq::empty()) {
            None => r == Err::<(), PatchError>(PatchError::InvalidAddress) && *final(root) == *old(
                root,
            ),
            Some(p) => match apply_ops(old(root)@, replace_ops(p, props_of(props@))) {
                Ok(t) => r is Ok && final(root)@ == t,
                Err(e) => r == Err::<(), PatchError>(e) && *final(root) == *old(root),
            },
        },
{
    let address = match find_node(root, id) {
        Some(a) => a,
        None => return Err(PatchError::InvalidAddress),
    };
    let mut patch = replace_properties(&address, props);
    patch.node_id = Some(id);
    root.apply_patch(&patch)
}

/// The digest that a plan was made for, if it was made for one.
pub open spec fn plan_digest(plan: PlanModel) -> Option<u64> {
    match plan {
        PlanModel::Clear(d) => Some(d),
        PlanModel::Direct(d, _) => Some(d),
        PlanModel::Evaluate(d, _, _) => Some(d),
        _ => None,
    }
}

fn digest_of_plan(plan: &CompilePlan) -> (r: Option<u64>)
    ensures
        r == plan_digest(plan@),
{
    match plan {
        CompilePlan::Clear { digest } => Some(*digest),
        CompilePlan::Direct { digest, .. } => Some(*digest),
        CompilePlan::Evaluate { digest, .. } => Some(*digest),
        _ => None,
    }
}

/// Writes the result of compiling the node at `address` with `plan` into
/// `root`, through a patch.
///
/// The result is written only if it is still current: the node's code and
/// language still have the digest that the plan was made for. A stale
/// result is dropped (`Ok(false)`) and `root` is left as it was; so is it
/// when the patch fails.
pub fn commit_compile(
    root: &mut Value,
    address: &Address,
    plan: &CompilePlan,
    outcome: &KernelOutcome,
) -> (r: Result<bool, PatchError>)
    ensures
        match resolve(old(root)@, address@) {
            None => r == Err::<bool, PatchError>(PatchError::InvalidAddress) && *final(root)
                == *old(root),
            Some(node) => match node {
                Tree::Node(ty, _, _) => match exec_kind_of(ty) {
                    None => r == Ok::<bool, PatchError>(false) && *final(root) == *old(root),
                    Some(kind) => if plan_digest(plan@) is None || plan_digest(plan@)
                        != current_digest(kind, node) {
                        r == Ok::<bool, PatchError>(false) && *final(root) == *old(root)
                    } else {
                        match apply_ops(
                            old(root)@,
                            replace_ops(
                                address@,
                                result_props(
                                    kind,
                                    plan@,
                                    trees_of(outcome.outputs@),
                                    messages_tree(outcome.messages@),
                                ),
                            ),
                        ) {
                            Ok(t) => r == Ok::<bool, PatchError>(true) && final(root)@ == t,
                            Err(e) => r == Err::<bool, PatchError>(e) && *final(root)
                                == *old(root),
                        }
                    },
                },
                _ => r == Ok::<bool, PatchError>(false) && *final(root) == *old(root),
            },
        },
{
    assert(address@.subrange(0, address@.len() as int) =~= address@);
    let (kind, current) = match resolve_range(root, address, 0, address.len()) {
        None => return Err(PatchError::InvalidAddress),
        Some(node) => match node {
            Value::Node(n) => match exec_kind(n.node_type) {
                None => return Ok(false),
                Some(kind) => (kind, digest_now(kind, node)),
            },
            _ => return Ok(false),
        },
    };
    let wanted = digest_of_plan(plan);
    match (wanted, current) {
        (Some(w), Some(c)) => {
            if w != c {
                return Ok(false);
            }
        },
        _ => return Ok(false),
    }
    let props = compile_properties(kind, plan, outcome);
    let patch = replace_properties(address, &props);
    match root.apply_patch(&patch) {
        Ok(()) => Ok(true),
        Err(e) => Err(e),
    }
}

/// The effect of replacing properties of a node, one after the other:
/// the node keeps its type and id, properties that are not written keep
/// their values, and the last one written holds its new value.
pub proof fn lemma_replace_ops_effect(t: Tree, props: Seq<(NodeProperty, Tree)>, t2: Tree)
    requires
        t is Node,
        apply_ops(t, replace_ops(Seq::empty(), props)) == Ok::<Tree, PatchError>(t2),
    ensures
        t2 matches Tree::Node(ty2, uid2, _) && t matches Tree::Node(ty, uid, _) && ty2 == ty
            && uid2 == uid,
        forall|n: NodeProperty|
            (forall|j: int| 0 <= j < props.len() ==> (#[trigger] props[j]).0 != n) ==> step(
                t2,
                Slot::Property(n),
            ) == step(t, Slot::Property(n)),
        props.len() > 0 ==> step(t2, Slot::Property(props.last().0)) == Some(props.last().1),
    decreases props.len(),
{
    let ops = replace_ops(Seq::empty(), props);
    if props.len() == 0 {
        assert(ops =~= Seq::<OpModel>::empty());
    } else {
        let init = props.drop_last();
        let last = props.last();
        let op = OpModel::Replace(Seq::<Slot>::empty().push(Slot::Property(last.0)), 1, last.1);
        assert(ops =~= replace_ops(Seq::empty(), init).push(op));
        lemma_apply_ops_push(t, replace_ops(Seq::empty(), init), op);
        match apply_ops(t, replace_ops(Seq::empty(), init)) {
            Ok(t1) => {
                lemma_replace_ops_effect(t, init, t1);
                let path = Seq::<Slot>::empty().push(Slot::Property(last.0));
                assert(path.drop_first() =~= Seq::<Slot>::empty());
                let c = step(t1, Slot::Property(last.0));
                assert(c is Some);
                assert(edit(c->0, Seq::<Slot>::empty(), Edit::Assign(last.1)) == Ok::<
                    Tree,
                    PatchError,
                >(last.1));
                assert(t2 == put(t1, Slot::Property(last.0), last.1));
                lemma_step_put(t1, Slot::Property(last.0), last.1);
                assert forall|n: NodeProperty|
                    (forall|j: int| 0 <= j < props.len() ==> (#[trigger] props[j]).0 != n)
                        implies step(t2, Slot::Property(n)) == step(t, Slot::Property(n)) by {
                    assert forall|j: int| 0 <= j < init.len() implies (#[trigger] init[j]).0
                        != n by {
                        assert(init[j] == props[j]);
                    }
                    assert(props[props.len() - 1].0 != n);
                    lemma_put_other_property(t1, last.0, last.1, n);
                }
            },
            Err(e) => {},
        }
    }
}

/// Compiling twice in succession is idempotent: once the result of a
/// compile has been written back to a node, compiling the node again finds
/// its digest unchanged, so the walk skips it and no kernel is called.
pub proof fn law_compile_idempotent(t: Tree, outputs: Seq<Tree>, messages: Tree, t2: Tree)
    requires
        plan_spec(t) matches Some(p) && p != PlanModel::Unchanged && p != PlanModel::MissingCode,
        apply_ops(
            t,
            replace_ops(
                Seq::empty(),
                result_props(exec_kind_of(t->Node_0)->0, plan_spec(t)->0, outputs, messages),
            ),
        ) == Ok::<Tree, PatchError>(t2),
    ensures
        plan_spec(t2) == Some(PlanModel::Unchanged),
        control_of(plan_spec(t2)->0) == WalkControl::Break,
{
    let kind = exec_kind_of(t->Node_0)->0;
    let p = plan_spec(t)->0;
    let props = result_props(kind, p, outputs, messages);
    lemma_replace_ops_effect(t, props, t2);
    let lang = language_property_of(kind);
    assert forall|j: int| 0 <= j < props.len() implies (#[trigger] props[j]).0
        != NodeProperty::Code && props[j].0 != lang by {}
    assert(props.last().0 == NodeProperty::CompilationDigest);
    assert(step(t2, Slot::Property(NodeProperty::Code)) == step(t, Slot::Property(NodeProperty::Code)));
    assert(step(t2, Slot::Property(lang)) == step(t, Slot::Property(lang)));
    assert(current_digest(kind, t2) == current_digest(kind, t));
}

/// A node's digest is its own: editing a sibling in the same array leaves
/// the node, and so its digest and compile plan, as they were.
pub proof fn law_sibling_edit_keeps_node(t: Tree, path: Seq<Slot>, i: usize, j: usize, e: Edit, t2: Tree)
    requires
        resolve(t, path) matches Some(Tree::Array(items)) && i < items.len() && j < items.len(),
        i != j,
        edit(t, path.push(Slot::Index(j)), e) == Ok::<Tree, PatchError>(t2),
    ensures
        resolve(t2, path.push(Slot::Index(i))) == resolve(t, path.push(Slot::Index(i))),
        plan_spec(resolve(t2, path.push(Slot::Index(i)))->0) == plan_spec(
            resolve(t, path.push(Slot::Index(i)))->0,
        ),
{
    let x = resolve(t, path)->0;
    lemma_resolve_push(t, path, Slot::Index(j));
    lemma_resolve_push(t, path, Slot::Index(i));
    lemma_edit_local(t, path.push(Slot::Index(j)), e);
    let y = local(x->Array_0[j as int], e)->Ok_0;
    lemma_edit_assign_push(t, path, Slot::Index(j), y);
    lemma_edit_assign_ok(t, path, put(x, Slot::Index(j), y));
    lemma_resolve_push(t2, path, Slot::Index(i));
}

/// A stale executable node that the walk found, and its compile plan.
#[derive(Debug)]
pub struct CompileTask {
    pub address: Address,
    pub plan: CompilePlan,
}

/// The models of a list of tasks.
pub open spec fn tasks_model(v: Seq<CompileTask>) -> Seq<(Seq<Slot>, PlanModel)> {
    v.map_values(|t: CompileTask| (t.address@, t.plan@))
}

/// The tasks that a pre-order walk of `t`, located at `path`, finds. An
/// executable node is compiled and its children are not walked; where its
/// digest is unchanged it gives no task. Other nodes and arrays are walked
/// into, in order.
pub open spec fn tasks(t: Tree, path: Seq<Slot>) -> Seq<(Seq<Slot>, PlanModel)>
    decreases t,
{
    match t {
        Tree::Node(ty, _, props) => match exec_kind_of(ty) {
            Some(kind) => if plan_for(kind, t) is Unchanged {
                Seq::empty()
            } else {
                seq![(path, plan_for(kind, t))]
            },
            None => tasks_props(props, path),
        },
        Tree::Array(items) => tasks_items(items, path),
        _ => Seq::empty(),
    }
}

/// The tasks that walking the elements of an array finds.
pub open spec fn tasks_items(items: Seq<Tree>, path: Seq<Slot>) -> Seq<(Seq<Slot>, PlanModel)>
    decreases items,
{
    if items.len() == 0 {
        Seq::empty()
    } else {
        tasks_items(items.drop_last(), path) + tasks(
            items.last(),
            path.push(Slot::Index((items.len() - 1) as usize)),
        )
    }
}

/// The tasks that walking the properties of a node finds.
pub open spec fn tasks_props(props: Seq<(NodeProperty, Tree)>, path: Seq<Slot>) -> Seq<
    (Seq<Slot>, PlanModel),
>
    decreases props,
{
    if props.len() == 0 {
        Seq::empty()
    } else {
        tasks_props(props.drop_last(), path) + tasks(
            props.last().1,
            path.push(Slot::Property(props.last().0)),
        )
    }
}

fn walk_value(v: &Value, path: &Address, out: &mut Vec<CompileTask>)
    ensures
        tasks_model(final(out)@) == tasks_model(old(out)@) + tasks(v@, path@),
    decreases v,
{
    match v {
        Value::Node(node) => {
            match compile_plan(v) {
                Some(plan) => {
                    match plan {
                        CompilePlan::Unchanged => {
                            assert(tasks_model(out@) + tasks(v@, path@) =~= tasks_model(out@));
                        },
                        _ => {
                            let ghost prev = out@;
                            let ghost m = (path@, plan@);
                            out.push(CompileTask { address: copy_path(path), plan });
                            assert(tasks_model(out@) =~= tasks_model(prev) + seq![m]);
                        },
                    }
                },
                None => {
                    walk_props(&node.properties, path, out);
                },
            }
        },
        Value::Array(items) => {
            walk_values(items, path, out);
        },
        _ => {
            assert(tasks_model(out@) + tasks(v@, path@) =~= tasks_model(out@));
        },
    }
}

fn walk_values(items: &Vec<Value>, path: &Address, out: &mut Vec<CompileTask>)
    ensures
        tasks_model(final(out)@) == tasks_model(old(out)@) + tasks_items(trees_of(items@), path@),
    decreases items,
{
    proof {
        lemma_trees_of(items@);
    }
    let ghost all = trees_of(items@);
    let mut i: usize = 0;
    assert(all.take(0) =~= Seq::<Tree>::empty());
    assert(tasks_model(out@) + tasks_items(all.take(0), path@) =~= tasks_model(out@));
    while i < items.len()
        invariant
            i <= items@.len(),
            all == trees_of(items@),
            all.len() == items@.len(),
            forall|j: int| 0 <= j < items@.len() ==> #[trigger] all[j] == tree_of(&items@[j]),
            tasks_model(out@) == tasks_model(old(out)@) + tasks_items(all.take(i as int), path@),
        decreases items@.len() - i,
    {
        let sub = path_with(path, Slot::Index(i));
        proof {
            assert(decreases_to!(items => items@[i as int]));
            let next = all.take(i + 1);
            assert(next.drop_last() =~= all.take(i as int));
            assert(next.last() == all[i as int]);
        }
        walk_value(&items[i], &sub, out);
        proof {
            assert(tasks_model(out@) =~= tasks_model(old(out)@) + tasks_items(
                all.take(i + 1),
                path@,
            ));
        }
        i = i + 1;
    }
    assert(all.take(items@.len() as int) =~= all);
}

fn walk_props(props: &Vec<Property>, path: &Address, out: &mut Vec<CompileTask>)
    ensures
        tasks_model(final(out)@) == tasks_model(old(out)@) + tasks_props(props_of(props@), path@),
    decreases props,
{
    proof {
        lemma_props_of(props@);
    }
    let ghost all = props_of(props@);
    let mut i: usize = 0;
    assert(all.take(0) =~= Seq::<(NodeProperty, Tree)>::empty());
    assert(tasks_model(out@) + tasks_props(all.take(0), path@) =~= tasks_model(out@));
    while i < props.len()
        invariant
            i <= props@.len(),
            all == props_of(props@),
            all.len() == props@.len(),
            forall|j: int|
                0 <= j < props@.len() ==> #[trigger] all[j] == (
                    props@[j].name,
                    tree_of(&props@[j].value),
                ),
            tasks_model(out@) == tasks_model(old(out)@) + tasks_props(all.take(i as int), path@),
        decreases props@.len() - i,
    {
        let sub = path_with(path, Slot::Property(props[i].name));
        proof {
            assert(decreases_to!(props => props@[i as int]));
            let next = all.take(i + 1);
            assert(next.drop_last() =~= all.take(i as int));
            assert(next.last() == all[i as int]);
        }
        walk_value(&props[i].value, &sub, out);
        proof {
            assert(tasks_model(out@) =~= tasks_model(old(out)@) + tasks_props(
                all.take(i + 1),
                path@,
            ));
        }
        i = i + 1;
    }
    assert(all.take(props@.len() as int) =~= all);
}

/// Walks `root` depth first, in document order, and lists the executable
/// nodes that must be recompiled, with their addresses and plans. Nodes
/// whose digest is unchanged are skipped together with their children.
pub fn compile_walk(root: &Value) -> (r: Vec<CompileTask>)
    ensures
        tasks_model(r@) == tasks(root@, Seq::empty()),
{
    let mut out: Vec<CompileTask> = Vec::new();
    let path: Address = Vec::new();
    assert(tasks_model(out@) =~= Seq::<(Seq<Slot>, PlanModel)>::empty());
    assert(path@ =~= Seq::<Slot>::empty());
    walk_value(root, &path, &mut out);
    assert(tasks_model(out@) =~= tasks(root@, Seq::empty()));
    out
}

} // verus!
