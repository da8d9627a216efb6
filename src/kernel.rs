//! The kernel boundary: diagnostics, the registry of kernels by language,
//! and the statement grammar of the calculator kernel.
//!
//! Kernels themselves run outside the library; what they exchange with it
//! are plain values: code in, [`KernelOutcome`]s out. Failure inside a
//! kernel is data: an outcome with messages, not an error.

use vstd::prelude::*;

use crate::text::{is_white_space, texts, trim_text, trimmed, white_space};
use crate::value::Value;

verus! {

/// The severity of a diagnostic message.
#[derive(Debug, Clone, Copy, PartialEq, Eq, Structural)]
pub enum MessageLevel {
    Trace,
    Debug,
    Info,
    Warning,
    Error,
    Exception,
}

/// A diagnostic message produced while compiling or executing code.
#[derive(Debug)]
pub struct ExecutionMessage {
    pub level: MessageLevel,
    pub message: String,
    pub error_type: Option<String>,
    pub stack_trace: Option<String>,
}

/// What a kernel returns for a piece of code: its outputs and messages.
#[derive(Debug)]
pub struct KernelOutcome {
    pub outputs: Vec<Value>,
    pub messages: Vec<ExecutionMessage>,
}

/// Whether a kernel can take work now.
#[derive(Debug, Clone, Copy, PartialEq, Eq, Structural)]
pub enum KernelStatus {
    /// Ready to execute code.
    Idle,
    /// Executing code.
    Busy,
}

/// A kernel's name and the languages that it executes.
#[derive(Debug)]
pub struct KernelSpec {
    pub name: String,
    pub languages: Vec<String>,
}

/// The severity that an editor shows for a message level, as the numbers
/// of the language server protocol: error 1, warning 2, information 3, hint 4.
pub open spec fn severity_of(level: MessageLevel) -> u8 {
    match level {
        MessageLevel::Error | MessageLevel::Exception => 1,
        MessageLevel::Warning => 2,
        MessageLevel::Info => 3,
        MessageLevel::Debug | MessageLevel::Trace => 4,
    }
}

/// The severity that an editor shows for a message level.
pub fn diagnostic_severity(level: MessageLevel) -> (r: u8)
    ensures
        r == severity_of(level),
{
    match level {
        MessageLevel::Error | MessageLevel::Exception => 1,
        MessageLevel::Warning => 2,
        MessageLevel::Info => 3,
        MessageLevel::Debug | MessageLevel::Trace => 4,
    }
}

/// Whether a kernel executes `language`.
pub open spec fn supports(k: KernelSpec, language: Seq<char>) -> bool {
    exists|j: int| 0 <= j < k.languages@.len() && (#[trigger] k.languages@[j])@ == language
}

/// Whether the kernel executes `language`.
pub fn kernel_supports(k: &KernelSpec, language: &str) -> (r: bool)
    ensures
        r == supports(*k, language@),
{
    let mut j: usize = 0;
    while j < k.languages.len()
        invariant
            j <= k.languages@.len(),
            forall|x: int| 0 <= x < j ==> (#[trigger] k.languages@[x])@ != language@,
        decreases k.languages@.len() - j,
    {
        if crate::text::same_text(k.languages[j].as_str(), language) {
            return true;
        }
        j = j + 1;
    }
    false
}

/// The position of the first kernel that executes `language`, or `None`
/// where no kernel does.
pub fn select_kernel(kernels: &Vec<KernelSpec>, language: &str) -> (r: Option<usize>)
    ensures
        r matches Some(i) ==> i < kernels@.len() && supports(kernels@[i as int], language@)
            && forall|j: int| 0 <= j < i ==> !supports(#[trigger] kernels@[j], language@),
        r is None ==> forall|j: int|
            0 <= j < kernels@.len() ==> !supports(#[trigger] kernels@[j], language@),
{
    let mut i: usize = 0;
    while i < kernels.len()
        invariant
            i <= kernels@.len(),
            forall|j: int| 0 <= j < i ==> !supports(#[trigger] kernels@[j], language@),
        decreases kernels@.len() - i,
    {
        if kernel_supports(&kernels[i], language) {
            return Some(i);
        }
        i = i + 1;
    }
    None
}

/// The outcome for code in a language that no kernel executes: no
/// outputs, and one error naming the language.
pub fn kernel_not_found(language: &str) -> (r: KernelOutcome)
    ensures
        r.outputs@.len() == 0,
        r.messages@.len() == 1,
        r.messages@[0].level == MessageLevel::Error,
        r.messages@[0].message@ == "No kernel available for language: "@ + language@,
        r.messages@[0].error_type is None,
        r.messages@[0].stack_trace is None,
{
    let message = "No kernel available for language: ".to_owned().concat(language);
    let m = ExecutionMessage {
        level: MessageLevel::Error,
        message,
        error_type: None,
        stack_trace: None,
    };
    KernelOutcome { outputs: Vec::new(), messages: vec![m] }
}

/// Whether a character separates statements of calculator code.
pub open spec fn is_separator(c: char) -> bool {
    c == '\n' || c == ';'
}

/// The pieces of `s` between separators, in order; `s` without separators
/// is one piece.
pub open spec fn pieces(s: Seq<char>) -> Seq<Seq<char>>
    decreases s.len(),
{
    if s.len() == 0 {
        seq![Seq::empty()]
    } else {
        let ps = pieces(s.drop_last());
        if is_separator(s.last()) {
            ps.push(Seq::empty())
        } else {
            ps.update(ps.len() - 1, ps.last().push(s.last()))
        }
    }
}

/// Text always has at least one piece.
pub proof fn lemma_pieces_len(s: Seq<char>)
    ensures
        pieces(s).len() >= 1,
    decreases s.len(),
{
    if s.len() > 0 {
        lemma_pieces_len(s.drop_last());
    }
}

/// Splits calculator code into statements at newlines and semicolons.
pub fn split_statements(code: &str) -> (r: Vec<String>)
    ensures
        texts(r@) == pieces(code@),
{
    let n = code.unicode_len();
    let mut done: Vec<String> = Vec::new();
    let mut start: usize = 0;
    let mut i: usize = 0;
    assert(code@.take(0) =~= Seq::<char>::empty());
    assert(texts(done@).push(code@.subrange(0, 0)) =~= pieces(Seq::<char>::empty()));
    while i < n
        invariant
            n == code@.len(),
            start <= i <= n,
            texts(done@).push(code@.subrange(start as int, i as int)) == pieces(
                code@.take(i as int),
            ),
        decreases n - i,
    {
        let c = code.get_char(i);
        let ghost before = code@.take(i as int);
        proof {
            let after = code@.take(i + 1);
            assert(after.drop_last() =~= before);
            assert(after.last() == c);
            lemma_pieces_len(before);
        }
        if c == '\n' || c == ';' {
            let piece = code.substring_char(start, i).to_owned();
            let ghost prev = done@;
            done.push(piece);
            proof {
                assert(texts(done@) =~= texts(prev).push(code@.subrange(start as int, i as int)));
                assert(code@.subrange(i + 1, i + 1) =~= Seq::<char>::empty());
            }
            start = i + 1;
        } else {
            proof {
                assert(code@.subrange(start as int, i + 1) =~= code@.subrange(
                    start as int,
                    i as int,
                ).push(c));
                assert(texts(done@).push(code@.subrange(start as int, i + 1)) =~= texts(
                    done@,
                ).push(code@.subrange(start as int, i as int)).update(
                    texts(done@).len() as int,
                    code@.subrange(start as int, i as int).push(c),
                ));
            }
        }
        i = i + 1;
    }
    let last = code.substring_char(start, n).to_owned();
    let ghost prev = done@;
    done.push(last);
    proof {
        assert(code@.take(n as int) =~= code@);
        assert(texts(done@) =~= texts(prev).push(code@.subrange(start as int, n as int)));
    }
    done
}

/// Whether a character can start a variable name: an ASCII letter or `_`.
pub open spec fn is_ident_start(c: char) -> bool {
    ('a' <= c && c <= 'z') || ('A' <= c && c <= 'Z') || c == '_'
}

/// Whether a character can continue a variable name: also an ASCII digit.
pub open spec fn is_ident_char(c: char) -> bool {
    is_ident_start(c) || ('0' <= c && c <= '9')
}

/// The end of the run of identifier characters of `s` that starts at `i`.
pub open spec fn ident_end(s: Seq<char>, i: int) -> int
    decreases s.len() - i,
{
    if 0 <= i < s.len() && is_ident_char(s[i]) {
        ident_end(s, i + 1)
    } else {
        i
    }
}

/// The end of the run of spaces of `s` that starts at `i`.
pub open spec fn space_end(s: Seq<char>, i: int) -> int
    decreases s.len() - i,
{
    if 0 <= i < s.len() && is_white_space(s[i]) {
        space_end(s, i + 1)
    } else {
        i
    }
}

/// Whether a name starts at `q` in `s` and is followed by optional
/// whitespace and `=`.
pub open spec fn assignment_at(s: Seq<char>, q: int) -> bool {
    &&& 0 <= q < s.len()
    &&& is_ident_start(s[q])
    &&& 0 <= space_end(s, ident_end(s, q + 1)) < s.len()
    &&& s[space_end(s, ident_end(s, q + 1))] == '='
}

/// The first position at or after `q` where an assignment starts.
pub open spec fn first_assignment(s: Seq<char>, q: int) -> Option<int>
    decreases s.len() - q,
{
    if q < 0 || q >= s.len() {
        None
    } else if assignment_at(s, q) {
        Some(q)
    } else {
        first_assignment(s, q + 1)
    }
}

/// Where `s` holds an assignment `name = expression`: the name, and the
/// expression (all that follows `=`). The assignment is the leftmost match
/// of `\s*([a-zA-Z_][a-zA-Z_0-9]*)\s*=(.*)`, whitespace being Unicode
/// whitespace: its name need not start the text.
pub open spec fn assignment(s: Seq<char>) -> Option<(Seq<char>, Seq<char>)> {
    match first_assignment(s, 0) {
        Some(q) => Some(
            (
                s.subrange(q, ident_end(s, q + 1)),
                s.skip(space_end(s, ident_end(s, q + 1)) + 1),
            ),
        ),
        None => None,
    }
}

/// A statement of calculator code: an expression, and the variable that
/// its value is assigned to, if any.
#[derive(Debug)]
pub struct Statement {
    pub symbol: Option<String>,
    pub expr: String,
}

impl Statement {
    /// The model of this statement.
    pub open spec fn model(&self) -> (Option<Seq<char>>, Seq<char>) {
        (
            match self.symbol {
                Some(s) => Some(s@),
                None => None,
            },
            self.expr@,
        )
    }
}

/// The statement that a trimmed piece of code holds: none where it is blank
/// or a comment (starts with `#`).
pub open spec fn statement_of(t: Seq<char>) -> Option<(Option<Seq<char>>, Seq<char>)> {
    if t.len() == 0 || t[0] == '#' {
        None
    } else {
        match assignment(t) {
            Some((name, expr)) => Some((Some(name), expr)),
            None => Some((None, t)),
        }
    }
}

fn ident_start(c: char) -> (r: bool)
    ensures
        r == is_ident_start(c),
{
    ('a' <= c && c <= 'z') || ('A' <= c && c <= 'Z') || c == '_'
}

fn ident_char(c: char) -> (r: bool)
    ensures
        r == is_ident_char(c),
{
    ident_start(c) || ('0' <= c && c <= '9')
}

proof fn lemma_ident_end(s: Seq<char>, i: int)
    requires
        0 <= i <= s.len(),
    ensures
        i <= ident_end(s, i) <= s.len(),
    decreases s.len() - i,
{
    if i < s.len() && is_ident_char(s[i]) {
        lemma_ident_end(s, i + 1);
    }
}

proof fn lemma_space_end(s: Seq<char>, i: int)
    requires
        0 <= i <= s.len(),
    ensures
        i <= space_end(s, i) <= s.len(),
    decreases s.len() - i,
{
    if i < s.len() && is_white_space(s[i]) {
        lemma_space_end(s, i + 1);
    }
}

/// Where an assignment starts at `q` in `t`: the end of its name and the
/// position of its `=`.
fn assignment_at_exec(t: &str, len: usize, q: usize) -> (r: Option<(usize, usize)>)
    requires
        len == t@.len(),
        q < len,
    ensures
        r is Some <==> assignment_at(t@, q as int),
        r matches Some((e, m)) ==> e == ident_end(t@, q + 1) && m == space_end(t@, e as int) && m
            < len,
{
    if !ident_start(t.get_char(q)) {
        return None;
    }
    let mut e: usize = q + 1;
    while e < len && ident_char(t.get_char(e))
        invariant
            q + 1 <= e <= len,
            len == t@.len(),
            ident_end(t@, q + 1) == ident_end(t@, e as int),
        decreases len - e,
    {
        e = e + 1;
    }
    assert(ident_end(t@, e as int) == e);
    let mut m: usize = e;
    while m < len && white_space(t.get_char(m))
        invariant
            e <= m <= len,
            len == t@.len(),
            space_end(t@, e as int) == space_end(t@, m as int),
        decreases len - m,
    {
        m = m + 1;
    }
    assert(space_end(t@, m as int) == m);
    if m < len && t.get_char(m) == '=' {
        Some((e, m))
    } else {
        None
    }
}

/// The statement that the trimmed text `t` holds.
pub fn classify_statement(t: &str) -> (r: Option<Statement>)
    ensures
        r matches Some(st) ==> statement_of(t@) == Some(st.model()),
        r is None ==> statement_of(t@) is None,
{
    let len = t.unicode_len();
    if len == 0 {
        return None;
    }
    if t.get_char(0) == '#' {
        return None;
    }
    let mut q: usize = 0;
    while q < len
        invariant
            q <= len,
            0 < len == t@.len(),
            t@[0] != '#',
            first_assignment(t@, 0) == first_assignment(t@, q as int),
        decreases len - q,
    {
        match assignment_at_exec(t, len, q) {
            Some((e, m)) => {
                proof {
                    lemma_ident_end(t@, q + 1);
                    assert(first_assignment(t@, q as int) == Some(q as int));
                }
                let symbol = t.substring_char(q, e).to_owned();
                let expr = t.substring_char(m + 1, len).to_owned();
                assert(t@.subrange(m + 1, len as int) =~= t@.skip(m + 1));
                return Some(Statement { symbol: Some(symbol), expr });
            },
            None => {},
        }
        q = q + 1;
    }
    assert(first_assignment(t@, len as int) is None);
    Some(Statement { symbol: None, expr: t.to_owned() })
}

/// The statements of the pieces `ps`, each trimmed, in order, without
/// blanks and comments.
pub open spec fn statements_of(ps: Seq<Seq<char>>) -> Seq<(Option<Seq<char>>, Seq<char>)>
    decreases ps.len(),
{
    if ps.len() == 0 {
        Seq::empty()
    } else {
        let rest = statements_of(ps.drop_last());
        match statement_of(trimmed(ps.last())) {
            Some(st) => rest.push(st),
            None => rest,
        }
    }
}

/// The models of a list of statements.
pub open spec fn statement_models(v: Seq<Statement>) -> Seq<(Option<Seq<char>>, Seq<char>)> {
    v.map_values(|s: Statement| s.model())
}

/// The statements of calculator code, in order: the code is split at
/// newlines and semicolons, each piece is trimmed, and blank pieces and
/// comments are dropped.
pub fn parse_statements(code: &str) -> (r: Vec<Statement>)
    ensures
        statement_models(r@) == statements_of(pieces(code@)),
{
    let parts = split_statements(code);
    let ghost ps = pieces(code@);
    let mut out: Vec<Statement> = Vec::new();
    let mut i: usize = 0;
    assert(ps.take(0) =~= Seq::<Seq<char>>::empty());
    assert(statement_models(out@) =~= Seq::<(Option<Seq<char>>, Seq<char>)>::empty());
    while i < parts.len()
        invariant
            i <= parts@.len(),
            texts(parts@) == ps,
            statement_models(out@) == statements_of(ps.take(i as int)),
        decreases parts@.len() - i,
    {
        let t = trim_text(parts[i].as_str());
        let ghost before = ps.take(i as int);
        proof {
            let after = ps.take(i + 1);
            assert(after.drop_last() =~= before);
            assert(after.last() == parts@[i as int]@);
        }
        match classify_statement(t.as_str()) {
            Some(st) => {
                let ghost prev = out@;
                out.push(st);
                assert(statement_models(out@) =~= statement_models(prev).push(st.model()));
            },
            None => {},
        }
        i = i + 1;
    }
    assert(ps.take(parts@.len() as int) =~= ps);
    out
}

/// A failure of the calculator's expression evaluator.
#[derive(Debug)]
pub enum EvalError {
    /// The expression ended too early.
    UnexpectedEnd,
    /// A variable or function name that is not defined.
    Undefined(String),
    /// A function called with the wrong number of arguments.
    WrongArgs(String),
    /// A value that the expression cannot use.
    InvalidValue,
    /// An expression too long to evaluate.
    TooLong,
    /// An expression too deeply nested to evaluate.
    TooDeep,
    /// Any other failure, with its description.
    Other(String),
}

/// The message reported for an evaluation failure.
pub open spec fn eval_error_text(e: EvalError) -> Seq<char> {
    match e {
        EvalError::UnexpectedEnd => "Unexpected end of Calc expression"@,
        EvalError::Undefined(name) => "Undefined variable or function: "@ + name@,
        EvalError::WrongArgs(msg) => "Function called with wrong number of arguments: "@ + msg@,
        EvalError::InvalidValue => "Unexpected value in expression"@,
        EvalError::TooLong => "Calc expression was too long"@,
        EvalError::TooDeep => "Calc expression was too recursive"@,
        EvalError::Other(d) => "Could not execute Calc expression: "@ + d@,
    }
}

/// The message reported for an evaluation failure.
pub fn eval_error_message(e: &EvalError) -> (r: String)
    ensures
        r@ == eval_error_text(*e),
{
    match e {
        EvalError::UnexpectedEnd => "Unexpected end of Calc expression".to_owned(),
        EvalError::Undefined(name) => "Undefined variable or function: ".to_owned().concat(
            name.as_str(),
        ),
        EvalError::WrongArgs(msg) => "Function called with wrong number of arguments: ".to_owned().concat(
            msg.as_str(),
        ),
        EvalError::InvalidValue => "Unexpected value in expression".to_owned(),
        EvalError::TooLong => "Calc expression was too long".to_owned(),
        EvalError::TooDeep => "Calc expression was too recursive".to_owned(),
        EvalError::Other(d) => "Could not execute Calc expression: ".to_owned().concat(d.as_str()),
    }
}

/// The error message that an evaluation failure is reported as.
pub fn eval_error_to_message(e: &EvalError) -> (r: ExecutionMessage)
    ensures
        r.level == MessageLevel::Error,
        r.message@ == eval_error_text(*e),
        r.error_type is None,
        r.stack_trace is None,
{
    ExecutionMessage {
        level: MessageLevel::Error,
        message: eval_error_message(e),
        error_type: None,
        stack_trace: None,
    }
}

} // verus!
