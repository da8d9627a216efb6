use std::collections::BTreeMap;

use stencila::kernel::{
    diagnostic_severity, eval_error_message, eval_error_to_message, classify_statement,
    parse_statements, select_kernel, split_statements, EvalError, KernelSpec, MessageLevel,
};

#[test]
fn statements_split_at_newlines_and_semicolons() {
    let parts = split_statements("a = 1.23\r\nb = 2; a * 2");
    assert_eq!(parts, vec!["a = 1.23\r", "b = 2", " a * 2"]);
    assert_eq!(split_statements(""), vec![""]);
    assert_eq!(split_statements(";"), vec!["", ""]);
}

#[test]
fn statements_are_parsed() {
    let statements = parse_statements("a = 1.23\n\n# a comment\n a * 2 ;x*2");
    assert_eq!(statements.len(), 3);
    assert_eq!(statements[0].symbol.as_deref(), Some("a"));
    assert_eq!(statements[0].expr, " 1.23");
    assert_eq!(statements[1].symbol, None);
    assert_eq!(statements[1].expr, "a * 2");
    assert_eq!(statements[2].symbol, None);
    assert_eq!(statements[2].expr, "x*2");
}

#[test]
fn assignments_are_the_leftmost_name_then_equals() {
    let s = classify_statement("total_2 \t= a + b").unwrap();
    assert_eq!(s.symbol.as_deref(), Some("total_2"));
    assert_eq!(s.expr, " a + b");
    let s = classify_statement("2 = a").unwrap();
    assert_eq!(s.symbol, None);
    let s = classify_statement("a b = 1").unwrap();
    assert_eq!(s.symbol.as_deref(), Some("b"));
    assert_eq!(s.expr, " 1");
    let s = classify_statement("2 * x\u{2003}=\u{A0}3").unwrap();
    assert_eq!(s.symbol.as_deref(), Some("x"));
    assert_eq!(s.expr, "\u{A0}3");
    assert!(classify_statement("").is_none());
    assert!(classify_statement("# note").is_none());
}

#[test]
fn evaluation_errors_have_messages() {
    assert_eq!(
        eval_error_message(&EvalError::Undefined("x".to_string())),
        "Undefined variable or function: x"
    );
    assert_eq!(eval_error_message(&EvalError::UnexpectedEnd), "Unexpected end of Calc expression");
    assert_eq!(
        eval_error_message(&EvalError::WrongArgs("sin".to_string())),
        "Function called with wrong number of arguments: sin"
    );
    assert_eq!(eval_error_message(&EvalError::InvalidValue), "Unexpected value in expression");
    assert_eq!(eval_error_message(&EvalError::TooLong), "Calc expression was too long");
    assert_eq!(eval_error_message(&EvalError::TooDeep), "Calc expression was too recursive");
    assert_eq!(
        eval_error_message(&EvalError::Other("Oops".to_string())),
        "Could not execute Calc expression: Oops"
    );
    let m = eval_error_to_message(&EvalError::Undefined("x".to_string()));
    assert_eq!(m.level, MessageLevel::Error);
    assert_eq!(m.message, "Undefined variable or function: x");
}

#[test]
fn severities_follow_levels() {
    assert_eq!(diagnostic_severity(MessageLevel::Error), 1);
    assert_eq!(diagnostic_severity(MessageLevel::Exception), 1);
    assert_eq!(diagnostic_severity(MessageLevel::Warning), 2);
    assert_eq!(diagnostic_severity(MessageLevel::Info), 3);
    assert_eq!(diagnostic_severity(MessageLevel::Debug), 4);
    assert_eq!(diagnostic_severity(MessageLevel::Trace), 4);
}

#[test]
fn kernels_are_selected_by_language() {
    let kernels = vec![
        KernelSpec { name: "calc".to_string(), languages: vec!["calc".to_string()] },
        KernelSpec { name: "tex".to_string(), languages: vec!["tex".to_string(), "latex".to_string()] },
        KernelSpec { name: "other".to_string(), languages: vec!["latex".to_string()] },
    ];
    assert_eq!(select_kernel(&kernels, "calc"), Some(0));
    assert_eq!(select_kernel(&kernels, "latex"), Some(1));
    assert_eq!(select_kernel(&kernels, "python"), None);
    assert_eq!(select_kernel(&vec![], "calc"), None);
}

/// Runs calculator code as the calculator kernel does: statements from the
/// library's grammar, evaluation by fasteval, messages from the library.
fn run(symbols: &mut BTreeMap<String, f64>, code: &str) -> (Vec<f64>, Vec<String>) {
    let mut outputs = Vec::new();
    let mut messages = Vec::new();
    for statement in parse_statements(code) {
        let current = symbols.clone();
        let mut cb = |name: &str, _args: Vec<f64>| -> Option<f64> { current.get(name).copied() };
        match fasteval::ez_eval(&statement.expr, &mut cb) {
            Ok(num) => match statement.symbol {
                Some(symbol) => {
                    symbols.insert(symbol, num);
                }
                None => outputs.push(num),
            },
            Err(fasteval::Error::Undefined(name)) => {
                messages.push(eval_error_message(&EvalError::Undefined(name)))
            }
            Err(other) => messages.push(eval_error_message(&EvalError::Other(format!("{:?}", other)))),
        }
    }
    (outputs, messages)
}

#[test]
fn calculator_scenario() {
    let mut symbols = BTreeMap::new();
    let (outputs, messages) = run(&mut symbols, "a = 1.23");
    assert!(outputs.is_empty() && messages.is_empty());
    let (outputs, messages) = run(&mut symbols, "a * 2");
    assert_eq!(outputs, vec![2.46]);
    assert_eq!(messages.len(), 0);
    let (outputs, messages) = run(&mut symbols, "x * 2");
    assert_eq!(outputs.len(), 0);
    assert_eq!(messages, vec!["Undefined variable or function: x".to_string()]);
}

#[test]
fn trimming_removes_unicode_whitespace() {
    let statements = parse_statements("\u{3000} a = 1.23 \u{85}");
    assert_eq!(statements.len(), 1);
    assert_eq!(statements[0].symbol.as_deref(), Some("a"));
    assert_eq!(statements[0].expr, " 1.23");
}
