use rue::{Lexer, RueType, Scope, SemanticError, analyze_cst, parse};

fn parse_and_analyze(source: &str) -> Result<Scope, SemanticError> {
    let mut lexer = Lexer::new(source);
    let tokens = lexer.tokenize();
    let ast = parse(tokens).map_err(|e| SemanticError {
        message: format!("Parse error: {}", e.message),
        span: e.span,
    })?;
    analyze_cst(&ast)
}

#[test]
fn lib_test_semantic_analysis_simple() {
    let result = parse_and_analyze(
        r#"
fn main() {
42
}
"#,
    );
    assert!(result.is_ok());

    let scope = result.unwrap();
    assert!(scope.has_function("main"));
    assert_eq!(scope.function("main").unwrap().param_count, 0);
    assert_eq!(scope.function("main").unwrap().return_type, RueType::I64);
}

#[test]
fn lib_test_semantic_analysis_with_parameter() {
    let result = parse_and_analyze(
        r#"
fn factorial(n) {
if n <= 1 {
    1
} else {
    n * factorial(n - 1)
}
}
"#,
    );
    assert!(result.is_ok());

    let scope = result.unwrap();
    assert!(scope.has_function("factorial"));
    assert_eq!(scope.function("factorial").unwrap().param_count, 1);
}

#[test]
fn lib_test_semantic_analysis_undefined_variable() {
    let result = parse_and_analyze(
        r#"
fn main() {
undefined_var
}
"#,
    );
    assert!(result.is_err());

    let error = result.unwrap_err();
    assert!(error.message.contains("Undefined variable: undefined_var"));
}

#[test]
fn lib_test_semantic_analysis_undefined_function() {
    let result = parse_and_analyze(
        r#"
fn main() {
undefined_func(42)
}
"#,
    );
    assert!(result.is_err());

    let error = result.unwrap_err();
    assert!(error.message.contains("Undefined function: undefined_func"));
}

#[test]
fn lib_test_semantic_analysis_wrong_argument_count() {
    let result = parse_and_analyze(
        r#"
fn factorial(n) {
n
}

fn main() {
factorial()
}
"#,
    );
    assert!(result.is_err());

    let error = result.unwrap_err();
    assert!(error.message.contains("expects 1 arguments, got 0"));
}

#[test]
fn lib_test_semantic_analysis_let_statement() {
    let result = parse_and_analyze(
        r#"
fn main() {
let x = 42;
x + 1
}
"#,
    );
    assert!(result.is_ok());
}

#[test]
fn test_semantic_analysis_while_loop() {
    let result = parse_and_analyze(
        r#"
fn countdown(n) {
while n > 0 {
    n - 1
}
}
"#,
    );
    assert!(result.is_ok());
}

#[test]
fn test_semantic_analysis_while_loop_undefined_variable() {
    let result = parse_and_analyze(
        r#"
fn main() {
while undefined_var > 0 {
    42
}
}
"#,
    );
    assert!(result.is_err());

    let error = result.unwrap_err();
    assert!(error.message.contains("Undefined variable: undefined_var"));
}

#[test]
fn test_semantic_analysis_assignment_valid() {
    let result = parse_and_analyze(
        r#"
fn main() {
let x = 42;
x = 100;
x
}
"#,
    );
    assert!(result.is_ok());
}

#[test]
fn test_semantic_analysis_assignment_undefined_variable() {
    let result = parse_and_analyze(
        r#"
fn main() {
undefined_var = 42;
}
"#,
    );
    assert!(result.is_err());

    let error = result.unwrap_err();
    assert!(
        error
            .message
            .contains("Cannot assign to undefined variable: undefined_var")
    );
}

#[test]
fn test_semantic_analysis_assignment_with_expression() {
    let result = parse_and_analyze(
        r#"
fn main() {
let x = 10;
let y = 20;
x = y + 5;
x
}
"#,
    );
    assert!(result.is_ok());
}

#[test]
fn semantic_arity_message_is_exact() {
    let error = parse_and_analyze("fn f(a) { a } fn main() { f() }").unwrap_err();
    assert_eq!(error.message, "Function 'f' expects 1 arguments, got 0");
    assert_eq!(error.span.start, 27);
}

#[test]
fn semantic_rejects_calls_of_later_functions() {
    let error = parse_and_analyze("fn main() { later(1) } fn later(x) { x }").unwrap_err();
    assert_eq!(error.message, "Undefined function: later");
}

#[test]
fn semantic_let_inside_if_block_is_visible_after() {
    let result = parse_and_analyze("fn main() { if 1 { let y = 2; y } else { 0 }; y }");
    assert!(result.is_ok());
}

#[test]
fn semantic_function_bodies_do_not_see_top_level_variables() {
    let error = parse_and_analyze("let x = 5; fn main() { x }").unwrap_err();
    assert_eq!(error.message, "Undefined variable: x");
    assert!(parse_and_analyze("let x = 5; fn main() { 1 }").is_ok());
}
