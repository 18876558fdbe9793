use rue::{RueType, SourceFile, analyze_source, compile_source, parse_source};

fn source(path: &str, text: &str) -> SourceFile {
    SourceFile::new(path.to_string(), text.to_string())
}

#[test]
fn test_parse_file() {
    let mut file = source("test.rue", "fn main() { 42 }");
    let result = parse_source(&file.text);
    assert!(result.is_ok());

    file.text = "fn main() { 2 + 3 }".to_string();
    let result = parse_source(&file.text);
    assert!(result.is_ok());
}

#[test]
fn test_semantic_analysis_simple() {
    let file = source(
        "test.rue",
        r#"
fn main() {
    42
}
"#,
    );
    let result = analyze_source(&file.text);
    assert!(result.is_ok());

    let (_, scope) = result.unwrap();
    assert!(scope.has_function("main"));
    assert_eq!(scope.function("main").unwrap().param_count, 0);
    assert_eq!(scope.function("main").unwrap().return_type, RueType::I64);
}

#[test]
fn test_semantic_analysis_with_parameter() {
    let file = source(
        "test.rue",
        r#"
fn factorial(n) {
    if n <= 1 {
        1
    } else {
        n * factorial(n - 1)
    }
}
"#,
    );
    let result = analyze_source(&file.text);
    assert!(result.is_ok());

    let (_, scope) = result.unwrap();
    assert!(scope.has_function("factorial"));
    assert_eq!(scope.function("factorial").unwrap().param_count, 1);
}

#[test]
fn test_semantic_analysis_undefined_variable() {
    let file = source(
        "test.rue",
        r#"
fn main() {
    undefined_var
}
"#,
    );
    let result = analyze_source(&file.text);
    assert!(result.is_err());
    let error = result.unwrap_err();
    assert!(error.message.contains("Undefined variable: undefined_var"));
}

#[test]
fn test_semantic_analysis_undefined_function() {
    let file = source(
        "test.rue",
        r#"
fn main() {
    undefined_func(42)
}
"#,
    );
    let result = analyze_source(&file.text);
    assert!(result.is_err());
    let error = result.unwrap_err();
    assert!(error.message.contains("Undefined function: undefined_func"));
}

#[test]
fn test_semantic_analysis_wrong_argument_count() {
    let file = source(
        "test.rue",
        r#"
fn factorial(n) {
    n
}

fn main() {
    factorial()
}
"#,
    );
    let result = analyze_source(&file.text);
    assert!(result.is_err());
    let error = result.unwrap_err();
    assert!(error.message.contains("expects 1 arguments, got 0"));
}

#[test]
fn test_semantic_analysis_let_statement() {
    let file = source(
        "test.rue",
        r#"
fn main() {
    let x = 42;
    x + 1
}
"#,
    );
    let result = analyze_source(&file.text);
    assert!(result.is_ok());
}

#[test]
fn test_compile_simple_program() {
    let file = source(
        "test.rue",
        r#"
fn main() {
    42
}
"#,
    );
    let result = compile_source(&file.text);
    assert!(result.is_ok());

    let executable = result.unwrap();
    assert_eq!(&executable[0..4], &[0x7f, 0x45, 0x4c, 0x46]);
}

#[test]
fn test_compile_factorial() {
    let file = source(
        "factorial.rue",
        r#"
fn factorial(n) {
    if n <= 1 {
        1
    } else {
        n * factorial(n - 1)
    }
}

fn main() {
    factorial(5)
}
"#,
    );
    let result = compile_source(&file.text);
    assert!(result.is_ok());

    let executable = result.unwrap();
    assert_eq!(&executable[0..4], &[0x7f, 0x45, 0x4c, 0x46]);
    assert!(executable.len() > 200);
}

#[test]
fn test_compile_assignment() {
    let file = source(
        "assignment.rue",
        r#"
fn main() {
    let x = 42;
    x = 100;
    x
}
"#,
    );
    let result = compile_source(&file.text);
    if let Err(ref e) = result {
        println!("Compilation error: {}", e.message);
    }
    assert!(result.is_ok());

    let executable = result.unwrap();
    assert_eq!(&executable[0..4], &[0x7f, 0x45, 0x4c, 0x46]);
    println!("Executable length: {}", executable.len());
    assert!(executable.len() > 100);
}

#[test]
fn compile_source_reports_stage_of_failure() {
    let parse_failure = compile_source("fn main( { 1 }").unwrap_err();
    assert!(parse_failure.message.starts_with("Semantic error: Parse error: "));
    let lex_failure = compile_source("fn main() { 1 $ 2 }").unwrap_err();
    assert_eq!(lex_failure.message, "Semantic error: Parse error: Unexpected character");
    let no_main = compile_source("fn helper() { 1 }").unwrap_err();
    assert_eq!(no_main.message, "No main function found");
}
