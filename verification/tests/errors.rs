use leac::error::{caret_line, indent_of, source_line, trimmed, CompileError, CompileErrorId};

#[test]
fn symbol_not_found_message() {
    let e = CompileError::new(
        CompileErrorId::SymbolNotFound("count".to_string()),
        (3, 9),
    );
    assert_eq!(e.message(), "symbol not found: count");
    assert_eq!(e.start, (3, 9));
}

#[test]
fn arg_count_message() {
    let e = CompileError::new(CompileErrorId::UnexpectedArgCount(1), (1, 1));
    assert_eq!(e.message(), "unexpected argument: expected 1 arguments");
    let e2 = CompileError::new(CompileErrorId::UnexpectedArgCount(65535), (1, 1));
    assert_eq!(e2.message(), "unexpected argument: expected 65535 arguments");
    let e3 = CompileError::new(CompileErrorId::UnexpectedArgCount(0), (1, 1));
    assert_eq!(e3.message(), "unexpected argument: expected 0 arguments");
}

#[test]
fn arg_type_message() {
    let e = CompileError::new(
        CompileErrorId::UnexpectedArgType("i32".to_string(), "bool".to_string()),
        (2, 2),
    );
    assert_eq!(e.message(), "unexpected argument: expected a i32, got a bool");
}

#[test]
fn expected_module_message() {
    let e = CompileError::new(CompileErrorId::ExpectedModule, (1, 1));
    assert_eq!(e.message(), "expected a module declaration");
}

#[test]
fn source_line_extraction() {
    let src = "module Main;\nfn main() {\n    broken\n}\n";
    assert_eq!(source_line(src, 1).unwrap(), "module Main;");
    assert_eq!(source_line(src, 2).unwrap(), "fn main() {");
    assert_eq!(source_line(src, 3).unwrap(), "    broken");
    assert_eq!(source_line(src, 4).unwrap(), "}");
    assert_eq!(source_line(src, 5).unwrap(), "");
    assert!(source_line(src, 6).is_none());
    assert!(source_line(src, 0).is_none());
}

#[test]
fn source_line_without_trailing_newline() {
    let src = "one\ntwo";
    assert_eq!(source_line(src, 2).unwrap(), "two");
    assert!(source_line(src, 3).is_none());
}

#[test]
fn indent_and_trim() {
    assert_eq!(indent_of("    broken"), 4);
    assert_eq!(indent_of("broken"), 0);
    assert_eq!(indent_of("      "), 0); // an all-space line keeps offset 0
    assert_eq!(indent_of(""), 0);
    assert_eq!(trimmed("    broken"), "broken");
    assert_eq!(trimmed("broken"), "broken");
}

#[test]
fn caret_points_at_column() {
    // column 9 on a line trimmed by 4 characters: four spaces, then the caret
    assert_eq!(caret_line(9, 4), "    ^");
    assert_eq!(caret_line(1, 0), "^");
    // a column inside the trimmed indentation points at the first character
    assert_eq!(caret_line(2, 4), "^");
}
