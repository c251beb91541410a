use to_do_parcer::{ParseError, Rule, ToDoParser};

#[test]
fn test_parse_project_invalid_input() {
    let input = r#"
        project MyProject {
            task DoHomework;
        }
    "#;

    let pairs = ToDoParser::parse_projects(input);
    assert!(pairs.is_err(), "Parser should fail for invalid input");
}

#[test]
fn missing_comma() {
    assert!(
        ToDoParser::parse_projects(
            r#"project "T" {
            todo: "T1"
            todo: "T2",
        }"#
        )
        .is_err()
    );
}

#[test]
fn invalid_date_format() {
    assert!(
        ToDoParser::parse_projects(
            r#"project "T" {
            todo: "X", due: 2025/12/31,
        }"#
        )
        .is_err()
    );
}

#[test]
fn unclosed_quote() {
    assert!(
        ToDoParser::parse_projects(
            r#"project "Test {
            todo: "Task",
        }"#
        )
        .is_err()
    );
}

#[test]
fn missing_braces() {
    assert!(
        ToDoParser::parse_projects(
            r#"project "Test"
            todo: "Task",
        "#
        )
        .is_err()
    );
}

#[test]
fn empty_input() {
    assert!(ToDoParser::parse_projects("").is_err());
}

#[test]
fn whitespace_only() {
    assert!(ToDoParser::parse_projects("   \n\t  \n  ").is_err());
}

#[test]
fn two_digit_year_rejected() {
    assert!(ToDoParser::parse_projects(r#"project "T" { todo: "X", due: 25-12-31, }"#).is_err());
}

#[test]
fn trailing_text_rejected() {
    assert!(ToDoParser::parse_projects(r#"project "A" {} xyz"#).is_err());
}

#[test]
fn errors_are_syntax_failures() {
    for input in ["", "   \n\t  \n  ", "project \"T\" { todo: \"X\" }", "project \"T"] {
        match ToDoParser::parse_projects(input) {
            Err(ParseError::Syntax { .. }) => {}
            other => panic!("expected a syntax failure, got {:?}", other),
        }
    }
}

#[test]
fn missing_comma_position() {
    // The task's trailing comma is missing; the failure is reported at the
    // closing brace, where the comma was expected: offset 26, the first
    // character of the third line.
    let input = "project \"T\" {\n  todo: \"X\"\n}";
    match ToDoParser::parse_projects(input) {
        Err(ParseError::Syntax { rule, offset, line, column }) => {
            assert_eq!(rule, Rule::Task);
            assert_eq!(offset, 26);
            assert_eq!(line, 2);
            assert_eq!(column, 0);
        }
        other => panic!("expected a syntax failure, got {:?}", other),
    }
}

#[test]
fn fragment_rejects_trailing_text() {
    assert!(ToDoParser::parse_project(r#"project "A" {} project "B" {}"#).is_err());
    match ToDoParser::parse_project(r#"project "A" {} x"#) {
        Err(ParseError::Syntax { rule, .. }) => assert_eq!(rule, Rule::File),
        other => panic!("expected a syntax failure, got {:?}", other),
    }
}

#[test]
fn unterminated_title_reported_at_end() {
    match ToDoParser::parse_projects("project \"T\" { todo: \"open") {
        Err(ParseError::Syntax { rule, offset, .. }) => {
            assert_eq!(rule, Rule::Quoted);
            assert_eq!(offset, 25);
        }
        other => panic!("expected a syntax failure, got {:?}", other),
    }
}
