use to_do_parcer::{Priority, TaskStatus, ToDoParser};

#[test]
fn empty_project() {
    let p = ToDoParser::parse_projects(r#"project "Empty" {}"#).unwrap();
    assert_eq!(p.len(), 1);
    assert_eq!(p[0].name, "Empty");
    assert_eq!(p[0].tasks.len(), 0);
}

#[test]
fn single_todo_task() {
    let p = ToDoParser::parse_projects(r#"project "Test" { todo: "Task", }"#).unwrap();
    assert_eq!(p[0].tasks[0].title, "Task");
    assert_eq!(p[0].tasks[0].status, TaskStatus::Todo);
}

#[test]
fn single_done_task() {
    let p = ToDoParser::parse_projects(r#"project "Test" { done: "Done", }"#).unwrap();
    assert_eq!(p[0].tasks[0].status, TaskStatus::Done);
}

#[test]
fn priorities() {
    let p = ToDoParser::parse_projects(
        r#"project "Test" {
            todo: "H", @high,
            todo: "M", @medium,
            todo: "L", @low,
        }"#,
    )
    .unwrap();
    assert_eq!(p[0].tasks[0].priority, Some(Priority::High));
    assert_eq!(p[0].tasks[1].priority, Some(Priority::Medium));
    assert_eq!(p[0].tasks[2].priority, Some(Priority::Low));
}

#[test]
fn due_dates() {
    let p = ToDoParser::parse_projects(
        r#"project "Test" {
            todo: "T1", due: 2025-01-15,
            todo: "T2", due: 2025-06-30,
        }"#,
    )
    .unwrap();
    assert_eq!(p[0].tasks[0].due_date, Some("2025-01-15".to_string()));
    assert_eq!(p[0].tasks[1].due_date, Some("2025-06-30".to_string()));
}

#[test]
fn assignees() {
    let p = ToDoParser::parse_projects(
        r#"project "Test" {
            todo: "T", assign: @john_doe,
        }"#,
    )
    .unwrap();
    assert_eq!(p[0].tasks[0].assignee, Some("john_doe".to_string()));
}

#[test]
fn dependencies() {
    let p = ToDoParser::parse_projects(
        r#"project "Test" {
            todo: "A",
            todo: "B", depends_on: "A",
        }"#,
    )
    .unwrap();
    assert_eq!(p[0].tasks[1].depends_on, Some("A".to_string()));
}

#[test]
fn tags() {
    let p = ToDoParser::parse_projects(
        r#"project "Test" {
            todo: "T", @tag: "bug", @tag: "urgent",
        }"#,
    )
    .unwrap();
    assert_eq!(p[0].tasks[0].tags.len(), 2);
    assert!(p[0].tasks[0].tags.contains(&"bug".to_string()));
    assert!(p[0].tasks[0].tags.contains(&"urgent".to_string()));
}

#[test]
fn all_attributes_combined() {
    let p = ToDoParser::parse_projects(r#"project "Test" {
            todo: "Complex", @high, due: 2025-12-31, assign: @alice, depends_on: "Prev", @tag: "important",
        }"#).unwrap();
    let t = &p[0].tasks[0];
    assert_eq!(t.title, "Complex");
    assert_eq!(t.status, TaskStatus::Todo);
    assert_eq!(t.priority, Some(Priority::High));
    assert_eq!(t.due_date, Some("2025-12-31".to_string()));
    assert_eq!(t.assignee, Some("alice".to_string()));
    assert_eq!(t.depends_on, Some("Prev".to_string()));
    assert_eq!(t.tags.len(), 1);
}

#[test]
fn multiple_tasks() {
    let p = ToDoParser::parse_projects(
        r#"project "Test" {
            todo: "T1",
            done: "T2",
            todo: "T3", @high,
        }"#,
    )
    .unwrap();
    assert_eq!(p[0].tasks.len(), 3);
    assert_eq!(p[0].tasks[0].status, TaskStatus::Todo);
    assert_eq!(p[0].tasks[1].status, TaskStatus::Done);
    assert_eq!(p[0].tasks[2].priority, Some(Priority::High));
}

#[test]
fn multiple_projects() {
    let p = ToDoParser::parse_projects(
        r#"
        project "P1" { todo: "A", }
        project "P2" { todo: "B", done: "C", }
        "#,
    )
    .unwrap();
    assert_eq!(p.len(), 2);
    assert_eq!(p[0].name, "P1");
    assert_eq!(p[1].name, "P2");
    assert_eq!(p[0].tasks.len(), 1);
    assert_eq!(p[1].tasks.len(), 2);
}

#[test]
fn unicode_support() {
    let p = ToDoParser::parse_projects(
        "project \"\u{41f}\u{440}\u{43e}\u{435}\u{43a}\u{442}\" {\n            todo: \"\u{417}\u{430}\u{432}\u{434}\u{430}\u{43d}\u{43d}\u{44f} \u{1f680}\",\n        }",
    )
    .unwrap();
    assert_eq!(p[0].name, "\u{41f}\u{440}\u{43e}\u{435}\u{43a}\u{442}");
    assert_eq!(
        p[0].tasks[0].title,
        "\u{417}\u{430}\u{432}\u{434}\u{430}\u{43d}\u{43d}\u{44f} \u{1f680}"
    );
}

#[test]
fn special_characters() {
    let p = ToDoParser::parse_projects(
        r#"project "Test" {
            todo: "Chars: !@#$%^&*()",
        }"#,
    )
    .unwrap();
    assert_eq!(p[0].tasks[0].title, "Chars: !@#$%^&*()");
}

#[test]
fn minimal_whitespace() {
    let p = ToDoParser::parse_projects(r#"project "T"{todo:"X",}"#).unwrap();
    assert_eq!(p[0].tasks.len(), 1);
}

#[test]
fn excessive_whitespace() {
    let p = ToDoParser::parse_projects(
        r#"
        project   "T"   {
            todo:    "X"   ,   @high   ,
        }
        "#,
    )
    .unwrap();
    assert_eq!(p[0].tasks[0].priority, Some(Priority::High));
}

#[test]
fn with_comments() {
    let p = ToDoParser::parse_projects(
        r#"
        // Comment
        project "Test" {
            // Another comment
            todo: "Task", // Inline
        }
        "#,
    )
    .unwrap();
    assert_eq!(p[0].tasks.len(), 1);
}

#[test]
fn attribute_order_independence() {
    let p1 = ToDoParser::parse_projects(
        r#"project "T" { todo: "X", @high, due: 2025-12-31, assign: @u, }"#,
    )
    .unwrap();
    let p2 = ToDoParser::parse_projects(
        r#"project "T" { todo: "X", assign: @u, @high, due: 2025-12-31, }"#,
    )
    .unwrap();
    assert_eq!(p1[0].tasks[0].priority, p2[0].tasks[0].priority);
    assert_eq!(p1[0].tasks[0].due_date, p2[0].tasks[0].due_date);
    assert_eq!(p1[0].tasks[0].assignee, p2[0].tasks[0].assignee);
}

#[test]
fn realistic_workflow() {
    let p = ToDoParser::parse_projects(
        r#"
        project "Sprint" {
            todo: "Design", @high, due: 2025-11-15, assign: @designer, @tag: "frontend",
            todo: "Auth", @high, due: 2025-11-20, depends_on: "DB", @tag: "backend",
            done: "DB", @medium, assign: @dev,
        }
        "#,
    )
    .unwrap();
    assert_eq!(p[0].tasks.len(), 3);
    let completed = p[0]
        .tasks
        .iter()
        .filter(|t| t.status == TaskStatus::Done)
        .count();
    assert_eq!(completed, 1);
}

#[test]
fn last_priority_wins() {
    let p = ToDoParser::parse_projects(r#"project "T" { todo: "X", @high, @low, }"#).unwrap();
    assert_eq!(p[0].tasks[0].priority, Some(Priority::Low));
}

#[test]
fn duplicate_tags_kept() {
    let p =
        ToDoParser::parse_projects(r#"project "T" { todo: "X", @tag: "a", @tag: "a", }"#).unwrap();
    assert_eq!(p[0].tasks[0].tags, vec!["a".to_string(), "a".to_string()]);
}

#[test]
fn tags_keep_source_order() {
    let p = ToDoParser::parse_projects(r#"project "T" { todo: "X", @tag: "b", @tag: "a", }"#)
        .unwrap();
    assert_eq!(p[0].tasks[0].tags, vec!["b".to_string(), "a".to_string()]);
}

#[test]
fn whitespace_around_colon() {
    let p = ToDoParser::parse_projects(r#"project "T" { todo : "X", }"#).unwrap();
    assert_eq!(p[0].tasks[0].title, "X");
}

#[test]
fn empty_title_allowed() {
    let p = ToDoParser::parse_projects(r#"project "T" { todo: "", }"#).unwrap();
    assert_eq!(p[0].tasks[0].title, "");
}

#[test]
fn parse_single_project_fragment() {
    let p = ToDoParser::parse_project(r#"project "Solo" { done: "It", }"#).unwrap();
    assert_eq!(p.name, "Solo");
    assert_eq!(p.tasks.len(), 1);
    assert_eq!(p.tasks[0].status, TaskStatus::Done);
}

#[test]
fn completed_count_counts_done_tasks() {
    let p = ToDoParser::parse_projects(
        r#"project "P" { todo: "A", done: "B", done: "C", }"#,
    )
    .unwrap();
    assert_eq!(p[0].completed_count(), 2);
    assert_eq!(p[0].tasks.len() - p[0].completed_count(), 1);
}

#[test]
fn comment_between_attributes() {
    let plain = r#"project "T" { todo: "X", @high, due: 2025-12-31, }"#;
    let commented = "project \"T\" { // name\n todo: \"X\", // here\n @high, // there\n due: 2025-12-31,\n }";
    let p1 = ToDoParser::parse_projects(plain).unwrap();
    let p2 = ToDoParser::parse_projects(commented).unwrap();
    assert_eq!(p1[0].tasks[0].priority, p2[0].tasks[0].priority);
    assert_eq!(p1[0].tasks[0].due_date, p2[0].tasks[0].due_date);
    assert_eq!(p1[0].tasks[0].title, p2[0].tasks[0].title);
}

#[test]
fn test_file_rule() {
    let input = r#"project "Test" { todo: "Task", }"#;
    assert!(ToDoParser::parse_projects(input).is_ok());
}

#[test]
fn test_project_rule() {
    let input = r#"project "My Project" { }"#;
    let p = ToDoParser::parse_project(input).unwrap();
    assert!(p.name.contains("My Project"));
}

#[test]
fn test_comment_rule() {
    let input = r#"
        // This is a comment
        project "Test" {
            todo: "Task",
        }
        "#;
    assert!(ToDoParser::parse_projects(input).is_ok());
}
