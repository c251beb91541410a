//! The grammar, written down as specification functions.
//!
//! The language is a parsing-expression grammar: ordered choice, greedy
//! repetition, no backtracking out of a repetition once an item has been
//! consumed.  Whitespace (spaces, tabs, carriage returns, newlines) and line
//! comments (`//` up to the end of the line) are insignificant between
//! tokens.  Each function takes the input as a sequence of characters and a
//! position, and yields either the parsed value with the position after it,
//! or the rule and position at which matching failed.  The executable parser
//! is proved to return exactly these values.

use crate::ast::{Priority, ProjectView, TaskStatus, TaskView};
use vstd::prelude::*;

verus! {

/// The rules of the grammar, used to tag the position at which a parse
/// failed.
#[derive(Debug, Clone, Copy, PartialEq, Eq, Structural)]
pub enum Rule {
    File,
    Project,
    Task,
    TodoTask,
    DoneTask,
    Attribute,
    Priority,
    DueDate,
    Date,
    Assignee,
    DependsOn,
    Tag,
    Identifier,
    Quoted,
}

/// The outcome of matching one grammar rule at a position: either the parsed
/// value together with the position just after it, or the rule and position
/// at which matching failed.
pub enum Step<T> {
    Found { v: T, next: int },
    Failed { rule: Rule, at: int },
}

/// One attribute of a task, as a mathematical value.
pub enum AttrView {
    Priority(Priority),
    Due(Seq<char>),
    Assign(Seq<char>),
    Depends(Seq<char>),
    Tag(Seq<char>),
}

pub open spec fn spec_is_space(c: char) -> bool {
    c == ' ' || c == '\t' || c == '\n' || c == '\r'
}

/// Whether `c` is an ASCII decimal digit.
pub open spec fn spec_is_digit(c: char) -> bool {
    '0' <= c && c <= '9'
}

/// Whether `c` may appear in an identifier: ASCII letters, digits, `_`, `-`.
pub open spec fn spec_is_ident_char(c: char) -> bool {
    ('a' <= c && c <= 'z') || ('A' <= c && c <= 'Z') || spec_is_digit(c) || c == '_' || c == '-'
}

/// The position after the run of whitespace and line comments starting at
/// `i`.
pub open spec fn skip_ws(s: Seq<char>, i: int) -> int
    decreases s.len() - i,
    when 0 <= i <= s.len()
{
    if i < s.len() && spec_is_space(s[i]) {
        skip_ws(s, i + 1)
    } else if i + 1 < s.len() && s[i] == '/' && s[i + 1] == '/' {
        skip_comment(s, i + 2)
    } else {
        i
    }
}

/// The position after the rest of a line comment starting inside it at `i`,
/// and after whatever whitespace and comments follow the line.
pub open spec fn skip_comment(s: Seq<char>, i: int) -> int
    decreases s.len() - i,
    when 0 <= i <= s.len()
{
    if i < s.len() {
        if s[i] == '\n' {
            skip_ws(s, i + 1)
        } else {
            skip_comment(s, i + 1)
        }
    } else {
        i
    }
}

pub proof fn lemma_skip_ws_bounds(s: Seq<char>, i: int)
    requires
        0 <= i <= s.len(),
    ensures
        i <= skip_ws(s, i) <= s.len(),
    decreases s.len() - i,
{
    if i < s.len() && spec_is_space(s[i]) {
        lemma_skip_ws_bounds(s, i + 1);
    } else if i + 1 < s.len() && s[i] == '/' && s[i + 1] == '/' {
        lemma_skip_comment_bounds(s, i + 2);
    }
}

pub proof fn lemma_skip_comment_bounds(s: Seq<char>, i: int)
    requires
        0 <= i <= s.len(),
    ensures
        i <= skip_comment(s, i) <= s.len(),
    decreases s.len() - i,
{
    if i < s.len() {
        if s[i] == '\n' {
            lemma_skip_ws_bounds(s, i + 1);
        } else {
            lemma_skip_comment_bounds(s, i + 1);
        }
    }
}

/// The position of the first `"` at or after `i`, or the end of the input.
pub open spec fn close_quote(s: Seq<char>, i: int) -> int
    decreases s.len() - i,
    when 0 <= i <= s.len()
{
    if i < s.len() {
        if s[i] == '"' {
            i
        } else {
            close_quote(s, i + 1)
        }
    } else {
        i
    }
}

pub proof fn lemma_close_quote_bounds(s: Seq<char>, i: int)
    requires
        0 <= i <= s.len(),
    ensures
        i <= close_quote(s, i) <= s.len(),
    decreases s.len() - i,
{
    if i < s.len() && s[i] != '"' {
        lemma_close_quote_bounds(s, i + 1);
    }
}

/// A quoted string: `"` , any characters except `"` , `"`.  The value is the
/// content with the delimiting quotes stripped; no escape sequences exist.
pub open spec fn parse_quoted(s: Seq<char>, i: int) -> Step<Seq<char>> {
    if i < s.len() && s[i] == '"' {
        let j = close_quote(s, i + 1);
        if j < s.len() {
            Step::Found { v: s.subrange(i + 1, j), next: j + 1 }
        } else {
            Step::Failed { rule: Rule::Quoted, at: s.len() as int }
        }
    } else {
        Step::Failed { rule: Rule::Quoted, at: i }
    }
}

/// The position after the run of identifier characters starting at `i`.
pub open spec fn ident_end(s: Seq<char>, i: int) -> int
    decreases s.len() - i,
    when 0 <= i <= s.len()
{
    if i < s.len() && spec_is_ident_char(s[i]) {
        ident_end(s, i + 1)
    } else {
        i
    }
}

pub proof fn lemma_ident_end_bounds(s: Seq<char>, i: int)
    requires
        0 <= i <= s.len(),
    ensures
        i <= ident_end(s, i) <= s.len(),
    decreases s.len() - i,
{
    if i < s.len() && spec_is_ident_char(s[i]) {
        lemma_ident_end_bounds(s, i + 1);
    }
}

/// An identifier: one or more letters, digits, `_` or `-`.
pub open spec fn parse_identifier(s: Seq<char>, i: int) -> Step<Seq<char>> {
    let j = ident_end(s, i);
    if j > i {
        Step::Found { v: s.subrange(i, j), next: j }
    } else {
        Step::Failed { rule: Rule::Identifier, at: i }
    }
}

/// The strict date shape: exactly `DDDD-DD-DD` with ASCII digits.
pub open spec fn is_strict_date(d: Seq<char>) -> bool {
    d.len() == 10 && spec_is_digit(d[0]) && spec_is_digit(d[1]) && spec_is_digit(d[2])
        && spec_is_digit(d[3]) && d[4] == '-' && spec_is_digit(d[5]) && spec_is_digit(d[6])
        && d[7] == '-' && spec_is_digit(d[8]) && spec_is_digit(d[9])
}

/// A date token; anything but the strict shape is a mismatch.
pub open spec fn parse_date(s: Seq<char>, i: int) -> Step<Seq<char>> {
    if i + 10 <= s.len() && is_strict_date(s.subrange(i, i + 10)) {
        Step::Found { v: s.subrange(i, i + 10), next: i + 10 }
    } else {
        Step::Failed { rule: Rule::Date, at: i }
    }
}

pub open spec fn kw_project_at(s: Seq<char>, i: int) -> bool {
    i + 7 <= s.len() && s[i] == 'p' && s[i + 1] == 'r' && s[i + 2] == 'o' && s[i + 3] == 'j'
        && s[i + 4] == 'e' && s[i + 5] == 'c' && s[i + 6] == 't'
}

pub open spec fn kw_todo_at(s: Seq<char>, i: int) -> bool {
    i + 4 <= s.len() && s[i] == 't' && s[i + 1] == 'o' && s[i + 2] == 'd' && s[i + 3] == 'o'
}

pub open spec fn kw_done_at(s: Seq<char>, i: int) -> bool {
    i + 4 <= s.len() && s[i] == 'd' && s[i + 1] == 'o' && s[i + 2] == 'n' && s[i + 3] == 'e'
}

pub open spec fn kw_due_at(s: Seq<char>, i: int) -> bool {
    i + 3 <= s.len() && s[i] == 'd' && s[i + 1] == 'u' && s[i + 2] == 'e'
}

pub open spec fn kw_assign_at(s: Seq<char>, i: int) -> bool {
    i + 6 <= s.len() && s[i] == 'a' && s[i + 1] == 's' && s[i + 2] == 's' && s[i + 3] == 'i'
        && s[i + 4] == 'g' && s[i + 5] == 'n'
}

pub open spec fn kw_depends_on_at(s: Seq<char>, i: int) -> bool {
    i + 10 <= s.len() && s[i] == 'd' && s[i + 1] == 'e' && s[i + 2] == 'p' && s[i + 3] == 'e'
        && s[i + 4] == 'n' && s[i + 5] == 'd' && s[i + 6] == 's' && s[i + 7] == '_'
        && s[i + 8] == 'o' && s[i + 9] == 'n'
}

pub open spec fn kw_at_tag_at(s: Seq<char>, i: int) -> bool {
    i + 4 <= s.len() && s[i] == '@' && s[i + 1] == 't' && s[i + 2] == 'a' && s[i + 3] == 'g'
}

pub open spec fn kw_at_high_at(s: Seq<char>, i: int) -> bool {
    i + 5 <= s.len() && s[i] == '@' && s[i + 1] == 'h' && s[i + 2] == 'i' && s[i + 3] == 'g'
        && s[i + 4] == 'h'
}

pub open spec fn kw_at_medium_at(s: Seq<char>, i: int) -> bool {
    i + 7 <= s.len() && s[i] == '@' && s[i + 1] == 'm' && s[i + 2] == 'e' && s[i + 3] == 'd'
        && s[i + 4] == 'i' && s[i + 5] == 'u' && s[i + 6] == 'm'
}

pub open spec fn kw_at_low_at(s: Seq<char>, i: int) -> bool {
    i + 4 <= s.len() && s[i] == '@' && s[i + 1] == 'l' && s[i + 2] == 'o' && s[i + 3] == 'w'
}

/// One attribute, by ordered choice: priority, due date, assignee,
/// dependency, tag.
pub open spec fn parse_attribute(s: Seq<char>, i: int) -> Step<AttrView> {
    if kw_at_high_at(s, i) {
        Step::Found { v: AttrView::Priority(Priority::High), next: i + 5 }
    } else if kw_at_medium_at(s, i) {
        Step::Found { v: AttrView::Priority(Priority::Medium), next: i + 7 }
    } else if kw_at_low_at(s, i) {
        Step::Found { v: AttrView::Priority(Priority::Low), next: i + 4 }
    } else if kw_due_at(s, i) {
        let k = skip_ws(s, i + 3);
        if k < s.len() && s[k] == ':' {
            let k2 = skip_ws(s, k + 1);
            match parse_date(s, k2) {
                Step::Found { v, next } => Step::Found { v: AttrView::Due(v), next },
                Step::Failed { rule, at } => Step::Failed { rule, at },
            }
        } else {
            Step::Failed { rule: Rule::DueDate, at: k }
        }
    } else if kw_assign_at(s, i) {
        let k = skip_ws(s, i + 6);
        if k < s.len() && s[k] == ':' {
            let k2 = skip_ws(s, k + 1);
            if k2 < s.len() && s[k2] == '@' {
                let k3 = skip_ws(s, k2 + 1);
                match parse_identifier(s, k3) {
                    Step::Found { v, next } => Step::Found { v: AttrView::Assign(v), next },
                    Step::Failed { rule, at } => Step::Failed { rule, at },
                }
            } else {
                Step::Failed { rule: Rule::Assignee, at: k2 }
            }
        } else {
            Step::Failed { rule: Rule::Assignee, at: k }
        }
    } else if kw_depends_on_at(s, i) {
        let k = skip_ws(s, i + 10);
        if k < s.len() && s[k] == ':' {
            let k2 = skip_ws(s, k + 1);
            match parse_quoted(s, k2) {
                Step::Found { v, next } => Step::Found { v: AttrView::Depends(v), next },
                Step::Failed { rule, at } => Step::Failed { rule, at },
            }
        } else {
            Step::Failed { rule: Rule::DependsOn, at: k }
        }
    } else if kw_at_tag_at(s, i) {
        let k = skip_ws(s, i + 4);
        if k < s.len() && s[k] == ':' {
            let k2 = skip_ws(s, k + 1);
            match parse_quoted(s, k2) {
                Step::Found { v, next } => Step::Found { v: AttrView::Tag(v), next },
                Step::Failed { rule, at } => Step::Failed { rule, at },
            }
        } else {
            Step::Failed { rule: Rule::Tag, at: k }
        }
    } else {
        Step::Failed { rule: Rule::Attribute, at: i }
    }
}

/// The effect of one attribute on a task: singular attributes overwrite,
/// tags accumulate.
pub open spec fn apply_attr(t: TaskView, a: AttrView) -> TaskView {
    match a {
        AttrView::Priority(p) => TaskView { priority: Some(p), ..t },
        AttrView::Due(d) => TaskView { due_date: Some(d), ..t },
        AttrView::Assign(x) => TaskView { assignee: Some(x), ..t },
        AttrView::Depends(x) => TaskView { depends_on: Some(x), ..t },
        AttrView::Tag(x) => TaskView { tags: t.tags.push(x), ..t },
    }
}

/// The attributes applied in source order, first to last; so for singular
/// attributes the last occurrence wins, while tags accumulate.
pub open spec fn apply_attrs(t: TaskView, attrs: Seq<AttrView>) -> TaskView
    decreases attrs.len(),
{
    if attrs.len() == 0 {
        t
    } else {
        apply_attrs(apply_attr(t, attrs[0]), attrs.drop_first())
    }
}

/// Applying one more attribute at the end applies it last.
pub proof fn lemma_apply_attrs_push(t: TaskView, attrs: Seq<AttrView>, a: AttrView)
    ensures
        apply_attrs(t, attrs.push(a)) == apply_attr(apply_attrs(t, attrs), a),
    decreases attrs.len(),
{
    if attrs.len() == 0 {
        assert(attrs.push(a)[0] == a);
        assert(attrs.push(a).drop_first() =~= Seq::<AttrView>::empty());
        assert(apply_attrs(t, attrs.push(a)) == apply_attrs(
            apply_attr(t, a),
            Seq::<AttrView>::empty(),
        ));
        assert(apply_attrs(apply_attr(t, a), Seq::<AttrView>::empty()) == apply_attr(t, a));
    } else {
        assert(attrs.push(a)[0] == attrs[0]);
        assert(attrs.push(a).drop_first() =~= attrs.drop_first().push(a));
        lemma_apply_attrs_push(apply_attr(t, attrs[0]), attrs.drop_first(), a);
        assert(apply_attrs(t, attrs.push(a)) == apply_attrs(
            apply_attr(t, attrs[0]),
            attrs.drop_first().push(a),
        ));
        assert(apply_attrs(t, attrs) == apply_attrs(apply_attr(t, attrs[0]), attrs.drop_first()));
    }
}

/// A task before any attribute is applied: no optional attribute set, no
/// tags.
pub open spec fn base_task(status: TaskStatus, title: Seq<char>) -> TaskView {
    TaskView {
        status,
        title,
        priority: None,
        due_date: None,
        assignee: None,
        depends_on: None,
        tags: Seq::empty(),
    }
}

/// The attribute list together with the required trailing comma of a task:
/// `(`,` attribute)*` followed by `,`.  Each iteration first consumes a
/// comma; a comma after which no attribute matches is the trailing comma,
/// which ends the task.  A task with no comma at all is a mismatch.
pub open spec fn parse_attrs(s: Seq<char>, i: int) -> Step<Seq<AttrView>>
    decreases s.len() - i,
    when 0 <= i <= s.len()
{
    let k = skip_ws(s, i);
    if k < s.len() && s[k] == ',' {
        let k2 = skip_ws(s, k + 1);
        match parse_attribute(s, k2) {
            // The bound on `next` keeps the recursion visibly decreasing; a
            // matched attribute always advances, so the other branch never
            // runs.
            Step::Found { v, next } => if i < next && next <= s.len() {
                match parse_attrs(s, next) {
                    Step::Found { v: rest, next: end } => Step::Found {
                        v: seq![v] + rest,
                        next: end,
                    },
                    Step::Failed { rule, at } => Step::Failed { rule, at },
                }
            } else {
                Step::Found { v: seq![v], next }
            },
            Step::Failed { .. } => Step::Found { v: Seq::empty(), next: k + 1 },
        }
    } else {
        Step::Failed { rule: Rule::Task, at: k }
    }
}

/// A task: `todo` or `done`, `:`, the quoted title, then the attribute list
/// with its required trailing comma.
pub open spec fn parse_task(s: Seq<char>, i: int) -> Step<TaskView> {
    if kw_todo_at(s, i) || kw_done_at(s, i) {
        let status = if kw_todo_at(s, i) {
            TaskStatus::Todo
        } else {
            TaskStatus::Done
        };
        let intro = if kw_todo_at(s, i) {
            Rule::TodoTask
        } else {
            Rule::DoneTask
        };
        let k = skip_ws(s, i + 4);
        if k < s.len() && s[k] == ':' {
            let k2 = skip_ws(s, k + 1);
            match parse_quoted(s, k2) {
                Step::Found { v: title, next } => match parse_attrs(s, next) {
                    Step::Found { v: attrs, next: end } => Step::Found {
                        v: apply_attrs(base_task(status, title), attrs),
                        next: end,
                    },
                    Step::Failed { rule, at } => Step::Failed { rule, at },
                },
                Step::Failed { rule, at } => Step::Failed { rule, at },
            }
        } else {
            Step::Failed { rule: intro, at: k }
        }
    } else {
        Step::Failed { rule: Rule::Task, at: i }
    }
}

/// The outcome of a greedy repetition: the items parsed, the position after
/// the last one, and the rule and position at which the attempt to parse one
/// more item failed.
pub struct RepEnd<T> {
    pub items: Seq<T>,
    pub next: int,
    pub stop_rule: Rule,
    pub stop_at: int,
}

/// Zero or more tasks, each preceded by insignificant whitespace.
pub open spec fn parse_tasks(s: Seq<char>, i: int) -> RepEnd<TaskView>
    decreases s.len() - i,
    when 0 <= i <= s.len()
{
    let k = skip_ws(s, i);
    match parse_task(s, k) {
        // As in `parse_attrs`, a matched task always advances, and the
        // bound keeps the recursion visibly decreasing.
        Step::Found { v, next } => if i < next && next <= s.len() {
            let rest = parse_tasks(s, next);
            RepEnd {
                items: seq![v] + rest.items,
                next: rest.next,
                stop_rule: rest.stop_rule,
                stop_at: rest.stop_at,
            }
        } else {
            RepEnd { items: seq![v], next, stop_rule: Rule::Task, stop_at: next }
        },
        Step::Failed { rule, at } => RepEnd { items: Seq::empty(), next: i, stop_rule: rule, stop_at: at },
    }
}

/// A project: `project`, the quoted name, `{`, the tasks, `}`.  When the
/// closing brace is missing, the failure that ended the task repetition is
/// reported, since the brace position is where one more task was expected.
pub open spec fn parse_project(s: Seq<char>, i: int) -> Step<ProjectView> {
    if kw_project_at(s, i) {
        let k = skip_ws(s, i + 7);
        match parse_quoted(s, k) {
            Step::Found { v: name, next } => {
                let k2 = skip_ws(s, next);
                if k2 < s.len() && s[k2] == '{' {
                    let body = parse_tasks(s, k2 + 1);
                    let k3 = skip_ws(s, body.next);
                    if k3 < s.len() && s[k3] == '}' {
                        Step::Found { v: ProjectView { name, tasks: body.items }, next: k3 + 1 }
                    } else {
                        Step::Failed { rule: body.stop_rule, at: body.stop_at }
                    }
                } else {
                    Step::Failed { rule: Rule::Project, at: k2 }
                }
            },
            Step::Failed { rule, at } => Step::Failed { rule, at },
        }
    } else {
        Step::Failed { rule: Rule::Project, at: i }
    }
}

/// Zero or more projects, each preceded by insignificant whitespace.
pub open spec fn parse_projects_rep(s: Seq<char>, i: int) -> RepEnd<ProjectView>
    decreases s.len() - i,
    when 0 <= i <= s.len()
{
    let k = skip_ws(s, i);
    match parse_project(s, k) {
        // As in `parse_attrs`, a matched project always advances, and the
        // bound keeps the recursion visibly decreasing.
        Step::Found { v, next } => if i < next && next <= s.len() {
            let rest = parse_projects_rep(s, next);
            RepEnd {
                items: seq![v] + rest.items,
                next: rest.next,
                stop_rule: rest.stop_rule,
                stop_at: rest.stop_at,
            }
        } else {
            RepEnd { items: seq![v], next, stop_rule: Rule::Project, stop_at: next }
        },
        Step::Failed { rule, at } => RepEnd {
            items: Seq::empty(),
            next: i,
            stop_rule: rule,
            stop_at: at,
        },
    }
}

/// A whole input: one or more projects followed by the end of the input.
/// An input with no project at all, empty or whitespace only, is a
/// mismatch, as is any text after the last project.
pub open spec fn parse_file(s: Seq<char>) -> Step<Seq<ProjectView>> {
    let r = parse_projects_rep(s, 0);
    let k = skip_ws(s, r.next);
    if k == s.len() && r.items.len() > 0 {
        Step::Found { v: r.items, next: s.len() as int }
    } else {
        Step::Failed { rule: r.stop_rule, at: r.stop_at }
    }
}

/// A single project fragment: one project, with nothing but whitespace and
/// comments around it.
pub open spec fn parse_fragment(s: Seq<char>) -> Step<ProjectView> {
    let k = skip_ws(s, 0);
    match parse_project(s, k) {
        Step::Found { v, next } => {
            let k2 = skip_ws(s, next);
            if k2 == s.len() {
                Step::Found { v, next: s.len() as int }
            } else {
                Step::Failed { rule: Rule::File, at: k2 }
            }
        },
        Step::Failed { rule, at } => Step::Failed { rule, at },
    }
}

} // verus!
