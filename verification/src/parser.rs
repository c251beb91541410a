//! The executable parser, proved to return exactly what the grammar's
//! specification functions describe.
//!
//! Every scanning function takes the input string, its length in characters,
//! and a position, and its contract equates the result with the
//! corresponding specification function of [`crate::grammar`].

use crate::ast::{Priority, Project, ProjectView, Task, TaskStatus, TaskView};
use crate::grammar::{
    apply_attr, apply_attrs, base_task, close_quote, ident_end, kw_assign_at, kw_at_high_at, kw_at_low_at,
    kw_at_medium_at, kw_at_tag_at, kw_depends_on_at, kw_done_at, kw_due_at, kw_project_at,
    kw_todo_at, lemma_apply_attrs_push, parse_attribute, parse_attrs, parse_date, parse_file,
    parse_fragment, parse_identifier, parse_projects_rep, parse_quoted, parse_task, parse_tasks,
    skip_comment, skip_ws, spec_is_digit, spec_is_ident_char, spec_is_space, AttrView, Rule,
    Step,
};
use crate::position::{col_of, line_of, position_of};
use vstd::prelude::*;
use vstd::string::{StrSliceExecFns, StringExecFns};

verus! {

/// The parser for the project description language.
pub struct ToDoParser;

/// What can go wrong: the source could not be read, or the text does not
/// match the grammar.  A syntax failure carries the rule whose match failed
/// and the position of the failure, as a character offset and as a
/// zero-based line and column.
#[derive(Debug, Clone)]
pub enum ParseError {
    Io { message: String },
    Syntax { rule: Rule, offset: usize, line: usize, column: usize },
}

fn is_space(c: char) -> (b: bool)
    ensures
        b == spec_is_space(c),
{
    c == ' ' || c == '\t' || c == '\n' || c == '\r'
}

fn is_digit(c: char) -> (b: bool)
    ensures
        b == spec_is_digit(c),
{
    '0' <= c && c <= '9'
}

fn is_ident_char(c: char) -> (b: bool)
    ensures
        b == spec_is_ident_char(c),
{
    ('a' <= c && c <= 'z') || ('A' <= c && c <= 'Z') || ('0' <= c && c <= '9') || c == '_'
        || c == '-'
}

fn scan_ws(s: &str, n: usize, i: usize) -> (j: usize)
    requires
        n == s@.len(),
        i <= n,
    ensures
        j as int == skip_ws(s@, i as int),
        i <= j <= n,
    decreases n - i,
{
    if i < n {
        let c = s.get_char(i);
        if is_space(c) {
            scan_ws(s, n, i + 1)
        } else if c == '/' && i + 1 < n && s.get_char(i + 1) == '/' {
            scan_comment(s, n, i + 2)
        } else {
            i
        }
    } else {
        i
    }
}

fn scan_comment(s: &str, n: usize, i: usize) -> (j: usize)
    requires
        n == s@.len(),
        i <= n,
    ensures
        j as int == skip_comment(s@, i as int),
        i <= j <= n,
    decreases n - i,
{
    if i < n {
        if s.get_char(i) == '\n' {
            scan_ws(s, n, i + 1)
        } else {
            scan_comment(s, n, i + 1)
        }
    } else {
        i
    }
}

fn scan_close(s: &str, n: usize, i: usize) -> (j: usize)
    requires
        n == s@.len(),
        i <= n,
    ensures
        j as int == close_quote(s@, i as int),
        i <= j <= n,
    decreases n - i,
{
    if i < n {
        if s.get_char(i) == '"' {
            i
        } else {
            scan_close(s, n, i + 1)
        }
    } else {
        i
    }
}

fn scan_quoted(s: &str, n: usize, i: usize) -> (r: Result<(String, usize), (Rule, usize)>)
    requires
        n == s@.len(),
        i <= n,
    ensures
        (match parse_quoted(s@, i as int) {
            Step::Found { v, next } => r matches Ok(p) && p.0@ == v && p.1 as int == next && i
                < p.1 <= n,
            Step::Failed { rule, at } => r matches Err(e) && e.0 == rule && e.1 as int == at
                && e.1 <= n,
        }),
{
    if i < n && s.get_char(i) == '"' {
        let j = scan_close(s, n, i + 1);
        if j < n {
            let content = s.substring_char(i + 1, j);
            Ok((String::from_str(content), j + 1))
        } else {
            Err((Rule::Quoted, n))
        }
    } else {
        Err((Rule::Quoted, i))
    }
}

fn scan_identifier(s: &str, n: usize, i: usize) -> (r: Result<(String, usize), (Rule, usize)>)
    requires
        n == s@.len(),
        i <= n,
    ensures
        (match parse_identifier(s@, i as int) {
            Step::Found { v, next } => r matches Ok(p) && p.0@ == v && p.1 as int == next && i
                < p.1 <= n,
            Step::Failed { rule, at } => r matches Err(e) && e.0 == rule && e.1 as int == at
                && e.1 <= n,
        }),
{
    let j = scan_ident_end(s, n, i);
    if j > i {
        Ok((String::from_str(s.substring_char(i, j)), j))
    } else {
        Err((Rule::Identifier, i))
    }
}

fn scan_ident_end(s: &str, n: usize, i: usize) -> (j: usize)
    requires
        n == s@.len(),
        i <= n,
    ensures
        j as int == ident_end(s@, i as int),
        i <= j <= n,
    decreases n - i,
{
    if i < n && is_ident_char(s.get_char(i)) {
        scan_ident_end(s, n, i + 1)
    } else {
        i
    }
}

fn scan_date(s: &str, n: usize, i: usize) -> (r: Result<(String, usize), (Rule, usize)>)
    requires
        n == s@.len(),
        i <= n,
    ensures
        (match parse_date(s@, i as int) {
            Step::Found { v, next } => r matches Ok(p) && p.0@ == v && p.1 as int == next && i
                < p.1 <= n,
            Step::Failed { rule, at } => r matches Err(e) && e.0 == rule && e.1 as int == at
                && e.1 <= n,
        }),
{
    if n - i >= 10 {
        let shaped = is_digit(s.get_char(i)) && is_digit(s.get_char(i + 1)) && is_digit(
            s.get_char(i + 2),
        ) && is_digit(s.get_char(i + 3)) && s.get_char(i + 4) == '-' && is_digit(
            s.get_char(i + 5),
        ) && is_digit(s.get_char(i + 6)) && s.get_char(i + 7) == '-' && is_digit(
            s.get_char(i + 8),
        ) && is_digit(s.get_char(i + 9));
        proof {
            let d = s@.subrange(i as int, i as int + 10);
            assert forall|k: int| 0 <= k < 10 implies d[k] == s@[i + k] by {}
        }
        if shaped {
            Ok((String::from_str(s.substring_char(i, i + 10)), i + 10))
        } else {
            Err((Rule::Date, i))
        }
    } else {
        Err((Rule::Date, i))
    }
}

fn kw_project(s: &str, n: usize, i: usize) -> (b: bool)
    requires
        n == s@.len(),
        i <= n,
    ensures
        b == kw_project_at(s@, i as int),
{
    n - i >= 7 && s.get_char(i) == 'p' && s.get_char(i + 1) == 'r' && s.get_char(i + 2) == 'o'
        && s.get_char(i + 3) == 'j' && s.get_char(i + 4) == 'e' && s.get_char(i + 5) == 'c'
        && s.get_char(i + 6) == 't'
}

fn kw_todo(s: &str, n: usize, i: usize) -> (b: bool)
    requires
        n == s@.len(),
        i <= n,
    ensures
        b == kw_todo_at(s@, i as int),
{
    n - i >= 4 && s.get_char(i) == 't' && s.get_char(i + 1) == 'o' && s.get_char(i + 2) == 'd'
        && s.get_char(i + 3) == 'o'
}

fn kw_done(s: &str, n: usize, i: usize) -> (b: bool)
    requires
        n == s@.len(),
        i <= n,
    ensures
        b == kw_done_at(s@, i as int),
{
    n - i >= 4 && s.get_char(i) == 'd' && s.get_char(i + 1) == 'o' && s.get_char(i + 2) == 'n'
        && s.get_char(i + 3) == 'e'
}

fn kw_due(s: &str, n: usize, i: usize) -> (b: bool)
    requires
        n == s@.len(),
        i <= n,
    ensures
        b == kw_due_at(s@, i as int),
{
    n - i >= 3 && s.get_char(i) == 'd' && s.get_char(i + 1) == 'u' && s.get_char(i + 2) == 'e'
}

fn kw_assign(s: &str, n: usize, i: usize) -> (b: bool)
    requires
        n == s@.len(),
        i <= n,
    ensures
        b == kw_assign_at(s@, i as int),
{
    n - i >= 6 && s.get_char(i) == 'a' && s.get_char(i + 1) == 's' && s.get_char(i + 2) == 's'
        && s.get_char(i + 3) == 'i' && s.get_char(i + 4) == 'g' && s.get_char(i + 5) == 'n'
}

fn kw_depends_on(s: &str, n: usize, i: usize) -> (b: bool)
    requires
        n == s@.len(),
        i <= n,
    ensures
        b == kw_depends_on_at(s@, i as int),
{
    n - i >= 10 && s.get_char(i) == 'd' && s.get_char(i + 1) == 'e' && s.get_char(i + 2) == 'p'
        && s.get_char(i + 3) == 'e' && s.get_char(i + 4) == 'n' && s.get_char(i + 5) == 'd'
        && s.get_char(i + 6) == 's' && s.get_char(i + 7) == '_' && s.get_char(i + 8) == 'o'
        && s.get_char(i + 9) == 'n'
}

fn kw_at_tag(s: &str, n: usize, i: usize) -> (b: bool)
    requires
        n == s@.len(),
        i <= n,
    ensures
        b == kw_at_tag_at(s@, i as int),
{
    n - i >= 4 && s.get_char(i) == '@' && s.get_char(i + 1) == 't' && s.get_char(i + 2) == 'a'
        && s.get_char(i + 3) == 'g'
}

fn kw_at_high(s: &str, n: usize, i: usize) -> (b: bool)
    requires
        n == s@.len(),
        i <= n,
    ensures
        b == kw_at_high_at(s@, i as int),
{
    n - i >= 5 && s.get_char(i) == '@' && s.get_char(i + 1) == 'h' && s.get_char(i + 2) == 'i'
        && s.get_char(i + 3) == 'g' && s.get_char(i + 4) == 'h'
}

fn kw_at_medium(s: &str, n: usize, i: usize) -> (b: bool)
    requires
        n == s@.len(),
        i <= n,
    ensures
        b == kw_at_medium_at(s@, i as int),
{
    n - i >= 7 && s.get_char(i) == '@' && s.get_char(i + 1) == 'm' && s.get_char(i + 2) == 'e'
        && s.get_char(i + 3) == 'd' && s.get_char(i + 4) == 'i' && s.get_char(i + 5) == 'u'
        && s.get_char(i + 6) == 'm'
}

fn kw_at_low(s: &str, n: usize, i: usize) -> (b: bool)
    requires
        n == s@.len(),
        i <= n,
    ensures
        b == kw_at_low_at(s@, i as int),
{
    n - i >= 4 && s.get_char(i) == '@' && s.get_char(i + 1) == 'l' && s.get_char(i + 2) == 'o'
        && s.get_char(i + 3) == 'w'
}

/// One attribute of a task, holding its value as a string.
enum Attr {
    Priority(Priority),
    Due(String),
    Assign(String),
    Depends(String),
    Tag(String),
}

impl View for Attr {
    type V = AttrView;

    closed spec fn view(&self) -> AttrView {
        match self {
            Attr::Priority(p) => AttrView::Priority(*p),
            Attr::Due(d) => AttrView::Due(d@),
            Attr::Assign(x) => AttrView::Assign(x@),
            Attr::Depends(x) => AttrView::Depends(x@),
            Attr::Tag(x) => AttrView::Tag(x@),
        }
    }
}

impl DeepView for Attr {
    type V = AttrView;

    closed spec fn deep_view(&self) -> AttrView {
        self.view()
    }
}

fn scan_attribute(s: &str, n: usize, i: usize) -> (r: Result<(Attr, usize), (Rule, usize)>)
    requires
        n == s@.len(),
        i <= n,
    ensures
        (match parse_attribute(s@, i as int) {
            Step::Found { v, next } => r matches Ok(p) && p.0@ == v && p.1 as int == next && p.1
                <= n,
            Step::Failed { rule, at } => r matches Err(e) && e.0 == rule && e.1 as int == at
                && e.1 <= n,
        }),
{
    if kw_at_high(s, n, i) {
        Ok((Attr::Priority(Priority::High), i + 5))
    } else if kw_at_medium(s, n, i) {
        Ok((Attr::Priority(Priority::Medium), i + 7))
    } else if kw_at_low(s, n, i) {
        Ok((Attr::Priority(Priority::Low), i + 4))
    } else if kw_due(s, n, i) {
        let k = scan_ws(s, n, i + 3);
        if k < n && s.get_char(k) == ':' {
            let k2 = scan_ws(s, n, k + 1);
            match scan_date(s, n, k2) {
                Ok((d, next)) => Ok((Attr::Due(d), next)),
                Err(e) => Err(e),
            }
        } else {
            Err((Rule::DueDate, k))
        }
    } else if kw_assign(s, n, i) {
        let k = scan_ws(s, n, i + 6);
        if k < n && s.get_char(k) == ':' {
            let k2 = scan_ws(s, n, k + 1);
            if k2 < n && s.get_char(k2) == '@' {
                let k3 = scan_ws(s, n, k2 + 1);
                match scan_identifier(s, n, k3) {
                    Ok((x, next)) => Ok((Attr::Assign(x), next)),
                    Err(e) => Err(e),
                }
            } else {
                Err((Rule::Assignee, k2))
            }
        } else {
            Err((Rule::Assignee, k))
        }
    } else if kw_depends_on(s, n, i) {
        let k = scan_ws(s, n, i + 10);
        if k < n && s.get_char(k) == ':' {
            let k2 = scan_ws(s, n, k + 1);
            match scan_quoted(s, n, k2) {
                Ok((x, next)) => Ok((Attr::Depends(x), next)),
                Err(e) => Err(e),
            }
        } else {
            Err((Rule::DependsOn, k))
        }
    } else if kw_at_tag(s, n, i) {
        let k = scan_ws(s, n, i + 4);
        if k < n && s.get_char(k) == ':' {
            let k2 = scan_ws(s, n, k + 1);
            match scan_quoted(s, n, k2) {
                Ok((x, next)) => Ok((Attr::Tag(x), next)),
                Err(e) => Err(e),
            }
        } else {
            Err((Rule::Tag, k))
        }
    } else {
        Err((Rule::Attribute, i))
    }
}

fn scan_attrs(s: &str, n: usize, i: usize) -> (r: Result<(Vec<Attr>, usize), (Rule, usize)>)
    requires
        n == s@.len(),
        i <= n,
    ensures
        (match parse_attrs(s@, i as int) {
            Step::Found { v, next } => r matches Ok(p) && p.0.deep_view() == v && p.1 as int
                == next && p.1 <= n,
            Step::Failed { rule, at } => r matches Err(e) && e.0 == rule && e.1 as int == at
                && e.1 <= n,
        }),
    decreases n - i,
{
    let k = scan_ws(s, n, i);
    if k < n && s.get_char(k) == ',' {
        let k2 = scan_ws(s, n, k + 1);
        match scan_attribute(s, n, k2) {
            Ok((a, next)) => {
                if i < next && next <= n {
                    match scan_attrs(s, n, next) {
                        Ok((rest, end)) => {
                            let ghost rest_view = rest.deep_view();
                            let mut items: Vec<Attr> = Vec::new();
                            items.push(a);
                            let mut rest = rest;
                            items.append(&mut rest);
                            proof {
                                assert(items.deep_view() =~= seq![a@] + rest_view);
                            }
                            Ok((items, end))
                        },
                        Err(e) => Err(e),
                    }
                } else {
                    let mut items: Vec<Attr> = Vec::new();
                    items.push(a);
                    proof {
                        assert(items.deep_view() =~= seq![a@]);
                    }
                    Ok((items, next))
                }
            },
            Err(_) => {
                let items: Vec<Attr> = Vec::new();
                proof {
                    assert(items.deep_view() =~= Seq::<AttrView>::empty());
                }
                Ok((items, k + 1))
            },
        }
    } else {
        Err((Rule::Task, k))
    }
}

/// Builds the task that results from applying the attributes, in order, to
/// the bare task of the given status and title.
fn build_task(status: TaskStatus, title: String, attrs: &Vec<Attr>) -> (t: Task)
    ensures
        t@ == apply_attrs(base_task(status, title@), attrs.deep_view()),
{
    let ghost t0 = base_task(status, title@);
    let mut t = Task {
        status,
        title,
        priority: None,
        due_date: None,
        assignee: None,
        depends_on: None,
        tags: Vec::new(),
    };
    proof {
        assert(attrs.deep_view().take(0) =~= Seq::<AttrView>::empty());
        assert(t.tags.deep_view() =~= Seq::<Seq<char>>::empty());
    }
    let mut idx: usize = 0;
    while idx < attrs.len()
        invariant
            idx <= attrs.len(),
            t@ == apply_attrs(t0, attrs.deep_view().take(idx as int)),
        decreases attrs.len() - idx,
    {
        let ghost prev = t@;
        let ghost av = attrs.deep_view()[idx as int];
        proof {
            assert(av == attrs@[idx as int].deep_view());
            assert(attrs.deep_view().take(idx + 1) =~= attrs.deep_view().take(
                idx as int,
            ).push(av));
            lemma_apply_attrs_push(t0, attrs.deep_view().take(idx as int), av);
        }
        match &attrs[idx] {
            Attr::Priority(p) => {
                t.priority = Some(*p);
            },
            Attr::Due(d) => {
                t.due_date = Some(d.clone());
            },
            Attr::Assign(x) => {
                t.assignee = Some(x.clone());
            },
            Attr::Depends(x) => {
                t.depends_on = Some(x.clone());
            },
            Attr::Tag(x) => {
                let ghost tag = x@;
                t.tags.push(x.clone());
                proof {
                    assert(t.tags.deep_view() =~= prev.tags.push(tag));
                }
            },
        }
        proof {
            assert(t@ == apply_attr(prev, av));
        }
        idx = idx + 1;
    }
    proof {
        assert(attrs.deep_view().take(attrs.len() as int) =~= attrs.deep_view());
    }
    t
}

fn scan_task(s: &str, n: usize, i: usize) -> (r: Result<(Task, usize), (Rule, usize)>)
    requires
        n == s@.len(),
        i <= n,
    ensures
        (match parse_task(s@, i as int) {
            Step::Found { v, next } => r matches Ok(p) && p.0@ == v && p.1 as int == next && p.1
                <= n,
            Step::Failed { rule, at } => r matches Err(e) && e.0 == rule && e.1 as int == at
                && e.1 <= n,
        }),
{
    let todo_here = kw_todo(s, n, i);
    let done_here = kw_done(s, n, i);
    if todo_here || done_here {
        let status = if todo_here {
            TaskStatus::Todo
        } else {
            TaskStatus::Done
        };
        let intro = if todo_here {
            Rule::TodoTask
        } else {
            Rule::DoneTask
        };
        let k = scan_ws(s, n, i + 4);
        if k < n && s.get_char(k) == ':' {
            let k2 = scan_ws(s, n, k + 1);
            match scan_quoted(s, n, k2) {
                Ok((title, next)) => match scan_attrs(s, n, next) {
                    Ok((attrs, end)) => Ok((build_task(status, title, &attrs), end)),
                    Err(e) => Err(e),
                },
                Err(e) => Err(e),
            }
        } else {
            Err((intro, k))
        }
    } else {
        Err((Rule::Task, i))
    }
}

fn scan_tasks(s: &str, n: usize, i: usize) -> (r: (Vec<Task>, usize, Rule, usize))
    requires
        n == s@.len(),
        i <= n,
    ensures
        ({
            let rep = parse_tasks(s@, i as int);
            r.0.deep_view() == rep.items && r.1 as int == rep.next && r.2 == rep.stop_rule && r.3
                as int == rep.stop_at && r.1 <= n && r.3 <= n
        }),
    decreases n - i,
{
    let k = scan_ws(s, n, i);
    match scan_task(s, n, k) {
        Ok((t, next)) => {
            if i < next && next <= n {
                let (rest, end, stop_rule, stop_at) = scan_tasks(s, n, next);
                let ghost rest_view = rest.deep_view();
                let mut items: Vec<Task> = Vec::new();
                items.push(t);
                let mut rest = rest;
                items.append(&mut rest);
                proof {
                    assert(items.deep_view() =~= seq![t@] + rest_view);
                }
                (items, end, stop_rule, stop_at)
            } else {
                let mut items: Vec<Task> = Vec::new();
                items.push(t);
                proof {
                    assert(items.deep_view() =~= seq![t@]);
                }
                (items, next, Rule::Task, next)
            }
        },
        Err((rule, at)) => {
            let items: Vec<Task> = Vec::new();
            proof {
                assert(items.deep_view() =~= Seq::<TaskView>::empty());
            }
            (items, i, rule, at)
        },
    }
}

fn scan_project(s: &str, n: usize, i: usize) -> (r: Result<(Project, usize), (Rule, usize)>)
    requires
        n == s@.len(),
        i <= n,
    ensures
        (match crate::grammar::parse_project(s@, i as int) {
            Step::Found { v, next } => r matches Ok(p) && p.0@ == v && p.1 as int == next && p.1
                <= n,
            Step::Failed { rule, at } => r matches Err(e) && e.0 == rule && e.1 as int == at
                && e.1 <= n,
        }),
{
    if kw_project(s, n, i) {
        let k = scan_ws(s, n, i + 7);
        match scan_quoted(s, n, k) {
            Ok((name, next)) => {
                let k2 = scan_ws(s, n, next);
                if k2 < n && s.get_char(k2) == '{' {
                    let (tasks, body_next, stop_rule, stop_at) = scan_tasks(s, n, k2 + 1);
                    let k3 = scan_ws(s, n, body_next);
                    if k3 < n && s.get_char(k3) == '}' {
                        Ok((Project { name, tasks }, k3 + 1))
                    } else {
                        Err((stop_rule, stop_at))
                    }
                } else {
                    Err((Rule::Project, k2))
                }
            },
            Err(e) => Err(e),
        }
    } else {
        Err((Rule::Project, i))
    }
}

fn scan_projects(s: &str, n: usize, i: usize) -> (r: (Vec<Project>, usize, Rule, usize))
    requires
        n == s@.len(),
        i <= n,
    ensures
        ({
            let rep = parse_projects_rep(s@, i as int);
            r.0.deep_view() == rep.items && r.1 as int == rep.next && r.2 == rep.stop_rule && r.3
                as int == rep.stop_at && r.1 <= n && r.3 <= n
        }),
    decreases n - i,
{
    let k = scan_ws(s, n, i);
    match scan_project(s, n, k) {
        Ok((p, next)) => {
            if i < next && next <= n {
                let (rest, end, stop_rule, stop_at) = scan_projects(s, n, next);
                let ghost rest_view = rest.deep_view();
                let mut items: Vec<Project> = Vec::new();
                items.push(p);
                let mut rest = rest;
                items.append(&mut rest);
                proof {
                    assert(items.deep_view() =~= seq![p@] + rest_view);
                }
                (items, end, stop_rule, stop_at)
            } else {
                let mut items: Vec<Project> = Vec::new();
                items.push(p);
                proof {
                    assert(items.deep_view() =~= seq![p@]);
                }
                (items, next, Rule::Project, next)
            }
        },
        Err((rule, at)) => {
            let items: Vec<Project> = Vec::new();
            proof {
                assert(items.deep_view() =~= Seq::<ProjectView>::empty());
            }
            (items, i, rule, at)
        },
    }
}

/// The syntax error for a failure of `rule` at character offset `at`.
fn syntax_error(s: &str, n: usize, rule: Rule, at: usize) -> (e: ParseError)
    requires
        n == s@.len(),
        at <= n,
    ensures
        e matches ParseError::Syntax { rule: erule, offset, line, column } && erule == rule
            && offset == at && line as int == line_of(s@, at as int) && column as int == col_of(
            s@,
            at as int,
        ),
{
    let (line, column) = position_of(s, n, at);
    ParseError::Syntax { rule, offset: at, line, column }
}

impl ToDoParser {
    /// Parses a whole input into its projects.
    ///
    /// Returns `Ok` exactly on the inputs that the grammar accepts, with the
    /// parsed projects in source order; on any other input, returns the
    /// syntax failure that the grammar's specification functions describe,
    /// with the rule and the position at which matching failed.
    pub fn parse_projects(input: &str) -> (r: Result<Vec<Project>, ParseError>)
        ensures
            (match parse_file(input@) {
                Step::Found { v, next } => r matches Ok(ps) && ps.deep_view() == v,
                Step::Failed { rule, at } => r matches Err(e) && (e matches ParseError::Syntax {
                    rule: erule,
                    offset,
                    line,
                    column,
                } && erule == rule && offset as int == at && line as int == line_of(input@, at)
                    && column as int == col_of(input@, at)),
            }),
    {
        let n = input.unicode_len();
        let (projects, next, stop_rule, stop_at) = scan_projects(input, n, 0);
        let k = scan_ws(input, n, next);
        if k == n && projects.len() > 0 {
            Ok(projects)
        } else {
            Err(syntax_error(input, n, stop_rule, stop_at))
        }
    }

    /// Parses a single project fragment: one project with nothing but
    /// whitespace and comments around it.
    pub fn parse_project(input: &str) -> (r: Result<Project, ParseError>)
        ensures
            (match parse_fragment(input@) {
                Step::Found { v, next } => r matches Ok(p) && p@ == v,
                Step::Failed { rule, at } => r matches Err(e) && (e matches ParseError::Syntax {
                    rule: erule,
                    offset,
                    line,
                    column,
                } && erule == rule && offset as int == at && line as int == line_of(input@, at)
                    && column as int == col_of(input@, at)),
            }),
    {
        let n = input.unicode_len();
        let k = scan_ws(input, n, 0);
        match scan_project(input, n, k) {
            Ok((p, next)) => {
                let k2 = scan_ws(input, n, next);
                if k2 == n {
                    Ok(p)
                } else {
                    Err(syntax_error(input, n, Rule::File, k2))
                }
            },
            Err((rule, at)) => Err(syntax_error(input, n, rule, at)),
        }
    }
}

} // verus!
