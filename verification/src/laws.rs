//! Laws of the language, proved once and for all inputs: every accepted
//! task starts with an introducer keyword and ends with its trailing comma,
//! every accepted due date has the strict shape, singular attributes are
//! order independent, and tags accumulate in source order.

use crate::ast::{ProjectView, TaskView};
use crate::grammar::{
    apply_attr, apply_attrs, is_strict_date, kw_assign_at, kw_at_high_at, kw_at_low_at,
    kw_at_medium_at, kw_at_tag_at, kw_depends_on_at, kw_done_at, kw_due_at, kw_todo_at,
    kw_project_at, lemma_close_quote_bounds, lemma_ident_end_bounds, lemma_skip_ws_bounds,
    parse_attribute, parse_attrs, parse_file, parse_project, parse_quoted, parse_task, parse_tasks,
    skip_ws, AttrView, Step,
};
use vstd::prelude::*;

verus! {

proof fn lemma_quoted_progress(s: Seq<char>, i: int)
    requires
        0 <= i <= s.len(),
    ensures
        parse_quoted(s, i) matches Step::Found { next, .. } ==> i < next <= s.len(),
{
    if i < s.len() && s[i] == '"' {
        lemma_close_quote_bounds(s, i + 1);
    }
}

proof fn lemma_attribute_progress(s: Seq<char>, i: int)
    requires
        0 <= i <= s.len(),
    ensures
        parse_attribute(s, i) matches Step::Found { next, .. } ==> i < next <= s.len(),
{
    if kw_at_high_at(s, i) || kw_at_medium_at(s, i) || kw_at_low_at(s, i) {
    } else if kw_due_at(s, i) {
        lemma_skip_ws_bounds(s, i + 3);
        let k = skip_ws(s, i + 3);
        if k < s.len() && s[k] == ':' {
            lemma_skip_ws_bounds(s, k + 1);
        }
    } else if kw_assign_at(s, i) {
        lemma_skip_ws_bounds(s, i + 6);
        let k = skip_ws(s, i + 6);
        if k < s.len() && s[k] == ':' {
            lemma_skip_ws_bounds(s, k + 1);
            let k2 = skip_ws(s, k + 1);
            if k2 < s.len() && s[k2] == '@' {
                lemma_skip_ws_bounds(s, k2 + 1);
                lemma_ident_end_bounds(s, skip_ws(s, k2 + 1));
            }
        }
    } else if kw_depends_on_at(s, i) {
        lemma_skip_ws_bounds(s, i + 10);
        let k = skip_ws(s, i + 10);
        if k < s.len() && s[k] == ':' {
            lemma_skip_ws_bounds(s, k + 1);
            lemma_quoted_progress(s, skip_ws(s, k + 1));
        }
    } else if kw_at_tag_at(s, i) {
        lemma_skip_ws_bounds(s, i + 4);
        let k = skip_ws(s, i + 4);
        if k < s.len() && s[k] == ':' {
            lemma_skip_ws_bounds(s, k + 1);
            lemma_quoted_progress(s, skip_ws(s, k + 1));
        }
    }
}

proof fn lemma_attrs_trailing_comma(s: Seq<char>, i: int)
    requires
        0 <= i <= s.len(),
    ensures
        parse_attrs(s, i) matches Step::Found { next, .. } ==> 0 < next <= s.len() && s[next - 1]
            == ',',
    decreases s.len() - i,
{
    lemma_skip_ws_bounds(s, i);
    let k = skip_ws(s, i);
    if k < s.len() && s[k] == ',' {
        lemma_skip_ws_bounds(s, k + 1);
        let k2 = skip_ws(s, k + 1);
        lemma_attribute_progress(s, k2);
        match parse_attribute(s, k2) {
            Step::Found { v, next } => {
                lemma_attrs_trailing_comma(s, next);
            },
            Step::Failed { .. } => {
            },
        }
    }
}

/// Every accepted task ends with its trailing comma: whenever the task rule
/// matches, the character just before the position it stops at is a `,`.
/// So a task without a trailing comma cannot be accepted.
pub proof fn lemma_accepted_task_has_trailing_comma(s: Seq<char>, i: int)
    requires
        0 <= i <= s.len(),
    ensures
        parse_task(s, i) matches Step::Found { next, .. } ==> 0 < next <= s.len() && s[next - 1]
            == ',',
{
    if kw_todo_at(s, i) || kw_done_at(s, i) {
        lemma_skip_ws_bounds(s, i + 4);
        let k = skip_ws(s, i + 4);
        if k < s.len() && s[k] == ':' {
            lemma_skip_ws_bounds(s, k + 1);
            let k2 = skip_ws(s, k + 1);
            lemma_quoted_progress(s, k2);
            match parse_quoted(s, k2) {
                Step::Found { v, next } => {
                    lemma_attrs_trailing_comma(s, next);
                },
                Step::Failed { .. } => {
                },
            }
        }
    }
}

proof fn lemma_attrs_progress(s: Seq<char>, i: int)
    requires
        0 <= i <= s.len(),
    ensures
        parse_attrs(s, i) matches Step::Found { next, .. } ==> i < next <= s.len(),
    decreases s.len() - i,
{
    lemma_skip_ws_bounds(s, i);
    let k = skip_ws(s, i);
    if k < s.len() && s[k] == ',' {
        lemma_skip_ws_bounds(s, k + 1);
        let k2 = skip_ws(s, k + 1);
        lemma_attribute_progress(s, k2);
        match parse_attribute(s, k2) {
            Step::Found { v, next } => {
                lemma_attrs_progress(s, next);
            },
            Step::Failed { .. } => {
            },
        }
    }
}

proof fn lemma_task_progress(s: Seq<char>, i: int)
    requires
        0 <= i <= s.len(),
    ensures
        parse_task(s, i) matches Step::Found { next, .. } ==> i < next <= s.len(),
{
    if kw_todo_at(s, i) || kw_done_at(s, i) {
        lemma_skip_ws_bounds(s, i + 4);
        let k = skip_ws(s, i + 4);
        if k < s.len() && s[k] == ':' {
            lemma_skip_ws_bounds(s, k + 1);
            let k2 = skip_ws(s, k + 1);
            lemma_quoted_progress(s, k2);
            match parse_quoted(s, k2) {
                Step::Found { v, next } => {
                    lemma_attrs_progress(s, next);
                },
                Step::Failed { .. } => {
                },
            }
        }
    }
}

/// Every accepted task sits at a task introducer: whenever the task rule
/// matches at a position, that position holds the keyword `todo` or `done`.
pub proof fn lemma_accepted_task_starts_with_introducer(s: Seq<char>, i: int)
    ensures
        parse_task(s, i) matches Step::Found { .. } ==> kw_todo_at(s, i) || kw_done_at(s, i),
{
}

/// The positions at which the tasks of the repetition starting at `i` were
/// matched, mirroring the repetition itself.
pub open spec fn task_start_positions(s: Seq<char>, i: int) -> Seq<int>
    decreases s.len() - i,
    when 0 <= i <= s.len()
{
    let k = skip_ws(s, i);
    match parse_task(s, k) {
        Step::Found { v, next } => if i < next && next <= s.len() {
            seq![k] + task_start_positions(s, next)
        } else {
            seq![k]
        },
        Step::Failed { .. } => Seq::empty(),
    }
}

/// One task per introducer: a project body's task repetition yields exactly
/// as many tasks as there are positions at which a task was matched, each
/// of those positions holds a `todo` or `done` introducer keyword, and the
/// positions are strictly increasing, so no introducer is counted twice.
pub proof fn lemma_task_count_matches_introducers(s: Seq<char>, i: int)
    requires
        0 <= i <= s.len(),
    ensures
        parse_tasks(s, i).items.len() == task_start_positions(s, i).len(),
        forall|j: int|
            0 <= j < task_start_positions(s, i).len() ==> kw_todo_at(
                s,
                #[trigger] task_start_positions(s, i)[j],
            ) || kw_done_at(s, task_start_positions(s, i)[j]),
        forall|j: int|
            0 <= j < task_start_positions(s, i).len() ==> i <= #[trigger] task_start_positions(
                s,
                i,
            )[j] <= s.len(),
        forall|j1: int, j2: int|
            0 <= j1 < j2 < task_start_positions(s, i).len() ==> #[trigger] task_start_positions(
                s,
                i,
            )[j1] < #[trigger] task_start_positions(s, i)[j2],
    decreases s.len() - i,
{
    lemma_skip_ws_bounds(s, i);
    let k = skip_ws(s, i);
    lemma_accepted_task_starts_with_introducer(s, k);
    lemma_task_progress(s, k);
    let ps = task_start_positions(s, i);
    match parse_task(s, k) {
        Step::Found { v, next } => {
            if i < next && next <= s.len() {
                lemma_task_count_matches_introducers(s, next);
                let rest = task_start_positions(s, next);
                assert(ps == seq![k] + rest);
                assert(parse_tasks(s, i).items.len() == 1 + parse_tasks(s, next).items.len());
                assert forall|j: int| 0 <= j < ps.len() implies kw_todo_at(s, #[trigger] ps[j])
                    || kw_done_at(s, ps[j]) by {
                    if j > 0 {
                        assert(ps[j] == rest[j - 1]);
                    }
                }
                assert forall|j: int| 0 <= j < ps.len() implies i <= #[trigger] ps[j] <= s.len() by {
                    if j > 0 {
                        assert(ps[j] == rest[j - 1]);
                    }
                }
                assert forall|j1: int, j2: int| 0 <= j1 < j2 < ps.len() implies #[trigger] ps[j1]
                    < #[trigger] ps[j2] by {
                    assert(ps[j2] == rest[j2 - 1]);
                    if j1 > 0 {
                        assert(ps[j1] == rest[j1 - 1]);
                    } else {
                        assert(ps[j1] == k);
                        assert(rest[j2 - 1] >= next);
                    }
                }
            }
        },
        Step::Failed { .. } => {
        },
    }
}

/// Whether every due-date attribute among `attrs` has the strict shape.
pub open spec fn attrs_dates_strict(attrs: Seq<AttrView>) -> bool {
    forall|k: int|
        0 <= k < attrs.len() ==> (#[trigger] attrs[k] matches AttrView::Due(d) ==> is_strict_date(
            d,
        ))
}

proof fn lemma_attribute_due_strict(s: Seq<char>, i: int)
    ensures
        parse_attribute(s, i) matches Step::Found { v: AttrView::Due(d), .. } ==> is_strict_date(
            d,
        ),
{
}

proof fn lemma_attrs_dates_strict(s: Seq<char>, i: int)
    requires
        0 <= i <= s.len(),
    ensures
        parse_attrs(s, i) matches Step::Found { v, .. } ==> attrs_dates_strict(v),
    decreases s.len() - i,
{
    lemma_skip_ws_bounds(s, i);
    let k = skip_ws(s, i);
    if k < s.len() && s[k] == ',' {
        lemma_skip_ws_bounds(s, k + 1);
        let k2 = skip_ws(s, k + 1);
        lemma_attribute_due_strict(s, k2);
        match parse_attribute(s, k2) {
            Step::Found { v, next } => {
                if i < next && next <= s.len() {
                    lemma_attrs_dates_strict(s, next);
                    match parse_attrs(s, next) {
                        Step::Found { v: rest, .. } => {
                            assert forall|j: int| 0 <= j < (seq![v] + rest).len() implies ((
                            #[trigger] (seq![v] + rest)[j]) matches AttrView::Due(d)
                                ==> is_strict_date(d)) by {
                                if j > 0 {
                                    assert((seq![v] + rest)[j] == rest[j - 1]);
                                }
                            }
                        },
                        Step::Failed { .. } => {
                        },
                    }
                }
            },
            Step::Failed { .. } => {
            },
        }
    }
}

proof fn lemma_apply_attrs_due_strict(t: TaskView, attrs: Seq<AttrView>)
    requires
        attrs_dates_strict(attrs),
        t.due_date matches Some(d0) ==> is_strict_date(d0),
    ensures
        apply_attrs(t, attrs).due_date matches Some(d) ==> is_strict_date(d),
    decreases attrs.len(),
{
    if attrs.len() > 0 {
        assert(attrs[0] matches AttrView::Due(d) ==> is_strict_date(d));
        assert forall|k: int| 0 <= k < attrs.drop_first().len() implies ((
        #[trigger] attrs.drop_first()[k]) matches AttrView::Due(d) ==> is_strict_date(d)) by {
            assert(attrs.drop_first()[k] == attrs[k + 1]);
        }
        lemma_apply_attrs_due_strict(apply_attr(t, attrs[0]), attrs.drop_first());
    }
}

/// Every accepted task's due date, when present, has the strict
/// `DDDD-DD-DD` shape: a date written any other way cannot appear in an
/// accepted task.
pub proof fn lemma_accepted_due_date_is_strict(s: Seq<char>, i: int)
    requires
        0 <= i <= s.len(),
    ensures
        parse_task(s, i) matches Step::Found { v: t, .. } ==> (t.due_date matches Some(d)
            ==> is_strict_date(d)),
{
    if kw_todo_at(s, i) || kw_done_at(s, i) {
        lemma_skip_ws_bounds(s, i + 4);
        let k = skip_ws(s, i + 4);
        if k < s.len() && s[k] == ':' {
            lemma_skip_ws_bounds(s, k + 1);
            let k2 = skip_ws(s, k + 1);
            lemma_quoted_progress(s, k2);
            match parse_quoted(s, k2) {
                Step::Found { v: title, next } => {
                    lemma_attrs_dates_strict(s, next);
                    match parse_attrs(s, next) {
                        Step::Found { v: attrs, .. } => {
                            let status = if kw_todo_at(s, i) {
                                crate::ast::TaskStatus::Todo
                            } else {
                                crate::ast::TaskStatus::Done
                            };
                            lemma_apply_attrs_due_strict(
                                crate::grammar::base_task(status, title),
                                attrs,
                            );
                        },
                        Step::Failed { .. } => {
                        },
                    }
                },
                Step::Failed { .. } => {
                },
            }
        }
    }
}

/// The singular attribute kinds: those where a later occurrence overwrites
/// an earlier one.
#[derive(PartialEq, Eq, Structural)]
pub enum SingularKind {
    Priority,
    Due,
    Assignee,
}

pub open spec fn is_kind(a: AttrView, k: SingularKind) -> bool {
    match k {
        SingularKind::Priority => a is Priority,
        SingularKind::Due => a is Due,
        SingularKind::Assignee => a is Assign,
    }
}

/// How many attributes of the singular kind `k` the sequence holds.
pub open spec fn kind_count(attrs: Seq<AttrView>, k: SingularKind) -> int
    decreases attrs.len(),
{
    if attrs.len() == 0 {
        0
    } else {
        kind_count(attrs.drop_first(), k) + if is_kind(attrs[0], k) {
            1int
        } else {
            0int
        }
    }
}

/// The last attribute of the singular kind `k`, if any.
pub open spec fn last_of_kind(attrs: Seq<AttrView>, k: SingularKind) -> Option<AttrView>
    decreases attrs.len(),
{
    if attrs.len() == 0 {
        None
    } else {
        match last_of_kind(attrs.drop_first(), k) {
            Some(a) => Some(a),
            None => if is_kind(attrs[0], k) {
                Some(attrs[0])
            } else {
                None
            },
        }
    }
}

proof fn lemma_last_of_kind_is_kind(attrs: Seq<AttrView>, k: SingularKind)
    ensures
        last_of_kind(attrs, k) matches Some(a) ==> is_kind(a, k),
    decreases attrs.len(),
{
    if attrs.len() > 0 {
        lemma_last_of_kind_is_kind(attrs.drop_first(), k);
    }
}

proof fn lemma_last_of_kind_contains(attrs: Seq<AttrView>, k: SingularKind)
    ensures
        last_of_kind(attrs, k) matches Some(a) ==> attrs.contains(a),
    decreases attrs.len(),
{
    if attrs.len() > 0 {
        lemma_last_of_kind_contains(attrs.drop_first(), k);
        match last_of_kind(attrs, k) {
            Some(a) => {
                match last_of_kind(attrs.drop_first(), k) {
                    Some(b) => {
                        let j = choose|j: int|
                            0 <= j < attrs.drop_first().len() && attrs.drop_first()[j] == a;
                        assert(attrs[j + 1] == a);
                    },
                    None => {
                        assert(attrs[0] == a);
                    },
                }
            },
            None => {
            },
        }
    }
}

proof fn lemma_last_of_kind_none_iff_count_zero(attrs: Seq<AttrView>, k: SingularKind)
    ensures
        last_of_kind(attrs, k) is None <==> kind_count(attrs, k) == 0,
        kind_count(attrs, k) >= 0,
    decreases attrs.len(),
{
    if attrs.len() > 0 {
        lemma_last_of_kind_none_iff_count_zero(attrs.drop_first(), k);
    }
}

proof fn lemma_contains_kind_count_pos(attrs: Seq<AttrView>, a: AttrView, k: SingularKind)
    requires
        attrs.contains(a),
        is_kind(a, k),
    ensures
        kind_count(attrs, k) > 0,
    decreases attrs.len(),
{
    lemma_last_of_kind_none_iff_count_zero(attrs.drop_first(), k);
    if attrs[0] != a {
        let j = choose|j: int| 0 <= j < attrs.len() && attrs[j] == a;
        assert(attrs.drop_first()[j - 1] == a);
        lemma_contains_kind_count_pos(attrs.drop_first(), a, k);
    }
}

proof fn lemma_unique_kind_last(attrs: Seq<AttrView>, a: AttrView, k: SingularKind)
    requires
        attrs.contains(a),
        is_kind(a, k),
        kind_count(attrs, k) <= 1,
    ensures
        last_of_kind(attrs, k) == Some(a),
    decreases attrs.len(),
{
    lemma_last_of_kind_none_iff_count_zero(attrs.drop_first(), k);
    if attrs[0] == a {
        assert(kind_count(attrs.drop_first(), k) == 0);
        assert(last_of_kind(attrs.drop_first(), k) is None);
    } else {
        let j = choose|j: int| 0 <= j < attrs.len() && attrs[j] == a;
        assert(attrs.drop_first()[j - 1] == a);
        lemma_unique_kind_last(attrs.drop_first(), a, k);
    }
}

proof fn lemma_last_of_kind_same(a1: Seq<AttrView>, a2: Seq<AttrView>, k: SingularKind)
    requires
        forall|x: AttrView| a1.contains(x) <==> a2.contains(x),
        kind_count(a1, k) <= 1,
        kind_count(a2, k) <= 1,
    ensures
        last_of_kind(a1, k) == last_of_kind(a2, k),
{
    lemma_last_of_kind_is_kind(a1, k);
    lemma_last_of_kind_is_kind(a2, k);
    lemma_last_of_kind_contains(a1, k);
    lemma_last_of_kind_contains(a2, k);
    lemma_last_of_kind_none_iff_count_zero(a1, k);
    lemma_last_of_kind_none_iff_count_zero(a2, k);
    match last_of_kind(a1, k) {
        Some(a) => {
            assert(a2.contains(a));
            lemma_unique_kind_last(a2, a, k);
        },
        None => {
            match last_of_kind(a2, k) {
                Some(b) => {
                    assert(a1.contains(b));
                    lemma_contains_kind_count_pos(a1, b, k);
                },
                None => {
                },
            }
        },
    }
}

/// What each singular field of the built task is: the value of the last
/// attribute of its kind, or the starting value when the kind is absent.
proof fn lemma_apply_attrs_singular(t: TaskView, attrs: Seq<AttrView>)
    ensures
        apply_attrs(t, attrs).priority == (match last_of_kind(attrs, SingularKind::Priority) {
            Some(AttrView::Priority(p)) => Some(p),
            _ => t.priority,
        }),
        apply_attrs(t, attrs).due_date == (match last_of_kind(attrs, SingularKind::Due) {
            Some(AttrView::Due(d)) => Some(d),
            _ => t.due_date,
        }),
        apply_attrs(t, attrs).assignee == (match last_of_kind(attrs, SingularKind::Assignee) {
            Some(AttrView::Assign(x)) => Some(x),
            _ => t.assignee,
        }),
    decreases attrs.len(),
{
    lemma_last_of_kind_is_kind(attrs, SingularKind::Priority);
    lemma_last_of_kind_is_kind(attrs, SingularKind::Due);
    lemma_last_of_kind_is_kind(attrs, SingularKind::Assignee);
    if attrs.len() > 0 {
        lemma_apply_attrs_singular(apply_attr(t, attrs[0]), attrs.drop_first());
        lemma_last_of_kind_is_kind(attrs.drop_first(), SingularKind::Priority);
        lemma_last_of_kind_is_kind(attrs.drop_first(), SingularKind::Due);
        lemma_last_of_kind_is_kind(attrs.drop_first(), SingularKind::Assignee);
    }
}

/// Order independence of the singular attributes: applying the same set of
/// attributes in two different orders, with the priority, due date and
/// assignee kinds each occurring at most once, yields the same priority,
/// due date and assignee.
pub proof fn lemma_attribute_order_independence(t: TaskView, a1: Seq<AttrView>, a2: Seq<AttrView>)
    requires
        forall|x: AttrView| a1.contains(x) <==> a2.contains(x),
        kind_count(a1, SingularKind::Priority) <= 1,
        kind_count(a2, SingularKind::Priority) <= 1,
        kind_count(a1, SingularKind::Due) <= 1,
        kind_count(a2, SingularKind::Due) <= 1,
        kind_count(a1, SingularKind::Assignee) <= 1,
        kind_count(a2, SingularKind::Assignee) <= 1,
    ensures
        apply_attrs(t, a1).priority == apply_attrs(t, a2).priority,
        apply_attrs(t, a1).due_date == apply_attrs(t, a2).due_date,
        apply_attrs(t, a1).assignee == apply_attrs(t, a2).assignee,
{
    lemma_apply_attrs_singular(t, a1);
    lemma_apply_attrs_singular(t, a2);
    lemma_last_of_kind_same(a1, a2, SingularKind::Priority);
    lemma_last_of_kind_same(a1, a2, SingularKind::Due);
    lemma_last_of_kind_same(a1, a2, SingularKind::Assignee);
}

/// The tag values among `attrs`, in order.
pub open spec fn tag_values(attrs: Seq<AttrView>) -> Seq<Seq<char>>
    decreases attrs.len(),
{
    if attrs.len() == 0 {
        Seq::empty()
    } else {
        match attrs[0] {
            AttrView::Tag(x) => seq![x] + tag_values(attrs.drop_first()),
            _ => tag_values(attrs.drop_first()),
        }
    }
}

/// Tags accumulate: applying attributes appends every tag value, in source
/// order, to the tags already present; no occurrence overwrites another.
pub proof fn lemma_tags_accumulate(t: TaskView, attrs: Seq<AttrView>)
    ensures
        apply_attrs(t, attrs).tags == t.tags + tag_values(attrs),
    decreases attrs.len(),
{
    if attrs.len() == 0 {
        assert(t.tags + tag_values(attrs) =~= t.tags);
    } else {
        lemma_tags_accumulate(apply_attr(t, attrs[0]), attrs.drop_first());
        match attrs[0] {
            AttrView::Tag(x) => {
                assert(apply_attr(t, attrs[0]).tags =~= t.tags + seq![x]);
                assert((t.tags + seq![x]) + tag_values(attrs.drop_first()) =~= t.tags + (seq![x]
                    + tag_values(attrs.drop_first())));
            },
            _ => {
            },
        }
    }
}

proof fn lemma_tasks_dates_strict(s: Seq<char>, i: int)
    requires
        0 <= i <= s.len(),
    ensures
        forall|j: int|
            0 <= j < parse_tasks(s, i).items.len() ==> ((#[trigger] parse_tasks(
                s,
                i,
            ).items[j]).due_date matches Some(d) ==> is_strict_date(d)),
    decreases s.len() - i,
{
    lemma_skip_ws_bounds(s, i);
    let k = skip_ws(s, i);
    lemma_accepted_due_date_is_strict(s, k);
    match parse_task(s, k) {
        Step::Found { v, next } => {
            if i < next && next <= s.len() {
                lemma_tasks_dates_strict(s, next);
                let items = parse_tasks(s, i).items;
                let rest = parse_tasks(s, next).items;
                assert(items == seq![v] + rest);
                assert forall|j: int| 0 <= j < items.len() implies ((
                #[trigger] items[j]).due_date matches Some(d) ==> is_strict_date(d)) by {
                    if j > 0 {
                        assert(items[j] == rest[j - 1]);
                    } else {
                        assert(items[0] == v);
                    }
                }
            }
        },
        Step::Failed { .. } => {
        },
    }
}

/// Whether every due date among the project's tasks has the strict shape.
pub open spec fn project_dates_strict(p: ProjectView) -> bool {
    forall|k: int|
        0 <= k < p.tasks.len() ==> ((#[trigger] p.tasks[k]).due_date matches Some(d)
            ==> is_strict_date(d))
}

proof fn lemma_project_dates_strict(s: Seq<char>, i: int)
    requires
        0 <= i <= s.len(),
    ensures
        parse_project(s, i) matches Step::Found { v, .. } ==> project_dates_strict(v),
{
    if kw_project_at(s, i) {
        lemma_skip_ws_bounds(s, i + 7);
        let k = skip_ws(s, i + 7);
        lemma_quoted_progress(s, k);
        match parse_quoted(s, k) {
            Step::Found { v: name, next } => {
                lemma_skip_ws_bounds(s, next);
                let k2 = skip_ws(s, next);
                if k2 < s.len() && s[k2] == '{' {
                    lemma_tasks_dates_strict(s, k2 + 1);
                }
            },
            Step::Failed { .. } => {
            },
        }
    }
}

proof fn lemma_projects_rep_dates_strict(s: Seq<char>, i: int)
    requires
        0 <= i <= s.len(),
    ensures
        forall|j: int|
            0 <= j < crate::grammar::parse_projects_rep(s, i).items.len()
                ==> project_dates_strict(
                #[trigger] crate::grammar::parse_projects_rep(s, i).items[j],
            ),
    decreases s.len() - i,
{
    lemma_skip_ws_bounds(s, i);
    let k = skip_ws(s, i);
    lemma_project_dates_strict(s, k);
    match parse_project(s, k) {
        Step::Found { v, next } => {
            if i < next && next <= s.len() {
                lemma_projects_rep_dates_strict(s, next);
                let items = crate::grammar::parse_projects_rep(s, i).items;
                let rest = crate::grammar::parse_projects_rep(s, next).items;
                assert(items == seq![v] + rest);
                assert forall|j: int| 0 <= j < items.len() implies project_dates_strict(
                    #[trigger] items[j],
                ) by {
                    if j > 0 {
                        assert(items[j] == rest[j - 1]);
                    } else {
                        assert(items[0] == v);
                    }
                }
            }
        },
        Step::Failed { .. } => {
        },
    }
}

/// Every accepted input's due dates have the strict shape: whatever the
/// parser returns on success, each task's due date, when present, matches
/// `DDDD-DD-DD` exactly.
pub proof fn lemma_accepted_dates_are_strict(s: Seq<char>)
    ensures
        parse_file(s) matches Step::Found { v, .. } ==> forall|j: int|
            0 <= j < v.len() ==> project_dates_strict(#[trigger] v[j]),
{
    lemma_projects_rep_dates_strict(s, 0);
}

} // verus!
