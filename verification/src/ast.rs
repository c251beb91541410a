//! The typed data model: projects, tasks, and the enums for task status and
//! priority, together with their mathematical views.

use vstd::prelude::*;

verus! {

/// The status of a task, either `Todo` or `Done`.
#[derive(Debug, Clone, Copy, PartialEq, Eq, Structural)]
pub enum TaskStatus {
    Todo,
    Done,
}

/// The priority level of a task.
#[derive(Debug, Clone, Copy, PartialEq, Eq, Structural)]
pub enum Priority {
    High,
    Medium,
    Low,
}

/// A single work item: a required status and title, optional singular
/// attributes, and an ordered list of tags.
#[derive(Debug, Clone)]
pub struct Task {
    pub status: TaskStatus,
    pub title: String,
    pub priority: Option<Priority>,
    pub due_date: Option<String>,
    pub assignee: Option<String>,
    pub depends_on: Option<String>,
    pub tags: Vec<String>,
}

/// A named, ordered collection of tasks.
#[derive(Debug, Clone)]
pub struct Project {
    pub name: String,
    pub tasks: Vec<Task>,
}

/// The mathematical value of a `Task`: every string is a sequence of
/// characters.
pub struct TaskView {
    pub status: TaskStatus,
    pub title: Seq<char>,
    pub priority: Option<Priority>,
    pub due_date: Option<Seq<char>>,
    pub assignee: Option<Seq<char>>,
    pub depends_on: Option<Seq<char>>,
    pub tags: Seq<Seq<char>>,
}

/// The mathematical value of a `Project`.
pub struct ProjectView {
    pub name: Seq<char>,
    pub tasks: Seq<TaskView>,
}

impl View for Task {
    type V = TaskView;

    open spec fn view(&self) -> TaskView {
        TaskView {
            status: self.status,
            title: self.title@,
            priority: self.priority,
            due_date: self.due_date.deep_view(),
            assignee: self.assignee.deep_view(),
            depends_on: self.depends_on.deep_view(),
            tags: self.tags.deep_view(),
        }
    }
}

impl DeepView for Task {
    type V = TaskView;

    open spec fn deep_view(&self) -> TaskView {
        self.view()
    }
}

impl View for Project {
    type V = ProjectView;

    open spec fn view(&self) -> ProjectView {
        ProjectView { name: self.name@, tasks: self.tasks.deep_view() }
    }
}

impl DeepView for Project {
    type V = ProjectView;

    open spec fn deep_view(&self) -> ProjectView {
        self.view()
    }
}

/// How many of the given tasks are `Done`.
pub open spec fn spec_done_count(tasks: Seq<TaskView>) -> int
    decreases tasks.len(),
{
    if tasks.len() == 0 {
        0
    } else {
        spec_done_count(tasks.drop_last()) + if tasks.last().status == TaskStatus::Done {
            1int
        } else {
            0int
        }
    }
}

impl Project {
    /// The number of tasks of this project whose status is `Done`; the
    /// remaining tasks are the active ones.
    pub fn completed_count(&self) -> (c: usize)
        ensures
            c as int == spec_done_count(self@.tasks),
            c <= self.tasks.len(),
    {
        let mut c: usize = 0;
        let mut i: usize = 0;
        proof {
            assert(self@.tasks.take(0) =~= Seq::<TaskView>::empty());
        }
        while i < self.tasks.len()
            invariant
                i <= self.tasks.len(),
                self@.tasks.len() == self.tasks.len(),
                c as int == spec_done_count(self@.tasks.take(i as int)),
                c <= i,
            decreases self.tasks.len() - i,
        {
            proof {
                assert(self@.tasks.take(i + 1).drop_last() =~= self@.tasks.take(i as int));
                assert(self@.tasks.take(i + 1).last() == self@.tasks[i as int]);
            }
            if self.tasks[i].status == TaskStatus::Done {
                c = c + 1;
            }
            i = i + 1;
        }
        proof {
            assert(self@.tasks.take(i as int) =~= self@.tasks);
        }
        c
    }
}

} // verus!
