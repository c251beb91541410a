//! A parser for a small textual language that describes projects and their
//! tasks.  Source text is turned into typed `Project` and `Task` values, or
//! into a syntax error that names the grammar rule and the position at which
//! matching failed.
//!
//! The grammar is fixed mathematically by the specification functions of
//! [`grammar`]; the executable parser of [`parser`] is proved to return
//! exactly what those functions describe, for every input.

mod ast;
pub mod grammar;
pub mod laws;
mod parser;
pub mod position;

pub use ast::{Priority, Project, ProjectView, Task, TaskStatus, TaskView};
pub use grammar::{AttrView, Rule, Step};
pub use parser::{ParseError, ToDoParser};
