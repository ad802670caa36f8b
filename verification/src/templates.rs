//! The values handed to the page templates. Rendering them to HTML is the
//! presentation layer's business, outside this crate; what each page gets
//! to show is decided, and stated, here.

use vstd::prelude::*;

use crate::tasks::Task;

verus! {

/// The registration page carries no data.
#[derive(Debug)]
pub struct RegisterTemplate;

/// The login page: at most one error line, the flash message taken from the
/// session, shown once and never again.
#[derive(Debug)]
pub struct LoginTemplate {
    pub errors: Option<String>,
}

impl LoginTemplate {
    pub fn new(errors: Option<String>) -> (r: LoginTemplate)
        ensures
            r.errors == errors,
    {
        LoginTemplate { errors }
    }
}

/// The task-creation form page carries no data.
#[derive(Debug)]
pub struct NewTodoTemplate;

/// The task list page: every stored task, in storage order.
#[derive(Debug)]
pub struct TodosTemplate {
    pub todos: Vec<Task>,
}

/// The task edit page: the one task being edited.
#[derive(Debug)]
pub struct EditTodoTemplate {
    pub todo: Task,
}

} // verus!
