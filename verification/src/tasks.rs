//! Task records and the handlers of the protected `/todo` routes.
//!
//! The task data itself is plumbing around the core; what matters here is
//! that every one of these handlers sits behind the access guard: a request
//! without a valid logged-in session is answered with a redirect to the
//! login page before any task logic runs, and mutates nothing.

use vstd::prelude::*;
use vstd::pervasive::VecAdditionalExecFns;

use crate::error::Error;
use crate::session::{auth, guard_allows, SessionId};
use crate::templates::{EditTodoTemplate, NewTodoTemplate, TodosTemplate};
use crate::utilities::{ApiState, Redirect, Route};

verus! {

/// One task row.
#[derive(Debug)]
pub struct Task {
    pub task_id: u64,
    pub title: String,
    pub description: String,
    pub completed: bool,
    pub created_at: i64,
    pub updated_at: i64,
}

impl Clone for Task {
    fn clone(&self) -> (r: Self)
        ensures
            r == *self,
    {
        Task {
            task_id: self.task_id,
            title: self.title.clone(),
            description: self.description.clone(),
            completed: self.completed,
            created_at: self.created_at,
            updated_at: self.updated_at,
        }
    }
}

/// The form body of a task creation request.
#[derive(Debug)]
pub struct NewTask {
    pub title: String,
    pub description: Option<String>,
}

/// The form body of a task update request.
#[derive(Debug)]
pub struct UpdateTask {
    pub title: String,
    pub description: String,
    pub completed: bool,
}

/// Whether some task of `s` carries this identifier.
pub open spec fn has_task(s: Seq<Task>, task_id: u64) -> bool {
    exists|i: int| 0 <= i < s.len() && (#[trigger] s[i]).task_id == task_id
}

/// The in-memory task record store, injected into the handlers in place of
/// the production database.
pub struct TaskStore {
    tasks: Vec<Task>,
    next_id: u64,
}

impl View for TaskStore {
    type V = Seq<Task>;

    closed spec fn view(&self) -> Seq<Task> {
        self.tasks@
    }
}

impl TaskStore {
    /// Task identifiers are pairwise distinct and below the next one.
    pub closed spec fn wf(&self) -> bool {
        &&& forall|i: int, j: int|
            0 <= i < j < self.tasks@.len() ==> (#[trigger] self.tasks@[i]).task_id != (
            #[trigger] self.tasks@[j]).task_id
        &&& forall|i: int|
            0 <= i < self.tasks@.len() ==> (#[trigger] self.tasks@[i]).task_id < self.next_id
    }

    /// Whether this store can still issue a fresh task identifier.
    pub closed spec fn ids_left(&self) -> bool {
        self.next_id < u64::MAX
    }

    /// An empty store.
    pub fn new() -> (r: TaskStore)
        ensures
            r.wf(),
            r.ids_left(),
            r@ =~= Seq::<Task>::empty(),
    {
        TaskStore { tasks: Vec::new(), next_id: 0 }
    }

    /// The index of the task with this identifier, if any.
    fn find(&self, task_id: u64) -> (r: Option<usize>)
        ensures
            match r {
                Some(i) => i < self@.len() && self@[i as int].task_id == task_id,
                None => !has_task(self@, task_id),
            },
    {
        let n = self.tasks.len();
        let mut i: usize = 0;
        while i < n
            invariant
                n == self.tasks@.len(),
                i <= n,
                forall|k: int| 0 <= k < i ==> (#[trigger] self.tasks@[k]).task_id != task_id,
            decreases n - i,
        {
            if self.tasks[i].task_id == task_id {
                return Some(i);
            }
            i = i + 1;
        }
        None
    }

    /// Adds a task created at `now`, not yet completed, and returns its
    /// fresh identifier. Fails only when the identifiers are exhausted.
    pub fn create_new_task(&mut self, title: String, description: String, now: i64) -> (r: Result<
        u64,
        Error,
    >)
        requires
            old(self).wf(),
        ensures
            final(self).wf(),
            r is Ok <==> old(self).ids_left(),
            match r {
                Ok(id) => {
                    &&& !has_task(old(self)@, id)
                    &&& final(self)@ =~= old(self)@.push(
                        (Task {
                            task_id: id,
                            title,
                            description,
                            completed: false,
                            created_at: now,
                            updated_at: now,
                        }),
                    )
                },
                Err(e) => e == Error::Other && *final(self) == *old(self),
            },
    {
        if self.next_id == u64::MAX {
            return Err(Error::Other);
        }
        let id = self.next_id;
        self.tasks.push(
            Task { task_id: id, title, description, completed: false, created_at: now, updated_at: now },
        );
        self.next_id = self.next_id + 1;
        proof {
            assert forall|i: int, j: int|
                0 <= i < j < self.tasks@.len() implies (#[trigger] self.tasks@[i]).task_id != (
            #[trigger] self.tasks@[j]).task_id by {
                assert(self.tasks@[i] == old(self).tasks@[i]);
            }
            assert(!has_task(old(self)@, id));
        }
        Ok(id)
    }

    /// The task with this identifier, if any.
    pub fn get_task(&self, task_id: u64) -> (r: Option<&Task>)
        ensures
            match r {
                Some(t) => t.task_id == task_id && exists|i: int|
                    0 <= i < self@.len() && self@[i] == *t,
                None => !has_task(self@, task_id),
            },
    {
        match self.find(task_id) {
            None => None,
            Some(i) => Some(&self.tasks[i]),
        }
    }

    /// A copy of every task, in storage order.
    pub fn get_all_tasks(&self) -> (r: Vec<Task>)
        ensures
            r@ =~= self@,
    {
        let n = self.tasks.len();
        let mut out: Vec<Task> = Vec::new();
        let mut i: usize = 0;
        while i < n
            invariant
                n == self.tasks@.len(),
                i <= n,
                out@ =~= self.tasks@.subrange(0, i as int),
            decreases n - i,
        {
            out.push(self.tasks[i].clone());
            proof {
                assert(out@ =~= self.tasks@.subrange(0, i + 1));
            }
            i = i + 1;
        }
        out
    }

    /// Rewrites the title, description and completion flag of the task with
    /// this identifier, marking it updated at `now`. Fails exactly when no
    /// such task exists.
    pub fn update_task(&mut self, task_id: u64, update: UpdateTask, now: i64) -> (r: Result<
        (),
        Error,
    >)
        requires
            old(self).wf(),
        ensures
            final(self).wf(),
            r is Ok <==> has_task(old(self)@, task_id),
            match r {
                Ok(()) => exists|i: int|
                    0 <= i < old(self)@.len() && (#[trigger] old(self)@[i]).task_id == task_id
                        && final(self)@ =~= old(self)@.update(
                        i,
                        (Task {
                            task_id,
                            title: update.title,
                            description: update.description,
                            completed: update.completed,
                            created_at: old(self)@[i].created_at,
                            updated_at: now,
                        }),
                    ),
                Err(e) => e == Error::NotFound && *final(self) == *old(self),
            },
    {
        match self.find(task_id) {
            None => Err(Error::NotFound),
            Some(i) => {
                let created_at = self.tasks[i].created_at;
                self.tasks.set(
                    i,
                    Task {
                        task_id,
                        title: update.title,
                        description: update.description,
                        completed: update.completed,
                        created_at,
                        updated_at: now,
                    },
                );
                proof {
                    assert forall|p: int, q: int|
                        0 <= p < q < self.tasks@.len() implies (#[trigger] self.tasks@[p]).task_id
                        != (#[trigger] self.tasks@[q]).task_id by {
                        if p != i as int {
                            assert(self.tasks@[p] == old(self).tasks@[p]);
                        }
                        if q != i as int {
                            assert(self.tasks@[q] == old(self).tasks@[q]);
                        }
                    }
                }
                Ok(())
            },
        }
    }

    /// Removes the task with this identifier. Fails exactly when no such
    /// task exists; afterwards the identifier matches no task and every
    /// other task still stands, unchanged.
    pub fn delete_task(&mut self, task_id: u64) -> (r: Result<(), Error>)
        requires
            old(self).wf(),
        ensures
            final(self).wf(),
            r is Ok <==> has_task(old(self)@, task_id),
            match r {
                Ok(()) => {
                    &&& !has_task(final(self)@, task_id)
                    &&& final(self)@.len() == old(self)@.len() - 1
                    &&& forall|k: int|
                        0 <= k < final(self)@.len() ==> exists|t: int|
                            0 <= t < old(self)@.len() && old(self)@[t] == #[trigger] final(self)@[k]
                    &&& forall|t: int|
                        0 <= t < old(self)@.len() && (#[trigger] old(self)@[t]).task_id != task_id
                            ==> exists|k: int|
                            0 <= k < final(self)@.len() && final(self)@[k] == old(self)@[t]
                },
                Err(e) => e == Error::NotFound && *final(self) == *old(self),
            },
    {
        match self.find(task_id) {
            None => Err(Error::NotFound),
            Some(i) => {
                self.tasks.swap_remove(i);
                proof {
                    let s_old = old(self).tasks@;
                    let s_new = self.tasks@;
                    let n = s_old.len() as int;
                    assert forall|p: int, q: int|
                        0 <= p < q < s_new.len() implies (#[trigger] s_new[p]).task_id != (
                    #[trigger] s_new[q]).task_id by {
                        assert(s_new[p] == if p == i as int {
                            s_old[n - 1]
                        } else {
                            s_old[p]
                        });
                        assert(s_new[q] == if q == i as int {
                            s_old[n - 1]
                        } else {
                            s_old[q]
                        });
                    }
                    assert forall|p: int|
                        0 <= p < s_new.len() implies (#[trigger] s_new[p]).task_id
                            < self.next_id by {
                        assert(s_new[p] == if p == i as int {
                            s_old[n - 1]
                        } else {
                            s_old[p]
                        });
                    }
                    assert forall|p: int| 0 <= p < s_new.len() implies (#[trigger] s_new[p]).task_id
                        != task_id by {
                        assert(s_new[p] == if p == i as int {
                            s_old[n - 1]
                        } else {
                            s_old[p]
                        });
                        if p != i as int && p != n - 1 {
                            assert(s_old[p].task_id != s_old[i as int].task_id);
                        }
                        if p == i as int && i as int != n - 1 {
                            assert(s_old[i as int].task_id != s_old[n - 1].task_id);
                        }
                    }
                    assert forall|k: int|
                        0 <= k < s_new.len() implies exists|t: int|
                            0 <= t < s_old.len() && s_old[t] == #[trigger] s_new[k] by {
                        assert(s_new[k] == if k == i as int {
                            s_old[n - 1]
                        } else {
                            s_old[k]
                        });
                    }
                    assert forall|t: int|
                        0 <= t < s_old.len() && (#[trigger] s_old[t]).task_id
                            != task_id implies exists|k: int|
                            0 <= k < s_new.len() && s_new[k] == s_old[t] by {
                        assert(t != i as int);
                        if t == n - 1 {
                            assert(s_new[i as int] == s_old[t]);
                        } else {
                            assert(s_new[t] == s_old[t]);
                        }
                    }
                }
                Ok(())
            },
        }
    }
}

/// Serves the protected task-creation form page; behind the guard, like
/// every `/todo` route.
pub fn new_todo_page(state: &ApiState, sid: Option<SessionId>) -> (r: Result<
    NewTodoTemplate,
    Error,
>)
    requires
        state.wf(),
    ensures
        r is Ok <==> guard_allows(state.sessions@, sid),
        r matches Err(e) ==> e == Error::Unauthorized,
{
    match auth(&state.sessions, sid) {
        Err(e) => Err(e),
        Ok(_) => Ok(NewTodoTemplate),
    }
}

/// Creates a task from the submitted form and redirects back to the task
/// list. Without a valid logged-in session the request is rejected with a
/// redirect to the login page and nothing — no task, no user, no session —
/// is touched.
pub fn create_task(state: &mut ApiState, sid: Option<SessionId>, new_task: NewTask) -> (r: Result<
    Redirect,
    Error,
>)
    requires
        old(state).wf(),
    ensures
        final(state).wf(),
        final(state).users == old(state).users,
        final(state).sessions == old(state).sessions,
        !guard_allows(old(state).sessions@, sid) ==> (r matches Err(e) && e == Error::Unauthorized
            && *final(state) == *old(state)),
        guard_allows(old(state).sessions@, sid) ==> (r is Ok <==> old(state).tasks.ids_left()),
        guard_allows(old(state).sessions@, sid) ==> match r {
            Ok(red) => {
                &&& red.status == 303 && red.target == Route::Todo
                &&& final(state).tasks@.len() == old(state).tasks@.len() + 1
                &&& final(state).tasks@ =~= old(state).tasks@.push(final(state).tasks@.last())
                &&& final(state).tasks@.last().title == new_task.title
                &&& final(state).tasks@.last().description@ == (match new_task.description {
                    Some(d) => d@,
                    None => Seq::<char>::empty(),
                })
                &&& final(state).tasks@.last().completed == false
            },
            Err(e) => e == Error::Other && final(state).tasks == old(state).tasks,
        },
{
    match auth(&state.sessions, sid) {
        Err(e) => Err(e),
        Ok(_) => {
            let description = match new_task.description {
                Some(d) => d,
                None => String::new(),
            };
            let now = crate::utilities::now_unix();
            match state.tasks.create_new_task(new_task.title, description, now) {
                Err(e) => Err(e),
                Ok(_) => Ok(Redirect::to(Route::Todo)),
            }
        },
    }
}

/// Serves the protected task list: every stored task, exactly as stored.
pub fn tasks_page(state: &ApiState, sid: Option<SessionId>) -> (r: Result<TodosTemplate, Error>)
    requires
        state.wf(),
    ensures
        r is Ok <==> guard_allows(state.sessions@, sid),
        r matches Ok(t) ==> t.todos@ == state.tasks@,
        r matches Err(e) ==> e == Error::Unauthorized,
{
    match auth(&state.sessions, sid) {
        Err(e) => Err(e),
        Ok(_) => Ok(TodosTemplate { todos: state.tasks.get_all_tasks() }),
    }
}

/// Whether `new_tasks` is `old_tasks` with the task carrying `task_id`
/// rewritten to the submitted fields, its creation time kept.
pub open spec fn task_rewritten(
    old_tasks: Seq<Task>,
    new_tasks: Seq<Task>,
    task_id: u64,
    update: UpdateTask,
) -> bool {
    exists|i: int|
        {
            &&& 0 <= i < old_tasks.len()
            &&& (#[trigger] old_tasks[i]).task_id == task_id
            &&& new_tasks =~= old_tasks.update(i, new_tasks[i])
            &&& new_tasks[i].task_id == task_id
            &&& new_tasks[i].title == update.title
            &&& new_tasks[i].description == update.description
            &&& new_tasks[i].completed == update.completed
            &&& new_tasks[i].created_at == old_tasks[i].created_at
        }
}

/// Rewrites one task from the submitted form and redirects back to the task
/// list; behind the guard, like every `/todo` route. With the guard passed,
/// it succeeds exactly when the task exists, and fails as not-found
/// otherwise.
pub fn update_task(
    state: &mut ApiState,
    sid: Option<SessionId>,
    task_id: u64,
    update: UpdateTask,
) -> (r: Result<Redirect, Error>)
    requires
        old(state).wf(),
    ensures
        final(state).wf(),
        final(state).users == old(state).users,
        final(state).sessions == old(state).sessions,
        !guard_allows(old(state).sessions@, sid) ==> (r matches Err(e) && e == Error::Unauthorized
            && *final(state) == *old(state)),
        guard_allows(old(state).sessions@, sid) ==> (r is Ok <==> has_task(
            old(state).tasks@,
            task_id,
        )),
        guard_allows(old(state).sessions@, sid) ==> match r {
            Ok(red) => red.status == 303 && red.target == Route::Todo && task_rewritten(
                old(state).tasks@,
                final(state).tasks@,
                task_id,
                update,
            ),
            Err(e) => e == Error::NotFound && final(state).tasks == old(state).tasks,
        },
{
    match auth(&state.sessions, sid) {
        Err(e) => Err(e),
        Ok(_) => {
            let now = crate::utilities::now_unix();
            match state.tasks.update_task(task_id, update, now) {
                Err(e) => Err(e),
                Ok(()) => Ok(Redirect::to(Route::Todo)),
            }
        },
    }
}

/// Removes one task; behind the guard, like every `/todo` route. With the
/// guard passed, it succeeds exactly when the task exists — afterwards the
/// identifier matches no task and every other task still stands — and fails
/// as not-found otherwise.
pub fn delete_task(state: &mut ApiState, sid: Option<SessionId>, task_id: u64) -> (r: Result<
    (),
    Error,
>)
    requires
        old(state).wf(),
    ensures
        final(state).wf(),
        final(state).users == old(state).users,
        final(state).sessions == old(state).sessions,
        !guard_allows(old(state).sessions@, sid) ==> (r matches Err(e) && e == Error::Unauthorized
            && *final(state) == *old(state)),
        guard_allows(old(state).sessions@, sid) ==> (r is Ok <==> has_task(
            old(state).tasks@,
            task_id,
        )),
        guard_allows(old(state).sessions@, sid) ==> match r {
            Ok(()) => task_removed(old(state).tasks@, final(state).tasks@, task_id),
            Err(e) => e == Error::NotFound && final(state).tasks == old(state).tasks,
        },
{
    match auth(&state.sessions, sid) {
        Err(e) => Err(e),
        Ok(_) => state.tasks.delete_task(task_id),
    }
}

/// Whether `new_tasks` is `old_tasks` without the task carrying `task_id`:
/// that identifier matches nothing any more, one task is gone, and every
/// other task still stands, unchanged.
pub open spec fn task_removed(old_tasks: Seq<Task>, new_tasks: Seq<Task>, task_id: u64) -> bool {
    &&& !has_task(new_tasks, task_id)
    &&& new_tasks.len() == old_tasks.len() - 1
    &&& forall|k: int|
        0 <= k < new_tasks.len() ==> exists|t: int|
            0 <= t < old_tasks.len() && old_tasks[t] == #[trigger] new_tasks[k]
    &&& forall|t: int|
        0 <= t < old_tasks.len() && (#[trigger] old_tasks[t]).task_id != task_id ==> exists|k: int|
            0 <= k < new_tasks.len() && new_tasks[k] == old_tasks[t]
}

/// Serves the protected edit page for one task: the guard first, then the
/// task looked up by its identifier.
pub fn edit_task_page(state: &ApiState, sid: Option<SessionId>, task_id: u64) -> (r: Result<
    EditTodoTemplate,
    Error,
>)
    requires
        state.wf(),
    ensures
        !guard_allows(state.sessions@, sid) ==> (r matches Err(e) && e == Error::Unauthorized),
        guard_allows(state.sessions@, sid) ==> match r {
            Ok(t) => t.todo.task_id == task_id && exists|i: int|
                0 <= i < state.tasks@.len() && state.tasks@[i] == t.todo,
            Err(e) => e == Error::NotFound && !has_task(state.tasks@, task_id),
        },
{
    match auth(&state.sessions, sid) {
        Err(e) => Err(e),
        Ok(_) => {
            match state.tasks.get_task(task_id) {
                None => Err(Error::NotFound),
                Some(t) => Ok(EditTodoTemplate { todo: t.clone() }),
            }
        },
    }
}

} // verus!
