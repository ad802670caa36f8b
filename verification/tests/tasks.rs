use todo_web_app::error::Error;
use todo_web_app::session::SessionId;
use todo_web_app::tasks::{
    create_task, delete_task, edit_task_page, new_todo_page, tasks_page, update_task, NewTask,
    TaskStore, UpdateTask,
};
use todo_web_app::users::{login_user, register_user};
use todo_web_app::utilities::ApiState;

fn logged_in_state() -> (ApiState, Option<SessionId>) {
    let mut state = ApiState::new();
    register_user(&mut state, String::from("a@x.com"), String::from("alice"), "secret1")
        .expect("registration must succeed");
    let (result, cookie) = login_user(&mut state, None, "a@x.com", "secret1");
    result.expect("login must succeed");
    (state, cookie)
}

#[test]
fn creating_a_task_redirects_to_todo_with_the_task() {
    let (mut state, cookie) = logged_in_state();

    let title = "title";
    let description = "description";
    let redirect = create_task(
        &mut state,
        cookie,
        NewTask { title: String::from(title), description: Some(String::from(description)) },
    )
    .expect("couldn't send request");

    // It redirects to the /todo page.
    assert_eq!(redirect.status, 303);
    assert_eq!(redirect.target.path(), "/todo");

    // The task list now contains the title and the description.
    let page = tasks_page(&state, cookie).expect("couldn't send request");
    assert_eq!(page.todos.iter().any(|t| t.title == title), true);
    assert_eq!(page.todos.iter().any(|t| t.description == description), true);
}

#[test]
fn guarded_task_routes_reject_without_session() {
    let mut state = ApiState::new();
    let users_before = state.users.get_user_by_email("a@x.com").is_none();

    let err = create_task(
        &mut state,
        None,
        NewTask { title: String::from("t"), description: None },
    )
    .expect_err("guard must reject");
    assert_eq!(err.status_code(), 303);
    assert_eq!(err.redirect_target().expect("must redirect").path(), "/users/login");

    // Nothing was touched: no task was created, no record-store call made.
    assert!(tasks_page(&state, None).is_err());
    assert!(new_todo_page(&state, None).is_err());
    assert!(edit_task_page(&state, None, 0).is_err());
    let (state2, cookie) = logged_in_state();
    assert!(tasks_page(&state2, cookie).expect("allowed").todos.is_empty());
    assert!(users_before);
}

#[test]
fn missing_description_defaults_to_empty() {
    let (mut state, cookie) = logged_in_state();
    create_task(&mut state, cookie, NewTask { title: String::from("only title"), description: None })
        .expect("create must succeed");
    let page = tasks_page(&state, cookie).expect("allowed");
    assert_eq!(page.todos.len(), 1);
    assert_eq!(page.todos[0].title, "only title");
    assert_eq!(page.todos[0].description, "");
    assert!(!page.todos[0].completed);
}

#[test]
fn task_store_crud_round_trip() {
    let mut store = TaskStore::new();
    let id = store
        .create_new_task(String::from("write"), String::from("tests"), 100)
        .expect("create must succeed");

    let task = store.get_task(id).expect("task must exist");
    assert_eq!(task.title, "write");
    assert_eq!(task.description, "tests");
    assert!(!task.completed);
    assert_eq!(task.created_at, 100);

    store
        .update_task(
            id,
            UpdateTask {
                title: String::from("written"),
                description: String::from("all of them"),
                completed: true,
            },
            200,
        )
        .expect("update must succeed");
    let task = store.get_task(id).expect("task must exist");
    assert_eq!(task.title, "written");
    assert!(task.completed);
    assert_eq!(task.created_at, 100);
    assert_eq!(task.updated_at, 200);

    store.delete_task(id).expect("delete must succeed");
    assert!(store.get_task(id).is_none());
    assert!(matches!(store.delete_task(id), Err(Error::NotFound)));
    assert!(matches!(
        store.update_task(
            id,
            UpdateTask {
                title: String::new(),
                description: String::new(),
                completed: false,
            },
            300,
        ),
        Err(Error::NotFound)
    ));
}

#[test]
fn updating_and_deleting_tasks_through_the_routes() {
    let (mut state, cookie) = logged_in_state();
    create_task(
        &mut state,
        cookie,
        NewTask { title: String::from("draft"), description: Some(String::from("old")) },
    )
    .expect("create must succeed");
    let id = tasks_page(&state, cookie).expect("allowed").todos[0].task_id;

    // Behind the guard: without a session both routes reject and change
    // nothing.
    let err = update_task(
        &mut state,
        None,
        id,
        UpdateTask { title: String::from("x"), description: String::from("y"), completed: true },
    )
    .expect_err("guard must reject");
    assert_eq!(err.status_code(), 303);
    assert!(matches!(delete_task(&mut state, None, id), Err(Error::Unauthorized)));
    assert_eq!(tasks_page(&state, cookie).expect("allowed").todos[0].title, "draft");

    // With the session, the update rewrites the task and redirects to the
    // list.
    let redirect = update_task(
        &mut state,
        cookie,
        id,
        UpdateTask { title: String::from("final draft"), description: String::from("new"), completed: true },
    )
    .expect("update must succeed");
    assert_eq!(redirect.status, 303);
    assert_eq!(redirect.target.path(), "/todo");
    let todos = tasks_page(&state, cookie).expect("allowed").todos;
    assert_eq!(todos[0].title, "final draft");
    assert_eq!(todos[0].description, "new");
    assert!(todos[0].completed);

    // Deleting removes it; a second delete is not found.
    delete_task(&mut state, cookie, id).expect("delete must succeed");
    assert!(tasks_page(&state, cookie).expect("allowed").todos.is_empty());
    assert!(matches!(delete_task(&mut state, cookie, id), Err(Error::NotFound)));
    assert!(matches!(
        update_task(
            &mut state,
            cookie,
            id,
            UpdateTask { title: String::new(), description: String::new(), completed: false },
        ),
        Err(Error::NotFound)
    ));
}

#[test]
fn edit_page_serves_the_requested_task() {
    let (mut state, cookie) = logged_in_state();
    create_task(
        &mut state,
        cookie,
        NewTask { title: String::from("a"), description: Some(String::from("b")) },
    )
    .expect("create must succeed");
    let page = tasks_page(&state, cookie).expect("allowed");
    let id = page.todos[0].task_id;

    let edit = edit_task_page(&state, cookie, id).expect("task exists");
    assert_eq!(edit.todo.task_id, id);
    assert_eq!(edit.todo.title, "a");

    assert!(matches!(
        edit_task_page(&state, cookie, id + 1),
        Err(Error::NotFound)
    ));
}
