use todo_web_app::error::Error;
use todo_web_app::tasks::tasks_page;
use todo_web_app::users::{authenticate, login_page, login_user, logout_user, register_user, update_user};
use todo_web_app::utilities::{ApiState, Route};

#[test]
fn login_failure_refreshes_page_with_flash_error() {
    let mut state = ApiState::new();

    // Log in with credentials that match nothing.
    let (result, cookie) = login_user(&mut state, None, "nobody@x.com", "wrong");
    let err = result.expect_err("login must fail");

    // The failure answers with a redirect back to the login page.
    assert_eq!(err.status_code(), 303);
    assert_eq!(err.redirect_target().expect("must redirect").path(), "/users/login");

    // The next rendering of the login page shows the flash message once.
    let page = login_page(&mut state, cookie);
    assert_eq!(page.errors.as_deref(), Some("Incorrect Credentials"));

    // A further rendering no longer shows it.
    let page = login_page(&mut state, cookie);
    assert!(page.errors.is_none());
}

#[test]
fn must_be_logged_in_to_access_todo_page() {
    let state = ApiState::new();

    let err = tasks_page(&state, None).expect_err("guard must reject");

    // Redirected back to login.
    assert_eq!(err.status_code(), 303);
    assert_eq!(err.redirect_target().expect("must redirect").path(), "/users/login");
}

#[test]
fn register_then_duplicate_email_names_the_field() {
    let mut state = ApiState::new();

    let redirect = register_user(
        &mut state,
        String::from("a@x.com"),
        String::from("alice"),
        "secret1",
    )
    .expect("first registration must succeed");
    assert_eq!(redirect.status, 303);
    assert_eq!(redirect.target.path(), "/users/login");

    let err = register_user(
        &mut state,
        String::from("a@x.com"),
        String::from("someone_else"),
        "secret2",
    )
    .expect_err("second registration with the same email must fail");
    assert_eq!(err.status_code(), 422);
    match err {
        Error::UnprocessableEntity { errors } => {
            assert_eq!(errors.len(), 1);
            assert_eq!(errors[0].0, "email");
            assert_eq!(errors[0].1, "email is already taken");
        },
        other => panic!("expected a field validation error, got {:?}", other),
    }
}

#[test]
fn duplicate_username_names_the_field() {
    let mut state = ApiState::new();
    register_user(&mut state, String::from("a@x.com"), String::from("alice"), "secret1")
        .expect("first registration must succeed");
    let err = register_user(
        &mut state,
        String::from("b@x.com"),
        String::from("alice"),
        "secret2",
    )
    .expect_err("same username must fail");
    match err {
        Error::UnprocessableEntity { errors } => {
            assert_eq!(errors.len(), 1);
            assert_eq!(errors[0].0, "username");
            assert_eq!(errors[0].1, "username is already taken");
        },
        other => panic!("expected a field validation error, got {:?}", other),
    }
}

#[test]
fn login_with_correct_credentials_reaches_protected_route() {
    let mut state = ApiState::new();
    register_user(&mut state, String::from("a@x.com"), String::from("alice"), "secret1")
        .expect("registration must succeed");

    let (result, cookie) = login_user(&mut state, None, "a@x.com", "secret1");
    let redirect = result.expect("login must succeed");
    assert_eq!(redirect.status, 303);
    assert_eq!(redirect.target.path(), "/todo");
    assert!(cookie.is_some());

    // A subsequent request to the protected route with the issued cookie
    // succeeds.
    let todos = tasks_page(&state, cookie).expect("must be allowed in");
    assert!(todos.todos.is_empty());
}

#[test]
fn login_rotates_the_presession_identifier() {
    let mut state = ApiState::new();
    register_user(&mut state, String::from("a@x.com"), String::from("alice"), "secret1")
        .expect("registration must succeed");

    // A failed login first, so the client holds a pre-authentication cookie.
    let (_, presession) = login_user(&mut state, None, "a@x.com", "wrong");
    assert!(presession.is_some());

    let (result, cookie) = login_user(&mut state, presession, "a@x.com", "secret1");
    result.expect("login must succeed");

    // The pre-authentication identifier is invalid afterwards.
    assert_ne!(cookie, presession);
    assert!(tasks_page(&state, presession).is_err());
    assert!(tasks_page(&state, cookie).is_ok());
}

#[test]
fn wrong_password_and_unknown_email_answer_alike() {
    let mut state = ApiState::new();
    register_user(&mut state, String::from("a@x.com"), String::from("alice"), "secret1")
        .expect("registration must succeed");

    let wrong_password = authenticate(&state.users, "a@x.com", "bad");
    let unknown_email = authenticate(&state.users, "b@x.com", "secret1");
    assert!(matches!(wrong_password, Err(Error::Unauthorized)));
    assert!(matches!(unknown_email, Err(Error::Unauthorized)));
}

#[test]
fn logout_destroys_the_session() {
    let mut state = ApiState::new();
    register_user(&mut state, String::from("a@x.com"), String::from("alice"), "secret1")
        .expect("registration must succeed");
    let (result, cookie) = login_user(&mut state, None, "a@x.com", "secret1");
    result.expect("login must succeed");
    assert!(tasks_page(&state, cookie).is_ok());

    let redirect = logout_user(&mut state, cookie);
    assert_eq!(redirect.status, 303);
    assert_eq!(redirect.target, Route::Home);
    assert_eq!(redirect.target.path(), "/");

    assert!(tasks_page(&state, cookie).is_err());
}

#[test]
fn update_user_changes_the_password() {
    let mut state = ApiState::new();
    register_user(&mut state, String::from("a@x.com"), String::from("alice"), "secret1")
        .expect("registration must succeed");

    // Wrong previous password is rejected, as is an unknown username.
    assert!(matches!(
        update_user(&mut state, "alice", "wrong", "secret2"),
        Err(Error::Unauthorized)
    ));
    assert!(matches!(
        update_user(&mut state, "bob", "secret1", "secret2"),
        Err(Error::Unauthorized)
    ));

    update_user(&mut state, "alice", "secret1", "secret2").expect("update must succeed");

    // Only the new password logs in now.
    let (old_pw, _) = login_user(&mut state, None, "a@x.com", "secret1");
    assert!(old_pw.is_err());
    let (new_pw, _) = login_user(&mut state, None, "a@x.com", "secret2");
    assert!(new_pw.is_ok());
}
