use todo_web_app::config::AppEnv;
use todo_web_app::error::Error;
use todo_web_app::templates::LoginTemplate;
use todo_web_app::utilities::{Redirect, Route};

#[test]
fn app_env_names_its_config_file() {
    assert_eq!(AppEnv::Dev.config_file(), "dev.yaml");
    assert_eq!(AppEnv::Prod.config_file(), "prod.yaml");
}

#[test]
fn app_env_parses_exactly_dev_and_prod() {
    assert_eq!(AppEnv::from_name("dev"), Some(AppEnv::Dev));
    assert_eq!(AppEnv::from_name("prod"), Some(AppEnv::Prod));
    assert_eq!(AppEnv::from_name("staging"), None);
    assert_eq!(AppEnv::from_name(""), None);
    assert_eq!(AppEnv::from_name("Dev"), None);
}

#[test]
fn error_status_codes_follow_the_taxonomy() {
    assert_eq!(Error::NotFound.status_code(), 404);
    assert_eq!(Error::Unauthorized.status_code(), 303);
    assert_eq!(Error::HashingBackend.status_code(), 500);
    assert_eq!(Error::SessionBackend.status_code(), 500);
    assert_eq!(Error::Other.status_code(), 500);
    assert_eq!(Error::unprocessable_entity(Vec::new()).status_code(), 422);
}

#[test]
fn only_unauthorized_redirects() {
    assert_eq!(Error::Unauthorized.redirect_target(), Some(Route::Login));
    assert_eq!(Error::NotFound.redirect_target(), None);
    assert_eq!(Error::HashingBackend.redirect_target(), None);
    assert_eq!(Error::unprocessable_entity(Vec::new()).redirect_target(), None);
}

#[test]
fn unprocessable_entity_carries_its_fields() {
    let e = Error::unprocessable_entity(vec![(
        String::from("email"),
        String::from("email is already taken"),
    )]);
    match e {
        Error::UnprocessableEntity { errors } => {
            assert_eq!(errors.len(), 1);
            assert_eq!(errors[0].0, "email");
        },
        other => panic!("unexpected error {:?}", other),
    }
}

#[test]
fn error_messages_are_fixed_strings() {
    assert_eq!(Error::NotFound.message(), "entity not found");
    assert_eq!(Error::Unauthorized.message(), "error in authentication");
    assert_eq!(
        Error::unprocessable_entity(Vec::new()).message(),
        "error in the request body"
    );
    assert_eq!(Error::HashingBackend.message(), "an internal server error occurred");
}

#[test]
fn redirect_is_always_see_other() {
    let r = Redirect::to(Route::Todo);
    assert_eq!(r.status, 303);
    assert_eq!(r.target, Route::Todo);
    assert_eq!(Route::Home.path(), "/");
    assert_eq!(Route::Login.path(), "/users/login");
    assert_eq!(Route::Todo.path(), "/todo");
}

#[test]
fn login_template_keeps_its_errors() {
    assert_eq!(LoginTemplate::new(None).errors, None);
    assert_eq!(
        LoginTemplate::new(Some(String::from("oops"))).errors.as_deref(),
        Some("oops")
    );
}
