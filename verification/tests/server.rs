use stockrs::server::{
    body_format, create_user, delete_user, get_handler, handle_error, healthcheck_handler,
    list_users, perform_delete_user, post_handler, root_handler, starts_with, BodyFormat, User,
};
use stockrs::web::errors::AppError;

#[test]
fn plain_answers() {
    assert_eq!(root_handler(), "hello world");
    assert_eq!(get_handler(), "<h1>Hello world!</h1>");
    let health = healthcheck_handler();
    assert_eq!(health.status, 200);
    assert_eq!(
        health.headers,
        vec![("Location", "/health"), ("Set-Cookie", "lastchecked=justnow; Max-Age=3600")]
    );
    assert_eq!(health.body, "server running ok");
}

#[test]
fn short_bodies_are_refused() {
    assert!(matches!(post_handler(0), Err(AppError::BadRequest)));
    assert!(matches!(post_handler(4), Err(AppError::BadRequest)));
    match post_handler(5) {
        Ok((status, text)) => assert_eq!((status, text.as_str()), (200, "post done.")),
        Err(_) => panic!("five bytes are enough"),
    }
}

#[test]
fn users() {
    let user = User { id: 9, name: "Ann".to_string(), email: "a@b.c".to_string() };
    assert_eq!(create_user(&user), (201, "user created ok: Ann".to_string()));
    let users = list_users();
    assert_eq!(users.len(), 2);
    assert_eq!((users[0].id, users[0].name.as_str(), users[0].email.as_str()), (1, "Ocean", "ocean@bao.com"));
    assert_eq!((users[1].id, users[1].name.as_str(), users[1].email.as_str()), (2, "Bao", "bao@ocean.com"));
}

#[test]
fn the_first_user_cannot_be_deleted() {
    assert_eq!(perform_delete_user(1), Err("User cannot be deleted.".to_string()));
    assert_eq!(perform_delete_user(2), Ok(()));
    match delete_user(1) {
        Err((status, text)) => assert_eq!(
            (status, text.as_str()),
            (500, "Failed to delete user: User cannot be deleted.")
        ),
        Ok(_) => panic!("the first user stays"),
    }
    match delete_user(7) {
        Ok(user) => assert_eq!(
            (user.id, user.name.as_str(), user.email.as_str()),
            (7, "Deleted User", "deleted@user.com")
        ),
        Err(_) => panic!("the seventh user goes"),
    }
}

#[test]
fn body_formats() {
    assert_eq!(body_format(Some("application/json")), Ok(BodyFormat::Json));
    assert_eq!(body_format(Some("application/json; charset=utf-8")), Ok(BodyFormat::Json));
    assert_eq!(body_format(Some("application/x-www-form-urlencoded")), Ok(BodyFormat::Form));
    assert_eq!(body_format(Some("text/plain")), Err(415));
    assert_eq!(body_format(Some("application/jso")), Err(415));
    assert_eq!(body_format(Some("")), Err(415));
    assert_eq!(body_format(None), Err(415));
}

#[test]
fn prefixes() {
    assert!(starts_with("abc", ""));
    assert!(starts_with("abc", "ab"));
    assert!(starts_with("abc", "abc"));
    assert!(!starts_with("abc", "abcd"));
    assert!(!starts_with("abc", "b"));
    assert!(starts_with("", ""));
}

#[test]
fn failures_between_the_handlers() {
    assert_eq!(handle_error(true, "slow"), Ok(408));
    assert_eq!(
        handle_error(false, "broken"),
        Err((500, "Unhandled internal error: broken".to_string()))
    );
}
