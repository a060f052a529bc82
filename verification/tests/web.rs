use stockrs::common::response::RespVO;
use stockrs::web::errors::{AppError, MultipartError};
use stockrs::web::jwt::{Claims, TokenCheck};
use stockrs::web::merge_routes::{
    authorize, authorize_found, authorize_stored, cookie, get_user_list, handle_router,
    init_token, login, login_granted, AuthPayload, AuthToken, LianxXiPayload, LoginPayload,
};

fn user(username: &str, password: &str) -> AuthPayload {
    AuthPayload {
        password: password.to_string(),
        username: username.to_string(),
        cred: "cred".to_string(),
        email: "a@b.c".to_string(),
    }
}

#[test]
fn response_envelopes() {
    let ok = RespVO::<u32>::from_result(&7);
    assert_eq!(ok.code, Some(200));
    assert_eq!(ok.msg.as_deref(), Some("ops successful"));
    assert_eq!(ok.data, Some(7));
    let tip = RespVO::<u32>::from_result_tip("done");
    assert_eq!((tip.code, tip.msg.as_deref(), tip.data), (Some(200), Some("done"), None));
    let err = RespVO::<u32>::from_error("bad");
    assert_eq!((err.code, err.msg.as_deref(), err.data), (Some(400), Some("bad"), None));
    let err = RespVO::<u32>::from_error_infos("worse");
    assert_eq!((err.code, err.msg.as_deref(), err.data), (Some(400), Some("worse"), None));
    let err = RespVO::<u32>::from_error_info(401, "who");
    assert_eq!((err.code, err.msg.as_deref(), err.data), (Some(401), Some("who"), None));
}

#[test]
fn auth_token_is_a_bearer_token() {
    let token = AuthToken::new("abc".to_string());
    assert_eq!(token.access_token, "abc");
    assert_eq!(token.token_type, "Bearer");
}

#[test]
fn registration_checks_what_was_sent() {
    let refusal = authorize(&user("", "pw")).unwrap();
    assert_eq!(refusal.code, Some(400));
    assert_eq!(refusal.msg.as_deref(), Some("用户名不能为空！"));
    let refusal = authorize(&user("", "")).unwrap();
    assert_eq!(refusal.msg.as_deref(), Some("用户名不能为空！"));
    let refusal = authorize(&user("name", "")).unwrap();
    assert_eq!(refusal.code, Some(400));
    assert_eq!(refusal.msg.as_deref(), Some("密码不能为空！"));
    assert!(authorize(&user("name", "pw")).is_none());
}

#[test]
fn registration_refuses_a_taken_name() {
    let payload = user("name", "pw");
    let taken = authorize_found(&payload, Some(&user("name", "other"))).unwrap();
    assert_eq!(taken.code, Some(200));
    assert_eq!(taken.msg.as_deref(), Some("用户名已注册！"));
    assert!(authorize_found(&payload, Some(&user("other", "pw"))).is_none());
    assert!(authorize_found(&payload, None).is_none());
}

#[test]
fn registration_answers_the_outcome_of_storing() {
    let ok = authorize_stored(Ok(1));
    assert_eq!((ok.code, ok.msg.as_deref()), (Some(200), Some("注册成功！")));
    let none = authorize_stored(Ok(0));
    assert_eq!((none.code, none.msg.as_deref()), (Some(400), Some("写入数据库失败！")));
    let two = authorize_stored(Ok(2));
    assert_eq!((two.code, two.msg.as_deref()), (Some(400), Some("写入数据库失败！")));
    let failed = authorize_stored(Err("no connection".to_string()));
    assert_eq!((failed.code, failed.msg.as_deref()), (Some(400), Some("no connection")));
}

#[test]
fn login_checks_user_and_password() {
    let body = LoginPayload { username: "name".to_string(), password: "pw".to_string() };
    let unknown = login(&body, None).unwrap();
    assert_eq!((unknown.code, unknown.msg.as_deref()), (Some(400), Some("用户名无效！")));
    let wrong = login(&body, Some(&user("name", "other"))).unwrap();
    assert_eq!((wrong.code, wrong.msg.as_deref()), (Some(400), Some("密码错误！")));
    assert!(login(&body, Some(&user("name", "pw"))).is_none());
}

#[test]
fn login_grants_a_bearer_token() {
    let granted = login_granted("name".to_string(), "tok".to_string());
    assert_eq!(granted.username, "name");
    assert_eq!(granted.access_token, "tok");
    assert_eq!(granted.token_type, "Bearer");
    assert_eq!(cookie("tok"), "MERGE_TOKEN=tok;HTTPOnly");
    let claims = init_token(&user("name", "pw"));
    assert_eq!(claims.username, "name");
    assert_eq!(claims.password, "pw");
    assert_eq!(claims.exp, Some(2000000000));
}

#[test]
fn user_list_answer() {
    let entry = LianxXiPayload {
        name: "n".to_string(),
        age: 3,
        create_date: "c".to_string(),
        update_date: "u".to_string(),
    };
    let ok = get_user_list(Ok(vec![entry]));
    assert_eq!(ok.code, Some(200));
    assert_eq!(ok.msg.as_deref(), Some("ops successful"));
    let data = ok.data.unwrap();
    assert_eq!(data.len(), 1);
    assert_eq!((data[0].name.as_str(), data[0].age), ("n", 3));
    let failed = get_user_list(Err("gone".to_string()));
    assert_eq!((failed.code, failed.msg.as_deref()), (Some(400), Some("gone")));
    assert!(failed.data.is_none());
}

#[test]
fn routes_lie_under_api() {
    assert_eq!(handle_router("/login"), "/api/login");
    assert_eq!(handle_router(""), "/api");
}

#[test]
fn claims_or_refusal() {
    let claims = Claims { username: "u".to_string(), password: "p".to_string(), exp: Some(1) };
    let ok = Claims::from_request_parts(TokenCheck::Valid(claims)).unwrap();
    assert_eq!((ok.username.as_str(), ok.password.as_str(), ok.exp), ("u", "p", Some(1)));
    let invalid = Claims::from_request_parts(TokenCheck::Invalid).unwrap_err();
    assert_eq!((invalid.code, invalid.msg.as_deref()), (Some(401), Some("token无效")));
    let missing = Claims::from_request_parts(TokenCheck::Missing).unwrap_err();
    assert_eq!((missing.code, missing.msg.as_deref()), (Some(401), Some("未认证")));
}

#[test]
fn app_errors_and_their_answers() {
    assert_eq!(AppError::InternalError.into_response(), (500, "Internal Server Error"));
    assert_eq!(AppError::BadRequest.into_response(), (400, "Bad Request"));
    assert_eq!(AppError::UserNotFound.into_response(), (404, "User Not Found"));
    assert_eq!(MultipartError::NoName.fmt(), "No named field in multipart");
    assert_eq!(MultipartError::InvalidValue.fmt(), "Invalid value in multipart");
    assert_eq!(MultipartError::ReadError.fmt(), "Reading multipart error");
}
