//! Registration, login and the list of users: what is sent in, what is
//! stored, and what is answered at each step.
//!
//! Looking a user up, storing one and signing a token are the caller's
//! part. The functions here check what was sent in and turn the outcome of
//! each such step into the answer.

use vstd::prelude::*;
use crate::common::response::{fail_code, success_code, success_text, RespVO};

verus! {

/// A token as it is handed to the user.
#[derive(Debug, Clone)]
pub struct AuthToken {
    pub access_token: String,
    pub token_type: String,
}

impl AuthToken {
    /// A bearer token.
    pub fn new(access_token: String) -> (token: Self)
        ensures
            token.access_token == access_token,
            token.token_type@ == "Bearer"@,
    {
        AuthToken { access_token, token_type: "Bearer".to_owned() }
    }
}

/// What is sent in to register.
#[derive(Debug, Clone)]
pub struct AuthPayload {
    pub password: String,
    pub username: String,
    pub cred: String,
    pub email: String,
}

/// One entry of the list of users.
#[derive(Debug, Clone)]
pub struct LianxXiPayload {
    pub name: String,
    pub age: i32,
    pub create_date: String,
    pub update_date: String,
}

/// What a token is made from.
#[derive(Debug, Clone)]
pub struct AuthPayToken {
    pub password: String,
    pub username: String,
    pub exp: Option<i32>,
}

/// What is sent in to log in.
#[derive(Debug, Clone)]
pub struct LoginPayload {
    pub username: String,
    pub password: String,
}

/// What a login is answered with.
#[derive(Debug, Clone)]
pub struct LoginResponse {
    pub username: String,
    pub access_token: String,
    pub token_type: String,
}

/// The path under which `path` is served.
pub open spec fn api_path(path: Seq<char>) -> Seq<char> {
    "/api"@ + path
}

/// The path under which a route for `path` is registered: every route lies
/// under `/api`.
pub fn handle_router(path: &str) -> (full: String)
    ensures
        full@ == api_path(path@),
{
    let mut full = String::from_str("/api");
    full.append(path);
    full
}

/// The first step of a registration, the look at what was sent in: the
/// refusal, or `None` where the registration goes on.
pub fn authorize(payload: &AuthPayload) -> (refusal: Option<RespVO<AuthToken>>)
    ensures
        payload.username@.len() == 0 ==> refusal is Some && refusal->0.is_note(
            fail_code(),
            "用户名不能为空！"@,
        ),
        payload.username@.len() != 0 && payload.password@.len() == 0 ==> refusal is Some
            && refusal->0.is_note(fail_code(), "密码不能为空！"@),
        payload.username@.len() != 0 && payload.password@.len() != 0 ==> refusal is None,
{
    if payload.username.as_str().is_empty() {
        Some(RespVO::<AuthToken>::from_error("用户名不能为空！"))
    } else if payload.password.as_str().is_empty() {
        Some(RespVO::<AuthToken>::from_error("密码不能为空！"))
    } else {
        None
    }
}

/// The second step of a registration, after the look for a user of that
/// name: where one was found under the very name, the answer that the name
/// is taken; else `None`, and the user is stored.
pub fn authorize_found(payload: &AuthPayload, found: Option<&AuthPayload>) -> (answer: Option<
    RespVO<AuthToken>,
>)
    ensures
        found is Some && found->0.username@ == payload.username@ ==> answer is Some
            && answer->0.is_note(success_code(), "用户名已注册！"@),
        !(found is Some && found->0.username@ == payload.username@) ==> answer is None,
{
    match found {
        Some(res) => {
            if payload.username == res.username {
                Some(RespVO::<AuthToken>::from_result_tip("用户名已注册！"))
            } else {
                None
            }
        },
        None => None,
    }
}

/// The last step of a registration, after the user was stored: success
/// where exactly one row was written, else the failure.
pub fn authorize_stored(result: Result<u64, String>) -> (answer: RespVO<AuthToken>)
    ensures
        match result {
            Ok(rows) => if rows == 1 {
                answer.is_note(success_code(), "注册成功！"@)
            } else {
                answer.is_note(fail_code(), "写入数据库失败！"@)
            },
            Err(info) => answer.is_note(fail_code(), info@),
        },
{
    match result {
        Ok(res) => {
            if res == 1 {
                RespVO::<AuthToken>::from_result_tip("注册成功！")
            } else {
                RespVO::<AuthToken>::from_error("写入数据库失败！")
            }
        },
        Err(err) => RespVO::<AuthToken>::from_error(err.as_str()),
    }
}

/// The moment at which every token expires.
pub open spec fn token_expiry() -> i32 {
    2000000000
}

/// What the token of the user `payload` is made from.
pub fn init_token(payload: &AuthPayload) -> (claims: AuthPayToken)
    ensures
        claims.username@ == payload.username@,
        claims.password@ == payload.password@,
        claims.exp == Some(token_expiry()),
{
    AuthPayToken {
        username: payload.username.clone(),
        password: payload.password.clone(),
        exp: Some(2000000000),
    }
}

/// The text of the cookie that carries `token`.
pub open spec fn cookie_text(token: Seq<char>) -> Seq<char> {
    "MERGE_TOKEN"@ + "="@ + token + ";HTTPOnly"@
}

/// The cookie that carries `token`.
pub fn cookie(token: &str) -> (text: String)
    ensures
        text@ == cookie_text(token@),
{
    let mut text = String::from_str("MERGE_TOKEN");
    text.append("=");
    text.append(token);
    text.append(";HTTPOnly");
    text
}

/// The first step of a login, after the look for the user: the refusal
/// where there is no such user or the password is another, else `None`,
/// and a token is signed.
pub fn login(body: &LoginPayload, found: Option<&AuthPayload>) -> (refusal: Option<
    RespVO<LoginResponse>,
>)
    ensures
        match found {
            None => refusal is Some && refusal->0.is_note(fail_code(), "用户名无效！"@),
            Some(user) => if body.password@ != user.password@ {
                refusal is Some && refusal->0.is_note(fail_code(), "密码错误！"@)
            } else {
                refusal is None
            },
        },
{
    match found {
        Some(res) => {
            if body.password != res.password {
                Some(RespVO::<LoginResponse>::from_error("密码错误！"))
            } else {
                None
            }
        },
        None => Some(RespVO::<LoginResponse>::from_error("用户名无效！")),
    }
}

/// The last step of a login: what is handed to the user `username` with
/// the signed `token`.
pub fn login_granted(username: String, token: String) -> (params: LoginResponse)
    ensures
        params.username == username,
        params.access_token == token,
        params.token_type@ == "Bearer"@,
{
    let arg = AuthToken::new(token);
    LoginResponse { username, access_token: arg.access_token, token_type: arg.token_type }
}

/// The answer to the request for the list of users, from the outcome of
/// reading it.
pub fn get_user_list(result: Result<Vec<LianxXiPayload>, String>) -> (answer: RespVO<
    Vec<LianxXiPayload>,
>)
    ensures
        match result {
            Ok(list) => answer.code == Some(success_code()) && answer.msg is Some
                && answer.msg->0@ == success_text() && answer.data is Some && cloned::<
                Vec<LianxXiPayload>,
            >(list, answer.data->0),
            Err(info) => answer.is_note(fail_code(), info@),
        },
{
    match result {
        Ok(res) => RespVO::<Vec<LianxXiPayload>>::from_result(&res),
        Err(err) => RespVO::<Vec<LianxXiPayload>>::from_error(err.as_str()),
    }
}

} // verus!
