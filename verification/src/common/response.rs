//! The envelope in which every answer is sent: a status number, a message
//! and, on success, the data.

use vstd::prelude::*;

verus! {

/// `StatusCode::as_u16` of the `http` crate, as `axum` hands it on, called
/// on `StatusCode::OK`: the number of that status, 200.
#[verifier::external_body]
fn code_success() -> (code: u16)
    ensures
        code == 200,
{
    axum::http::StatusCode::OK.as_u16()
}

/// `StatusCode::as_u16` of the `http` crate, as `axum` hands it on, called
/// on `StatusCode::BAD_REQUEST`: the number of that status, 400.
#[verifier::external_body]
fn code_fail() -> (code: u16)
    ensures
        code == 400,
{
    axum::http::StatusCode::BAD_REQUEST.as_u16()
}

/// The number sent with a success.
pub open spec fn success_code() -> u16 {
    200
}

/// The number sent with a failure.
pub open spec fn fail_code() -> u16 {
    400
}

/// The message sent with a result that has no message of its own.
pub open spec fn success_text() -> Seq<char> {
    "ops successful"@
}

/// An answer: status number, message, data.
#[derive(Debug, Clone)]
pub struct RespVO<T> {
    pub code: Option<u16>,
    pub msg: Option<String>,
    pub data: Option<T>,
}

impl<T> RespVO<T> {
    /// The answer carries `code` and `msg`, and no data.
    pub open spec fn is_note(&self, code: u16, msg: Seq<char>) -> bool {
        &&& self.code == Some(code)
        &&& self.msg is Some
        &&& self.msg->0@ == msg
        &&& self.data is None
    }
}

impl<T: Clone> RespVO<T> {
    /// A success that carries a copy of `arg`.
    pub fn from_result(arg: &T) -> (resp: Self)
        ensures
            resp.code == Some(success_code()),
            resp.msg is Some,
            resp.msg->0@ == success_text(),
            resp.data is Some,
            cloned::<T>(*arg, resp.data->0),
    {
        RespVO {
            code: Some(code_success()),
            msg: Some("ops successful".to_owned()),
            data: Some(arg.clone()),
        }
    }

    /// A success that carries only the message `arg`.
    pub fn from_result_tip(arg: &str) -> (resp: Self)
        ensures
            resp.is_note(success_code(), arg@),
    {
        RespVO { code: Some(code_success()), msg: Some(arg.to_owned()), data: None }
    }

    /// A failure with the message `arg`.
    pub fn from_error(arg: &str) -> (resp: Self)
        ensures
            resp.is_note(fail_code(), arg@),
    {
        RespVO { code: Some(code_fail()), msg: Some(arg.to_owned()), data: None }
    }

    /// A failure with the status number `code` and the message `info`.
    pub fn from_error_info(code: u16, info: &str) -> (resp: Self)
        ensures
            resp.is_note(code, info@),
    {
        RespVO { code: Some(code), msg: Some(info.to_owned()), data: None }
    }

    /// A failure with the message `info`.
    pub fn from_error_infos(info: &str) -> (resp: Self)
        ensures
            resp.is_note(fail_code(), info@),
    {
        RespVO { code: Some(code_fail()), msg: Some(info.to_owned()), data: None }
    }
}

} // verus!
