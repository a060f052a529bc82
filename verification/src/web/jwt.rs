//! Who is asking: the claims carried by a request, and the refusal of a
//! request without valid claims.

use vstd::prelude::*;
use crate::common::response::RespVO;

verus! {

/// Why a request is not authorised.
#[derive(Debug)]
pub enum AuthError {
    WrongCredentials,
    MissingCredentials,
    TokenCreation,
    InvalidToken,
}

/// What a token says of its bearer.
#[derive(Debug, Clone)]
pub struct Claims {
    pub username: String,
    pub password: String,
    pub exp: Option<i32>,
}

/// The status number of a refusal.
pub open spec fn unauthorized_code() -> u16 {
    401
}

/// What was found of a token in a request.
pub enum TokenCheck {
    /// The request carries no token.
    Missing,
    /// The request carries a token that could not be read.
    Invalid,
    /// The request carries a token with these claims.
    Valid(Claims),
}

impl Claims {
    /// The claims of a request, or the refusal to send: a request without a
    /// token is told that it is not authenticated, one with an unreadable
    /// token that the token is invalid.
    pub fn from_request_parts(token: TokenCheck) -> (outcome: Result<Claims, RespVO<String>>)
        ensures
            match token {
                TokenCheck::Valid(claims) => outcome == Ok::<Claims, RespVO<String>>(claims),
                TokenCheck::Invalid => outcome is Err && outcome->Err_0.is_note(
                    unauthorized_code(),
                    "token无效"@,
                ),
                TokenCheck::Missing => outcome is Err && outcome->Err_0.is_note(
                    unauthorized_code(),
                    "未认证"@,
                ),
            },
    {
        match token {
            TokenCheck::Valid(claims) => Ok(claims),
            TokenCheck::Invalid => Err(RespVO::<String>::from_error_info(401, "token无效")),
            TokenCheck::Missing => Err(RespVO::<String>::from_error_info(401, "未认证")),
        }
    }
}

} // verus!
