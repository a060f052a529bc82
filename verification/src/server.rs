//! What the handlers of the second server answer.
//!
//! Taking a request apart and sending the answer are the caller's part.
//! The functions here decide the answer from what the request held.

use vstd::prelude::*;
use crate::web::errors::AppError;
use vstd::string::StringSliceAdditionalSpecFns;

verus! {

/// A user.
#[derive(Debug)]
pub struct User {
    pub id: u64,
    pub name: String,
    pub email: String,
}

/// The greeting at the root.
pub fn root_handler() -> (body: String)
    ensures
        body@ == "hello world"@,
{
    "hello world".to_owned()
}

/// The page at the root.
pub fn get_handler() -> (page: &'static str)
    ensures
        page@ == "<h1>Hello world!</h1>"@,
{
    "<h1>Hello world!</h1>"
}

/// An answer in its parts.
pub struct Answer {
    pub status: u16,
    pub headers: Vec<(&'static str, &'static str)>,
    pub body: String,
}

/// The answer to the question whether the server runs.
pub fn healthcheck_handler() -> (answer: Answer)
    ensures
        answer.status == 200,
        answer.headers@.len() == 2,
        answer.headers@[0].0@ == "Location"@,
        answer.headers@[0].1@ == "/health"@,
        answer.headers@[1].0@ == "Set-Cookie"@,
        answer.headers@[1].1@ == "lastchecked=justnow; Max-Age=3600"@,
        answer.body@ == "server running ok"@,
{
    let mut headers: Vec<(&'static str, &'static str)> = Vec::new();
    headers.push(("Location", "/health"));
    headers.push(("Set-Cookie", "lastchecked=justnow; Max-Age=3600"));
    Answer { status: 200, headers, body: "server running ok".to_owned() }
}

/// The answer to a posted body of `len` bytes: a body of fewer than five
/// bytes is refused.
pub fn post_handler(len: usize) -> (outcome: Result<(u16, String), AppError>)
    ensures
        len < 5 ==> outcome is Err && outcome->Err_0 is BadRequest,
        len >= 5 ==> outcome is Ok && outcome->Ok_0.0 == 200 && outcome->Ok_0.1@ == "post done."@,
{
    if len < 5 {
        return Err(AppError::BadRequest);
    }
    Ok((200, "post done.".to_owned()))
}

/// What is said of a user that was created under `name`.
pub open spec fn created_text(name: Seq<char>) -> Seq<char> {
    "user created ok: "@ + name
}

/// The answer to the creation of `user`.
pub fn create_user(user: &User) -> (answer: (u16, String))
    ensures
        answer.0 == 201,
        answer.1@ == created_text(user.name@),
{
    let mut body = String::from_str("user created ok: ");
    body.append(user.name.as_str());
    (201, body)
}

/// The users there are.
pub fn list_users() -> (users: Vec<User>)
    ensures
        users@.len() == 2,
        users@[0].id == 1,
        users@[0].name@ == "Ocean"@,
        users@[0].email@ == "ocean@bao.com"@,
        users@[1].id == 2,
        users@[1].name@ == "Bao"@,
        users@[1].email@ == "bao@ocean.com"@,
{
    let mut users: Vec<User> = Vec::new();
    users.push(User { id: 1, name: "Ocean".to_owned(), email: "ocean@bao.com".to_owned() });
    users.push(User { id: 2, name: "Bao".to_owned(), email: "bao@ocean.com".to_owned() });
    users
}

/// Deletes the user `user_id`: the first user cannot be deleted.
pub fn perform_delete_user(user_id: u64) -> (outcome: Result<(), String>)
    ensures
        user_id == 1 ==> outcome is Err && outcome->Err_0@ == "User cannot be deleted."@,
        user_id != 1 ==> outcome is Ok,
{
    if user_id == 1 {
        Err("User cannot be deleted.".to_owned())
    } else {
        Ok(())
    }
}

/// What is said of a deletion that failed for the reason `why`.
pub open spec fn not_deleted_text(why: Seq<char>) -> Seq<char> {
    "Failed to delete user: "@ + why
}

/// The answer to the request to delete the user `id`: the deleted user,
/// or the status and the text of the failure.
pub fn delete_user(id: u64) -> (outcome: Result<User, (u16, String)>)
    ensures
        id != 1 ==> outcome is Ok && outcome->Ok_0.id == id && outcome->Ok_0.name@
            == "Deleted User"@ && outcome->Ok_0.email@ == "deleted@user.com"@,
        id == 1 ==> outcome is Err && outcome->Err_0.0 == 500 && outcome->Err_0.1@
            == not_deleted_text("User cannot be deleted."@),
{
    match perform_delete_user(id) {
        Ok(_) => Ok(
            User { id, name: "Deleted User".to_owned(), email: "deleted@user.com".to_owned() },
        ),
        Err(e) => {
            let mut text = String::from_str("Failed to delete user: ");
            text.append(e.as_str());
            Err((500, text))
        },
    }
}

/// `text` begins with `prefix`, byte for byte.
pub open spec fn begins_with(text: Seq<u8>, prefix: Seq<u8>) -> bool {
    prefix.len() <= text.len() && text.subrange(0, prefix.len() as int) == prefix
}

/// Whether `text` begins with `prefix`.
pub fn starts_with(text: &str, prefix: &str) -> (begins: bool)
    ensures
        begins == begins_with(text.spec_bytes(), prefix.spec_bytes()),
{
    let tb = text.as_bytes();
    let pb = prefix.as_bytes();
    if pb.len() > tb.len() {
        return false;
    }
    let mut i: usize = 0;
    while i < pb.len()
        invariant
            tb@ == text.spec_bytes(),
            pb@ == prefix.spec_bytes(),
            i <= pb.len() <= tb.len(),
            tb@.subrange(0, i as int) == pb@.subrange(0, i as int),
        decreases pb.len() - i,
    {
        if tb[i] != pb[i] {
            assert(tb@.subrange(0, pb.len() as int)[i as int] == tb@[i as int]);
            assert(tb@.subrange(0, pb.len() as int) != pb@);
            return false;
        }
        proof {
            assert(tb@.subrange(0, i + 1) =~= tb@.subrange(0, i as int).push(tb@[i as int]));
            assert(pb@.subrange(0, i + 1) =~= pb@.subrange(0, i as int).push(pb@[i as int]));
        }
        i += 1;
    }
    proof {
        assert(pb@.subrange(0, pb.len() as int) =~= pb@);
    }
    true
}

/// How the body of a request is written.
#[derive(Debug, PartialEq, Eq)]
pub enum BodyFormat {
    Json,
    Form,
}

/// How the body of a request is to be read, from the content type that the
/// request names; the status of the refusal where it names none that is
/// known.
pub fn body_format(content_type: Option<&str>) -> (format: Result<BodyFormat, u16>)
    ensures
        match content_type {
            None => format == Err::<BodyFormat, u16>(415),
            Some(named) => if begins_with(named.spec_bytes(), "application/json".spec_bytes()) {
                format == Ok::<BodyFormat, u16>(BodyFormat::Json)
            } else if begins_with(
                named.spec_bytes(),
                "application/x-www-form-urlencoded".spec_bytes(),
            ) {
                format == Ok::<BodyFormat, u16>(BodyFormat::Form)
            } else {
                format == Err::<BodyFormat, u16>(415)
            },
        },
{
    if let Some(content_type) = content_type {
        if starts_with(content_type, "application/json") {
            return Ok(BodyFormat::Json);
        }
        if starts_with(content_type, "application/x-www-form-urlencoded") {
            return Ok(BodyFormat::Form);
        }
    }
    Err(415)
}

/// What is said of a failure that no handler took care of.
pub open spec fn unhandled_text(error: Seq<char>) -> Seq<char> {
    "Unhandled internal error: "@ + error
}

/// The answer to a failure between the handlers: a time-out is answered
/// with its own status, anything else with the text of the failure.
pub fn handle_error(timed_out: bool, error: &str) -> (answer: Result<u16, (u16, String)>)
    ensures
        timed_out ==> answer == Ok::<u16, (u16, String)>(408),
        !timed_out ==> answer is Err && answer->Err_0.0 == 500 && answer->Err_0.1@
            == unhandled_text(error@),
{
    if timed_out {
        Ok(408)
    } else {
        let mut text = String::from_str("Unhandled internal error: ");
        text.append(error);
        Err((500, text))
    }
}

} // verus!
