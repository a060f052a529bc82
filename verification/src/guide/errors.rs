//! Reading a user name, and what can go wrong with it.

use vstd::prelude::*;

verus! {

/// Why no user name was read.
#[derive(Debug)]
pub enum ReadUsernameError {
    /// Reading failed; the text says how.
    IoError(String),
    /// What was read holds no name; the text is where it was read.
    EmptyUsername(String),
}

/// How `error` is written out.
pub open spec fn error_text(error: ReadUsernameError) -> Seq<char> {
    match error {
        ReadUsernameError::IoError(e) => "IO error: "@ + e@,
        ReadUsernameError::EmptyUsername(path) => "Found no username in "@ + path@,
    }
}

impl ReadUsernameError {
    /// The failure written out.
    pub fn fmt(&self) -> (text: String)
        ensures
            text@ == error_text(*self),
    {
        match self {
            ReadUsernameError::IoError(e) => {
                let mut text = String::from_str("IO error: ");
                text.append(e.as_str());
                text
            },
            ReadUsernameError::EmptyUsername(path) => {
                let mut text = String::from_str("Found no username in ");
                text.append(path.as_str());
                text
            },
        }
    }

    /// The failure for a read that failed as `value` says.
    pub fn from(value: String) -> (error: Self)
        ensures
            error == ReadUsernameError::IoError(value),
    {
        ReadUsernameError::IoError(value)
    }
}

/// The user name in what was read at `path`: the text itself where reading
/// went well and the text is not empty.
pub fn read_username(path: &str, read: Result<String, String>) -> (outcome: Result<
    String,
    ReadUsernameError,
>)
    ensures
        match read {
            Err(e) => outcome == Err::<String, ReadUsernameError>(ReadUsernameError::IoError(e)),
            Ok(username) => if username@.len() == 0 {
                outcome is Err && outcome->Err_0 is EmptyUsername
                    && outcome->Err_0->EmptyUsername_0@ == path@
            } else {
                outcome == Ok::<String, ReadUsernameError>(username)
            },
        },
{
    match read {
        Err(e) => Err(ReadUsernameError::from(e)),
        Ok(username) => {
            if username.as_str().is_empty() {
                return Err(ReadUsernameError::EmptyUsername(path.to_owned()));
            }
            Ok(username)
        },
    }
}

} // verus!
