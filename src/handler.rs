use vstd::prelude::*;

use crate::error::{ApiError, FriendError};
use crate::issue::IssueError;
use crate::ledger::VerifyError;
use crate::user::{User, UserError};

verus! {

/// A successful answer to an HTTP client.
#[derive(Debug)]
pub struct Response {
    pub status: u16,
    pub message: String,
}

/// Whether `r` is the error `BadRequest` carrying `m`.
pub open spec fn is_bad_request(r: ApiError, m: Seq<char>) -> bool {
    r matches ApiError::BadRequest(t) && t@ == m
}

/// Whether `r` is the error `NotFound` carrying `m`.
pub open spec fn is_not_found(r: ApiError, m: Seq<char>) -> bool {
    r matches ApiError::NotFound(t) && t@ == m
}

/// Whether `r` is the success answer carrying `m`.
pub open spec fn is_ok_reply(r: Result<Response, ApiError>, m: Seq<char>) -> bool {
    r matches Ok(resp) && resp.status == 200 && resp.message@ == m
}

/// A sign-up goes on only when no account holds the address: an account
/// found is a bad request, a failed lookup an internal error.
pub fn signup_precheck(lookup: &Result<User, UserError>) -> (r: Result<(), ApiError>)
    ensures
        lookup is Ok ==> (r matches Err(e) && is_bad_request(e, "User Already Exist with given email id"@)),
        lookup == Err::<User, UserError>(UserError::UserNotFound) ==> r is Ok,
        (lookup matches Err(e) && e != UserError::UserNotFound) ==> (r matches Err(
            ApiError::InternalServerError,
        )),
{
    match lookup {
        Ok(_) => Err(ApiError::BadRequest(String::from_str("User Already Exist with given email id"))),
        Err(UserError::UserNotFound) => Ok(()),
        Err(_) => Err(ApiError::InternalServerError),
    }
}

/// The account just created, or an internal error if it could not be.
pub fn created_user(created: Result<User, UserError>) -> (r: Result<User, ApiError>)
    ensures
        created matches Ok(u) ==> (r matches Ok(v) && v@ == u@),
        created is Err ==> (r matches Err(ApiError::InternalServerError)),
{
    match created {
        Ok(u) => Ok(u),
        Err(_) => Err(ApiError::InternalServerError),
    }
}

/// The account a login is for: a missing account is not found, a failed
/// lookup an internal error.
pub fn login_user(lookup: Result<User, UserError>) -> (r: Result<User, ApiError>)
    ensures
        lookup matches Ok(u) ==> (r matches Ok(v) && v@ == u@),
        lookup == Err::<User, UserError>(UserError::UserNotFound) ==> (r matches Err(e) && is_not_found(
            e,
            "User Not Found with given email id"@,
        )),
        (lookup matches Err(e) && e != UserError::UserNotFound) ==> (r matches Err(
            ApiError::InternalServerError,
        )),
{
    match lookup {
        Ok(u) => Ok(u),
        Err(UserError::UserNotFound) => Err(ApiError::NotFound(String::from_str("User Not Found with given email id"))),
        Err(_) => Err(ApiError::InternalServerError),
    }
}

/// The answer once a passcode has been issued, or not: `done` is the
/// message of the success answer.
pub fn issued_reply(issued: Result<(), IssueError>, done: &str) -> (r: Result<Response, ApiError>)
    ensures
        issued is Ok ==> is_ok_reply(r, done@),
        issued == Err::<(), IssueError>(IssueError::Mail) ==> (r matches Err(ApiError::EmailError)),
        issued == Err::<(), IssueError>(IssueError::Storage) ==> (r matches Err(ApiError::InternalServerError)),
{
    match issued {
        Ok(()) => Ok(Response { status: 200, message: String::from_str(done) }),
        Err(e) => Err(ApiError::from_issue(e)),
    }
}

/// The answer to a passcode check.
pub fn verify_reply(outcome: Result<bool, VerifyError>) -> (r: Result<Response, ApiError>)
    ensures
        outcome == Ok::<bool, VerifyError>(true) ==> is_ok_reply(r, "OTP Verified"@),
        outcome == Ok::<bool, VerifyError>(false) ==> (r matches Err(e) && is_bad_request(e, "Invalid OTP"@)),
        outcome == Err::<bool, VerifyError>(VerifyError::NotFound) ==> (r matches Err(e) && is_not_found(
            e,
            "OTP Not Found with given email id"@,
        )),
        outcome == Err::<bool, VerifyError>(VerifyError::Storage) ==> (r matches Err(
            ApiError::InternalServerError,
        )),
{
    match outcome {
        Ok(true) => Ok(Response { status: 200, message: String::from_str("OTP Verified") }),
        Ok(false) => Err(ApiError::BadRequest(String::from_str("Invalid OTP"))),
        Err(VerifyError::NotFound) => Err(ApiError::NotFound(String::from_str("OTP Not Found with given email id"))),
        Err(VerifyError::Storage) => Err(ApiError::InternalServerError),
    }
}

/// The answer when a friend could not be added: a listed address is a bad
/// request, anything else an internal error.
pub fn add_friend_error(e: FriendError) -> (r: Response)
    ensures
        e == FriendError::FriendAlreadyExist ==> r.status == 400 && r.message@
            == "Friend Already Exist with given email id"@,
        e != FriendError::FriendAlreadyExist ==> r.status == 500 && r.message@ == "Something went wrong"@,
{
    match e {
        FriendError::FriendAlreadyExist => Response {
            status: 400,
            message: String::from_str("Friend Already Exist with given email id"),
        },
        _ => Response { status: 500, message: String::from_str("Something went wrong") },
    }
}

/// The answer when no friend has the id asked for.
pub fn friend_not_found() -> (r: Response)
    ensures
        r.status == 404,
        r.message@ == "Friend Not Found with Given Id"@,
{
    Response { status: 404, message: String::from_str("Friend Not Found with Given Id") }
}

} // verus!
