use vstd::prelude::*;

use crate::issue::IssueError;

verus! {

/// Why a friend could not be found or added.
#[derive(Clone, Copy, Debug, PartialEq, Eq, Structural)]
pub enum FriendError {
    /// No friend has the id asked for.
    FriendNotFound,
    /// A friend with the same address is already listed.
    FriendAlreadyExist,
    /// The store could not be read or written.
    Storage,
}

/// An error answered to an HTTP client.
#[derive(Debug)]
pub enum ApiError {
    /// The request body was not the JSON expected; the status and text are
    /// those the extractor gave.
    JsonExtractionRejection { status: u16, body: String },
    BadRequest(String),
    NotFound(String),
    InternalServerError,
    EmailError,
    TransactionError(String),
}

/// The HTTP status answered for an error.
pub open spec fn status_of(e: ApiError) -> u16 {
    match e {
        ApiError::JsonExtractionRejection { status, .. } => status,
        ApiError::BadRequest(_) => 400,
        ApiError::NotFound(_) => 404,
        _ => 500,
    }
}

/// The message answered for an error.
pub open spec fn message_of(e: ApiError) -> Seq<char> {
    match e {
        ApiError::JsonExtractionRejection { body, .. } => body@,
        ApiError::BadRequest(m) => m@,
        ApiError::NotFound(m) => m@,
        ApiError::InternalServerError => "Internal Server Error"@,
        ApiError::EmailError => "Failed to send Email"@,
        ApiError::TransactionError(m) => m@,
    }
}

impl ApiError {
    /// The status and message of the response that answers this error.
    pub fn into_parts(self) -> (r: (u16, String))
        ensures
            r.0 == status_of(self),
            r.1@ == message_of(self),
    {
        match self {
            ApiError::JsonExtractionRejection { status, body } => (status, body),
            ApiError::BadRequest(m) => (400, m),
            ApiError::NotFound(m) => (404, m),
            ApiError::InternalServerError => (500, String::from_str("Internal Server Error")),
            ApiError::EmailError => (500, String::from_str("Failed to send Email")),
            ApiError::TransactionError(m) => (500, m),
        }
    }

    /// The error answered when a passcode could not be issued.
    pub fn from_issue(e: IssueError) -> (r: ApiError)
        ensures
            e == IssueError::Mail ==> r is EmailError,
            e == IssueError::Storage ==> r is InternalServerError,
    {
        match e {
            IssueError::Mail => ApiError::EmailError,
            IssueError::Storage => ApiError::InternalServerError,
        }
    }
}

} // verus!
