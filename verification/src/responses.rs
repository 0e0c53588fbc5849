//! How a failure is answered: with which status and which words.

use crate::errors::{ApiError, ModelError};
use crate::messages::ErrorResponse;
use vstd::prelude::*;

verus! {

/// Why a request was turned down.
#[derive(Debug, Clone)]
pub enum Rejection {
    /// The engine reported a failure.
    Model(ModelError),
    /// The body of the request could not be read.
    BadBody,
    /// No route takes this path with this method.
    MethodNotAllowed,
    /// Anything else.
    Unhandled,
}

/// The status with which a rejection is answered: a conflict for a duplicate
/// registration, a bad request for a wrong solution or an unreadable body,
/// not found for a missing applicant or route, and a fault of the server for
/// a failure of the store and for whatever is left.
pub open spec fn status_of_rejection(cause: Rejection) -> u16 {
    match cause {
        Rejection::Model(ModelError::DuplicateUser) => 409,
        Rejection::Model(ModelError::IncorrectSolution { .. }) => 400,
        Rejection::Model(ModelError::ApplicantsNotFound { .. }) => 404,
        Rejection::Model(ModelError::SqlError) => 500,
        Rejection::Model(ModelError::NoUserFound) => 404,
        Rejection::BadBody => 400,
        Rejection::MethodNotAllowed => 404,
        Rejection::Unhandled => 500,
    }
}

/// The words with which a rejection is answered.
pub open spec fn words_of_rejection(cause: Rejection) -> Seq<char> {
    match cause {
        Rejection::Model(ModelError::DuplicateUser) =>
            "This NUID has already been used to register"@,
        Rejection::Model(ModelError::IncorrectSolution { .. }) => "Incorrect solution"@,
        Rejection::Model(ModelError::ApplicantsNotFound { .. }) =>
            "Submissions from one or more of the applicants requested was not found"@,
        Rejection::Model(ModelError::SqlError) => "Something went wrong on our side"@,
        Rejection::Model(ModelError::NoUserFound) => "No user with this token or nuid exists"@,
        Rejection::BadBody => "Bad request - check your request body"@,
        Rejection::MethodNotAllowed =>
            "The path you're trying to hit doesn't exist - check your endpoints and your request method"@,
        Rejection::Unhandled => "Unhandled rejection"@,
    }
}

/// What of a rejection is shown beside the words: the submitted mapping of a
/// wrong solution, the two parts of a request with missing applicants, and
/// nothing otherwise.
pub open spec fn shown_of_rejection(cause: Rejection) -> Option<ApiError> {
    match cause {
        Rejection::Model(ModelError::IncorrectSolution { given_solution }) => Some(
            ApiError::IncorrectSolution { given_solution },
        ),
        Rejection::Model(ModelError::ApplicantsNotFound { applicants_found, applicants_not_found }) =>
            Some(ApiError::ApplicantsNotFound { applicants_found, applicants_not_found }),
        _ => None,
    }
}

/// The answer to a rejected request: its status and its body.
pub fn handle_rejection(cause: Rejection) -> (r: (u16, ErrorResponse<'static>))
    ensures
        r.0 == status_of_rejection(cause),
        r.1.msg@ == words_of_rejection(cause),
        r.1.error == shown_of_rejection(cause),
{
    match cause {
        Rejection::Model(ModelError::DuplicateUser) => (
            409,
            ErrorResponse { msg: "This NUID has already been used to register", error: None },
        ),
        Rejection::Model(ModelError::IncorrectSolution { given_solution }) => (
            400,
            ErrorResponse {
                msg: "Incorrect solution",
                error: Some(ApiError::IncorrectSolution { given_solution }),
            },
        ),
        Rejection::Model(ModelError::ApplicantsNotFound { applicants_found, applicants_not_found }) => (
            404,
            ErrorResponse {
                msg: "Submissions from one or more of the applicants requested was not found",
                error: Some(ApiError::ApplicantsNotFound { applicants_found, applicants_not_found }),
            },
        ),
        Rejection::Model(ModelError::SqlError) => (
            500,
            ErrorResponse { msg: "Something went wrong on our side", error: None },
        ),
        Rejection::Model(ModelError::NoUserFound) => (
            404,
            ErrorResponse { msg: "No user with this token or nuid exists", error: None },
        ),
        Rejection::BadBody => (
            400,
            ErrorResponse { msg: "Bad request - check your request body", error: None },
        ),
        Rejection::MethodNotAllowed => (
            404,
            ErrorResponse {
                msg: "The path you're trying to hit doesn't exist - check your endpoints and your request method",
                error: None,
            },
        ),
        Rejection::Unhandled => (500, ErrorResponse { msg: "Unhandled rejection", error: None }),
    }
}

} // verus!
