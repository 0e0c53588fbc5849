//! What the service receives and answers.

use crate::errors::ApiError;
use vstd::prelude::*;

verus! {

/// The answer to a registration.
#[derive(Debug, Clone)]
pub struct RegisterResponse {
    pub token: String,
    pub challenge_string: String,
}

/// A request to register.
#[derive(Debug, Clone)]
pub struct RegisterRequest {
    pub name: String,
    pub nuid: String,
}

/// The answer to the recovery of a token.
#[derive(Debug, Clone)]
pub struct HandleForgotTokenResponse {
    pub token: String,
}

/// The answer to the lookup of a challenge.
#[derive(Debug, Clone)]
pub struct GetChallengeString {
    pub challenge_string: String,
}

/// The answer to a request that failed.
#[derive(Debug, Clone)]
pub struct ErrorResponse<'a> {
    pub msg: &'a str,
    pub error: Option<ApiError>,
}

} // verus!
