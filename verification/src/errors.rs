//! The kinds of failure that the engine reports, and those of the store that
//! it tells apart.

use crate::kmers::KmerCounts;
use crate::status::Applicant;
use vstd::prelude::*;

verus! {

/// Why the store could not do what it was asked.
#[derive(Debug, Clone, Copy, PartialEq, Eq, Structural)]
pub enum StoreError {
    /// A row with the same `nuid` or the same token exists already.
    UniqueViolation,
    /// No row matches the key that was looked up.
    RowNotFound,
    /// Any other failure of the store: a lost connection, a timeout, a row
    /// that cannot be read back.
    Failure,
}

/// A failure of one of the engine's operations.
#[derive(Debug, Clone)]
pub enum ModelError {
    /// The submitted mapping is not the canonical answer.
    IncorrectSolution { given_solution: KmerCounts },
    /// An applicant with this `nuid` is registered already.
    DuplicateUser,
    /// Some of the applicants asked for have no status.
    ApplicantsNotFound { applicants_found: Vec<Applicant>, applicants_not_found: Vec<String> },
    /// The store failed.
    SqlError,
    /// No applicant has this token or this `nuid`.
    NoUserFound,
}

/// What of a failure is shown to the caller of the service.
#[derive(Debug, Clone)]
pub enum ApiError {
    DuplicateUser,
    IncorrectSolution { given_solution: KmerCounts },
    DeserializeError,
    ApplicantsNotFound { applicants_found: Vec<Applicant>, applicants_not_found: Vec<String> },
    NoUserFound,
}

/// A failure of the store at registration.
#[derive(Debug, Clone, Copy, PartialEq, Eq, Structural)]
pub enum DatabaseError {
    /// An applicant with this `nuid` is registered already.
    DuplicateUser,
}

impl ModelError {
    /// The text that describes the failure.
    pub open spec fn message_text(&self) -> Seq<char> {
        match self {
            ModelError::IncorrectSolution { .. } => "Incorrect solution"@,
            ModelError::DuplicateUser => "A registration with this NUID exists"@,
            ModelError::ApplicantsNotFound { .. } =>
                "One or more of the applicants requested not found"@,
            ModelError::SqlError => "SQL error"@,
            ModelError::NoUserFound => "No user with this token exists"@,
        }
    }

    /// A description of the failure.
    pub fn message(&self) -> (text: String)
        ensures
            text@ == self.message_text(),
    {
        match self {
            ModelError::IncorrectSolution { .. } => "Incorrect solution".to_owned(),
            ModelError::DuplicateUser => "A registration with this NUID exists".to_owned(),
            ModelError::ApplicantsNotFound { .. } =>
                "One or more of the applicants requested not found".to_owned(),
            ModelError::SqlError => "SQL error".to_owned(),
            ModelError::NoUserFound => "No user with this token exists".to_owned(),
        }
    }
}

impl DatabaseError {
    /// A description of the failure.
    pub fn message(&self) -> (text: String)
        ensures
            text@ == "A registration with this NUID exists"@,
    {
        "A registration with this NUID exists".to_owned()
    }
}

/// The failure of a lookup: a missing row means that no such applicant
/// exists, anything else is a failure of the store.
pub open spec fn lookup_failure(error: StoreError) -> ModelError {
    match error {
        StoreError::RowNotFound => ModelError::NoUserFound,
        _ => ModelError::SqlError,
    }
}

/// The failure of a write of a new applicant: a uniqueness violation means
/// that the applicant is registered already, anything else is a failure of
/// the store.
pub open spec fn registration_failure(error: StoreError) -> ModelError {
    match error {
        StoreError::UniqueViolation => ModelError::DuplicateUser,
        _ => ModelError::SqlError,
    }
}

/// Classifies the failure of a lookup.
pub fn classify_lookup_failure(error: StoreError) -> (r: ModelError)
    ensures
        r == lookup_failure(error),
{
    match error {
        StoreError::RowNotFound => ModelError::NoUserFound,
        _ => ModelError::SqlError,
    }
}

/// Classifies the failure of a write of a new applicant.
pub fn classify_registration_failure(error: StoreError) -> (r: ModelError)
    ensures
        r == registration_failure(error),
{
    match error {
        StoreError::UniqueViolation => ModelError::DuplicateUser,
        _ => ModelError::SqlError,
    }
}

} // verus!
