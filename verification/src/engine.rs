//! The decisions of registration, verification and lookup.
//!
//! The store is asked by the caller; each function here takes what the store
//! answered and says what the operation returns and what is to be written
//! next.

use crate::challenge::{
    generate_challenge_string,
    generate_token,
    is_challenge,
    is_random_token,
    KMER_LENGTH,
};
use crate::errors::{
    classify_lookup_failure,
    classify_registration_failure,
    lookup_failure,
    registration_failure,
    ModelError,
    StoreError,
};
use crate::kmers::{find_kmers, kmer_counts, KmerCounts};
use crate::status::{status_of, Applicant, ApplicantView, StatusRow, StatusRowView};
use vstd::prelude::*;

verus! {

/// What is written to the store when an applicant registers, beside the name
/// and the `nuid`: the token, the challenge and its canonical answer.
#[derive(Debug)]
pub struct Registration {
    pub token: u128,
    pub challenge_string: String,
    pub solution: KmerCounts,
}

/// The registration with the given token and challenge: its solution is the
/// canonical answer to the challenge.
pub fn registration_for(token: u128, challenge_string: String) -> (r: Registration)
    ensures
        r.token == token,
        r.challenge_string == challenge_string,
        r.solution@ == kmer_counts(challenge_string@, KMER_LENGTH as nat),
{
    let solution = find_kmers(&challenge_string, KMER_LENGTH);
    Registration { token, challenge_string, solution }
}

/// A registration with a fresh token and a fresh challenge.
pub fn new_registration() -> (r: Registration)
    ensures
        is_random_token(r.token),
        is_challenge(r.challenge_string@),
        r.solution@ == kmer_counts(r.challenge_string@, KMER_LENGTH as nat),
{
    let token = generate_token();
    let challenge_string = generate_challenge_string();
    registration_for(token, challenge_string)
}

/// What a registration returns, given what the store answered to the write of
/// the applicant and the challenge: the token and the challenge where they
/// were written, `DuplicateUser` where the store holds the applicant already,
/// `SqlError` where it failed otherwise. The solution is never handed out.
pub fn register_user(registration: Registration, stored: Result<(), StoreError>) -> (r: Result<
    (u128, String),
    ModelError,
>)
    ensures
        match stored {
            Ok(_) => r == Ok::<(u128, String), ModelError>(
                (registration.token, registration.challenge_string),
            ),
            Err(error) => r == Err::<(u128, String), ModelError>(registration_failure(error)),
        },
{
    match stored {
        Ok(_) => Ok((registration.token, registration.challenge_string)),
        Err(error) => Err(classify_registration_failure(error)),
    }
}

/// What the recovery of a token returns, given what the store found for the
/// `nuid`: the token, `NoUserFound` where no applicant has the `nuid`,
/// `SqlError` where the store failed.
pub fn retreive_token(found: Result<u128, StoreError>) -> (r: Result<u128, ModelError>)
    ensures
        match found {
            Ok(token) => r == Ok::<u128, ModelError>(token),
            Err(error) => r == Err::<u128, ModelError>(lookup_failure(error)),
        },
{
    match found {
        Ok(token) => Ok(token),
        Err(error) => Err(classify_lookup_failure(error)),
    }
}

/// What the lookup of a challenge returns, given what the store found for the
/// token: the challenge string, `NoUserFound` where no applicant has the
/// token, `SqlError` where the store failed.
pub fn retreive_challenge(found: Result<String, StoreError>) -> (r: Result<String, ModelError>)
    ensures
        match found {
            Ok(challenge) => r == Ok::<String, ModelError>(challenge),
            Err(error) => r == Err::<String, ModelError>(lookup_failure(error)),
        },
{
    match found {
        Ok(challenge) => Ok(challenge),
        Err(error) => Err(classify_lookup_failure(error)),
    }
}

/// A submission that was compared with the canonical answer and is to be
/// recorded for the applicant with this `nuid`.
#[derive(Debug, Clone)]
pub struct Graded {
    pub ok: bool,
    pub solution: KmerCounts,
    pub nuid: String,
}

/// Compares a submission with the canonical answer that the store found for
/// the token. The submission is correct when it has the same keys with the
/// same counts. Where the store found nothing the result is `NoUserFound`,
/// where it failed `SqlError`; in both cases nothing is to be recorded.
pub fn check_solution(found: Result<(KmerCounts, String), StoreError>, given_soln: &KmerCounts) -> (r:
    Result<Graded, ModelError>)
    ensures
        match found {
            Ok(stored) => (r matches Ok(graded) && graded.ok == (stored.0@ == given_soln@)
                && graded.solution == stored.0 && graded.nuid == stored.1),
            Err(error) => r == Err::<Graded, ModelError>(lookup_failure(error)),
        },
{
    match found {
        Ok(stored) => {
            let (solution, nuid) = stored;
            let ok = solution == *given_soln;
            Ok(Graded { ok, solution, nuid })
        },
        Err(error) => Err(classify_lookup_failure(error)),
    }
}

/// What a verification returns once the store was asked to record the
/// submission: the outcome of the comparison with the canonical answer where
/// the record was written, `SqlError` where it was not. An outcome that was
/// not recorded is never reported.
pub fn record_submission(graded: Graded, written: Result<(), StoreError>) -> (r: Result<
    (bool, KmerCounts),
    ModelError,
>)
    ensures
        match written {
            Ok(_) => r == Ok::<(bool, KmerCounts), ModelError>((graded.ok, graded.solution)),
            Err(_) => r == Err::<(bool, KmerCounts), ModelError>(ModelError::SqlError),
        },
{
    match written {
        Ok(_) => Ok((graded.ok, graded.solution)),
        Err(_) => Err(ModelError::SqlError),
    }
}

/// What the applicant is told of a submission: a word of praise for a correct
/// one, `IncorrectSolution` with the submitted mapping for any other.
pub fn submission_reply(ok: bool, given_soln: KmerCounts) -> (r: Result<String, ModelError>)
    ensures
        ok ==> (r matches Ok(text) && text@ == "Correct! Nice work"@),
        !ok ==> r == Err::<String, ModelError>(
            ModelError::IncorrectSolution { given_solution: given_soln },
        ),
{
    if ok {
        Ok("Correct! Nice work".to_owned())
    } else {
        Err(ModelError::IncorrectSolution { given_solution: given_soln })
    }
}

/// What a list of rows holds, as plain values.
pub open spec fn row_views(rows: Seq<StatusRow>) -> Seq<StatusRowView> {
    Seq::new(rows.len(), |i: int| rows[i]@)
}

/// The statuses that a list of rows stands for, one for each row and in the
/// same order.
pub open spec fn statuses_of(rows: Seq<StatusRowView>) -> Seq<ApplicantView> {
    Seq::new(rows.len(), |i: int| status_of(rows[i]))
}

/// What a list of statuses holds, as plain values.
pub open spec fn status_views(statuses: Seq<Applicant>) -> Seq<ApplicantView> {
    Seq::new(statuses.len(), |i: int| statuses[i]@)
}

/// What a list of strings holds, as plain values.
pub open spec fn string_views(strings: Seq<String>) -> Seq<Seq<char>> {
    Seq::new(strings.len(), |i: int| strings[i]@)
}

/// The statuses of the applicants that the store found: one for each row,
/// with the time between registration and latest submission, which is never
/// negative. Where the store failed the result is `SqlError`.
pub fn get_applicants(rows: Result<Vec<StatusRow>, StoreError>) -> (r: Result<
    Vec<Applicant>,
    ModelError,
>)
    ensures
        match rows {
            Ok(rows) => (r matches Ok(statuses) && status_views(statuses@) == statuses_of(
                row_views(rows@),
            )),
            Err(_) => r == Err::<Vec<Applicant>, ModelError>(ModelError::SqlError),
        },
{
    match rows {
        Ok(rows) => {
            let mut statuses: Vec<Applicant> = Vec::new();
            let mut i: usize = 0;
            while i < rows.len()
                invariant
                    i <= rows@.len(),
                    statuses@.len() == i,
                    forall|j: int| 0 <= j < i ==> (#[trigger] statuses@[j])@ == status_of(rows@[j]@),
                decreases rows@.len() - i,
            {
                statuses.push(Applicant::from_row(&rows[i]));
                i += 1;
            }
            assert(status_views(statuses@) =~= statuses_of(row_views(rows@)));
            Ok(statuses)
        },
        Err(_) => Err(ModelError::SqlError),
    }
}

} // verus!
