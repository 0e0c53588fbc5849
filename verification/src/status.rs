//! The status of an applicant, as derived from the latest submission.

use vstd::prelude::*;

verus! {

/// The time between registration and submission, never negative: the
/// difference of the two instants where the submission is the later one,
/// zero otherwise.
pub open spec fn elapsed(registration_time: i64, submission_time: i64) -> nat {
    if submission_time >= registration_time {
        (submission_time - registration_time) as nat
    } else {
        0
    }
}

/// Makes two instants of `chrono::DateTime<Utc>` from their nanoseconds since
/// the epoch (`DateTime::from_timestamp_nanos`), takes their signed
/// difference (`DateTime::signed_duration_since`) and converts it to an
/// unsigned duration (`TimeDelta::to_std`). Trusted: the conversion fails
/// exactly when the second instant is the earlier one, and otherwise holds
/// the difference, here in nanoseconds.
#[verifier::external_body]
fn duration_between(registration_time: i64, submission_time: i64) -> (r: Option<u64>)
    ensures
        r == if submission_time >= registration_time {
            Some((submission_time - registration_time) as u64)
        } else {
            None::<u64>
        },
{
    let registered = chrono::DateTime::<chrono::Utc>::from_timestamp_nanos(registration_time);
    let submitted = chrono::DateTime::<chrono::Utc>::from_timestamp_nanos(submission_time);
    match submitted.signed_duration_since(registered).to_std() {
        Ok(duration) => Some(duration.as_nanos() as u64),
        Err(_) => None,
    }
}

/// The time an applicant took, in nanoseconds: from `registration_time` to
/// `submission_time`, both in nanoseconds since the epoch, and zero where the
/// submission is stamped before the registration.
pub fn time_to_completion(registration_time: i64, submission_time: i64) -> (nanos: u64)
    ensures
        nanos == elapsed(registration_time, submission_time),
{
    match duration_between(registration_time, submission_time) {
        Some(duration) => duration,
        None => 0,
    }
}

/// The status of an applicant: whether the latest submission was correct,
/// and how long after the registration it came, in nanoseconds.
#[derive(Debug)]
pub struct Applicant {
    pub time_to_completion: u64,
    pub ok: bool,
    pub name: String,
    pub nuid: String,
}

/// What an `Applicant` holds, as plain values.
pub struct ApplicantView {
    pub time_to_completion: nat,
    pub ok: bool,
    pub name: Seq<char>,
    pub nuid: Seq<char>,
}

impl View for Applicant {
    type V = ApplicantView;

    open spec fn view(&self) -> ApplicantView {
        ApplicantView {
            time_to_completion: self.time_to_completion as nat,
            ok: self.ok,
            name: self.name@,
            nuid: self.nuid@,
        }
    }
}

/// What the store hands out for one applicant: who it is, when the
/// registration was made, and the latest submission with its time and
/// outcome. Times are in nanoseconds since the epoch.
#[derive(Debug, Clone)]
pub struct StatusRow {
    pub nuid: String,
    pub name: String,
    pub registration_time: i64,
    pub submission_time: i64,
    pub ok: bool,
}

/// What a `StatusRow` holds, as plain values.
pub struct StatusRowView {
    pub nuid: Seq<char>,
    pub name: Seq<char>,
    pub registration_time: i64,
    pub submission_time: i64,
    pub ok: bool,
}

impl View for StatusRow {
    type V = StatusRowView;

    open spec fn view(&self) -> StatusRowView {
        StatusRowView {
            nuid: self.nuid@,
            name: self.name@,
            registration_time: self.registration_time,
            submission_time: self.submission_time,
            ok: self.ok,
        }
    }
}

/// The status that a row of the store stands for.
pub open spec fn status_of(row: StatusRowView) -> ApplicantView {
    ApplicantView {
        time_to_completion: elapsed(row.registration_time, row.submission_time),
        ok: row.ok,
        name: row.name,
        nuid: row.nuid,
    }
}

impl Applicant {
    /// The status that a row of the store stands for.
    pub fn from_row(row: &StatusRow) -> (applicant: Applicant)
        ensures
            applicant@ == status_of(row@),
    {
        Applicant {
            time_to_completion: time_to_completion(row.registration_time, row.submission_time),
            ok: row.ok,
            name: row.name.clone(),
            nuid: row.nuid.clone(),
        }
    }

}

impl Clone for Applicant {
    /// A copy of the status.
    fn clone(&self) -> (copy: Applicant)
        ensures
            copy == *self,
    {
        Applicant {
            time_to_completion: self.time_to_completion,
            ok: self.ok,
            name: self.name.clone(),
            nuid: self.nuid.clone(),
        }
    }
}

} // verus!
