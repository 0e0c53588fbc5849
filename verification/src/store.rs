//! What the engine asks of the store, and what follows from it.
//!
//! The store keeps three tables: the applicants, with a unique `nuid` and a
//! unique token each; the challenges, one for each applicant, with the
//! canonical answer; and the submissions, to which rows are only ever added.
//! This module states that contract as a mathematical model, describes each
//! operation of the engine as a step on it, and proves what the operations
//! guarantee of every store that keeps the contract.

use crate::challenge::KMER_LENGTH;
use crate::engine::statuses_of;
use crate::errors::{lookup_failure, registration_failure, ModelError, StoreError};
use crate::kmers::kmer_counts;
use crate::query::{
    distinct_nuids,
    found_among,
    first_of,
    lemma_first_is_listed,
    lemma_found_all,
    lemma_missing_contains,
    listed,
    missing_among,
};
use crate::status::{status_of, StatusRowView};
use vstd::prelude::*;

verus! {

/// A row of the table of applicants.
pub struct ApplicantRecord {
    pub nuid: Seq<char>,
    pub name: Seq<char>,
    pub registration_time: i64,
    pub token: u128,
}

/// A row of the table of challenges.
pub struct ChallengeRecord {
    pub token: u128,
    pub challenge_string: Seq<char>,
    pub solution: Map<Seq<char>, nat>,
}

/// A row of the table of submissions.
pub struct SubmissionRecord {
    pub nuid: Seq<char>,
    pub ok: bool,
    pub submission_time: i64,
}

/// What is to be written for a new applicant.
pub struct NewApplicant {
    pub name: Seq<char>,
    pub nuid: Seq<char>,
    pub registration_time: i64,
    pub token: u128,
    pub challenge_string: Seq<char>,
}

/// The three tables of the store.
pub struct Store {
    pub applicants: Seq<ApplicantRecord>,
    pub challenges: Seq<ChallengeRecord>,
    pub submissions: Seq<SubmissionRecord>,
}

impl Store {
    /// The store without any row.
    pub open spec fn empty() -> Store {
        Store { applicants: Seq::empty(), challenges: Seq::empty(), submissions: Seq::empty() }
    }

    /// An applicant is registered under `nuid`.
    pub open spec fn has_nuid(self, nuid: Seq<char>) -> bool {
        exists|i: int| 0 <= i < self.applicants.len() && (#[trigger] self.applicants[i]).nuid == nuid
    }

    /// An applicant holds `token`.
    pub open spec fn has_token(self, token: u128) -> bool {
        exists|i: int|
            0 <= i < self.applicants.len() && (#[trigger] self.applicants[i]).token == token
    }

    /// Where the applicant with `token` stands.
    pub open spec fn row_of_token(self, token: u128) -> int {
        choose|i: int|
            0 <= i < self.applicants.len() && (#[trigger] self.applicants[i]).token == token
    }

    /// Where the applicant with `nuid` stands.
    pub open spec fn row_of_nuid(self, nuid: Seq<char>) -> int {
        choose|i: int| 0 <= i < self.applicants.len() && (#[trigger] self.applicants[i]).nuid == nuid
    }

    /// Some submission of `nuid` is recorded.
    pub open spec fn has_submission(self, nuid: Seq<char>) -> bool {
        exists|i: int|
            0 <= i < self.submissions.len() && (#[trigger] self.submissions[i]).nuid == nuid
    }

    /// The applicant under `nuid` has a status: is registered and has
    /// submitted.
    pub open spec fn has_status(self, nuid: Seq<char>) -> bool {
        self.has_nuid(nuid) && self.has_submission(nuid)
    }

    /// The state of a store that kept the contract: no two applicants share a
    /// `nuid` or a token, each applicant has its challenge, and the solution
    /// kept with a challenge is the canonical answer to it.
    pub open spec fn wf(self) -> bool {
        &&& forall|i: int, j: int|
            0 <= i < j < self.applicants.len() ==> (#[trigger] self.applicants[i]).nuid != (
            #[trigger] self.applicants[j]).nuid
        &&& forall|i: int, j: int|
            0 <= i < j < self.applicants.len() ==> (#[trigger] self.applicants[i]).token != (
            #[trigger] self.applicants[j]).token
        &&& self.challenges.len() == self.applicants.len()
        &&& forall|i: int|
            0 <= i < self.challenges.len() ==> (#[trigger] self.challenges[i]).token
                == self.applicants[i].token
        &&& forall|i: int|
            0 <= i < self.challenges.len() ==> (#[trigger] self.challenges[i]).solution
                == kmer_counts(self.challenges[i].challenge_string, KMER_LENGTH as nat)
    }

    /// The store after the applicant and the challenge were written.
    pub open spec fn with_applicant(self, new: NewApplicant) -> Store {
        Store {
            applicants: self.applicants.push(
                ApplicantRecord {
                    nuid: new.nuid,
                    name: new.name,
                    registration_time: new.registration_time,
                    token: new.token,
                },
            ),
            challenges: self.challenges.push(
                ChallengeRecord {
                    token: new.token,
                    challenge_string: new.challenge_string,
                    solution: kmer_counts(new.challenge_string, KMER_LENGTH as nat),
                },
            ),
            submissions: self.submissions,
        }
    }

    /// The write of a new applicant, in one transaction: where the `nuid` or
    /// the token is taken nothing is written and the store answers with a
    /// uniqueness violation, otherwise both rows are written.
    pub open spec fn write_applicant(self, new: NewApplicant) -> (Store, Result<(), StoreError>) {
        if self.has_nuid(new.nuid) || self.has_token(new.token) {
            (self, Err(StoreError::UniqueViolation))
        } else {
            (self.with_applicant(new), Ok(()))
        }
    }

    /// The lookup of the solution and the `nuid` that belong to a token.
    pub open spec fn read_solution(self, token: u128) -> Result<
        (Map<Seq<char>, nat>, Seq<char>),
        StoreError,
    > {
        if self.has_token(token) {
            let at = self.row_of_token(token);
            Ok((self.challenges[at].solution, self.applicants[at].nuid))
        } else {
            Err(StoreError::RowNotFound)
        }
    }

    /// The lookup of the challenge that belongs to a token.
    pub open spec fn read_challenge(self, token: u128) -> Result<Seq<char>, StoreError> {
        if self.has_token(token) {
            Ok(self.challenges[self.row_of_token(token)].challenge_string)
        } else {
            Err(StoreError::RowNotFound)
        }
    }

    /// The lookup of the token that belongs to a `nuid`.
    pub open spec fn read_token(self, nuid: Seq<char>) -> Result<u128, StoreError> {
        if self.has_nuid(nuid) {
            Ok(self.applicants[self.row_of_nuid(nuid)].token)
        } else {
            Err(StoreError::RowNotFound)
        }
    }

    /// The store after a submission was recorded.
    pub open spec fn with_submission(self, nuid: Seq<char>, ok: bool, now: i64) -> Store {
        Store {
            applicants: self.applicants,
            challenges: self.challenges,
            submissions: self.submissions.push(
                SubmissionRecord { nuid, ok, submission_time: now },
            ),
        }
    }

    /// `row` is what the store hands out for the status of an applicant: the
    /// applicant's `nuid`, name and registration time, with the outcome and
    /// the time of a submission of that applicant than which none is later.
    pub open spec fn is_status_row(self, row: StatusRowView) -> bool {
        &&& self.has_nuid(row.nuid)
        &&& row.name == self.applicants[self.row_of_nuid(row.nuid)].name
        &&& row.registration_time == self.applicants[self.row_of_nuid(row.nuid)].registration_time
        &&& exists|i: int|
            0 <= i < self.submissions.len() && (#[trigger] self.submissions[i]).nuid == row.nuid
                && self.submissions[i].ok == row.ok && self.submissions[i].submission_time
                == row.submission_time
        &&& forall|i: int|
            0 <= i < self.submissions.len() && (#[trigger] self.submissions[i]).nuid == row.nuid
                ==> self.submissions[i].submission_time <= row.submission_time
    }

    /// `rows` is what the store hands out for a request of several statuses:
    /// one row for each requested `nuid` that has a status, and nothing else.
    pub open spec fn answers_request(self, request: Seq<Seq<char>>, rows: Seq<StatusRowView>) -> bool {
        &&& forall|i: int|
            0 <= i < rows.len() ==> self.is_status_row(#[trigger] rows[i]) && request.contains(
                rows[i].nuid,
            )
        &&& forall|i: int, j: int|
            0 <= i < j < rows.len() ==> (#[trigger] rows[i]).nuid != (#[trigger] rows[j]).nuid
        &&& forall|k: int|
            0 <= k < request.len() && self.has_status(#[trigger] request[k]) ==> exists|i: int|
                0 <= i < rows.len() && (#[trigger] rows[i]).nuid == request[k]
    }

    /// Registration as a step of the store: the applicant and the challenge
    /// with its canonical answer are written in one transaction, and the
    /// store's answer decides what is returned.
    pub open spec fn register(self, new: NewApplicant) -> (
        Store,
        Result<(u128, Seq<char>), ModelError>,
    ) {
        let (after, stored) = self.write_applicant(new);
        match stored {
            Ok(_) => (after, Ok((new.token, new.challenge_string))),
            Err(error) => (after, Err(registration_failure(error))),
        }
    }

    /// Verification as a step of the store: the canonical answer is looked up
    /// by the token and compared with what was submitted, and the outcome is
    /// recorded, whatever it is.
    pub open spec fn verify(self, token: u128, given: Map<Seq<char>, nat>, now: i64) -> (
        Store,
        Result<bool, ModelError>,
    ) {
        match self.read_solution(token) {
            Ok(stored) => {
                let ok = stored.0 == given;
                (self.with_submission(stored.1, ok, now), Ok(ok))
            },
            Err(error) => (self, Err(lookup_failure(error))),
        }
    }

    /// The recovery of a token.
    pub open spec fn token_for_nuid(self, nuid: Seq<char>) -> Result<u128, ModelError> {
        match self.read_token(nuid) {
            Ok(token) => Ok(token),
            Err(error) => Err(lookup_failure(error)),
        }
    }

    /// The lookup of a challenge.
    pub open spec fn get_challenge(self, token: u128) -> Result<Seq<char>, ModelError> {
        match self.read_challenge(token) {
            Ok(challenge) => Ok(challenge),
            Err(error) => Err(lookup_failure(error)),
        }
    }
}

impl Store {
    /// Several registrations, one after another, with what each of them
    /// returned.
    pub open spec fn register_all(self, attempts: Seq<NewApplicant>) -> (
        Store,
        Seq<Result<(u128, Seq<char>), ModelError>>,
    )
        decreases attempts.len(),
    {
        if attempts.len() == 0 {
            (self, Seq::empty())
        } else {
            let (before, results) = self.register_all(attempts.drop_last());
            let (after, result) = before.register(attempts.last());
            (after, results.push(result))
        }
    }
}

/// A registration leaves the store in a state that keeps the contract: no
/// `nuid` and no token is held twice, and an applicant is never without its
/// challenge and solution.
pub proof fn lemma_register_keeps_contract(store: Store, new: NewApplicant)
    requires
        store.wf(),
    ensures
        store.register(new).0.wf(),
{
    let after = store.register(new).0;
    if !(store.has_nuid(new.nuid) || store.has_token(new.token)) {
        let n = store.applicants.len() as int;
        assert(after == store.with_applicant(new));
        assert forall|i: int, j: int| 0 <= i < j < after.applicants.len() implies (
        #[trigger] after.applicants[i]).nuid != (#[trigger] after.applicants[j]).nuid by {
            assert(after.applicants[i] == store.applicants[i]);
            if j < n {
                assert(after.applicants[j] == store.applicants[j]);
            }
        }
        assert forall|i: int, j: int| 0 <= i < j < after.applicants.len() implies (
        #[trigger] after.applicants[i]).token != (#[trigger] after.applicants[j]).token by {
            assert(after.applicants[i] == store.applicants[i]);
            if j < n {
                assert(after.applicants[j] == store.applicants[j]);
            }
        }
        assert forall|i: int| 0 <= i < after.challenges.len() implies (
        #[trigger] after.challenges[i]).token == after.applicants[i].token by {
            if i < n {
                assert(after.challenges[i] == store.challenges[i]);
            }
        }
        assert forall|i: int| 0 <= i < after.challenges.len() implies (
        #[trigger] after.challenges[i]).solution == kmer_counts(
            after.challenges[i].challenge_string,
            KMER_LENGTH as nat,
        ) by {
            if i < n {
                assert(after.challenges[i] == store.challenges[i]);
            }
        }
    }
}

/// A verification changes nothing but the table of submissions, so the store
/// keeps the contract.
pub proof fn lemma_verify_keeps_contract(
    store: Store,
    token: u128,
    given: Map<Seq<char>, nat>,
    now: i64,
)
    requires
        store.wf(),
    ensures
        store.verify(token, given, now).0.wf(),
        store.verify(token, given, now).0.applicants == store.applicants,
        store.verify(token, given, now).0.challenges == store.challenges,
{
}

/// The first registration under a `nuid` succeeds: it returns the token and
/// the challenge, and afterwards the applicant is registered.
pub proof fn lemma_first_registration_succeeds(store: Store, new: NewApplicant)
    requires
        !store.has_nuid(new.nuid),
        !store.has_token(new.token),
    ensures
        store.register(new).1 == Ok::<(u128, Seq<char>), ModelError>(
            (new.token, new.challenge_string),
        ),
        store.register(new).0 == store.with_applicant(new),
        store.register(new).0.has_nuid(new.nuid),
        store.register(new).0.has_token(new.token),
{
    let after = store.with_applicant(new);
    let n = store.applicants.len() as int;
    assert(after.applicants[n].nuid == new.nuid);
    assert(after.applicants[n].token == new.token);
}

/// A registration under a `nuid` that is registered already fails with
/// `DuplicateUser`, whatever the name, and leaves the store as it was.
pub proof fn lemma_second_registration_fails(store: Store, again: NewApplicant)
    requires
        store.has_nuid(again.nuid),
    ensures
        store.register(again).1 == Err::<(u128, Seq<char>), ModelError>(ModelError::DuplicateUser),
        store.register(again).0 == store,
{
}

/// A registration succeeds exactly once: after the first one under a `nuid`,
/// a second one under the same `nuid` fails with `DuplicateUser`, whatever
/// its name, token and challenge, and writes nothing.
pub proof fn lemma_register_exactly_once(store: Store, first: NewApplicant, second: NewApplicant)
    requires
        !store.has_nuid(first.nuid),
        !store.has_token(first.token),
        second.nuid == first.nuid,
    ensures
        store.register(first).1 is Ok,
        store.register(first).0.register(second).1 == Err::<(u128, Seq<char>), ModelError>(
            ModelError::DuplicateUser,
        ),
        store.register(first).0.register(second).0 == store.register(first).0,
{
    lemma_first_registration_succeeds(store, first);
    lemma_second_registration_fails(store.register(first).0, second);
}

/// Nothing unregisters an applicant: who is registered stays so through
/// every registration and every verification.
pub proof fn lemma_registered_stays(
    store: Store,
    nuid: Seq<char>,
    new: NewApplicant,
    token: u128,
    given: Map<Seq<char>, nat>,
    now: i64,
)
    requires
        store.has_nuid(nuid),
    ensures
        store.register(new).0.has_nuid(nuid),
        store.verify(token, given, now).0.has_nuid(nuid),
{
    let at = store.row_of_nuid(nuid);
    let registered = store.register(new).0;
    assert(registered.applicants[at].nuid == nuid);
    let verified = store.verify(token, given, now).0;
    assert(verified.applicants[at].nuid == nuid);
}

/// Of several registrations under one `nuid`, made one after another in
/// whatever order the store takes them, exactly the first succeeds and each
/// of the others fails with `DuplicateUser`.
pub proof fn lemma_one_of_many_succeeds(store: Store, attempts: Seq<NewApplicant>)
    requires
        attempts.len() > 0,
        forall|i: int| 0 <= i < attempts.len() ==> (#[trigger] attempts[i]).nuid == attempts[0].nuid,
        !store.has_nuid(attempts[0].nuid),
        !store.has_token(attempts[0].token),
    ensures
        store.register_all(attempts).1.len() == attempts.len(),
        store.register_all(attempts).1[0] is Ok,
        forall|i: int|
            1 <= i < attempts.len() ==> #[trigger] store.register_all(attempts).1[i] == Err::<
                (u128, Seq<char>),
                ModelError,
            >(ModelError::DuplicateUser),
        store.register_all(attempts).0 == store.with_applicant(attempts[0]),
    decreases attempts.len(),
{
    let front = attempts.drop_last();
    let last = attempts.last();
    let (before, results) = store.register_all(front);
    if front.len() == 0 {
        assert(before == store);
        assert(results.len() == 0);
        lemma_first_registration_succeeds(store, last);
    } else {
        assert forall|i: int| 0 <= i < front.len() implies (#[trigger] front[i]).nuid
            == front[0].nuid by {
            assert(front[i] == attempts[i]);
            assert(front[0] == attempts[0]);
        }
        assert(front[0] == attempts[0]);
        lemma_one_of_many_succeeds(store, front);
        lemma_first_registration_succeeds(store, attempts[0]);
        assert(last == attempts[attempts.len() - 1]);
        lemma_second_registration_fails(before, last);
        let all = store.register_all(attempts).1;
        assert forall|i: int| 1 <= i < attempts.len() implies #[trigger] all[i] == Err::<
            (u128, Seq<char>),
            ModelError,
        >(ModelError::DuplicateUser) by {
            if i < front.len() {
                assert(all[i] == results[i]);
            }
        }
    }
}

/// The canonical answer to the challenge of a token is accepted: the
/// verification returns `true`.
pub proof fn lemma_correct_submission_accepted(store: Store, token: u128, now: i64)
    requires
        store.wf(),
        store.has_token(token),
    ensures
        store.get_challenge(token) is Ok,
        store.verify(
            token,
            kmer_counts(store.get_challenge(token)->Ok_0, KMER_LENGTH as nat),
            now,
        ).1 == Ok::<bool, ModelError>(true),
{
    let at = store.row_of_token(token);
    assert(store.challenges[at].solution == kmer_counts(
        store.challenges[at].challenge_string,
        KMER_LENGTH as nat,
    ));
}

/// After a registration has returned a token and a challenge, the
/// verification of the canonical answer to that challenge under that token
/// returns `true`.
pub proof fn lemma_register_then_verify(store: Store, new: NewApplicant, now: i64)
    requires
        store.wf(),
        !store.has_nuid(new.nuid),
        !store.has_token(new.token),
    ensures
        store.register(new).1 == Ok::<(u128, Seq<char>), ModelError>(
            (new.token, new.challenge_string),
        ),
        store.register(new).0.verify(
            new.token,
            kmer_counts(new.challenge_string, KMER_LENGTH as nat),
            now,
        ).1 == Ok::<bool, ModelError>(true),
{
    lemma_first_registration_succeeds(store, new);
    lemma_register_keeps_contract(store, new);
    let after = store.register(new).0;
    let n = store.applicants.len() as int;
    let at = after.row_of_token(new.token);
    assert(after.applicants[n].token == new.token);
    assert(at == n) by {
        if at < n {
            assert(after.applicants[at].token != after.applicants[n].token);
        }
    }
    lemma_correct_submission_accepted(after, new.token, now);
}

/// Any other mapping than the canonical answer is rejected: the verification
/// returns `false`.
pub proof fn lemma_wrong_submission_rejected(
    store: Store,
    token: u128,
    given: Map<Seq<char>, nat>,
    now: i64,
)
    requires
        store.wf(),
        store.has_token(token),
        given != kmer_counts(store.get_challenge(token)->Ok_0, KMER_LENGTH as nat),
    ensures
        store.verify(token, given, now).1 == Ok::<bool, ModelError>(false),
{
    let at = store.row_of_token(token);
    assert(store.challenges[at].solution == kmer_counts(
        store.challenges[at].challenge_string,
        KMER_LENGTH as nat,
    ));
}

/// Every attempt of a registered applicant is recorded: a verification adds
/// one row to the submissions, with the applicant's `nuid`, the outcome that
/// it returns and the time, and keeps all earlier rows. For an unknown token
/// it fails with `NoUserFound` and records nothing.
pub proof fn lemma_every_attempt_recorded(
    store: Store,
    token: u128,
    given: Map<Seq<char>, nat>,
    now: i64,
)
    ensures
        store.has_token(token) ==> store.verify(token, given, now).1 is Ok && store.verify(
            token,
            given,
            now,
        ).0.submissions == store.submissions.push(
            SubmissionRecord {
                nuid: store.applicants[store.row_of_token(token)].nuid,
                ok: store.verify(token, given, now).1->Ok_0,
                submission_time: now,
            },
        ),
        !store.has_token(token) ==> store.verify(token, given, now) == (
            store,
            Err::<bool, ModelError>(ModelError::NoUserFound),
        ),
{
}

/// A wrong submission does not spoil a later correct one: the first returns
/// `false`, the second `true`, and both are recorded, in this order, after
/// all that was recorded before.
pub proof fn lemma_wrong_then_correct(
    store: Store,
    token: u128,
    wrong: Map<Seq<char>, nat>,
    first_time: i64,
    second_time: i64,
)
    requires
        store.wf(),
        store.has_token(token),
        wrong != kmer_counts(store.get_challenge(token)->Ok_0, KMER_LENGTH as nat),
    ensures
        ({
            let correct = kmer_counts(store.get_challenge(token)->Ok_0, KMER_LENGTH as nat);
            let nuid = store.applicants[store.row_of_token(token)].nuid;
            let (middle, first) = store.verify(token, wrong, first_time);
            let (after, second) = middle.verify(token, correct, second_time);
            &&& first == Ok::<bool, ModelError>(false)
            &&& second == Ok::<bool, ModelError>(true)
            &&& after.submissions == store.submissions.push(
                SubmissionRecord { nuid, ok: false, submission_time: first_time },
            ).push(SubmissionRecord { nuid, ok: true, submission_time: second_time })
        }),
{
    let correct = kmer_counts(store.get_challenge(token)->Ok_0, KMER_LENGTH as nat);
    lemma_wrong_submission_rejected(store, token, wrong, first_time);
    lemma_every_attempt_recorded(store, token, wrong, first_time);
    let middle = store.verify(token, wrong, first_time).0;
    lemma_verify_keeps_contract(store, token, wrong, first_time);
    assert(middle.has_token(token)) by {
        assert(middle.applicants[store.row_of_token(token)].token == token);
    }
    assert(middle.row_of_token(token) == store.row_of_token(token));
    assert(middle.get_challenge(token) == store.get_challenge(token));
    lemma_correct_submission_accepted(middle, token, second_time);
    lemma_every_attempt_recorded(middle, token, correct, second_time);
}

/// A request for several statuses is parted by what the store holds: the
/// statuses reported are those that the store handed out, each requested
/// `nuid` that has a status is reported with it and not as missing, and each
/// requested `nuid` that has none is reported as not found.
pub proof fn lemma_request_is_parted(
    store: Store,
    request: Seq<Seq<char>>,
    rows: Seq<StatusRowView>,
)
    requires
        store.answers_request(request, rows),
    ensures
        found_among(statuses_of(rows), request) == statuses_of(rows),
        forall|k: int|
            0 <= k < request.len() && store.has_status(#[trigger] request[k]) ==> listed(
                found_among(statuses_of(rows), request),
                request[k],
            ) && !missing_among(request, statuses_of(rows)).contains(request[k]),
        forall|k: int|
            0 <= k < request.len() && !store.has_status(#[trigger] request[k]) ==> !listed(
                found_among(statuses_of(rows), request),
                request[k],
            ) && missing_among(request, statuses_of(rows)).contains(request[k]),
{
    let statuses = statuses_of(rows);
    assert forall|i: int| 0 <= i < statuses.len() implies request.contains(
        (#[trigger] statuses[i]).nuid,
    ) by {
        assert(store.is_status_row(rows[i]));
    }
    assert(distinct_nuids(statuses)) by {
        assert forall|i: int, j: int| 0 <= i < j < statuses.len() implies (
        #[trigger] statuses[i]).nuid != (#[trigger] statuses[j]).nuid by {
            assert(rows[i].nuid != rows[j].nuid);
        }
    }
    lemma_found_all(statuses, request);
    assert forall|k: int| 0 <= k < request.len() implies (store.has_status(#[trigger] request[k])
        <==> listed(statuses, request[k])) by {
        if store.has_status(request[k]) {
            let i = choose|i: int| 0 <= i < rows.len() && (#[trigger] rows[i]).nuid == request[k];
            assert(statuses[i].nuid == request[k]);
        }
        if listed(statuses, request[k]) {
            let i = choose|i: int|
                0 <= i < statuses.len() && (#[trigger] statuses[i]).nuid == request[k];
            assert(store.is_status_row(rows[i]));
            let w = choose|w: int|
                0 <= w < store.submissions.len() && (#[trigger] store.submissions[w]).nuid
                    == rows[i].nuid && store.submissions[w].ok == rows[i].ok
                    && store.submissions[w].submission_time == rows[i].submission_time;
            assert(store.submissions[w].nuid == request[k]);
        }
    }
    assert forall|k: int| 0 <= k < request.len() implies (missing_among(request, statuses).contains(
        #[trigger] request[k],
    ) <==> !listed(statuses, request[k])) by {
        lemma_missing_contains(request, statuses, request[k]);
    }
}

/// The status of one applicant is that of the latest submission: where the
/// applicant is registered and has submitted, the status that is returned
/// comes of a row of the store for this `nuid`, which holds a submission than
/// which none is later; otherwise no status is at hand, and the lookup fails
/// with `NoUserFound`.
pub proof fn lemma_status_is_latest(
    store: Store,
    request: Seq<Seq<char>>,
    rows: Seq<StatusRowView>,
    nuid: Seq<char>,
)
    requires
        store.answers_request(request, rows),
        request.contains(nuid),
    ensures
        store.has_status(nuid) <==> listed(statuses_of(rows), nuid),
        store.has_status(nuid) ==> exists|i: int|
            0 <= i < rows.len() && store.is_status_row(#[trigger] rows[i]) && rows[i].nuid == nuid
                && first_of(statuses_of(rows), nuid) == status_of(rows[i]),
{
    let statuses = statuses_of(rows);
    let k = choose|k: int| 0 <= k < request.len() && request[k] == nuid;
    if store.has_status(nuid) {
        assert(store.has_status(request[k]));
        let i = choose|i: int| 0 <= i < rows.len() && (#[trigger] rows[i]).nuid == request[k];
        assert(statuses[i].nuid == nuid);
    }
    if listed(statuses, nuid) {
        let i = choose|i: int| 0 <= i < statuses.len() && (#[trigger] statuses[i]).nuid == nuid;
        assert(store.is_status_row(rows[i]));
        let w = choose|w: int|
            0 <= w < store.submissions.len() && (#[trigger] store.submissions[w]).nuid
                == rows[i].nuid && store.submissions[w].ok == rows[i].ok
                && store.submissions[w].submission_time == rows[i].submission_time;
        assert(store.submissions[w].nuid == nuid);
        lemma_first_is_listed(statuses, nuid);
        let j = choose|j: int|
            0 <= j < statuses.len() && #[trigger] statuses[j] == first_of(statuses, nuid);
        assert(store.is_status_row(rows[j]));
        assert(rows[j].nuid == nuid);
        assert(first_of(statuses, nuid) == status_of(rows[j]));
    }
}

/// The status that is derived from a row of the store is that of the row's
/// applicant, with the outcome of the latest submission, and its time to
/// completion is never negative: it is the time from the registration to that
/// submission, or zero where the submission is stamped earlier.
pub proof fn lemma_status_of_row(row: StatusRowView)
    ensures
        status_of(row).nuid == row.nuid,
        status_of(row).name == row.name,
        status_of(row).ok == row.ok,
        status_of(row).time_to_completion >= 0,
        row.submission_time >= row.registration_time ==> status_of(row).time_to_completion
            == row.submission_time - row.registration_time,
        row.submission_time < row.registration_time ==> status_of(row).time_to_completion == 0,
{
}

} // verus!
