use kmer_challenge::challenge::generate_challenge_string;
use kmer_challenge::engine::{
    check_solution, get_applicants, new_registration, record_submission, register_user,
    registration_for, retreive_challenge, retreive_token, submission_reply, Registration,
};
use kmer_challenge::errors::{
    classify_lookup_failure, classify_registration_failure, ModelError, StoreError,
};
use kmer_challenge::kmers::{find_kmers, KmerCounts};
use kmer_challenge::query::{batch_result, get_status, get_status_batch};
use kmer_challenge::status::{time_to_completion, Applicant, StatusRow};

/// A store that keeps its tables in memory and answers as the contract asks.
struct Tables {
    applicants: Vec<(String, String, i64, u128, String, KmerCounts)>,
    submissions: Vec<(String, bool, i64)>,
    clock: i64,
}

impl Tables {
    fn new() -> Tables {
        Tables { applicants: Vec::new(), submissions: Vec::new(), clock: 1_000 }
    }

    fn tick(&mut self) -> i64 {
        self.clock += 10;
        self.clock
    }

    fn write_applicant(
        &mut self,
        name: &str,
        nuid: &str,
        registration: &Registration,
    ) -> Result<(), StoreError> {
        if self.applicants.iter().any(|row| row.1 == nuid || row.3 == registration.token) {
            return Err(StoreError::UniqueViolation);
        }
        let now = self.tick();
        self.applicants.push((
            name.to_string(),
            nuid.to_string(),
            now,
            registration.token,
            registration.challenge_string.clone(),
            registration.solution.clone(),
        ));
        Ok(())
    }

    fn read_solution(&self, token: u128) -> Result<(KmerCounts, String), StoreError> {
        match self.applicants.iter().find(|row| row.3 == token) {
            Some(row) => Ok((row.5.clone(), row.1.clone())),
            None => Err(StoreError::RowNotFound),
        }
    }

    fn read_token(&self, nuid: &str) -> Result<u128, StoreError> {
        match self.applicants.iter().find(|row| row.1 == nuid) {
            Some(row) => Ok(row.3),
            None => Err(StoreError::RowNotFound),
        }
    }

    fn read_challenge(&self, token: u128) -> Result<String, StoreError> {
        match self.applicants.iter().find(|row| row.3 == token) {
            Some(row) => Ok(row.4.clone()),
            None => Err(StoreError::RowNotFound),
        }
    }

    fn write_submission(&mut self, nuid: &str, ok: bool) -> Result<(), StoreError> {
        let now = self.tick();
        self.submissions.push((nuid.to_string(), ok, now));
        Ok(())
    }

    fn read_rows(&self, nuids: &[String]) -> Result<Vec<StatusRow>, StoreError> {
        let mut rows = Vec::new();
        for applicant in &self.applicants {
            if !nuids.contains(&applicant.1) {
                continue;
            }
            let latest =
                self.submissions.iter().filter(|s| s.0 == applicant.1).max_by_key(|s| s.2);
            if let Some(submission) = latest {
                rows.push(StatusRow {
                    nuid: applicant.1.clone(),
                    name: applicant.0.clone(),
                    registration_time: applicant.2,
                    submission_time: submission.2,
                    ok: submission.1,
                });
            }
        }
        Ok(rows)
    }
}

fn register(tables: &mut Tables, name: &str, nuid: &str) -> Result<(u128, String), ModelError> {
    let registration = new_registration();
    let stored = tables.write_applicant(name, nuid, &registration);
    register_user(registration, stored)
}

fn verify(tables: &mut Tables, token: u128, given: &KmerCounts) -> Result<bool, ModelError> {
    let graded = check_solution(tables.read_solution(token), given)?;
    let written = tables.write_submission(&graded.nuid, graded.ok);
    record_submission(graded, written).map(|(ok, _)| ok)
}

fn status(nuid: &str, ok: bool, time: u64) -> Applicant {
    Applicant { time_to_completion: time, ok, name: format!("name of {}", nuid), nuid: nuid.to_string() }
}

fn nuids_of(statuses: &[Applicant]) -> Vec<String> {
    statuses.iter().map(|s| s.nuid.clone()).collect()
}

#[test]
fn registration_holds_the_canonical_answer() {
    let registration = registration_for(7, String::from("aabbceedeaab"));
    assert_eq!(registration.token, 7);
    assert_eq!(registration.challenge_string, "aabbceedeaab");
    assert_eq!(registration.solution, find_kmers(&String::from("aabbceedeaab"), 3));
    assert_eq!(registration.solution.get(&String::from("aab")), Some(2));
}

#[test]
fn new_registration_is_well_formed() {
    let registration = new_registration();
    assert_eq!(registration.challenge_string.chars().count(), 100);
    assert!(registration.challenge_string.chars().all(|c| "ACTG".contains(c)));
    assert_eq!(registration.solution, find_kmers(&registration.challenge_string, 3));
    assert_eq!((registration.token >> 76) & 0xf, 4);
}

#[test]
fn register_returns_token_and_challenge() {
    let registration = registration_for(42, String::from("ACTGACTG"));
    match register_user(registration, Ok(())) {
        Ok((token, challenge)) => {
            assert_eq!(token, 42);
            assert_eq!(challenge, "ACTGACTG");
        }
        Err(e) => panic!("unexpected failure: {:?}", e),
    }
}

#[test]
fn register_reports_a_duplicate() {
    let registration = registration_for(42, String::from("ACTGACTG"));
    assert!(matches!(
        register_user(registration, Err(StoreError::UniqueViolation)),
        Err(ModelError::DuplicateUser)
    ));
}

#[test]
fn register_reports_a_failure_of_the_store() {
    let registration = registration_for(42, String::from("ACTGACTG"));
    assert!(matches!(
        register_user(registration, Err(StoreError::Failure)),
        Err(ModelError::SqlError)
    ));
    let registration = registration_for(42, String::from("ACTGACTG"));
    assert!(matches!(
        register_user(registration, Err(StoreError::RowNotFound)),
        Err(ModelError::SqlError)
    ));
}

#[test]
fn failures_of_the_store_are_classified() {
    assert!(matches!(classify_lookup_failure(StoreError::RowNotFound), ModelError::NoUserFound));
    assert!(matches!(classify_lookup_failure(StoreError::Failure), ModelError::SqlError));
    assert!(matches!(classify_lookup_failure(StoreError::UniqueViolation), ModelError::SqlError));
    assert!(matches!(
        classify_registration_failure(StoreError::UniqueViolation),
        ModelError::DuplicateUser
    ));
    assert!(matches!(classify_registration_failure(StoreError::Failure), ModelError::SqlError));
    assert!(matches!(classify_registration_failure(StoreError::RowNotFound), ModelError::SqlError));
}

#[test]
fn token_lookup() {
    assert!(matches!(retreive_token(Ok(9)), Ok(9)));
    assert!(matches!(retreive_token(Err(StoreError::RowNotFound)), Err(ModelError::NoUserFound)));
    assert!(matches!(retreive_token(Err(StoreError::Failure)), Err(ModelError::SqlError)));
}

#[test]
fn challenge_lookup() {
    match retreive_challenge(Ok(String::from("ACTG"))) {
        Ok(challenge) => assert_eq!(challenge, "ACTG"),
        Err(e) => panic!("unexpected failure: {:?}", e),
    }
    assert!(matches!(
        retreive_challenge(Err(StoreError::RowNotFound)),
        Err(ModelError::NoUserFound)
    ));
    assert!(matches!(retreive_challenge(Err(StoreError::Failure)), Err(ModelError::SqlError)));
}

#[test]
fn correct_submission_is_graded_true() {
    let stored = find_kmers(&String::from("aabbceedeaab"), 3);
    let given = find_kmers(&String::from("aabbceedeaab"), 3);
    let graded = check_solution(Ok((stored, String::from("U1"))), &given).unwrap();
    assert!(graded.ok);
    assert_eq!(graded.nuid, "U1");
    assert_eq!(graded.solution, given);
}

#[test]
fn wrong_submission_is_graded_false() {
    let challenge = String::from("aabbceedeaab");
    let empty = KmerCounts::new();
    let graded = check_solution(Ok((find_kmers(&challenge, 3), String::from("U1"))), &empty).unwrap();
    assert!(!graded.ok);
    assert_eq!(graded.solution, find_kmers(&challenge, 3));

    let mut changed = find_kmers(&challenge, 3);
    changed.insert(String::from("aab"), 3);
    assert!(!check_solution(Ok((find_kmers(&challenge, 3), String::from("U1"))), &changed).unwrap().ok);

    let mut extra = find_kmers(&challenge, 3);
    extra.insert(String::from("zzz"), 1);
    assert!(!check_solution(Ok((find_kmers(&challenge, 3), String::from("U1"))), &extra).unwrap().ok);
}

#[test]
fn submission_under_an_unknown_token() {
    let given = KmerCounts::new();
    assert!(matches!(
        check_solution(Err(StoreError::RowNotFound), &given),
        Err(ModelError::NoUserFound)
    ));
    assert!(matches!(check_solution(Err(StoreError::Failure), &given), Err(ModelError::SqlError)));
}

#[test]
fn outcome_is_reported_only_when_recorded() {
    let challenge = String::from("aabbceedeaab");
    let given = find_kmers(&challenge, 3);
    let graded = check_solution(Ok((find_kmers(&challenge, 3), String::from("U1"))), &given).unwrap();
    match record_submission(graded, Ok(())) {
        Ok((ok, solution)) => {
            assert!(ok);
            assert_eq!(solution, given);
        }
        Err(e) => panic!("unexpected failure: {:?}", e),
    }
    let graded = check_solution(Ok((find_kmers(&challenge, 3), String::from("U1"))), &given).unwrap();
    assert!(matches!(record_submission(graded, Err(StoreError::Failure)), Err(ModelError::SqlError)));
}

#[test]
fn reply_to_a_submission() {
    match submission_reply(true, KmerCounts::new()) {
        Ok(text) => assert_eq!(text, "Correct! Nice work"),
        Err(e) => panic!("unexpected failure: {:?}", e),
    }
    let mut given = KmerCounts::new();
    given.insert(String::from("aab"), 1);
    match submission_reply(false, given) {
        Err(ModelError::IncorrectSolution { given_solution }) => {
            assert_eq!(given_solution.get(&String::from("aab")), Some(1));
        }
        other => panic!("unexpected reply: {:?}", other),
    }
}

#[test]
fn time_to_completion_is_the_difference() {
    assert_eq!(time_to_completion(4, 10), 6);
    assert_eq!(time_to_completion(1_662_921_288_000_000_000, 1_662_921_289_500_000_000), 1_500_000_000);
    assert_eq!(time_to_completion(-5, 5), 10);
    assert_eq!(time_to_completion(-10, -4), 6);
    assert_eq!(time_to_completion(7, 7), 0);
}

#[test]
fn time_to_completion_is_never_negative() {
    assert_eq!(time_to_completion(10, 4), 0);
    assert_eq!(time_to_completion(5, -5), 0);
    assert_eq!(time_to_completion(i64::MAX, i64::MIN), 0);
    assert_eq!(time_to_completion(0, -1), 0);
}

#[test]
fn time_to_completion_at_the_limits() {
    assert_eq!(time_to_completion(i64::MIN, i64::MAX), u64::MAX);
    assert_eq!(time_to_completion(0, i64::MAX), i64::MAX as u64);
    assert_eq!(time_to_completion(i64::MIN, 0), 1u64 << 63);
    assert_eq!(time_to_completion(-1, 0), 1);
    assert_eq!(time_to_completion(999_999_999, 1_000_000_000), 1);
}

#[test]
fn status_from_a_row() {
    let row = StatusRow {
        nuid: String::from("U1"),
        name: String::from("Ada"),
        registration_time: 100,
        submission_time: 350,
        ok: true,
    };
    let applicant = Applicant::from_row(&row);
    assert_eq!(applicant.nuid, "U1");
    assert_eq!(applicant.name, "Ada");
    assert!(applicant.ok);
    assert_eq!(applicant.time_to_completion, 250);
    let copy = applicant.clone();
    assert_eq!(copy.nuid, "U1");
    assert_eq!(copy.name, "Ada");
    assert!(copy.ok);
    assert_eq!(copy.time_to_completion, 250);
}

#[test]
fn statuses_from_rows() {
    let rows = vec![
        StatusRow {
            nuid: String::from("U1"),
            name: String::from("Ada"),
            registration_time: 100,
            submission_time: 350,
            ok: true,
        },
        StatusRow {
            nuid: String::from("U2"),
            name: String::from("Bob"),
            registration_time: 500,
            submission_time: 200,
            ok: false,
        },
    ];
    let statuses = get_applicants(Ok(rows)).unwrap();
    assert_eq!(statuses.len(), 2);
    assert_eq!(statuses[0].nuid, "U1");
    assert_eq!(statuses[0].time_to_completion, 250);
    assert!(statuses[0].ok);
    assert_eq!(statuses[1].nuid, "U2");
    assert_eq!(statuses[1].name, "Bob");
    assert_eq!(statuses[1].time_to_completion, 0);
    assert!(!statuses[1].ok);
    assert!(get_applicants(Ok(vec![])).unwrap().is_empty());
    assert!(matches!(get_applicants(Err(StoreError::Failure)), Err(ModelError::SqlError)));
    assert!(matches!(get_applicants(Err(StoreError::RowNotFound)), Err(ModelError::SqlError)));
}

#[test]
fn status_of_one_applicant() {
    let statuses = vec![status("U1", true, 5), status("U2", false, 9), status("U1", false, 7)];
    let found = get_status(&String::from("U1"), &statuses).unwrap();
    assert_eq!(found.nuid, "U1");
    assert!(found.ok);
    assert_eq!(found.time_to_completion, 5);
    let found = get_status(&String::from("U2"), &statuses).unwrap();
    assert_eq!(found.time_to_completion, 9);
    assert!(matches!(get_status(&String::from("U3"), &statuses), Err(ModelError::NoUserFound)));
    assert!(matches!(get_status(&String::from("U1"), &vec![]), Err(ModelError::NoUserFound)));
}

#[test]
fn batch_of_a_known_and_an_unknown() {
    let request = vec![String::from("known"), String::from("unknown")];
    let statuses = vec![status("known", true, 5)];
    let (found, not_found) = get_status_batch(&request, &statuses);
    assert_eq!(found.len(), 1);
    assert_eq!(found[0].nuid, "known");
    assert_eq!(found[0].name, "name of known");
    assert!(found[0].ok);
    assert_eq!(found[0].time_to_completion, 5);
    assert_eq!(not_found, vec![String::from("unknown")]);
}

#[test]
fn batch_reports_each_nuid_once_and_only_requested_ones() {
    let request =
        vec![String::from("a"), String::from("b"), String::from("a"), String::from("c"), String::from("c")];
    let statuses = vec![status("b", true, 1), status("x", true, 2), status("a", false, 3), status("b", false, 4)];
    let (found, not_found) = get_status_batch(&request, &statuses);
    assert_eq!(nuids_of(&found), vec![String::from("b"), String::from("a")]);
    assert_eq!(found[0].time_to_completion, 1);
    assert_eq!(found[1].time_to_completion, 3);
    assert_eq!(not_found, vec![String::from("c")]);
}

#[test]
fn batch_edges() {
    let (found, not_found) = get_status_batch(&vec![], &vec![status("a", true, 1)]);
    assert!(found.is_empty());
    assert!(not_found.is_empty());
    let (found, not_found) = get_status_batch(&vec![String::from("a"), String::from("b")], &vec![]);
    assert!(found.is_empty());
    assert_eq!(not_found, vec![String::from("a"), String::from("b")]);
    let (found, not_found) =
        get_status_batch(&vec![String::from("a")], &vec![status("a", true, 1)]);
    assert_eq!(nuids_of(&found), vec![String::from("a")]);
    assert!(not_found.is_empty());
}

#[test]
fn batch_result_is_a_failure_only_with_misses() {
    match batch_result(vec![status("a", true, 1)], vec![]) {
        Ok(found) => assert_eq!(nuids_of(&found), vec![String::from("a")]),
        Err(e) => panic!("unexpected failure: {:?}", e),
    }
    match batch_result(vec![status("a", true, 1)], vec![String::from("b")]) {
        Err(ModelError::ApplicantsNotFound { applicants_found, applicants_not_found }) => {
            assert_eq!(nuids_of(&applicants_found), vec![String::from("a")]);
            assert_eq!(applicants_not_found, vec![String::from("b")]);
        }
        other => panic!("unexpected result: {:?}", other),
    }
}

#[test]
fn register_succeeds_exactly_once() {
    let mut tables = Tables::new();
    assert!(register(&mut tables, "Ada", "U1").is_ok());
    assert!(matches!(register(&mut tables, "Ada", "U1"), Err(ModelError::DuplicateUser)));
    assert!(matches!(register(&mut tables, "Somebody Else", "U1"), Err(ModelError::DuplicateUser)));
    assert!(register(&mut tables, "Ada", "U2").is_ok());
    assert_eq!(tables.applicants.len(), 2);
}

#[test]
fn one_of_many_registrations_succeeds() {
    let mut tables = Tables::new();
    let mut succeeded = 0;
    let mut duplicates = 0;
    for i in 0..25 {
        match register(&mut tables, &format!("caller {}", i), "U1") {
            Ok(_) => succeeded += 1,
            Err(ModelError::DuplicateUser) => duplicates += 1,
            Err(e) => panic!("unexpected failure: {:?}", e),
        }
    }
    assert_eq!(succeeded, 1);
    assert_eq!(duplicates, 24);
    assert_eq!(tables.applicants.len(), 1);
    assert_eq!(tables.applicants[0].0, "caller 0");
}

#[test]
fn canonical_answer_is_accepted_after_registration() {
    let mut tables = Tables::new();
    let (token, challenge) = register(&mut tables, "Ada", "U1").unwrap();
    assert!(matches!(verify(&mut tables, token, &find_kmers(&challenge, 3)), Ok(true)));
    assert_eq!(tables.submissions.len(), 1);
    assert_eq!(tables.submissions[0].0, "U1");
    assert!(tables.submissions[0].1);
}

#[test]
fn wrong_then_correct_submission_are_both_recorded() {
    let mut tables = Tables::new();
    let (token, challenge) = register(&mut tables, "Ada", "U1").unwrap();
    assert!(matches!(verify(&mut tables, token, &KmerCounts::new()), Ok(false)));
    assert_eq!(tables.submissions.len(), 1);
    assert!(!tables.submissions[0].1);
    assert!(matches!(verify(&mut tables, token, &find_kmers(&challenge, 3)), Ok(true)));
    assert!(matches!(verify(&mut tables, token, &find_kmers(&challenge, 3)), Ok(true)));
    let outcomes: Vec<bool> = tables.submissions.iter().map(|s| s.1).collect();
    assert_eq!(outcomes, vec![false, true, true]);
    assert!(tables.submissions.iter().all(|s| s.0 == "U1"));
}

#[test]
fn submission_under_an_unknown_token_records_nothing() {
    let mut tables = Tables::new();
    let (token, _) = register(&mut tables, "Ada", "U1").unwrap();
    assert!(matches!(
        verify(&mut tables, token.wrapping_add(1), &KmerCounts::new()),
        Err(ModelError::NoUserFound)
    ));
    assert!(tables.submissions.is_empty());
}

#[test]
fn token_and_challenge_are_found_again() {
    let mut tables = Tables::new();
    let (token, challenge) = register(&mut tables, "Ada", "U1").unwrap();
    assert!(matches!(retreive_token(tables.read_token("U1")), Ok(found) if found == token));
    assert!(matches!(retreive_token(tables.read_token("U2")), Err(ModelError::NoUserFound)));
    assert_eq!(retreive_challenge(tables.read_challenge(token)).unwrap(), challenge);
    assert!(matches!(
        retreive_challenge(tables.read_challenge(token.wrapping_add(1))),
        Err(ModelError::NoUserFound)
    ));
}

#[test]
fn status_follows_the_latest_submission() {
    let mut tables = Tables::new();
    let (token, challenge) = register(&mut tables, "Ada", "U1").unwrap();
    register(&mut tables, "Bob", "U2").unwrap();
    let request = vec![String::from("U1"), String::from("U2"), String::from("U3")];

    let statuses = get_applicants(tables.read_rows(&request)).unwrap();
    let (found, not_found) = get_status_batch(&request, &statuses);
    assert!(found.is_empty());
    assert_eq!(not_found, request);
    assert!(matches!(get_status(&String::from("U1"), &statuses), Err(ModelError::NoUserFound)));

    verify(&mut tables, token, &KmerCounts::new()).unwrap();
    let statuses = get_applicants(tables.read_rows(&request)).unwrap();
    let first = get_status(&String::from("U1"), &statuses).unwrap();
    assert!(!first.ok);
    assert_eq!(first.name, "Ada");

    verify(&mut tables, token, &find_kmers(&challenge, 3)).unwrap();
    let statuses = get_applicants(tables.read_rows(&request)).unwrap();
    let (found, not_found) = get_status_batch(&request, &statuses);
    assert_eq!(nuids_of(&found), vec![String::from("U1")]);
    assert!(found[0].ok);
    assert!(found[0].time_to_completion > first.time_to_completion);
    assert_eq!(not_found, vec![String::from("U2"), String::from("U3")]);
}

#[test]
fn fresh_challenges_have_ninety_eight_windows() {
    let challenge = generate_challenge_string();
    let registration = registration_for(1, challenge);
    let total: u64 = registration.solution.pairs().iter().map(|(_, count)| *count).sum();
    assert_eq!(total, 98);
}
