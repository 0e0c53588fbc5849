//! Looking up the status of one applicant or of several.
//!
//! A status exists for an applicant who is registered and has submitted at
//! least once. An applicant without a submission is reported like one who is
//! unknown.

use crate::engine::{status_views, string_views};
use crate::errors::ModelError;
use crate::status::{Applicant, ApplicantView};
use vstd::prelude::*;

verus! {

/// Some status in the list is that of `nuid`.
pub open spec fn listed(statuses: Seq<ApplicantView>, nuid: Seq<char>) -> bool {
    exists|i: int| 0 <= i < statuses.len() && (#[trigger] statuses[i]).nuid == nuid
}

/// The first status of `nuid` in the list.
pub open spec fn first_of(statuses: Seq<ApplicantView>, nuid: Seq<char>) -> ApplicantView
    decreases statuses.len(),
{
    if statuses.len() == 0 {
        arbitrary()
    } else if listed(statuses.drop_last(), nuid) {
        first_of(statuses.drop_last(), nuid)
    } else {
        statuses.last()
    }
}

/// The statuses to report for a request: of the statuses at hand those of a
/// requested `nuid`, in their order, and of several for one `nuid` the first.
pub open spec fn found_among(statuses: Seq<ApplicantView>, request: Seq<Seq<char>>) -> Seq<
    ApplicantView,
>
    decreases statuses.len(),
{
    if statuses.len() == 0 {
        Seq::empty()
    } else {
        let front = statuses.drop_last();
        let last = statuses.last();
        if request.contains(last.nuid) && !listed(front, last.nuid) {
            found_among(front, request).push(last)
        } else {
            found_among(front, request)
        }
    }
}

/// The requested `nuid`s for which no status is at hand, in the order of the
/// request, each of them once.
pub open spec fn missing_among(request: Seq<Seq<char>>, statuses: Seq<ApplicantView>) -> Seq<
    Seq<char>,
>
    decreases request.len(),
{
    if request.len() == 0 {
        Seq::empty()
    } else {
        let front = request.drop_last();
        let last = request.last();
        if !listed(statuses, last) && !front.contains(last) {
            missing_among(front, statuses).push(last)
        } else {
            missing_among(front, statuses)
        }
    }
}

/// Whether one of the first `upto` strings is `nuid`.
fn requested(nuids: &Vec<String>, upto: usize, nuid: &String) -> (r: bool)
    requires
        upto <= nuids@.len(),
    ensures
        r == string_views(nuids@).take(upto as int).contains(nuid@),
{
    let ghost views = string_views(nuids@).take(upto as int);
    let mut i: usize = 0;
    while i < upto
        invariant
            i <= upto <= nuids@.len(),
            views == string_views(nuids@).take(upto as int),
            forall|j: int| 0 <= j < i ==> views[j] != nuid@,
        decreases upto - i,
    {
        if nuids[i] == *nuid {
            assert(views[i as int] == nuid@);
            return true;
        }
        i += 1;
    }
    false
}

/// Where among the first `upto` statuses the first one of `nuid` stands.
fn position_of(statuses: &Vec<Applicant>, upto: usize, nuid: &String) -> (r: Option<usize>)
    requires
        upto <= statuses@.len(),
    ensures
        r.is_some() == listed(status_views(statuses@).take(upto as int), nuid@),
        r matches Some(at) ==> at < upto && statuses@[at as int]@ == first_of(
            status_views(statuses@).take(upto as int),
            nuid@,
        ),
{
    let ghost views = status_views(statuses@).take(upto as int);
    let mut i: usize = 0;
    while i < upto
        invariant
            i <= upto <= statuses@.len(),
            views == status_views(statuses@).take(upto as int),
            forall|j: int| 0 <= j < i ==> (#[trigger] views[j]).nuid != nuid@,
        decreases upto - i,
    {
        if statuses[i].nuid == *nuid {
            proof {
                assert(views[i as int].nuid == nuid@);
                lemma_first_of(views, nuid@, i as int);
            }
            return Some(i);
        }
        i += 1;
    }
    None
}

/// The first status of a `nuid` is the one before which no other of it
/// stands.
proof fn lemma_first_of(statuses: Seq<ApplicantView>, nuid: Seq<char>, at: int)
    requires
        0 <= at < statuses.len(),
        statuses[at].nuid == nuid,
        forall|j: int| 0 <= j < at ==> (#[trigger] statuses[j]).nuid != nuid,
    ensures
        first_of(statuses, nuid) == statuses[at],
    decreases statuses.len(),
{
    let front = statuses.drop_last();
    if at == statuses.len() - 1 {
        if listed(front, nuid) {
            let j = choose|j: int| 0 <= j < front.len() && (#[trigger] front[j]).nuid == nuid;
            assert(statuses[j].nuid == nuid);
        }
    } else {
        assert(front[at].nuid == nuid);
        assert forall|j: int| 0 <= j < at implies (#[trigger] front[j]).nuid != nuid by {
            assert(statuses[j].nuid != nuid);
        }
        lemma_first_of(front, nuid, at);
    }
}

/// The status of one applicant, out of the statuses that the store found for
/// the `nuid`: the first of them that is of this `nuid`, and `NoUserFound`
/// where there is none, be it that nobody is registered under the `nuid` or
/// that the applicant has not submitted yet.
pub fn get_status(nuid: &String, statuses: &Vec<Applicant>) -> (r: Result<Applicant, ModelError>)
    ensures
        listed(status_views(statuses@), nuid@) ==> (r matches Ok(status) && status@ == first_of(
            status_views(statuses@),
            nuid@,
        )),
        !listed(status_views(statuses@), nuid@) ==> r == Err::<Applicant, ModelError>(
            ModelError::NoUserFound,
        ),
{
    assert(status_views(statuses@).take(statuses@.len() as int) =~= status_views(statuses@));
    match position_of(statuses, statuses.len(), nuid) {
        Some(at) => Ok(statuses[at].clone()),
        None => Err(ModelError::NoUserFound),
    }
}

/// Parts a request into the statuses that were found and the `nuid`s for
/// which there is none. `statuses` is what the store found for the request.
/// Of it only the statuses of a requested `nuid` are reported, and one for
/// each `nuid`; a `nuid` without a status is reported as not found, once. A
/// partial miss is no failure.
pub fn get_status_batch(nuids: &Vec<String>, statuses: &Vec<Applicant>) -> (r: (
    Vec<Applicant>,
    Vec<String>,
))
    ensures
        status_views(r.0@) == found_among(status_views(statuses@), string_views(nuids@)),
        string_views(r.1@) == missing_among(string_views(nuids@), status_views(statuses@)),
{
    let ghost request = string_views(nuids@);
    let ghost views = status_views(statuses@);
    let mut found: Vec<Applicant> = Vec::new();
    let mut i: usize = 0;
    assert(status_views(found@) =~= found_among(views.take(0), request));
    assert(request.take(nuids@.len() as int) =~= request);
    while i < statuses.len()
        invariant
            i <= statuses@.len(),
            request == string_views(nuids@),
            views == status_views(statuses@),
            request.take(nuids@.len() as int) == request,
            status_views(found@) == found_among(views.take(i as int), request),
        decreases statuses@.len() - i,
    {
        let asked = requested(nuids, nuids.len(), &statuses[i].nuid);
        let earlier = position_of(statuses, i, &statuses[i].nuid);
        proof {
            assert(views.take(i + 1).drop_last() =~= views.take(i as int));
            assert(views.take(i + 1).last() == views[i as int]);
        }
        if asked && earlier.is_none() {
            let ghost before = status_views(found@);
            found.push(statuses[i].clone());
            assert(status_views(found@) =~= before.push(views[i as int]));
        }
        i += 1;
    }
    assert(views.take(i as int) =~= views);
    assert(views.take(statuses@.len() as int) =~= views);
    let mut not_found: Vec<String> = Vec::new();
    let mut j: usize = 0;
    assert(string_views(not_found@) =~= missing_among(request.take(0), views));
    while j < nuids.len()
        invariant
            j <= nuids@.len(),
            request == string_views(nuids@),
            views == status_views(statuses@),
            views.take(statuses@.len() as int) == views,
            status_views(found@) == found_among(views, request),
            string_views(not_found@) == missing_among(request.take(j as int), views),
        decreases nuids@.len() - j,
    {
        let has_status = position_of(statuses, statuses.len(), &nuids[j]);
        let earlier = requested(nuids, j, &nuids[j]);
        proof {
            assert(request.take(j + 1).drop_last() =~= request.take(j as int));
            assert(request.take(j + 1).last() == request[j as int]);
        }
        if has_status.is_none() && !earlier {
            let ghost before = string_views(not_found@);
            not_found.push(nuids[j].clone());
            assert(string_views(not_found@) =~= before.push(request[j as int]));
        }
        j += 1;
    }
    assert(request.take(j as int) =~= request);
    (found, not_found)
}

/// What a request for several applicants returns once it was parted: the
/// statuses where none is missing, and otherwise `ApplicantsNotFound` with
/// both parts.
pub fn batch_result(found: Vec<Applicant>, not_found: Vec<String>) -> (r: Result<
    Vec<Applicant>,
    ModelError,
>)
    ensures
        not_found@.len() == 0 ==> r == Ok::<Vec<Applicant>, ModelError>(found),
        not_found@.len() > 0 ==> r == Err::<Vec<Applicant>, ModelError>(
            ModelError::ApplicantsNotFound {
                applicants_found: found,
                applicants_not_found: not_found,
            },
        ),
{
    if not_found.len() == 0 {
        Ok(found)
    } else {
        Err(ModelError::ApplicantsNotFound { applicants_found: found, applicants_not_found: not_found })
    }
}

/// No two statuses in the list are of one `nuid`.
pub open spec fn distinct_nuids(statuses: Seq<ApplicantView>) -> bool {
    forall|i: int, j: int|
        0 <= i < j < statuses.len() ==> (#[trigger] statuses[i]).nuid != (
        #[trigger] statuses[j]).nuid
}

/// Where some status in the list is of `nuid`, the first of them is one of the
/// list and is of `nuid`.
pub proof fn lemma_first_is_listed(statuses: Seq<ApplicantView>, nuid: Seq<char>)
    requires
        listed(statuses, nuid),
    ensures
        first_of(statuses, nuid).nuid == nuid,
        exists|i: int| 0 <= i < statuses.len() && #[trigger] statuses[i] == first_of(statuses, nuid),
    decreases statuses.len(),
{
    let front = statuses.drop_last();
    let at = choose|i: int| 0 <= i < statuses.len() && (#[trigger] statuses[i]).nuid == nuid;
    if listed(front, nuid) {
        lemma_first_is_listed(front, nuid);
        let i = choose|i: int| 0 <= i < front.len() && #[trigger] front[i] == first_of(front, nuid);
        assert(statuses[i] == first_of(statuses, nuid));
    } else {
        if at < front.len() {
            assert(front[at].nuid == nuid);
        }
        assert(statuses[statuses.len() - 1] == first_of(statuses, nuid));
    }
}

/// A `nuid` has a status among those reported exactly when it was asked for
/// and has a status among those at hand: what is reported is a part of the
/// request.
pub proof fn lemma_found_listed(
    statuses: Seq<ApplicantView>,
    request: Seq<Seq<char>>,
    nuid: Seq<char>,
)
    ensures
        listed(found_among(statuses, request), nuid) <==> request.contains(nuid) && listed(
            statuses,
            nuid,
        ),
    decreases statuses.len(),
{
    let found = found_among(statuses, request);
    if statuses.len() > 0 {
        let front = statuses.drop_last();
        let last = statuses.last();
        let rest = found_among(front, request);
        lemma_found_listed(front, request, nuid);
        if listed(statuses, nuid) {
            let i = choose|i: int| 0 <= i < statuses.len() && (#[trigger] statuses[i]).nuid == nuid;
            if i < front.len() {
                assert(front[i].nuid == nuid);
            }
        }
        if listed(front, nuid) {
            let i = choose|i: int| 0 <= i < front.len() && (#[trigger] front[i]).nuid == nuid;
            assert(statuses[i].nuid == nuid);
        }
        if last.nuid == nuid {
            assert(statuses[statuses.len() - 1].nuid == nuid);
        }
        if request.contains(last.nuid) && !listed(front, last.nuid) {
            assert(found == rest.push(last));
            if listed(found, nuid) {
                let i = choose|i: int| 0 <= i < found.len() && (#[trigger] found[i]).nuid == nuid;
                if i < rest.len() {
                    assert(rest[i].nuid == nuid);
                }
            }
            if listed(rest, nuid) {
                let i = choose|i: int| 0 <= i < rest.len() && (#[trigger] rest[i]).nuid == nuid;
                assert(found[i].nuid == nuid);
            }
            if last.nuid == nuid {
                assert(found[found.len() - 1].nuid == nuid);
            }
        }
    } else {
        assert(!listed(found, nuid));
        assert(!listed(statuses, nuid));
    }
}

/// Of the statuses reported no two are of one `nuid`.
pub proof fn lemma_found_distinct(statuses: Seq<ApplicantView>, request: Seq<Seq<char>>)
    ensures
        distinct_nuids(found_among(statuses, request)),
    decreases statuses.len(),
{
    let found = found_among(statuses, request);
    if statuses.len() > 0 {
        let front = statuses.drop_last();
        let last = statuses.last();
        let rest = found_among(front, request);
        lemma_found_distinct(front, request);
        if request.contains(last.nuid) && !listed(front, last.nuid) {
            lemma_found_listed(front, request, last.nuid);
            assert forall|i: int, j: int| 0 <= i < j < found.len() implies (
            #[trigger] found[i]).nuid != (#[trigger] found[j]).nuid by {
                if j < rest.len() {
                    assert(rest[i].nuid != rest[j].nuid);
                } else {
                    assert(rest[i].nuid == found[i].nuid);
                    if rest[i].nuid == last.nuid {
                        assert(listed(rest, last.nuid));
                    }
                }
            }
        }
    }
}

/// Where the statuses at hand are all asked for and no two of them are of one
/// `nuid`, all of them are reported, in their order.
pub proof fn lemma_found_all(statuses: Seq<ApplicantView>, request: Seq<Seq<char>>)
    requires
        distinct_nuids(statuses),
        forall|i: int| 0 <= i < statuses.len() ==> request.contains((#[trigger] statuses[i]).nuid),
    ensures
        found_among(statuses, request) == statuses,
    decreases statuses.len(),
{
    if statuses.len() > 0 {
        let front = statuses.drop_last();
        let last = statuses.last();
        assert forall|i: int| 0 <= i < front.len() implies request.contains(
            (#[trigger] front[i]).nuid,
        ) by {
            assert(front[i] == statuses[i]);
        }
        assert(distinct_nuids(front)) by {
            assert forall|i: int, j: int| 0 <= i < j < front.len() implies (
            #[trigger] front[i]).nuid != (#[trigger] front[j]).nuid by {
                assert(statuses[i].nuid != statuses[j].nuid);
            }
        }
        lemma_found_all(front, request);
        assert(request.contains(statuses[statuses.len() - 1].nuid));
        if listed(front, last.nuid) {
            let i = choose|i: int| 0 <= i < front.len() && (#[trigger] front[i]).nuid == last.nuid;
            assert(statuses[i].nuid != statuses[statuses.len() - 1].nuid);
        }
        assert(front.push(last) =~= statuses);
    } else {
        assert(found_among(statuses, request) =~= statuses);
    }
}

/// A `nuid` is reported as not found exactly when it was asked for and has no
/// status among those at hand: each requested `nuid` is either reported with
/// a status or as not found, never both.
pub proof fn lemma_missing_contains(
    request: Seq<Seq<char>>,
    statuses: Seq<ApplicantView>,
    nuid: Seq<char>,
)
    ensures
        missing_among(request, statuses).contains(nuid) <==> request.contains(nuid) && !listed(
            statuses,
            nuid,
        ),
    decreases request.len(),
{
    let missing = missing_among(request, statuses);
    if request.len() > 0 {
        let front = request.drop_last();
        let last = request.last();
        let rest = missing_among(front, statuses);
        lemma_missing_contains(front, statuses, nuid);
        if request.contains(nuid) {
            let i = choose|i: int| 0 <= i < request.len() && request[i] == nuid;
            if i < front.len() {
                assert(front[i] == nuid);
            }
        }
        if front.contains(nuid) {
            let i = choose|i: int| 0 <= i < front.len() && front[i] == nuid;
            assert(request[i] == nuid);
        }
        assert(request[request.len() - 1] == last);
        if !listed(statuses, last) && !front.contains(last) {
            assert(missing == rest.push(last));
            if missing.contains(nuid) {
                let i = choose|i: int| 0 <= i < missing.len() && missing[i] == nuid;
                if i < rest.len() {
                    assert(rest[i] == nuid);
                }
            }
            if rest.contains(nuid) {
                let i = choose|i: int| 0 <= i < rest.len() && rest[i] == nuid;
                assert(missing[i] == nuid);
            }
            if last == nuid {
                assert(missing[missing.len() - 1] == nuid);
            }
        }
    } else {
        assert(!missing.contains(nuid));
        assert(!request.contains(nuid));
    }
}

/// No `nuid` is reported twice as not found.
pub proof fn lemma_missing_distinct(request: Seq<Seq<char>>, statuses: Seq<ApplicantView>)
    ensures
        missing_among(request, statuses).no_duplicates(),
    decreases request.len(),
{
    let missing = missing_among(request, statuses);
    if request.len() > 0 {
        let front = request.drop_last();
        let last = request.last();
        let rest = missing_among(front, statuses);
        lemma_missing_distinct(front, statuses);
        if !listed(statuses, last) && !front.contains(last) {
            lemma_missing_contains(front, statuses, last);
            assert forall|i: int, j: int| 0 <= i < j < missing.len() implies missing[i]
                != missing[j] by {
                if j < rest.len() {
                    assert(rest[i] != rest[j]);
                } else {
                    assert(rest[i] == missing[i]);
                    if rest[i] == last {
                        assert(rest.contains(last));
                    }
                }
            }
        }
    }
}

} // verus!
