//! One run of the synchronisation as a machine of stages.
//!
//! The caller does what an [`Action`] asks for (fetching, looking up,
//! asking for confirmation, posting) and hands what came of it back as an
//! [`Event`]; [`step`] decides what happens next.

use vstd::prelude::*;
use vstd::string::*;
use crate::decimal::decimal;
use crate::lookup::{
    element_id, ids_of_elements, lemma_ids_of_elements, lemma_posted_element, nested_member, Json,
};
use crate::openproject::{comment_text, request_for, TimeEntryRequest, TimeEntryRequestView};
use crate::reconcile::{
    distinct_work_package_ids, existing_views, is_submitted, lemma_distinct_work_package_ids,
    lemma_reconcile_idempotent, lemma_unsubmitted_membership, reconcile, texts,
    unique_work_package_ids, unsubmitted, ExistingIds, ExistingIdsView,
};
use crate::toggl::{
    extend_entries, extended_entries, extended_views, lemma_extended_entries_are_eligible,
    time_entry_views, ExtendedTimeEntry, ExtendedTimeEntryView, TimeEntry, TimeEntryView,
};

verus! {

/// How many days back entries are fetched.
pub const LOOK_BACK_DAYS: i64 = 2;

/// How a run ended.
#[derive(Clone, Copy, Debug, PartialEq, Eq, Structural)]
pub enum Outcome {
    /// No entry was left to post.
    NothingToDo,
    /// Every entry that was left has been posted.
    Submitted,
    /// The user declined to post.
    Declined,
    /// Fetching, a lookup or a post failed, or an event came out of turn.
    Failed,
}

/// Where a run stands.
#[derive(Debug)]
pub enum Stage {
    Idle,
    /// The entries have been asked for.
    Fetching,
    /// The first work package of `pending` has been asked for; `found`
    /// holds the answers for those asked for before.
    LookingUp { entries: Vec<ExtendedTimeEntry>, pending: Vec<String>, found: Vec<ExistingIds> },
    /// The user has been asked whether to post `requests`.
    Confirming { requests: Vec<TimeEntryRequest> },
    /// One request is being posted; `queue` holds those that follow.
    Submitting { queue: Vec<TimeEntryRequest> },
    Finished { outcome: Outcome },
}

/// What came of the last action.
#[derive(Debug)]
pub enum Event {
    Started,
    Fetched { entries: Vec<TimeEntry> },
    /// The identifiers that the issue tracker holds for the work package asked for.
    LookedUp { toggl_ids: Vec<String> },
    Answered { yes: bool },
    Posted,
    /// The action failed.
    Failed,
}

/// What the caller is to do next.
#[derive(Debug)]
pub enum Action {
    Fetch { days: i64 },
    LookUp { work_package_id: String },
    Confirm { count: usize },
    Post { request: TimeEntryRequest },
    Stop { outcome: Outcome },
}

/// The views of a sequence of requests.
pub open spec fn request_views(requests: Seq<TimeEntryRequest>) -> Seq<TimeEntryRequestView> {
    requests.map_values(|r: TimeEntryRequest| r@)
}

/// The requests for `entries`, in order; `None` where the start of one of
/// them has no calendar day.
pub open spec fn requests_for(entries: Seq<ExtendedTimeEntryView>, activity_id: Seq<char>) -> Option<
    Seq<TimeEntryRequestView>,
>
    decreases entries.len(),
{
    if entries.len() == 0 {
        Some(Seq::empty())
    } else {
        match requests_for(entries.drop_last(), activity_id) {
            None => None,
            Some(requests) => match entries.last().toggl_time_entry.start.local_date() {
                Some(day) => Some(requests.push(request_for(entries.last(), activity_id, day))),
                None => None,
            },
        }
    }
}

/// The entries of one fetch that are left to post, given what the issue tracker holds.
pub open spec fn entries_to_submit(entries: Seq<TimeEntryView>, existing: Seq<ExistingIdsView>) -> Seq<
    ExtendedTimeEntryView,
> {
    unsubmitted(extended_entries(entries), existing)
}

/// The exit status of a run: zero where it posted everything or had
/// nothing to post, one where the user declined, two where it failed.
pub open spec fn exit_status(outcome: Outcome) -> i32 {
    match outcome {
        Outcome::NothingToDo => 0i32,
        Outcome::Submitted => 0i32,
        Outcome::Declined => 1i32,
        Outcome::Failed => 2i32,
    }
}

/// Whether `next` and `action` are a finished run with the outcome `outcome`.
pub open spec fn stops_with(next: Stage, action: Action, outcome: Outcome) -> bool {
    next == (Stage::Finished { outcome }) && action == (Action::Stop { outcome })
}

/// What follows the answer to the fetch.
pub open spec fn follows_fetch(entries: Seq<TimeEntryView>, next: Stage, action: Action) -> bool {
    let extended = extended_entries(entries);
    if extended.len() == 0 {
        stops_with(next, action, Outcome::NothingToDo)
    } else {
        match (next, action) {
            (Stage::LookingUp { entries, pending, found }, Action::LookUp { work_package_id }) => {
                &&& extended_views(entries@) == extended
                &&& texts(pending@) == distinct_work_package_ids(extended)
                &&& pending@.len() > 0
                &&& found@.len() == 0
                &&& work_package_id@ == pending@[0]@
            },
            _ => false,
        }
    }
}

/// What follows the answer `toggl_ids` to the lookup of the first work
/// package of `pending`.
pub open spec fn follows_lookup(
    entries: Seq<ExtendedTimeEntryView>,
    pending: Seq<Seq<char>>,
    found: Seq<ExistingIdsView>,
    toggl_ids: Seq<Seq<char>>,
    activity_id: Seq<char>,
    next: Stage,
    action: Action,
) -> bool
    recommends
        pending.len() > 0,
{
    let known = found.push(ExistingIdsView { work_package_id: pending[0], toggl_ids });
    if pending.len() > 1 {
        match (next, action) {
            (
                Stage::LookingUp { entries: e, pending: p, found: f },
                Action::LookUp { work_package_id },
            ) => {
                &&& extended_views(e@) == entries
                &&& texts(p@) == pending.drop_first()
                &&& existing_views(f@) == known
                &&& work_package_id@ == pending[1]
            },
            _ => false,
        }
    } else {
        let left = unsubmitted(entries, known);
        if left.len() == 0 {
            stops_with(next, action, Outcome::NothingToDo)
        } else {
            match requests_for(left, activity_id) {
                None => stops_with(next, action, Outcome::Failed),
                Some(wanted) => match (next, action) {
                    (Stage::Confirming { requests }, Action::Confirm { count }) => {
                        request_views(requests@) == wanted && count == wanted.len()
                    },
                    _ => false,
                },
            }
        }
    }
}

/// What follows when the first request of `queue` is the next to post.
pub open spec fn follows_queue(queue: Seq<TimeEntryRequestView>, next: Stage, action: Action) -> bool {
    if queue.len() == 0 {
        stops_with(next, action, Outcome::Submitted)
    } else {
        match (next, action) {
            (Stage::Submitting { queue: rest }, Action::Post { request }) => {
                request@ == queue[0] && request_views(rest@) == queue.drop_first()
            },
            _ => false,
        }
    }
}

/// Whether `next` and `action` are what follows `event` at `stage`.
///
/// Each stage waits for one kind of event. A failed action, or an event
/// that the stage does not wait for, ends the run as failed; a finished
/// run stays as it is.
pub open spec fn follows(
    stage: Stage,
    event: Event,
    activity_id: Seq<char>,
    next: Stage,
    action: Action,
) -> bool {
    match (stage, event) {
        (Stage::Finished { outcome }, _) => stops_with(next, action, outcome),
        (Stage::Idle, Event::Started) => next == Stage::Fetching && action == (Action::Fetch {
            days: LOOK_BACK_DAYS,
        }),
        (Stage::Fetching, Event::Fetched { entries }) => follows_fetch(
            time_entry_views(entries@),
            next,
            action,
        ),
        (Stage::LookingUp { entries, pending, found }, Event::LookedUp { toggl_ids }) => {
            if pending@.len() == 0 {
                stops_with(next, action, Outcome::Failed)
            } else {
                follows_lookup(
                    extended_views(entries@),
                    texts(pending@),
                    existing_views(found@),
                    texts(toggl_ids@),
                    activity_id,
                    next,
                    action,
                )
            }
        },
        (Stage::Confirming { requests }, Event::Answered { yes }) => {
            if yes {
                follows_queue(request_views(requests@), next, action)
            } else {
                stops_with(next, action, Outcome::Declined)
            }
        },
        (Stage::Submitting { queue }, Event::Posted) => follows_queue(
            request_views(queue@),
            next,
            action,
        ),
        _ => stops_with(next, action, Outcome::Failed),
    }
}

/// No entry that is still running or shorter than a minute is left to
/// post, whatever the issue tracker holds; what is left to post stems from
/// the entries that were fetched.
pub proof fn lemma_only_eligible_entries_are_submitted(
    entries: Seq<TimeEntryView>,
    existing: Seq<ExistingIdsView>,
)
    ensures
        forall|i: int|
            0 <= i < entries_to_submit(entries, existing).len() ==> {
                let e = #[trigger] entries_to_submit(entries, existing)[i];
                &&& e.toggl_time_entry.stop is Some
                &&& e.toggl_time_entry.duration >= 60
                &&& entries.contains(e.toggl_time_entry)
                &&& e.toggl_time_entry.extended() == Some(e)
            },
{
    let extended = extended_entries(entries);
    let left = entries_to_submit(entries, existing);
    lemma_extended_entries_are_eligible(entries);
    assert forall|i: int| 0 <= i < left.len() implies {
        let e = #[trigger] left[i];
        &&& e.toggl_time_entry.stop is Some
        &&& e.toggl_time_entry.duration >= 60
        &&& entries.contains(e.toggl_time_entry)
        &&& e.toggl_time_entry.extended() == Some(e)
    } by {
        let e = left[i];
        assert(left.contains(e));
        lemma_unsubmitted_membership(extended, existing, e);
        let j = choose|j: int| 0 <= j < extended.len() && extended[j] == e;
        assert(extended[j].toggl_time_entry.is_eligible());
    }
}

/// A second run over the same fetched entries leaves nothing to post, once
/// the issue tracker holds what the first run left to post beside what it
/// held before.
pub proof fn lemma_second_run_submits_nothing(
    entries: Seq<TimeEntryView>,
    before: Seq<ExistingIdsView>,
    after: Seq<ExistingIdsView>,
)
    requires
        forall|e: ExtendedTimeEntryView|
            extended_entries(entries).contains(e) && is_submitted(before, e) ==> is_submitted(
                after,
                e,
            ),
        forall|e: ExtendedTimeEntryView|
            entries_to_submit(entries, before).contains(e) ==> is_submitted(after, e),
    ensures
        entries_to_submit(entries, after) == Seq::<ExtendedTimeEntryView>::empty(),
{
    lemma_reconcile_idempotent(extended_entries(entries), before, after);
}

/// What the issue tracker holds for each of `work_packages`, read from the
/// time entries that its answer for that work package lists.
pub open spec fn answers(work_packages: Seq<Seq<char>>, listed: Seq<Seq<Json>>) -> Seq<
    ExistingIdsView,
> {
    Seq::new(
        work_packages.len(),
        |k: int|
            ExistingIdsView {
                work_package_id: work_packages[k],
                toggl_ids: ids_of_elements(listed[k]).unwrap(),
            },
    )
}

/// Whether `element` is a time entry with the comment that is posted for `entry`.
pub open spec fn is_posted(element: Json, entry: ExtendedTimeEntryView) -> bool {
    match nested_member(element, "comment"@, "raw"@) {
        Some(Json::Text(comment)) => comment@ == comment_text(
            entry.toggl_time_entry.id,
            entry.description,
        ),
        _ => false,
    }
}

/// Whether the answer `second` for the work package `work_package_id`
/// lists what the earlier answer `first` listed, one time entry for each of
/// `posted` that belongs to the work package, and nothing but what `first`
/// listed or what was posted.
pub open spec fn grown_by(
    second: Seq<Json>,
    first: Seq<Json>,
    posted: Seq<ExtendedTimeEntryView>,
    work_package_id: Seq<char>,
) -> bool {
    &&& forall|j: int| 0 <= j < first.len() ==> second.contains(#[trigger] first[j])
    &&& forall|i: int|
        0 <= i < posted.len() && (#[trigger] posted[i]).work_package_id == work_package_id
            ==> exists|j: int| 0 <= j < second.len() && is_posted(#[trigger] second[j], posted[i])
    &&& forall|j: int|
        0 <= j < second.len() ==> first.contains(#[trigger] second[j]) || exists|i: int|
            0 <= i < posted.len() && is_posted(second[j], #[trigger] posted[i])
}

/// Two runs over the same fetched entries. The first looks up each work
/// package, reads the answers `first` and posts what is left to submit.
/// The second gets the answers `second`, which list what `first` listed and
/// what the first run posted. Then every answer of the second run can be
/// read, and the second run has nothing left to submit.
pub proof fn lemma_second_run_has_nothing_to_submit(
    entries: Seq<TimeEntryView>,
    first: Seq<Seq<Json>>,
    second: Seq<Seq<Json>>,
)
    requires
        first.len() == distinct_work_package_ids(extended_entries(entries)).len(),
        second.len() == first.len(),
        forall|k: int| 0 <= k < first.len() ==> ids_of_elements(#[trigger] first[k]) is Some,
        forall|k: int|
            0 <= k < first.len() ==> #[trigger] grown_by(
                second[k],
                first[k],
                entries_to_submit(
                    entries,
                    answers(distinct_work_package_ids(extended_entries(entries)), first),
                ),
                distinct_work_package_ids(extended_entries(entries))[k],
            ),
    ensures
        forall|k: int| 0 <= k < second.len() ==> ids_of_elements(#[trigger] second[k]) is Some,
        entries_to_submit(
            entries,
            answers(distinct_work_package_ids(extended_entries(entries)), second),
        ) == Seq::<ExtendedTimeEntryView>::empty(),
{
    let extended = extended_entries(entries);
    let wps = distinct_work_package_ids(extended);
    let before = answers(wps, first);
    let after = answers(wps, second);
    let posted = entries_to_submit(entries, before);
    lemma_distinct_work_package_ids(extended);
    assert forall|k: int| 0 <= k < second.len() implies ids_of_elements(
        #[trigger] second[k],
    ) is Some by {
        assert(grown_by(second[k], first[k], posted, wps[k]));
        lemma_ids_of_elements(first[k]);
        lemma_ids_of_elements(second[k]);
        assert forall|j: int| 0 <= j < second[k].len() implies element_id(
            #[trigger] second[k][j],
        ) is Some by {
            let x = second[k][j];
            if first[k].contains(x) {
                let j1 = choose|j1: int| 0 <= j1 < first[k].len() && first[k][j1] == x;
                assert(element_id(first[k][j1]) is Some);
            } else {
                let i = choose|i: int| 0 <= i < posted.len() && is_posted(x, #[trigger] posted[i]);
                lemma_is_posted(x, posted[i]);
            }
        }
    }
    assert forall|e: ExtendedTimeEntryView| extended.contains(e) implies is_submitted(
        after,
        e,
    ) by {
        let id = decimal(e.toggl_time_entry.id as nat);
        if is_submitted(before, e) {
            let k = choose|k: int|
                0 <= k < before.len() && (#[trigger] before[k]).work_package_id
                    == e.work_package_id && before[k].toggl_ids.contains(id);
            assert(grown_by(second[k], first[k], posted, wps[k]));
            lemma_ids_of_elements(first[k]);
            lemma_ids_of_elements(second[k]);
            let j1 = choose|j1: int|
                0 <= j1 < first[k].len() && element_id(#[trigger] first[k][j1]) == Some(Some(id));
            assert(second[k].contains(first[k][j1]));
            let j2 = choose|j2: int| 0 <= j2 < second[k].len() && second[k][j2] == first[k][j1];
            assert(element_id(second[k][j2]) == Some(Some(id)));
            assert(after[k].toggl_ids.contains(id));
            assert(after[k].work_package_id == e.work_package_id);
        } else {
            lemma_unsubmitted_membership(extended, before, e);
            let i = choose|i: int| 0 <= i < posted.len() && posted[i] == e;
            let n = choose|n: int| 0 <= n < extended.len() && extended[n] == e;
            assert(extended[n].work_package_id == e.work_package_id);
            assert(wps.to_set().contains(e.work_package_id));
            let k = choose|k: int| 0 <= k < wps.len() && wps[k] == e.work_package_id;
            assert(grown_by(second[k], first[k], posted, wps[k]));
            assert(posted[i].work_package_id == wps[k]);
            let j = choose|j: int|
                0 <= j < second[k].len() && is_posted(#[trigger] second[k][j], posted[i]);
            lemma_is_posted(second[k][j], e);
            lemma_ids_of_elements(second[k]);
            assert(after[k].toggl_ids.contains(id));
            assert(after[k].work_package_id == e.work_package_id);
        }
    }
    assert forall|e: ExtendedTimeEntryView| posted.contains(e) implies is_submitted(after, e) by {
        lemma_unsubmitted_membership(extended, before, e);
    }
    lemma_second_run_submits_nothing(entries, before, after);
}

/// A time entry with the comment that is posted for `entry` gives the
/// numeral of the identifier of `entry`.
pub proof fn lemma_is_posted(element: Json, entry: ExtendedTimeEntryView)
    requires
        is_posted(element, entry),
    ensures
        element_id(element) == Some(Some(decimal(entry.toggl_time_entry.id as nat))),
{
    match nested_member(element, "comment"@, "raw"@) {
        Some(Json::Text(comment)) => {
            lemma_posted_element(element, comment, entry.toggl_time_entry.id, entry.description);
        },
        _ => {},
    }
}

/// As many requests are made as there are entries, one for each in order.
pub proof fn lemma_requests_for_each(entries: Seq<ExtendedTimeEntryView>, activity_id: Seq<char>)
    requires
        requests_for(entries, activity_id) is Some,
    ensures
        requests_for(entries, activity_id).unwrap().len() == entries.len(),
        forall|i: int|
            0 <= i < entries.len() ==> {
                &&& (#[trigger] entries[i]).toggl_time_entry.start.local_date() is Some
                &&& requests_for(entries, activity_id).unwrap()[i] == request_for(
                    entries[i],
                    activity_id,
                    entries[i].toggl_time_entry.start.local_date().unwrap(),
                )
            },
    decreases entries.len(),
{
    if entries.len() > 0 {
        lemma_requests_for_each(entries.drop_last(), activity_id);
        assert forall|i: int| 0 <= i < entries.len() implies {
            &&& (#[trigger] entries[i]).toggl_time_entry.start.local_date() is Some
            &&& requests_for(entries, activity_id).unwrap()[i] == request_for(
                entries[i],
                activity_id,
                entries[i].toggl_time_entry.start.local_date().unwrap(),
            )
        } by {
            if i < entries.len() - 1 {
                assert(entries.drop_last()[i] == entries[i]);
            }
        }
    }
}

/// Once a list of entries has no requests, no longer list has any.
proof fn lemma_requests_for_fail(entries: Seq<ExtendedTimeEntryView>, activity_id: Seq<char>, n: int)
    requires
        0 <= n <= entries.len(),
        requests_for(entries.take(n), activity_id) is None,
    ensures
        requests_for(entries, activity_id) is None,
    decreases entries.len() - n,
{
    if n < entries.len() {
        assert(entries.take(n + 1).drop_last() =~= entries.take(n));
        lemma_requests_for_fail(entries, activity_id, n + 1);
    } else {
        assert(entries.take(n) =~= entries);
    }
}

impl Outcome {
    /// The exit status of a run that ended so.
    pub fn exit_code(&self) -> (r: i32)
        ensures
            r == exit_status(*self),
    {
        match self {
            Outcome::NothingToDo => 0,
            Outcome::Submitted => 0,
            Outcome::Declined => 1,
            Outcome::Failed => 2,
        }
    }
}

/// Makes the request for each of `entries`, in order, under the activity
/// `activity_id`; `None` where the start of one of them has no calendar day.
pub fn build_requests(entries: &Vec<ExtendedTimeEntry>, activity_id: &str) -> (r: Option<
    Vec<TimeEntryRequest>,
>)
    ensures
        match r {
            Some(requests) => requests_for(extended_views(entries@), activity_id@) == Some(
                request_views(requests@),
            ),
            None => requests_for(extended_views(entries@), activity_id@) is None,
        },
{
    let ghost all = extended_views(entries@);
    let mut out: Vec<TimeEntryRequest> = Vec::new();
    let mut i: usize = 0;
    assert(request_views(out@) =~= Seq::<TimeEntryRequestView>::empty());
    while i < entries.len()
        invariant
            i <= entries.len(),
            all == extended_views(entries@),
            requests_for(all.take(i as int), activity_id@) == Some(request_views(out@)),
        decreases entries.len() - i,
    {
        let ghost before = request_views(out@);
        assert(all.take(i + 1).drop_last() =~= all.take(i as int));
        assert(all.take(i + 1).last() == entries@[i as int]@);
        match TimeEntryRequest::checked_from(&entries[i], activity_id) {
            Some(request) => {
                out.push(request);
                assert(request_views(out@) =~= before.push(request@));
            },
            None => {
                proof {
                    lemma_requests_for_fail(all, activity_id@, i + 1);
                }
                return None;
            },
        }
        i += 1;
    }
    assert(all.take(i as int) =~= all);
    Some(out)
}

fn stop(outcome: Outcome) -> (r: (Stage, Action))
    ensures
        stops_with(r.0, r.1, outcome),
{
    (Stage::Finished { outcome }, Action::Stop { outcome })
}

fn after_fetch(entries: Vec<TimeEntry>) -> (r: (Stage, Action))
    ensures
        follows_fetch(time_entry_views(entries@), r.0, r.1),
{
    let extended = extend_entries(entries);
    if extended.len() == 0 {
        return stop(Outcome::NothingToDo);
    }
    let pending = unique_work_package_ids(&extended);
    proof {
        lemma_distinct_work_package_ids(extended_views(extended@));
    }
    let work_package_id = pending[0].clone();
    (
        Stage::LookingUp { entries: extended, pending, found: Vec::new() },
        Action::LookUp { work_package_id },
    )
}

fn next_in_queue(queue: Vec<TimeEntryRequest>) -> (r: (Stage, Action))
    ensures
        follows_queue(request_views(queue@), r.0, r.1),
{
    let mut queue = queue;
    let ghost all = request_views(queue@);
    if queue.len() == 0 {
        return stop(Outcome::Submitted);
    }
    let request = queue.remove(0);
    assert(request_views(queue@) =~= all.drop_first());
    (Stage::Submitting { queue }, Action::Post { request })
}

fn after_lookup(
    entries: Vec<ExtendedTimeEntry>,
    pending: Vec<String>,
    found: Vec<ExistingIds>,
    toggl_ids: Vec<String>,
    activity_id: &str,
) -> (r: (Stage, Action))
    requires
        pending@.len() > 0,
    ensures
        follows_lookup(
            extended_views(entries@),
            texts(pending@),
            existing_views(found@),
            texts(toggl_ids@),
            activity_id@,
            r.0,
            r.1,
        ),
{
    let mut pending = pending;
    let mut found = found;
    let ghost asked = texts(pending@);
    let ghost before = existing_views(found@);
    let work_package_id = pending.remove(0);
    let answer = ExistingIds { work_package_id, toggl_ids };
    found.push(answer);
    assert(texts(pending@) =~= asked.drop_first());
    assert(existing_views(found@) =~= before.push(answer@));
    if pending.len() > 0 {
        let work_package_id = pending[0].clone();
        assert(work_package_id@ == asked[1]);
        return (Stage::LookingUp { entries, pending, found }, Action::LookUp { work_package_id });
    }
    let left = reconcile(entries, &found);
    if left.len() == 0 {
        return stop(Outcome::NothingToDo);
    }
    match build_requests(&left, activity_id) {
        Some(requests) => {
            let count = requests.len();
            (Stage::Confirming { requests }, Action::Confirm { count })
        },
        None => stop(Outcome::Failed),
    }
}

/// Decides what follows `event` at `stage`: the next stage and what the
/// caller is to do. Requests are made under the activity `activity_id`.
pub fn step(stage: Stage, event: Event, activity_id: &str) -> (r: (Stage, Action))
    ensures
        follows(stage, event, activity_id@, r.0, r.1),
{
    match (stage, event) {
        (Stage::Finished { outcome }, _) => stop(outcome),
        (Stage::Idle, Event::Started) => (Stage::Fetching, Action::Fetch { days: LOOK_BACK_DAYS }),
        (Stage::Fetching, Event::Fetched { entries }) => after_fetch(entries),
        (Stage::LookingUp { entries, pending, found }, Event::LookedUp { toggl_ids }) => {
            if pending.len() == 0 {
                stop(Outcome::Failed)
            } else {
                after_lookup(entries, pending, found, toggl_ids, activity_id)
            }
        },
        (Stage::Confirming { requests }, Event::Answered { yes }) => {
            if yes {
                next_in_queue(requests)
            } else {
                stop(Outcome::Declined)
            }
        },
        (Stage::Submitting { queue }, Event::Posted) => next_in_queue(queue),
        _ => stop(Outcome::Failed),
    }
}

} // verus!
