//! Finding the entries that the issue tracker does not hold yet.

use vstd::prelude::*;
use vstd::string::*;
use crate::decimal::{decimal, u64_to_string};
use crate::toggl::{extended_views, ExtendedTimeEntry, ExtendedTimeEntryView};

verus! {

/// The tracker identifiers that the issue tracker already holds for one work package.
#[derive(Clone, Debug, PartialEq, Eq)]
pub struct ExistingIds {
    pub work_package_id: String,
    pub toggl_ids: Vec<String>,
}

/// What an [`ExistingIds`] holds, as mathematical values.
pub struct ExistingIdsView {
    pub work_package_id: Seq<char>,
    pub toggl_ids: Seq<Seq<char>>,
}

/// The texts of a sequence of strings.
pub open spec fn texts(strings: Seq<String>) -> Seq<Seq<char>> {
    strings.map_values(|s: String| s@)
}

impl View for ExistingIds {
    type V = ExistingIdsView;

    open spec fn view(&self) -> ExistingIdsView {
        ExistingIdsView {
            work_package_id: self.work_package_id@,
            toggl_ids: texts(self.toggl_ids@),
        }
    }
}

/// The views of a sequence of lookup results.
pub open spec fn existing_views(existing: Seq<ExistingIds>) -> Seq<ExistingIdsView> {
    existing.map_values(|e: ExistingIds| e@)
}

/// Whether `existing` holds `toggl_id` for the work package `work_package_id`.
pub open spec fn is_recorded(
    existing: Seq<ExistingIdsView>,
    work_package_id: Seq<char>,
    toggl_id: Seq<char>,
) -> bool {
    exists|i: int|
        0 <= i < existing.len() && (#[trigger] existing[i]).work_package_id == work_package_id
            && existing[i].toggl_ids.contains(toggl_id)
}

/// Whether `existing` holds the entry's identifier for the entry's work package.
pub open spec fn is_submitted(existing: Seq<ExistingIdsView>, entry: ExtendedTimeEntryView) -> bool {
    is_recorded(existing, entry.work_package_id, decimal(entry.toggl_time_entry.id as nat))
}

/// The entries that `existing` does not hold, in the order of `entries`.
pub open spec fn unsubmitted(
    entries: Seq<ExtendedTimeEntryView>,
    existing: Seq<ExistingIdsView>,
) -> Seq<ExtendedTimeEntryView> {
    entries.filter(|e: ExtendedTimeEntryView| !is_submitted(existing, e))
}

/// The entries of the work package `work_package_id`, in the order of `entries`.
pub open spec fn group_of(entries: Seq<ExtendedTimeEntryView>, work_package_id: Seq<char>) -> Seq<
    ExtendedTimeEntryView,
> {
    entries.filter(|e: ExtendedTimeEntryView| e.work_package_id == work_package_id)
}

/// The work packages that `entries` name.
pub open spec fn work_package_ids(entries: Seq<ExtendedTimeEntryView>) -> Set<Seq<char>> {
    Set::new(
        |id: Seq<char>|
            exists|i: int| 0 <= i < entries.len() && (#[trigger] entries[i]).work_package_id == id,
    )
}

/// Whether `list` holds `text`.
pub fn contains_text(list: &Vec<String>, text: &String) -> (r: bool)
    ensures
        r == texts(list@).contains(text@),
{
    let mut i: usize = 0;
    while i < list.len()
        invariant
            i <= list.len(),
            forall|j: int| 0 <= j < i ==> texts(list@)[j] != text@,
        decreases list.len() - i,
    {
        if list[i] == *text {
            assert(texts(list@)[i as int] == text@);
            return true;
        }
        i += 1;
    }
    false
}

/// Whether `existing` holds `toggl_id` for the work package `work_package_id`.
pub fn recorded(existing: &Vec<ExistingIds>, work_package_id: &String, toggl_id: &String) -> (r:
    bool)
    ensures
        r == is_recorded(existing_views(existing@), work_package_id@, toggl_id@),
{
    let mut i: usize = 0;
    while i < existing.len()
        invariant
            i <= existing.len(),
            forall|j: int|
                0 <= j < i ==> !((#[trigger] existing_views(existing@)[j]).work_package_id
                    == work_package_id@ && existing_views(existing@)[j].toggl_ids.contains(
                    toggl_id@,
                )),
        decreases existing.len() - i,
    {
        assert(existing_views(existing@)[i as int] == existing[i as int]@);
        if existing[i].work_package_id == *work_package_id && contains_text(
            &existing[i].toggl_ids,
            toggl_id,
        ) {
            return true;
        }
        i += 1;
    }
    false
}

/// The work packages that `entries` name, each once, in the order in which
/// they first occur.
pub open spec fn distinct_work_package_ids(entries: Seq<ExtendedTimeEntryView>) -> Seq<Seq<char>>
    decreases entries.len(),
{
    if entries.len() == 0 {
        Seq::empty()
    } else {
        let before = distinct_work_package_ids(entries.drop_last());
        if before.contains(entries.last().work_package_id) {
            before
        } else {
            before.push(entries.last().work_package_id)
        }
    }
}

/// The distinct work packages hold none twice, and hold exactly the work
/// packages that the entries name.
pub proof fn lemma_distinct_work_package_ids(entries: Seq<ExtendedTimeEntryView>)
    ensures
        distinct_work_package_ids(entries).no_duplicates(),
        distinct_work_package_ids(entries).to_set() == work_package_ids(entries),
        entries.len() > 0 ==> distinct_work_package_ids(entries).len() > 0,
    decreases entries.len(),
{
    let ids = distinct_work_package_ids(entries);
    if entries.len() > 0 {
        let head = entries.drop_last();
        let before = distinct_work_package_ids(head);
        let last = entries.last().work_package_id;
        lemma_distinct_work_package_ids(head);
        assert forall|t: Seq<char>| ids.to_set().contains(t) <==> work_package_ids(
            entries,
        ).contains(t) by {
            if ids.contains(t) {
                let k = choose|k: int| 0 <= k < ids.len() && ids[k] == t;
                if k < before.len() {
                    assert(before[k] == t);
                    assert(before.to_set().contains(t));
                    let j = choose|j: int|
                        0 <= j < head.len() && (#[trigger] head[j]).work_package_id == t;
                    assert(entries[j].work_package_id == t);
                } else {
                    assert(entries[entries.len() - 1].work_package_id == t);
                }
            }
            if work_package_ids(entries).contains(t) {
                let j = choose|j: int|
                    0 <= j < entries.len() && (#[trigger] entries[j]).work_package_id == t;
                if j < head.len() {
                    assert(head[j].work_package_id == t);
                    assert(work_package_ids(head).contains(t));
                    assert(before.to_set().contains(t));
                    let k = choose|k: int| 0 <= k < before.len() && before[k] == t;
                    assert(ids[k] == t);
                } else if before.contains(t) {
                } else {
                    assert(ids[before.len() as int] == t);
                }
            }
        }
        assert(ids.to_set() =~= work_package_ids(entries));
        assert(ids.len() > 0) by {
            if before.contains(last) {
                let k = choose|k: int| 0 <= k < before.len() && before[k] == last;
            }
        }
    } else {
        assert(ids.to_set() =~= work_package_ids(entries));
    }
}

/// The work packages that `entries` name, each once, in the order in which
/// they first occur. These are the work packages to look up before
/// [`reconcile`].
pub fn unique_work_package_ids(entries: &Vec<ExtendedTimeEntry>) -> (r: Vec<String>)
    ensures
        texts(r@) == distinct_work_package_ids(extended_views(entries@)),
{
    let ghost all = extended_views(entries@);
    let mut out: Vec<String> = Vec::new();
    let mut i: usize = 0;
    assert(texts(out@) =~= distinct_work_package_ids(all.take(0)));
    while i < entries.len()
        invariant
            i <= entries.len(),
            all == extended_views(entries@),
            texts(out@) == distinct_work_package_ids(all.take(i as int)),
        decreases entries.len() - i,
    {
        let ghost before = texts(out@);
        assert(all.take(i + 1).drop_last() =~= all.take(i as int));
        assert(all.take(i + 1).last() == entries[i as int]@);
        if !contains_text(&out, &entries[i].work_package_id) {
            let id = entries[i].work_package_id.clone();
            out.push(id);
            assert(texts(out@) =~= before.push(id@));
        }
        i += 1;
    }
    assert(all.take(i as int) =~= all);
    out
}

/// Keeps the entries whose identifier `existing` does not hold for their
/// work package, in the order of `entries`, so that the entries of each
/// work package stay in their order.
pub fn reconcile(entries: Vec<ExtendedTimeEntry>, existing: &Vec<ExistingIds>) -> (r: Vec<
    ExtendedTimeEntry,
>)
    ensures
        extended_views(r@) == unsubmitted(extended_views(entries@), existing_views(existing@)),
{
    let ghost all = extended_views(entries@);
    let ghost known = existing_views(existing@);
    let ghost keep = |e: ExtendedTimeEntryView| !is_submitted(known, e);
    let mut out: Vec<ExtendedTimeEntry> = Vec::new();
    proof {
        reveal(Seq::filter);
        assert(extended_views(out@) =~= all.take(0).filter(keep));
    }
    for entry in it: entries.into_iter()
        invariant
            it.seq() == entries@,
            all == extended_views(entries@),
            known == existing_views(existing@),
            keep == |e: ExtendedTimeEntryView| !is_submitted(known, e),
            extended_views(out@) == all.take(it.index() as int).filter(keep),
    {
        let ghost i = it.index() as int;
        let ghost before = out@;
        proof {
            reveal(Seq::filter);
            assert(all.take(i + 1).drop_last() =~= all.take(i));
            assert(all.take(i + 1).last() == entry@);
        }
        let toggl_id = u64_to_string(entry.toggl_time_entry.id);
        if !recorded(existing, &entry.work_package_id, &toggl_id) {
            out.push(entry);
            assert(extended_views(out@) =~= extended_views(before).push(entry@));
        }
    }
    assert(all.take(entries@.len() as int) =~= all);
    out
}

/// Once the issue tracker holds every entry that a reconciliation kept,
/// beside those it held before, reconciling the same entries again keeps
/// none.
pub proof fn lemma_reconcile_idempotent(
    entries: Seq<ExtendedTimeEntryView>,
    before: Seq<ExistingIdsView>,
    after: Seq<ExistingIdsView>,
)
    requires
        forall|e: ExtendedTimeEntryView|
            entries.contains(e) && is_submitted(before, e) ==> is_submitted(after, e),
        forall|e: ExtendedTimeEntryView|
            unsubmitted(entries, before).contains(e) ==> is_submitted(after, e),
    ensures
        unsubmitted(entries, after) == Seq::<ExtendedTimeEntryView>::empty(),
{
    let kept_before = |e: ExtendedTimeEntryView| !is_submitted(before, e);
    let kept_after = |e: ExtendedTimeEntryView| !is_submitted(after, e);
    let again = entries.filter(kept_after);
    if again.len() > 0 {
        let e = again[0];
        assert(again.contains(e));
        entries.lemma_filter_pred(kept_after, 0);
        entries.lemma_filter_contains_rev(kept_after, e);
        if kept_before(e) {
            let j = choose|j: int| 0 <= j < entries.len() && entries[j] == e;
            entries.lemma_filter_contains(kept_before, j);
            assert(unsubmitted(entries, before).contains(e));
        }
        assert(false);
    }
    assert(again =~= Seq::<ExtendedTimeEntryView>::empty());
}

/// What is kept of one work package is what reconciling that work
/// package's entries alone keeps, in the same order.
pub proof fn lemma_reconcile_by_group(
    entries: Seq<ExtendedTimeEntryView>,
    existing: Seq<ExistingIdsView>,
    work_package_id: Seq<char>,
)
    ensures
        group_of(unsubmitted(entries, existing), work_package_id) == unsubmitted(
            group_of(entries, work_package_id),
            existing,
        ),
    decreases entries.len(),
{
    reveal(Seq::filter);
    if entries.len() > 0 {
        let head = entries.drop_last();
        let last = entries.last();
        lemma_reconcile_by_group(head, existing, work_package_id);
        let kept = unsubmitted(head, existing);
        let group = group_of(head, work_package_id);
        assert(kept.push(last).drop_last() =~= kept);
        assert(group.push(last).drop_last() =~= group);
    }
}

/// An entry is kept if and only if its identifier is not held for its work
/// package; the kept entries are entries of the input.
pub proof fn lemma_unsubmitted_membership(
    entries: Seq<ExtendedTimeEntryView>,
    existing: Seq<ExistingIdsView>,
    e: ExtendedTimeEntryView,
)
    ensures
        unsubmitted(entries, existing).contains(e) <==> entries.contains(e) && !is_submitted(
            existing,
            e,
        ),
{
    let keep = |e: ExtendedTimeEntryView| !is_submitted(existing, e);
    if entries.contains(e) && keep(e) {
        let j = choose|j: int| 0 <= j < entries.len() && entries[j] == e;
        entries.lemma_filter_contains(keep, j);
    }
    if entries.filter(keep).contains(e) {
        let k = choose|k: int| 0 <= k < entries.filter(keep).len() && entries.filter(keep)[k] == e;
        entries.lemma_filter_pred(keep, k);
        entries.lemma_filter_contains_rev(keep, e);
    }
}

} // verus!
