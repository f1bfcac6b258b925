//! Tracked time entries, and the selection of those that are synchronised:
//! stopped, a minute long or longer, and tagged with a work package.

use vstd::prelude::*;
use vstd::string::*;
use crate::decimal::{i64_to_string, signed_decimal};
use crate::parser::{parse, parse_spec};

verus! {

/// The shortest duration, in seconds, that is synchronised.
pub const MINIMUM_DURATION: i64 = 60;

/// An instant with the offset of the time zone it was recorded in.
#[derive(Clone, Copy, Debug, PartialEq, Eq, Structural)]
pub struct Timestamp {
    /// Seconds since 1970-01-01T00:00:00Z, leap seconds not counted.
    pub seconds: i64,
    /// Nanoseconds within the second.
    pub nanos: u32,
    /// Seconds that local time is ahead of UTC.
    pub offset_seconds: i32,
}

impl Timestamp {
    /// The same instant with no offset from UTC.
    pub fn to_utc(&self) -> (r: Timestamp)
        ensures
            r == self.utc(),
    {
        Timestamp { seconds: self.seconds, nanos: self.nanos, offset_seconds: 0 }
    }

    /// The same instant with no offset from UTC.
    pub open spec fn utc(&self) -> Timestamp {
        Timestamp { seconds: self.seconds, nanos: self.nanos, offset_seconds: 0 }
    }
}

/// One tracked interval as the time tracker reports it.
#[derive(Clone, Debug, PartialEq, Eq)]
pub struct TimeEntry {
    /// Identifier of the entry, stable across fetches.
    pub id: u64,
    /// Free text; the tracker sends an empty text or nothing for an entry without one.
    pub description: Option<String>,
    /// Duration in seconds; negative while the entry is running.
    pub duration: i64,
    pub start: Timestamp,
    /// Absent while the entry is running.
    pub stop: Option<Timestamp>,
}

/// What a [`TimeEntry`] holds, as mathematical values.
pub struct TimeEntryView {
    pub id: u64,
    pub description: Option<Seq<char>>,
    pub duration: i64,
    pub start: Timestamp,
    pub stop: Option<Timestamp>,
}

impl View for TimeEntry {
    type V = TimeEntryView;

    open spec fn view(&self) -> TimeEntryView {
        TimeEntryView {
            id: self.id,
            description: match self.description {
                Some(d) => Some(d@),
                None => None,
            },
            duration: self.duration,
            start: self.start,
            stop: self.stop,
        }
    }
}

impl TimeEntryView {
    /// The description, empty where the tracker sent none.
    pub open spec fn description_text(&self) -> Seq<char> {
        match self.description {
            Some(d) => d,
            None => Seq::empty(),
        }
    }

    /// Whether the entry has stopped and lasted a minute or more.
    pub open spec fn is_eligible(&self) -> bool {
        self.stop is Some && self.duration >= MINIMUM_DURATION
    }

    /// The entry with what its description's tag says, where it is
    /// eligible and its description starts with a tag.
    pub open spec fn extended(&self) -> Option<ExtendedTimeEntryView> {
        if !self.is_eligible() {
            None
        } else {
            match parse_spec(self.description_text()) {
                Some((id, residual)) => Some(
                    ExtendedTimeEntryView {
                        toggl_time_entry: *self,
                        work_package_id: id,
                        description: residual,
                    },
                ),
                None => None,
            }
        }
    }
}

/// A [`TimeEntry`] with the work package and the description read from its tag.
#[derive(Clone, Debug, PartialEq, Eq)]
pub struct ExtendedTimeEntry {
    pub toggl_time_entry: TimeEntry,
    pub work_package_id: String,
    pub description: String,
}

/// What an [`ExtendedTimeEntry`] holds, as mathematical values.
pub struct ExtendedTimeEntryView {
    pub toggl_time_entry: TimeEntryView,
    pub work_package_id: Seq<char>,
    pub description: Seq<char>,
}

impl View for ExtendedTimeEntry {
    type V = ExtendedTimeEntryView;

    open spec fn view(&self) -> ExtendedTimeEntryView {
        ExtendedTimeEntryView {
            toggl_time_entry: self.toggl_time_entry@,
            work_package_id: self.work_package_id@,
            description: self.description@,
        }
    }
}

/// The views of a sequence of entries.
pub open spec fn time_entry_views(entries: Seq<TimeEntry>) -> Seq<TimeEntryView> {
    entries.map_values(|e: TimeEntry| e@)
}

/// The views of a sequence of extended entries.
pub open spec fn extended_views(entries: Seq<ExtendedTimeEntry>) -> Seq<ExtendedTimeEntryView> {
    entries.map_values(|e: ExtendedTimeEntry| e@)
}

/// The extended entries of those among `entries` that are eligible and
/// carry a tag, in the order of `entries`.
pub open spec fn extended_entries(entries: Seq<TimeEntryView>) -> Seq<ExtendedTimeEntryView>
    decreases entries.len(),
{
    if entries.len() == 0 {
        Seq::empty()
    } else {
        let before = extended_entries(entries.drop_last());
        match entries.last().extended() {
            Some(e) => before.push(e),
            None => before,
        }
    }
}

/// Every extended entry comes from an entry that has stopped and lasted a
/// minute or more, and carries that entry's tag.
pub proof fn lemma_extended_entries_are_eligible(entries: Seq<TimeEntryView>)
    ensures
        forall|i: int|
            0 <= i < extended_entries(entries).len() ==> {
                let e = #[trigger] extended_entries(entries)[i];
                &&& e.toggl_time_entry.is_eligible()
                &&& entries.contains(e.toggl_time_entry)
                &&& e.toggl_time_entry.extended() == Some(e)
            },
    decreases entries.len(),
{
    if entries.len() > 0 {
        let before = entries.drop_last();
        lemma_extended_entries_are_eligible(before);
        assert forall|i: int| 0 <= i < extended_entries(entries).len() implies {
            let e = #[trigger] extended_entries(entries)[i];
            &&& e.toggl_time_entry.is_eligible()
            &&& entries.contains(e.toggl_time_entry)
            &&& e.toggl_time_entry.extended() == Some(e)
        } by {
            let e = extended_entries(entries)[i];
            if i < extended_entries(before).len() {
                assert(e == extended_entries(before)[i]);
                let j = choose|j: int| 0 <= j < before.len() && before[j] == e.toggl_time_entry;
                assert(entries[j] == e.toggl_time_entry);
            } else {
                assert(entries[entries.len() - 1] == e.toggl_time_entry);
            }
        }
    }
}

impl TimeEntry {
    /// Whether the entry has stopped and lasted a minute or more.
    pub fn is_eligible(&self) -> (r: bool)
        ensures
            r == self@.is_eligible(),
    {
        self.stop.is_some() && self.duration >= MINIMUM_DURATION
    }

    /// Reads the entry's tag. Gives the extended entry where the entry
    /// is eligible and its description starts with a tag, else `None`.
    pub fn extend(self) -> (r: Option<ExtendedTimeEntry>)
        ensures
            match r {
                Some(e) => self@.extended() == Some(e@),
                None => self@.extended() is None,
            },
    {
        if !self.is_eligible() {
            return None;
        }
        let parsed = match &self.description {
            Some(d) => parse(d.as_str()),
            None => parse(""),
        };
        proof {
            reveal_strlit("");
            assert(""@ =~= Seq::<char>::empty());
        }
        match parsed {
            Some((work_package_id, description)) => Some(
                ExtendedTimeEntry { toggl_time_entry: self, work_package_id, description },
            ),
            None => None,
        }
    }
}

/// Drops the entries that are still running, those shorter than a minute
/// and those without a tag, and reads the tag of each of the others.
pub fn extend_entries(entries: Vec<TimeEntry>) -> (r: Vec<ExtendedTimeEntry>)
    ensures
        extended_views(r@) == extended_entries(time_entry_views(entries@)),
{
    let ghost all = time_entry_views(entries@);
    let mut out: Vec<ExtendedTimeEntry> = Vec::new();
    assert(extended_views(out@) =~= extended_entries(all.take(0)));
    for entry in it: entries.into_iter()
        invariant
            it.seq() == entries@,
            all == time_entry_views(entries@),
            extended_views(out@) == extended_entries(all.take(it.index() as int)),
    {
        let ghost i = it.index() as int;
        let ghost before = out@;
        assert(all.take(i + 1).drop_last() =~= all.take(i));
        assert(all.take(i + 1).last() == entry@);
        match entry.extend() {
            Some(e) => {
                out.push(e);
                assert(extended_views(out@) =~= extended_views(before).push(e@));
            },
            None => {},
        }
    }
    assert(all.take(entries@.len() as int) =~= all);
    out
}

/// Seconds in a day.
pub const SECONDS_PER_DAY: i64 = 86_400;

/// The standard base64 text, with padding, of the UTF-8 bytes of `text`, as
/// the base64 crate encodes them.
pub uninterp spec fn base64_standard(text: Seq<char>) -> Seq<char>;

/// Calls `Engine::encode` of the base64 crate on its `STANDARD` engine. The
/// result is the crate's encoding of the text's bytes. The call asks for a
/// buffer of four bytes for every three of the input, which fits for every
/// text that memory can hold.
#[verifier::external_body]
fn base64_encode(text: &str) -> (r: String)
    ensures
        r@ == base64_standard(text@),
{
    base64::Engine::encode(&base64::engine::general_purpose::STANDARD, text)
}

/// The credentials that the time tracker takes for `token`: the token as
/// user name and the fixed word `api_token` as password.
pub open spec fn credentials(token: Seq<char>) -> Seq<char> {
    token + ":api_token"@
}

/// The value of the authorization header for encoded credentials.
pub open spec fn basic_authorization(encoded: Seq<char>) -> Seq<char> {
    "Basic "@ + encoded
}

/// The value of the authorization header for credentials that are encoded already.
pub fn authorization_for(encoded: &str) -> (r: String)
    ensures
        r@ == basic_authorization(encoded@),
{
    String::from_str("Basic ").concat(encoded)
}

/// The value of the authorization header that the time tracker takes for `token`.
pub fn authorization_value(token: &str) -> (r: String)
    ensures
        r@ == basic_authorization(base64_standard(credentials(token@))),
{
    let plain = String::from_str(token).concat(":api_token");
    let encoded = base64_encode(plain.as_str());
    authorization_for(encoded.as_str())
}

/// The instant `days` days before `now`, both in seconds since the epoch;
/// `None` where it lies outside the range of `i64`.
pub open spec fn days_before(now: i64, days: i64) -> Option<i64> {
    let since = now - days * SECONDS_PER_DAY;
    if i64::MIN <= since <= i64::MAX {
        Some(since as i64)
    } else {
        None
    }
}

/// The instant `days` days before `now`, from which on entries are fetched.
pub fn since_timestamp(now: i64, days: i64) -> (r: Option<i64>)
    ensures
        r == days_before(now, days),
{
    let since: i128 = now as i128 - days as i128 * SECONDS_PER_DAY as i128;
    if since < i64::MIN as i128 || since > i64::MAX as i128 {
        None
    } else {
        Some(since as i64)
    }
}

/// The address at which the time tracker lists the entries since `since`.
pub open spec fn time_entries_address(since: i64) -> Seq<char> {
    "https://api.track.toggl.com/api/v9/me/time_entries?since="@ + signed_decimal(since as int)
}

/// The address at which the time tracker lists the entries since `since`.
pub fn time_entries_url(since: i64) -> (r: String)
    ensures
        r@ == time_entries_address(since),
{
    String::from_str("https://api.track.toggl.com/api/v9/me/time_entries?since=").concat(
        i64_to_string(since).as_str(),
    )
}

} // verus!
