//! What is posted to the issue tracker for one entry.

use vstd::prelude::*;
use vstd::string::*;
use crate::decimal::{decimal, i64_to_string, signed_decimal, u64_to_string};
use crate::toggl::{ExtendedTimeEntry, ExtendedTimeEntryView, Timestamp};

verus! {

/// The text that parts the tracker's identifier from the description in a comment.
pub open spec fn comment_separator() -> Seq<char> {
    seq![' ', '-', ' ']
}

/// The path of a work package.
pub open spec fn work_package_href(work_package_id: Seq<char>) -> Seq<char> {
    "/api/v3/work_packages/"@ + work_package_id
}

/// The path of an activity.
pub open spec fn activity_href(activity_id: Seq<char>) -> Seq<char> {
    "/api/v3/time_entries/activities/"@ + activity_id
}

/// The duration of `seconds` seconds in ISO 8601 form.
pub open spec fn duration_text(seconds: i64) -> Seq<char> {
    seq!['P', 'T'] + signed_decimal(seconds as int) + seq!['S']
}

/// The comment that marks a posted entry: the tracker's identifier, the
/// separator, and the description.
pub open spec fn comment_text(toggl_id: u64, description: Seq<char>) -> Seq<char> {
    decimal(toggl_id as nat) + comment_separator() + description
}

/// A reference to another resource of the issue tracker.
#[derive(Clone, Debug, PartialEq, Eq)]
pub struct Link {
    pub href: String,
}

/// The work package and the activity that a posted entry belongs to.
#[derive(Clone, Debug, PartialEq, Eq)]
pub struct Links {
    pub work_package: Link,
    pub activity: Link,
}

/// The comment of a posted entry.
#[derive(Clone, Debug, PartialEq, Eq)]
pub struct Comment {
    pub raw: String,
}

/// One entry as it is posted to the issue tracker.
#[derive(Clone, Debug, PartialEq, Eq)]
pub struct TimeEntryRequest {
    /// Links to work package and activity.
    pub links: Links,
    /// Time spent, as an ISO 8601 duration in seconds.
    pub hours: String,
    /// When the entry started, in UTC.
    pub start_time: Timestamp,
    /// Set to the start as well: the issue tracker takes the time spent from `hours`.
    pub stop_time: Timestamp,
    /// Tracker identifier and description.
    pub comment: Comment,
    /// The day on which the time was spent, as `YYYY-MM-DD`.
    pub spent_on: String,
}

/// What a [`TimeEntryRequest`] holds, as mathematical values.
pub struct TimeEntryRequestView {
    pub work_package_href: Seq<char>,
    pub activity_href: Seq<char>,
    pub hours: Seq<char>,
    pub start_time: Timestamp,
    pub stop_time: Timestamp,
    pub comment: Seq<char>,
    pub spent_on: Seq<char>,
}

impl View for TimeEntryRequest {
    type V = TimeEntryRequestView;

    open spec fn view(&self) -> TimeEntryRequestView {
        TimeEntryRequestView {
            work_package_href: self.links.work_package.href@,
            activity_href: self.links.activity.href@,
            hours: self.hours@,
            start_time: self.start_time,
            stop_time: self.stop_time,
            comment: self.comment.raw@,
            spent_on: self.spent_on@,
        }
    }
}

/// The request for `entry` under the activity `activity_id`, spent on the day `spent_on`.
pub open spec fn request_for(
    entry: ExtendedTimeEntryView,
    activity_id: Seq<char>,
    spent_on: Seq<char>,
) -> TimeEntryRequestView {
    TimeEntryRequestView {
        work_package_href: work_package_href(entry.work_package_id),
        activity_href: activity_href(activity_id),
        hours: duration_text(entry.toggl_time_entry.duration),
        start_time: entry.toggl_time_entry.start.utc(),
        stop_time: entry.toggl_time_entry.start.utc(),
        comment: comment_text(entry.toggl_time_entry.id, entry.description),
        spent_on,
    }
}

/// The calendar day, as `YYYY-MM-DD`, of the instant `seconds` and `nanos`
/// after the epoch in the zone `offset_seconds` ahead of UTC, as the chrono
/// crate formats it; `None` where chrono has no such instant or offset.
pub uninterp spec fn chrono_local_date(seconds: i64, nanos: u32, offset_seconds: i32) -> Option<
    Seq<char>,
>;

/// The largest distance from the epoch, in seconds, of an instant that
/// is taken for ordinary: some 253 000 years.
pub const ORDINARY_SECONDS: i64 = 8_000_000_000_000;

impl Timestamp {
    /// The local calendar day of the instant, as `YYYY-MM-DD`.
    pub open spec fn local_date(&self) -> Option<Seq<char>> {
        chrono_local_date(self.seconds, self.nanos, self.offset_seconds)
    }

    /// Whether the instant lies within some 253 000 years of the epoch,
    /// in no leap second, with an offset of less than a day.
    pub open spec fn ordinary(&self) -> bool {
        &&& -ORDINARY_SECONDS <= self.seconds <= ORDINARY_SECONDS
        &&& self.nanos < 1_000_000_000
        &&& -86_400 < self.offset_seconds < 86_400
    }

    /// Whether the instant is ordinary, and so has a calendar day.
    pub fn is_ordinary(&self) -> (r: bool)
        ensures
            r == self.ordinary(),
    {
        -ORDINARY_SECONDS <= self.seconds && self.seconds <= ORDINARY_SECONDS && self.nanos
            < 1_000_000_000 && -86_400 < self.offset_seconds && self.offset_seconds < 86_400
    }
}

/// Calls chrono's `DateTime::format` with `%Y-%m-%d` on the instant made by
/// `DateTime::from_timestamp` and moved to the zone made by
/// `FixedOffset::east_opt`. The result is chrono's text for these three
/// numbers, and `None` where either constructor refuses its argument.
/// Neither does for an ordinary instant: `from_timestamp` takes every day
/// from the year -262143 to the year 262142 and every nanosecond below a
/// thousand million, `east_opt` every offset of less than a day.
#[verifier::external_body]
fn format_local_date(seconds: i64, nanos: u32, offset_seconds: i32) -> (r: Option<String>)
    ensures
        match r {
            Some(text) => chrono_local_date(seconds, nanos, offset_seconds) == Some(text@),
            None => chrono_local_date(seconds, nanos, offset_seconds) is None,
        },
        (Timestamp { seconds, nanos, offset_seconds }).ordinary() ==> r is Some,
{
    let utc = chrono::DateTime::from_timestamp(seconds, nanos)?;
    let zone = chrono::FixedOffset::east_opt(offset_seconds)?;
    Some(utc.with_timezone(&zone).format("%Y-%m-%d").to_string())
}

/// The address under which the issue tracker at `host` offers its
/// interface, reached by the scheme `scheme`.
pub open spec fn base_address(scheme: Seq<char>, host: Seq<char>) -> Seq<char> {
    scheme + "://"@ + host + "/api/v3/"@
}

/// The address under which the issue tracker at `host` offers its interface.
pub fn base_url(scheme: &str, host: &str) -> (r: String)
    ensures
        r@ == base_address(scheme@, host@),
{
    String::from_str(scheme).concat("://").concat(host).concat("/api/v3/")
}

/// The address of `path` below the base address `base`.
pub fn endpoint_url(base: &str, path: &str) -> (r: String)
    ensures
        r@ == base@ + path@,
{
    String::from_str(base).concat(path)
}

impl Links {
    /// The links to the work package `wp_id` and the activity `activity_id`.
    pub fn from(wp_id: &str, activity_id: &str) -> (r: Self)
        ensures
            r.work_package.href@ == work_package_href(wp_id@),
            r.activity.href@ == activity_href(activity_id@),
    {
        Links {
            work_package: Link { href: String::from_str("/api/v3/work_packages/").concat(wp_id) },
            activity: Link {
                href: String::from_str("/api/v3/time_entries/activities/").concat(activity_id),
            },
        }
    }
}

impl Comment {
    /// A comment with the text `comment`.
    pub fn from(comment: String) -> (r: Self)
        ensures
            r.raw == comment,
    {
        Comment { raw: comment }
    }
}

impl TimeEntryRequest {
    /// The request for `entry` under the activity `activity_id`, spent on
    /// the day `spent_on`.
    pub fn on_day(entry: &ExtendedTimeEntry, activity_id: &str, spent_on: String) -> (r: Self)
        ensures
            r@ == request_for(entry@, activity_id@, spent_on@),
    {
        let links = Links::from(entry.work_package_id.as_str(), activity_id);
        let toggl_id = u64_to_string(entry.toggl_time_entry.id);
        proof {
            reveal_strlit("PT");
            reveal_strlit("S");
            reveal_strlit(" - ");
        }
        let mut hours = String::from_str("PT");
        hours.append(i64_to_string(entry.toggl_time_entry.duration).as_str());
        hours.append("S");
        let comment = toggl_id.concat(" - ").concat(entry.description.as_str());
        let r = TimeEntryRequest {
            links,
            hours,
            start_time: entry.toggl_time_entry.start.to_utc(),
            stop_time: entry.toggl_time_entry.start.to_utc(),
            comment: Comment::from(comment),
            spent_on,
        };
        assert(r.hours@ =~= duration_text(entry.toggl_time_entry.duration));
        assert(r.comment.raw@ =~= comment_text(entry.toggl_time_entry.id, entry.description@));
        r
    }

    /// The request for `entry` under the activity `activity_id`. The start
    /// of the entry must be an instant that has a calendar day, as every
    /// ordinary instant has.
    pub fn from(entry: &ExtendedTimeEntry, activity_id: &str) -> (r: Self)
        requires
            entry.toggl_time_entry.start.ordinary() || entry.toggl_time_entry.start.local_date()
                is Some,
        ensures
            entry.toggl_time_entry.start.local_date() is Some,
            r@ == request_for(
                entry@,
                activity_id@,
                entry.toggl_time_entry.start.local_date().unwrap(),
            ),
    {
        let start = entry.toggl_time_entry.start;
        match format_local_date(start.seconds, start.nanos, start.offset_seconds) {
            Some(spent_on) => TimeEntryRequest::on_day(entry, activity_id, spent_on),
            None => vstd::pervasive::unreached(),
        }
    }

    /// The request for `entry` under the activity `activity_id`, or `None`
    /// where the start of the entry has no calendar day.
    pub fn checked_from(entry: &ExtendedTimeEntry, activity_id: &str) -> (r: Option<Self>)
        ensures
            match r {
                Some(request) => {
                    &&& entry.toggl_time_entry.start.local_date() is Some
                    &&& request@ == request_for(
                        entry@,
                        activity_id@,
                        entry.toggl_time_entry.start.local_date().unwrap(),
                    )
                },
                None => entry.toggl_time_entry.start.local_date() is None,
            },
    {
        let start = entry.toggl_time_entry.start;
        match format_local_date(start.seconds, start.nanos, start.offset_seconds) {
            Some(_) => Some(TimeEntryRequest::from(entry, activity_id)),
            None => None,
        }
    }
}

} // verus!
