use toggl_openproject::toggl::{
    authorization_for, authorization_value, extend_entries, since_timestamp, time_entries_url,
    ExtendedTimeEntry, TimeEntry, Timestamp,
};

fn at(seconds: i64) -> Timestamp {
    Timestamp { seconds, nanos: 0, offset_seconds: 0 }
}

fn entry(id: u64, description: Option<&str>, duration: i64, stopped: bool) -> TimeEntry {
    TimeEntry {
        id,
        description: description.map(|d| d.to_string()),
        duration,
        start: at(1_704_103_200),
        stop: if stopped { Some(at(1_704_103_200 + duration)) } else { None },
    }
}

#[test]
fn running_entry_is_not_eligible() {
    assert!(!entry(1, Some("[OP#5] x"), -1, false).is_eligible());
    assert!(!entry(1, Some("[OP#5] x"), 3600, false).is_eligible());
}

#[test]
fn short_entry_is_not_eligible() {
    assert!(!entry(1, Some("[OP#5] x"), 59, true).is_eligible());
    assert!(!entry(1, Some("[OP#5] x"), 0, true).is_eligible());
    assert!(!entry(1, Some("[OP#5] x"), -5, true).is_eligible());
}

#[test]
fn a_minute_is_eligible() {
    assert!(entry(1, Some("[OP#5] x"), 60, true).is_eligible());
    assert!(entry(1, None, 61, true).is_eligible());
}

#[test]
fn extend_reads_the_tag() {
    let source = entry(999, Some("[op#5] Did work"), 1800, true);
    let extended = source.clone().extend().unwrap();
    assert_eq!(
        extended,
        ExtendedTimeEntry {
            toggl_time_entry: source,
            work_package_id: "5".to_string(),
            description: "Did work".to_string(),
        }
    );
}

#[test]
fn extend_drops_untagged_running_and_short_entries() {
    assert_eq!(entry(1, Some("no tag here"), 1800, true).extend(), None);
    assert_eq!(entry(1, Some(""), 1800, true).extend(), None);
    assert_eq!(entry(1, None, 1800, true).extend(), None);
    assert_eq!(entry(1, Some("[OP#5] x"), 1800, false).extend(), None);
    assert_eq!(entry(1, Some("[OP#5] x"), 59, true).extend(), None);
}

#[test]
fn extend_entries_keeps_order_and_drops_the_rest() {
    let entries = vec![
        entry(1, Some("[OP#5] first"), 60, true),
        entry(2, Some("untagged"), 600, true),
        entry(3, Some("[OP#6] running"), -1, false),
        entry(4, Some("[OP#6] second"), 120, true),
        entry(5, Some("[OP#5] short"), 10, true),
        entry(6, Some("[OP#5]"), 90, true),
    ];
    let extended = extend_entries(entries);
    let seen: Vec<(u64, &str, &str)> = extended
        .iter()
        .map(|e| (e.toggl_time_entry.id, e.work_package_id.as_str(), e.description.as_str()))
        .collect();
    assert_eq!(seen, vec![(1, "5", "first"), (4, "6", "second"), (6, "5", "")]);
    for e in &extended {
        assert!(e.toggl_time_entry.stop.is_some());
        assert!(e.toggl_time_entry.duration >= 60);
    }
}

#[test]
fn extend_entries_of_nothing() {
    assert_eq!(extend_entries(Vec::new()), Vec::new());
}

#[test]
fn to_utc_keeps_the_instant() {
    let t = Timestamp { seconds: 1_704_103_200, nanos: 5, offset_seconds: 3600 };
    assert_eq!(t.to_utc(), Timestamp { seconds: 1_704_103_200, nanos: 5, offset_seconds: 0 });
}

#[test]
fn authorization_value_encodes_token_and_password() {
    assert_eq!(authorization_value("abc"), "Basic YWJjOmFwaV90b2tlbg==");
    assert_eq!(authorization_value("t\u{e9}"), "Basic dMOpOmFwaV90b2tlbg==");
}

#[test]
fn authorization_for_encoded_credentials() {
    assert_eq!(authorization_for("YWJj"), "Basic YWJj");
    assert_eq!(authorization_for(""), "Basic ");
}

#[test]
fn since_timestamp_goes_back_whole_days() {
    assert_eq!(since_timestamp(1_704_103_200, 2), Some(1_704_103_200 - 172_800));
    assert_eq!(since_timestamp(1_704_103_200, 0), Some(1_704_103_200));
    assert_eq!(since_timestamp(0, 1), Some(-86_400));
    assert_eq!(since_timestamp(0, -1), Some(86_400));
}

#[test]
fn since_timestamp_out_of_range() {
    assert_eq!(since_timestamp(i64::MIN, 1), None);
    assert_eq!(since_timestamp(i64::MAX, -1), None);
    assert_eq!(since_timestamp(0, i64::MAX), None);
    assert_eq!(since_timestamp(i64::MIN + 86_400, 1), Some(i64::MIN));
    // The span alone does not fit, the instant does.
    let days = i64::MAX / 86_400 + 1;
    let now = 86_400;
    let wide = now as i128 - days as i128 * 86_400;
    assert!(wide >= i64::MIN as i128);
    assert_eq!(since_timestamp(now, days), Some(wide as i64));
}

#[test]
fn time_entries_url_names_the_instant() {
    assert_eq!(
        time_entries_url(1_703_930_400),
        "https://api.track.toggl.com/api/v9/me/time_entries?since=1703930400"
    );
    assert_eq!(
        time_entries_url(-5),
        "https://api.track.toggl.com/api/v9/me/time_entries?since=-5"
    );
}
