use toggl_openproject::lookup::get_existing_toggl_ids;
use toggl_openproject::sync::{build_requests, step, Action, Event, Outcome, Stage, LOOK_BACK_DAYS};
use toggl_openproject::toggl::{extend_entries, TimeEntry, Timestamp};

fn entry(id: u64, description: &str, duration: i64, stopped: bool) -> TimeEntry {
    let start = Timestamp { seconds: 1_704_103_200, nanos: 0, offset_seconds: 0 };
    TimeEntry {
        id,
        description: Some(description.to_string()),
        duration,
        start,
        stop: if stopped { Some(start) } else { None },
    }
}

fn strings(items: &[&str]) -> Vec<String> {
    items.iter().map(|s| s.to_string()).collect()
}

fn fetched(entries: Vec<TimeEntry>) -> (Stage, Action) {
    let (stage, action) = step(Stage::Idle, Event::Started, "1");
    assert!(matches!(stage, Stage::Fetching));
    assert!(matches!(action, Action::Fetch { days: 2 }));
    step(stage, Event::Fetched { entries }, "1")
}

#[test]
fn look_back_is_two_days() {
    assert_eq!(LOOK_BACK_DAYS, 2);
}

#[test]
fn one_new_entry_for_work_package_five() {
    let entries = vec![
        entry(999, "[OP#5] already there", 1800, true),
        entry(1000, "[OP#5] Did work", 1800, true),
        entry(1001, "no tag here", 1800, true),
    ];
    let (stage, action) = fetched(entries);
    assert!(matches!(&action, Action::LookUp { work_package_id } if work_package_id == "5"));
    let (stage, action) = step(stage, Event::LookedUp { toggl_ids: strings(&["999"]) }, "1");
    assert!(matches!(action, Action::Confirm { count: 1 }));
    match &stage {
        Stage::Confirming { requests } => {
            assert_eq!(requests.len(), 1);
            assert_eq!(requests[0].links.work_package.href, "/api/v3/work_packages/5");
            assert_eq!(requests[0].comment.raw, "1000 - Did work");
            assert_eq!(requests[0].hours, "PT1800S");
            assert_eq!(requests[0].spent_on, "2024-01-01");
        }
        other => panic!("not confirming: {:?}", other),
    }
    let (stage, action) = step(stage, Event::Answered { yes: true }, "1");
    assert!(matches!(&stage, Stage::Submitting { queue } if queue.is_empty()));
    assert!(matches!(&action, Action::Post { request } if request.comment.raw == "1000 - Did work"));
    let (stage, action) = step(stage, Event::Posted, "1");
    assert!(matches!(stage, Stage::Finished { outcome: Outcome::Submitted }));
    assert!(matches!(action, Action::Stop { outcome: Outcome::Submitted }));
}

#[test]
fn every_work_package_is_looked_up_once() {
    let entries = vec![
        entry(1, "[OP#5] a", 60, true),
        entry(2, "[OP#6] b", 60, true),
        entry(3, "[OP#5] c", 60, true),
        entry(4, "[OP#7] d", 60, true),
    ];
    let (stage, action) = fetched(entries);
    assert!(matches!(&action, Action::LookUp { work_package_id } if work_package_id == "5"));
    let (stage, action) = step(stage, Event::LookedUp { toggl_ids: strings(&["4", "2"]) }, "9");
    assert!(matches!(&action, Action::LookUp { work_package_id } if work_package_id == "6"));
    let (stage, action) = step(stage, Event::LookedUp { toggl_ids: strings(&["2"]) }, "9");
    assert!(matches!(&action, Action::LookUp { work_package_id } if work_package_id == "7"));
    let (stage, action) = step(stage, Event::LookedUp { toggl_ids: Vec::new() }, "9");
    assert!(matches!(action, Action::Confirm { count: 3 }));
    let (stage, action) = step(stage, Event::Answered { yes: true }, "9");
    assert!(matches!(&action, Action::Post { request } if request.comment.raw == "1 - a"
        && request.links.activity.href == "/api/v3/time_entries/activities/9"));
    let (stage, action) = step(stage, Event::Posted, "9");
    assert!(matches!(&action, Action::Post { request } if request.comment.raw == "3 - c"));
    let (stage, action) = step(stage, Event::Posted, "9");
    assert!(matches!(&action, Action::Post { request } if request.comment.raw == "4 - d"));
    let (stage, action) = step(stage, Event::Posted, "9");
    assert!(matches!(stage, Stage::Finished { outcome: Outcome::Submitted }));
    assert!(matches!(action, Action::Stop { outcome: Outcome::Submitted }));
}

#[test]
fn nothing_tagged_is_nothing_to_do() {
    let (stage, action) = fetched(vec![entry(1, "no tag here", 600, true)]);
    assert!(matches!(stage, Stage::Finished { outcome: Outcome::NothingToDo }));
    assert!(matches!(action, Action::Stop { outcome: Outcome::NothingToDo }));
    let (stage, _) = fetched(Vec::new());
    assert!(matches!(stage, Stage::Finished { outcome: Outcome::NothingToDo }));
}

#[test]
fn running_and_short_entries_are_never_posted() {
    let entries = vec![
        entry(1, "[OP#5] running", -1_700_000_000, false),
        entry(2, "[OP#5] short", 59, true),
        entry(3, "[OP#5] long but running", 600, false),
    ];
    let (stage, action) = fetched(entries);
    assert!(matches!(stage, Stage::Finished { outcome: Outcome::NothingToDo }));
    assert!(matches!(action, Action::Stop { outcome: Outcome::NothingToDo }));
}

#[test]
fn everything_submitted_is_nothing_to_do() {
    let (stage, _) = fetched(vec![entry(1, "[OP#5] a", 60, true), entry(2, "[OP#5] b", 60, true)]);
    let (stage, action) = step(stage, Event::LookedUp { toggl_ids: strings(&["2", "1"]) }, "1");
    assert!(matches!(stage, Stage::Finished { outcome: Outcome::NothingToDo }));
    assert!(matches!(action, Action::Stop { outcome: Outcome::NothingToDo }));
}

#[test]
fn declined_run_posts_nothing() {
    let (stage, _) = fetched(vec![entry(1, "[OP#5] a", 60, true)]);
    let (stage, _) = step(stage, Event::LookedUp { toggl_ids: Vec::new() }, "1");
    let (stage, action) = step(stage, Event::Answered { yes: false }, "1");
    assert!(matches!(stage, Stage::Finished { outcome: Outcome::Declined }));
    assert!(matches!(action, Action::Stop { outcome: Outcome::Declined }));
}

#[test]
fn failed_lookup_stops_the_run() {
    let (stage, _) = fetched(vec![entry(1, "[OP#5] a", 60, true), entry(2, "[OP#6] b", 60, true)]);
    let (stage, _) = step(stage, Event::LookedUp { toggl_ids: Vec::new() }, "1");
    let (stage, action) = step(stage, Event::Failed, "1");
    assert!(matches!(stage, Stage::Finished { outcome: Outcome::Failed }));
    assert!(matches!(action, Action::Stop { outcome: Outcome::Failed }));
}

#[test]
fn failed_fetch_and_failed_post_stop_the_run() {
    let (stage, _) = step(Stage::Idle, Event::Started, "1");
    let (stage, action) = step(stage, Event::Failed, "1");
    assert!(matches!(stage, Stage::Finished { outcome: Outcome::Failed }));
    assert!(matches!(action, Action::Stop { outcome: Outcome::Failed }));

    let (stage, _) = fetched(vec![entry(1, "[OP#5] a", 60, true), entry(2, "[OP#5] b", 60, true)]);
    let (stage, _) = step(stage, Event::LookedUp { toggl_ids: Vec::new() }, "1");
    let (stage, _) = step(stage, Event::Answered { yes: true }, "1");
    let (stage, action) = step(stage, Event::Failed, "1");
    assert!(matches!(stage, Stage::Finished { outcome: Outcome::Failed }));
    assert!(matches!(action, Action::Stop { outcome: Outcome::Failed }));
}

#[test]
fn event_out_of_turn_stops_the_run() {
    let (stage, action) = step(Stage::Idle, Event::Posted, "1");
    assert!(matches!(stage, Stage::Finished { outcome: Outcome::Failed }));
    assert!(matches!(action, Action::Stop { outcome: Outcome::Failed }));
    let (stage, _) = step(Stage::Fetching, Event::Answered { yes: true }, "1");
    assert!(matches!(stage, Stage::Finished { outcome: Outcome::Failed }));
    let stage = Stage::LookingUp { entries: Vec::new(), pending: Vec::new(), found: Vec::new() };
    let (stage, _) = step(stage, Event::LookedUp { toggl_ids: Vec::new() }, "1");
    assert!(matches!(stage, Stage::Finished { outcome: Outcome::Failed }));
}

#[test]
fn finished_run_stays_finished() {
    let stage = Stage::Finished { outcome: Outcome::Declined };
    let (stage, action) = step(stage, Event::Started, "1");
    assert!(matches!(stage, Stage::Finished { outcome: Outcome::Declined }));
    assert!(matches!(action, Action::Stop { outcome: Outcome::Declined }));
}

#[test]
fn entry_without_a_calendar_day_fails_the_run() {
    let mut odd = entry(1, "[OP#5] a", 60, true);
    odd.start = Timestamp { seconds: i64::MAX, nanos: 0, offset_seconds: 0 };
    let (stage, _) = fetched(vec![odd.clone()]);
    let (stage, action) = step(stage, Event::LookedUp { toggl_ids: Vec::new() }, "1");
    assert!(matches!(stage, Stage::Finished { outcome: Outcome::Failed }));
    assert!(matches!(action, Action::Stop { outcome: Outcome::Failed }));
    assert_eq!(build_requests(&extend_entries(vec![entry(2, "[OP#5] b", 60, true), odd]), "1"), None);
}

#[test]
fn build_requests_one_for_each_entry() {
    let extended = extend_entries(vec![entry(1, "[OP#5] a", 60, true), entry(2, "[OP#6] b", 61, true)]);
    let requests = build_requests(&extended, "3").unwrap();
    assert_eq!(requests.len(), 2);
    assert_eq!(requests[0].comment.raw, "1 - a");
    assert_eq!(requests[1].comment.raw, "2 - b");
    assert_eq!(requests[1].hours, "PT61S");
    assert_eq!(requests[1].links.work_package.href, "/api/v3/work_packages/6");
    assert_eq!(build_requests(&Vec::new(), "3"), Some(Vec::new()));
}

#[test]
fn exit_codes() {
    assert_eq!(Outcome::NothingToDo.exit_code(), 0);
    assert_eq!(Outcome::Submitted.exit_code(), 0);
    assert_eq!(Outcome::Declined.exit_code(), 1);
    assert_eq!(Outcome::Failed.exit_code(), 2);
}

/// Runs once against a sink that answers with `comments` for every work
/// package, and hands back the comments that were posted.
fn run(entries: Vec<TimeEntry>, sink: &[(String, String)]) -> (Outcome, Vec<(String, String)>) {
    let mut posted = Vec::new();
    let mut asked = String::new();
    let (mut stage, mut action) = step(Stage::Idle, Event::Started, "1");
    loop {
        let event = match action {
            Action::Fetch { .. } => Event::Fetched { entries: entries.clone() },
            Action::LookUp { work_package_id } => {
                let elements: Vec<String> = sink
                    .iter()
                    .filter(|(wp, _)| *wp == work_package_id)
                    .map(|(_, comment)| format!("{{\"comment\":{{\"raw\":{:?}}}}}", comment))
                    .collect();
                let body = format!("{{\"_embedded\":{{\"elements\":[{}]}}}}", elements.join(","));
                asked = work_package_id;
                Event::LookedUp { toggl_ids: get_existing_toggl_ids(&body).unwrap() }
            }
            Action::Confirm { .. } => Event::Answered { yes: true },
            Action::Post { request } => {
                let wp = request.links.work_package.href.rsplit('/').next().unwrap().to_string();
                posted.push((wp, request.comment.raw));
                Event::Posted
            }
            Action::Stop { outcome } => {
                assert!(!asked.is_empty() || posted.is_empty());
                return (outcome, posted);
            }
        };
        let next = step(stage, event, "1");
        stage = next.0;
        action = next.1;
    }
}

#[test]
fn second_run_posts_nothing() {
    let entries = vec![
        entry(999, "[OP#5] already there", 1800, true),
        entry(1000, "[OP#5]\tDid work - really", 1800, true),
        entry(1001, "no tag here", 1800, true),
        entry(1002, "[op#6] other", 60, true),
        entry(1003, "[OP#6] running", -1, false),
    ];
    let mut sink = vec![("5".to_string(), "999 - already there".to_string())];
    let (outcome, posted) = run(entries.clone(), &sink);
    assert_eq!(outcome, Outcome::Submitted);
    assert_eq!(
        posted,
        vec![
            ("5".to_string(), "1000 - Did work - really".to_string()),
            ("6".to_string(), "1002 - other".to_string()),
        ]
    );
    sink.extend(posted);
    let (outcome, posted) = run(entries, &sink);
    assert_eq!(outcome, Outcome::NothingToDo);
    assert_eq!(posted, Vec::new());
}
