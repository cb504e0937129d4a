use work_recorder::activity::{ActivityMonitor, WindowInfo};
use work_recorder::timestamp::Timestamp;

fn at(second: u8) -> Timestamp {
    Timestamp::new(2024, 5, 1, 9, 0, second, 0).unwrap()
}

fn window(app: &str, title: &str) -> Option<WindowInfo> {
    Some(WindowInfo { app_name: String::from(app), title: String::from(title) })
}

#[test]
fn four_ticks_give_two_closed_segments() {
    let mut monitor = ActivityMonitor::with_blocklist(
        String::from("log"),
        vec![String::from("appb")],
        vec![],
    );
    let mut closed = Vec::new();
    let ticks = [("AppA", "TitleX", true), ("AppA", "TitleX", true), ("AppB", "TitleY", false), (
        "AppB",
        "TitleY",
        false,
    )];
    for (i, (app, title, permitted)) in ticks.iter().enumerate() {
        let verdict = monitor.check_activity(at(i as u8 + 1), window(app, title));
        assert_eq!(verdict.permitted, *permitted);
        if let Some(segment) = verdict.closed {
            closed.push(segment);
        }
    }
    if let Some(segment) = monitor.flush() {
        closed.push(segment);
    }
    assert_eq!(closed.len(), 2);
    assert_eq!(closed[0].app_name, "AppA");
    assert_eq!(closed[0].window_title, "TitleX");
    assert!(closed[0].is_captured);
    assert_eq!(closed[0].start_time, at(1));
    assert_eq!(closed[0].end_time, at(3));
    assert_eq!(closed[1].app_name, "AppB");
    assert_eq!(closed[1].window_title, "TitleY");
    assert!(!closed[1].is_captured);
    assert_eq!(closed[1].start_time, at(3));
    assert_eq!(closed[1].end_time, at(4));
}

#[test]
fn first_check_opens_a_segment_and_closes_none() {
    let mut monitor = ActivityMonitor::new(String::from("log"));
    let verdict = monitor.check_activity(at(1), window("Code", "main.rs"));
    assert!(verdict.permitted);
    assert!(verdict.closed.is_none());
    let open = monitor.current_log().as_ref().unwrap();
    assert_eq!(open.start_time, at(1));
    assert_eq!(open.end_time, at(1));
    assert_eq!(open.app_name, "Code");
    assert_eq!(open.window_title, "main.rs");
    assert!(open.is_captured);
}

#[test]
fn same_window_extends_the_open_segment() {
    let mut monitor = ActivityMonitor::new(String::from("log"));
    monitor.check_activity(at(1), window("Code", "main.rs"));
    let verdict = monitor.check_activity(at(7), window("Code", "main.rs"));
    assert!(verdict.permitted);
    assert!(verdict.closed.is_none());
    let open = monitor.current_log().as_ref().unwrap();
    assert_eq!(open.start_time, at(1));
    assert_eq!(open.end_time, at(7));
}

#[test]
fn changed_title_closes_the_segment() {
    let mut monitor = ActivityMonitor::new(String::from("log"));
    monitor.check_activity(at(1), window("Code", "main.rs"));
    let verdict = monitor.check_activity(at(2), window("Code", "lib.rs"));
    let closed = verdict.closed.unwrap();
    assert_eq!(closed.window_title, "main.rs");
    assert_eq!(closed.end_time, at(2));
    assert_eq!(monitor.current_log().as_ref().unwrap().window_title, "lib.rs");
}

#[test]
fn blocked_window_is_logged_as_not_captured() {
    let mut monitor = ActivityMonitor::new(String::from("log"));
    let verdict = monitor.check_activity(at(1), window("Spotify", "Song"));
    assert!(!verdict.permitted);
    assert!(!monitor.current_log().as_ref().unwrap().is_captured);
}

#[test]
fn failed_query_permits_capture_and_leaves_segments_alone() {
    let mut monitor = ActivityMonitor::new(String::from("log"));
    let verdict = monitor.check_activity(at(1), None);
    assert!(verdict.permitted);
    assert!(verdict.closed.is_none());
    assert!(monitor.current_log().is_none());

    monitor.check_activity(at(2), window("Spotify", "Song"));
    let verdict = monitor.check_activity(at(3), None);
    assert!(verdict.permitted);
    assert!(verdict.closed.is_none());
    let open = monitor.current_log().as_ref().unwrap();
    assert_eq!(open.app_name, "Spotify");
    assert_eq!(open.end_time, at(2));
}

#[test]
fn flush_closes_once() {
    let mut monitor = ActivityMonitor::new(String::from("log"));
    assert!(monitor.flush().is_none());
    monitor.check_activity(at(1), window("Code", "main.rs"));
    monitor.check_activity(at(5), window("Code", "main.rs"));
    let closed = monitor.flush().unwrap();
    assert_eq!(closed.start_time, at(1));
    assert_eq!(closed.end_time, at(5));
    assert!(monitor.current_log().is_none());
    assert!(monitor.flush().is_none());
}

#[test]
fn a_clock_that_ran_back_never_ends_a_segment_before_its_start() {
    let mut monitor = ActivityMonitor::new(String::from("log"));
    monitor.check_activity(at(30), window("Code", "main.rs"));
    monitor.check_activity(at(10), window("Code", "main.rs"));
    let open = monitor.current_log().as_ref().unwrap();
    assert_eq!(open.start_time, at(30));
    assert_eq!(open.end_time, at(30));
    let verdict = monitor.check_activity(at(20), window("Term", "sh"));
    let closed = verdict.closed.unwrap();
    assert_eq!(closed.start_time, at(30));
    assert_eq!(closed.end_time, at(30));
    assert_eq!(monitor.current_log().as_ref().unwrap().start_time, at(20));
}
