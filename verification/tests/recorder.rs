use work_recorder::activity::WindowInfo;
use work_recorder::capture::{
    Action, Phase, Recorder, RecorderError, RecorderState, Stage, StopReason,
};
use work_recorder::diff::{MaxAverageFrame, Scores};
use work_recorder::frame::Frame;
use work_recorder::timestamp::Timestamp;

const SECOND: u64 = 1_000_000_000;

fn at(second: u8) -> Timestamp {
    Timestamp::new(2024, 5, 1, 9, 0, second, 0).unwrap()
}

fn window(app: &str, title: &str) -> Option<WindowInfo> {
    Some(WindowInfo { app_name: String::from(app), title: String::from(title) })
}

fn frame(shade: u8) -> Frame {
    Frame { width: 4, height: 2, rgba: vec![shade; 32] }
}

fn same() -> Option<Scores> {
    Some(Scores { histogram: 0, structure: 1_000_000 })
}

fn changed() -> Option<Scores> {
    Some(Scores { histogram: 300_000, structure: 700_000 })
}

fn running() -> Recorder {
    let mut recorder = Recorder::new(3, String::from("/out"), SECOND);
    assert_eq!(recorder.start(0, String::from("/out/log.jsonl")).action, Action::PollStop);
    recorder
}

/// Takes a running recorder from a tick boundary to the point where it waits for a frame.
fn to_capture(recorder: &mut Recorder, second: u8) {
    assert_eq!(recorder.on_poll(false).action, Action::ObserveActivity);
    assert_eq!(recorder.on_activity(at(second), window("Code", "main.rs")).action, Action::Capture);
}

/// Ends the tick at `now` and gives the sleep that was asked for.
fn end_tick(recorder: &mut Recorder, now: u64) -> u64 {
    match recorder.on_clock(now).action {
        Action::Sleep(wait) => wait,
        other => panic!("unexpected {:?}", other),
    }
}

#[test]
fn new_recorder_is_idle() {
    let recorder = Recorder::new(3, String::from("/out"), 2 * SECOND);
    assert_eq!(recorder.state(), RecorderState::Idle);
    assert_eq!(recorder.monitor_id(), 3);
    assert_eq!(recorder.output_dir(), "/out");
    assert_eq!(recorder.interval(), 2 * SECOND);
    assert_eq!(recorder.frame_counter(), 0);
    assert_eq!(recorder.forwarded(), 0);
    assert!(recorder.previous_image().is_none());
    assert!(recorder.activity_monitor().is_none());
}

#[test]
fn start_makes_the_recorder_run_once() {
    let mut recorder = Recorder::new(3, String::from("/out"), SECOND);
    let step = recorder.start(5, String::from("/out/log.jsonl"));
    assert_eq!(step.action, Action::PollStop);
    assert_eq!(recorder.state(), RecorderState::Running);
    assert_eq!(recorder.stage(), Stage::Boundary);
    assert_eq!(
        recorder.activity_monitor().as_ref().unwrap().log_file_path(),
        "/out/log.jsonl"
    );
    assert_eq!(recorder.start(9, String::from("other")).action, Action::Ignored);
    assert_eq!(
        recorder.activity_monitor().as_ref().unwrap().log_file_path(),
        "/out/log.jsonl"
    );
}

#[test]
fn first_frame_is_written_without_measuring() {
    let mut recorder = running();
    to_capture(&mut recorder, 1);
    let step = recorder.on_capture(Some(frame(10)));
    assert_eq!(step.action, Action::Write);
    assert_eq!(recorder.stage(), Stage::Writing);
    let payload = recorder.payload().as_ref().unwrap();
    assert_eq!(&payload[1..4], b"PNG");
    assert_eq!(recorder.on_write(true).action, Action::ReadClock);
    assert_eq!(recorder.frame_counter(), 1);
    assert_eq!(recorder.forwarded(), 1);
    assert_eq!(recorder.previous_image().as_ref().unwrap().rgba, vec![10u8; 32]);
    assert!(recorder.pending_image().is_none());
    assert!(recorder.payload().is_none());
}

#[test]
fn run_of_identical_frames_forwards_only_the_first() {
    let mut recorder = running();
    let mut now = 0;
    for tick in 0..5u8 {
        to_capture(&mut recorder, tick);
        let step = recorder.on_capture(Some(frame(10)));
        if tick == 0 {
            assert_eq!(step.action, Action::Write);
            assert_eq!(recorder.on_write(true).action, Action::ReadClock);
        } else {
            assert_eq!(step.action, Action::Measure);
            assert_eq!(recorder.on_measure(same()).action, Action::ReadClock);
        }
        now += SECOND / 10;
        end_tick(&mut recorder, now);
        now += SECOND;
    }
    assert_eq!(recorder.frame_counter(), 5);
    assert_eq!(recorder.forwarded(), 1);
}

#[test]
fn changed_frame_is_written_and_becomes_the_last_kept() {
    let mut recorder = running();
    to_capture(&mut recorder, 1);
    recorder.on_capture(Some(frame(10)));
    recorder.on_write(true);
    end_tick(&mut recorder, 1);
    to_capture(&mut recorder, 2);
    assert_eq!(recorder.on_capture(Some(frame(200))).action, Action::Measure);
    assert_eq!(recorder.pending_image().as_ref().unwrap().rgba, vec![200u8; 32]);
    assert_eq!(recorder.previous_image().as_ref().unwrap().rgba, vec![10u8; 32]);
    assert_eq!(recorder.on_measure(changed()).action, Action::Write);
    assert_eq!(recorder.previous_image().as_ref().unwrap().rgba, vec![10u8; 32]);
    assert_eq!(recorder.on_write(true).action, Action::ReadClock);
    assert_eq!(recorder.previous_image().as_ref().unwrap().rgba, vec![200u8; 32]);
    assert_eq!(recorder.frame_counter(), 2);
    assert_eq!(recorder.forwarded(), 2);
    assert_eq!(
        recorder.max_average(),
        Some(MaxAverageFrame { frame_number: 1, average: 300_000 })
    );
}

#[test]
fn frame_of_another_size_is_written() {
    let mut recorder = running();
    to_capture(&mut recorder, 1);
    recorder.on_capture(Some(frame(10)));
    recorder.on_write(true);
    end_tick(&mut recorder, 1);
    to_capture(&mut recorder, 2);
    recorder.on_capture(Some(Frame { width: 2, height: 2, rgba: vec![10; 16] }));
    assert_eq!(recorder.on_measure(same()).action, Action::Write);
}

#[test]
fn frame_without_scores_is_written() {
    let mut recorder = running();
    to_capture(&mut recorder, 1);
    recorder.on_capture(Some(frame(10)));
    recorder.on_write(true);
    end_tick(&mut recorder, 1);
    to_capture(&mut recorder, 2);
    recorder.on_capture(Some(frame(10)));
    assert_eq!(recorder.on_measure(None).action, Action::Write);
    assert_eq!(recorder.max_average(), None);
}

#[test]
fn dropped_frame_leaves_the_last_kept_one() {
    let mut recorder = running();
    to_capture(&mut recorder, 1);
    recorder.on_capture(Some(frame(10)));
    recorder.on_write(true);
    end_tick(&mut recorder, 1);
    to_capture(&mut recorder, 2);
    recorder.on_capture(Some(frame(11)));
    let barely = Some(Scores { histogram: 11_999, structure: 1_000_000 });
    assert_eq!(recorder.on_measure(barely).action, Action::ReadClock);
    assert_eq!(recorder.previous_image().as_ref().unwrap().rgba, vec![10u8; 32]);
    assert!(recorder.pending_image().is_none());
    assert_eq!(recorder.frame_counter(), 2);
    assert_eq!(recorder.forwarded(), 1);
    assert_eq!(
        recorder.max_average(),
        Some(MaxAverageFrame { frame_number: 1, average: 5_999 })
    );
    end_tick(&mut recorder, 2);
    to_capture(&mut recorder, 3);
    recorder.on_capture(Some(frame(12)));
    let just = Some(Scores { histogram: 12_000, structure: 1_000_000 });
    assert_eq!(recorder.on_measure(just).action, Action::Write);
}

#[test]
fn blocked_tick_captures_nothing_but_keeps_time() {
    let mut recorder = running();
    assert_eq!(recorder.on_poll(false).action, Action::ObserveActivity);
    let step = recorder.on_activity(at(1), window("Spotify", "Song"));
    assert_eq!(step.action, Action::ReadClock);
    assert!(step.persist.is_none());
    assert_eq!(end_tick(&mut recorder, SECOND / 4), 3 * SECOND / 4);
    assert_eq!(recorder.frame_counter(), 0);
    assert_eq!(recorder.stage(), Stage::Boundary);
}

#[test]
fn closed_segments_are_handed_over_for_the_log() {
    let mut recorder = running();
    recorder.on_poll(false);
    assert!(recorder.on_activity(at(1), window("Code", "main.rs")).persist.is_none());
    recorder.on_capture(None);
    end_tick(&mut recorder, 1);
    recorder.on_poll(false);
    let step = recorder.on_activity(at(2), window("Spotify", "Song"));
    let closed = step.persist.unwrap();
    assert_eq!(closed.app_name, "Code");
    assert!(closed.is_captured);
    assert_eq!(closed.start_time, at(1));
    assert_eq!(closed.end_time, at(2));
    end_tick(&mut recorder, 2);
    let step = recorder.on_poll(true);
    assert_eq!(step.action, Action::Finish(StopReason::Cancelled));
    let last = step.persist.unwrap();
    assert_eq!(last.app_name, "Spotify");
    assert!(!last.is_captured);
    assert_eq!(last.start_time, at(2));
    assert_eq!(last.end_time, at(2));
}

#[test]
fn failed_window_query_permits_capture() {
    let mut recorder = running();
    recorder.on_poll(false);
    let step = recorder.on_activity(at(1), None);
    assert_eq!(step.action, Action::Capture);
    assert!(step.persist.is_none());
}

#[test]
fn failed_capture_skips_the_tick() {
    let mut recorder = running();
    to_capture(&mut recorder, 1);
    assert_eq!(recorder.on_capture(None).action, Action::ReadClock);
    assert_eq!(recorder.frame_counter(), 0);
    assert_eq!(recorder.state(), RecorderState::Running);
    end_tick(&mut recorder, 1);
    to_capture(&mut recorder, 2);
    assert_eq!(recorder.on_capture(Some(frame(1))).action, Action::Write);
}

#[test]
fn write_is_retried_twice_after_a_tenth_of_a_second() {
    let mut recorder = running();
    to_capture(&mut recorder, 1);
    recorder.on_capture(Some(frame(10)));
    assert_eq!(recorder.on_write(false).action, Action::Backoff(100));
    assert_eq!(recorder.on_backoff().action, Action::Write);
    assert_eq!(recorder.on_write(false).action, Action::Backoff(100));
    assert_eq!(recorder.on_backoff().action, Action::Write);
    assert_eq!(recorder.on_write(true).action, Action::ReadClock);
    assert_eq!(recorder.forwarded(), 1);
    assert_eq!(recorder.state(), RecorderState::Running);
}

#[test]
fn third_failed_write_ends_the_session() {
    let mut recorder = running();
    to_capture(&mut recorder, 1);
    recorder.on_capture(Some(frame(10)));
    recorder.on_write(false);
    recorder.on_backoff();
    recorder.on_write(false);
    recorder.on_backoff();
    let step = recorder.on_write(false);
    assert_eq!(
        step.action,
        Action::Finish(StopReason::Fatal(RecorderError { monitor_id: 3, phase: Phase::Encode }))
    );
    let closed = step.persist.unwrap();
    assert_eq!(closed.app_name, "Code");
    assert_eq!(recorder.state(), RecorderState::Stopping);
    assert_eq!(recorder.forwarded(), 0);
    assert!(recorder.previous_image().is_none());
    assert_eq!(recorder.on_write(true).action, Action::Ignored);
    assert_eq!(recorder.on_backoff().action, Action::Ignored);
    assert_eq!(recorder.on_poll(false).action, Action::Ignored);
    assert_eq!(recorder.on_exit().action, Action::Done);
    assert_eq!(recorder.state(), RecorderState::Stopped);
}

#[test]
fn frame_that_cannot_be_encoded_is_fatal_after_three_attempts() {
    let mut recorder = running();
    to_capture(&mut recorder, 1);
    let broken = Frame { width: 4, height: 2, rgba: vec![0; 31] };
    assert_eq!(recorder.on_capture(Some(broken)).action, Action::Backoff(100));
    assert!(recorder.payload().is_none());
    assert_eq!(recorder.on_backoff().action, Action::Backoff(100));
    let step = recorder.on_backoff();
    assert_eq!(
        step.action,
        Action::Finish(StopReason::Fatal(RecorderError { monitor_id: 3, phase: Phase::Encode }))
    );
    assert_eq!(recorder.state(), RecorderState::Stopping);
}

#[test]
fn cancellation_is_seen_at_the_tick_boundary_only() {
    let mut recorder = running();
    to_capture(&mut recorder, 1);
    assert_eq!(recorder.on_poll(true).action, Action::Ignored);
    assert_eq!(recorder.state(), RecorderState::Running);
    recorder.on_capture(Some(frame(1)));
    recorder.on_write(true);
    end_tick(&mut recorder, 1);
    let step = recorder.on_poll(true);
    assert_eq!(step.action, Action::Finish(StopReason::Cancelled));
    assert_eq!(recorder.state(), RecorderState::Stopping);
    assert!(recorder.activity_monitor().as_ref().unwrap().current_log().is_none());
}

#[test]
fn stopped_recorder_answers_nothing() {
    let mut recorder = running();
    recorder.on_poll(true);
    assert_eq!(recorder.on_exit().action, Action::Done);
    assert_eq!(recorder.state(), RecorderState::Stopped);
    assert_eq!(recorder.start(0, String::from("x")).action, Action::Ignored);
    assert_eq!(recorder.on_poll(false).action, Action::Ignored);
    assert_eq!(recorder.on_activity(at(1), None).action, Action::Ignored);
    assert_eq!(recorder.on_capture(Some(frame(1))).action, Action::Ignored);
    assert_eq!(recorder.on_measure(changed()).action, Action::Ignored);
    assert_eq!(recorder.on_write(true).action, Action::Ignored);
    assert_eq!(recorder.on_backoff().action, Action::Ignored);
    assert_eq!(recorder.on_clock(5).action, Action::Ignored);
    assert_eq!(recorder.on_exit().action, Action::Ignored);
    assert_eq!(recorder.state(), RecorderState::Stopped);
    assert_eq!(recorder.frame_counter(), 0);
}

#[test]
fn idle_recorder_ignores_everything_but_start() {
    let mut recorder = Recorder::new(3, String::from("/out"), SECOND);
    assert_eq!(recorder.on_poll(true).action, Action::Ignored);
    assert_eq!(recorder.on_capture(None).action, Action::Ignored);
    assert_eq!(recorder.on_exit().action, Action::Ignored);
    assert_eq!(recorder.state(), RecorderState::Idle);
}

#[test]
fn sleep_runs_to_the_deadline_and_overrun_fires_one_tick() {
    let mut recorder = running();
    to_capture(&mut recorder, 1);
    recorder.on_capture(None);
    assert_eq!(end_tick(&mut recorder, SECOND / 10), 9 * SECOND / 10);
    to_capture(&mut recorder, 2);
    recorder.on_capture(None);
    assert_eq!(end_tick(&mut recorder, 5 * SECOND), 0);
    to_capture(&mut recorder, 3);
    recorder.on_capture(None);
    assert_eq!(end_tick(&mut recorder, 5 * SECOND + SECOND / 10), 9 * SECOND / 10);
}
