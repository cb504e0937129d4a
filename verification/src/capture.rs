//! Surfaces and the recorder: the per-surface session as a state machine
//! that is told what happened outside and answers what to do next.

use std::sync::Arc;
use vstd::prelude::*;
use vstd::string::StringExecFns;
use crate::activity::{
    default_blocked_apps, default_blocked_titles, segment_view, window_view, ActivityLog,
    ActivityMonitor, MonitorView, SegmentView, WindowInfo,
};
use crate::diff::{
    compare_with_previous_image, compared, forwards, max_after, measure_frames, measurement_of,
    should_write, MaxAverageFrame, Measurement, Scores,
};
use crate::encode::{
    payload_of, png_stream, write_frame_to_ffmpeg, RetryState, RetryStep, RETRY_DELAY_MS,
};
use crate::frame::{frame_view, Frame, FrameView};
use crate::pacing::{due_after, next_deadline, pace, sleep_for};
use crate::text::{number, push_number};
use crate::timestamp::Timestamp;

verus! {

/// What is known of a display from its enumeration.
#[derive(Clone)]
pub struct MonitorData {
    pub width: u32,
    pub height: u32,
    pub name: String,
    pub is_primary: bool,
}

/// A display as it was when the displays were enumerated.
#[derive(Clone)]
pub struct SafeMonitor {
    monitor_id: u32,
    monitor_data: Arc<MonitorData>,
}

/// A display as a mathematical value.
pub struct SurfaceView {
    pub id: u32,
    pub width: u32,
    pub height: u32,
    pub name: Seq<char>,
    pub is_primary: bool,
}

impl View for SafeMonitor {
    type V = SurfaceView;

    closed spec fn view(&self) -> SurfaceView {
        SurfaceView {
            id: self.monitor_id,
            width: self.monitor_data.width,
            height: self.monitor_data.height,
            name: self.monitor_data.name@,
            is_primary: self.monitor_data.is_primary,
        }
    }
}

impl SafeMonitor {
    /// A display with the given identifier and data.
    pub fn new(monitor_id: u32, data: MonitorData) -> (m: SafeMonitor)
        ensures
            m@ == (SurfaceView {
                id: monitor_id,
                width: data.width,
                height: data.height,
                name: data.name@,
                is_primary: data.is_primary,
            }),
    {
        SafeMonitor { monitor_id, monitor_data: Arc::new(data) }
    }

    pub fn id(&self) -> (r: u32)
        ensures
            r == self@.id,
    {
        self.monitor_id
    }

    pub fn name(&self) -> (r: &str)
        ensures
            r@ == self@.name,
    {
        self.monitor_data.name.as_str()
    }

    pub fn width(&self) -> (r: u32)
        ensures
            r == self@.width,
    {
        self.monitor_data.width
    }

    pub fn height(&self) -> (r: u32)
        ensures
            r == self@.height,
    {
        self.monitor_data.height
    }
}

/// `index` is the first display of `monitors` with the identifier `id`.
pub open spec fn is_first_with_id(monitors: Seq<SafeMonitor>, id: u32, index: int) -> bool {
    &&& 0 <= index < monitors.len()
    &&& monitors[index]@.id == id
    &&& forall|j: int| 0 <= j < index ==> (#[trigger] monitors[j])@.id != id
}

/// No display of `monitors` has the identifier `id`.
pub open spec fn none_with_id(monitors: Seq<SafeMonitor>, id: u32) -> bool {
    forall|j: int| 0 <= j < monitors.len() ==> (#[trigger] monitors[j])@.id != id
}

/// Where the first display with the identifier `id` stands among
/// `monitors`.
pub fn position_by_id(monitors: &Vec<SafeMonitor>, id: u32) -> (r: Option<usize>)
    ensures
        match r {
            Some(index) => is_first_with_id(monitors@, id, index as int),
            None => none_with_id(monitors@, id),
        },
{
    let mut i: usize = 0;
    while i < monitors.len()
        invariant
            i <= monitors.len(),
            forall|j: int| 0 <= j < i ==> (#[trigger] monitors@[j])@.id != id,
        decreases monitors.len() - i,
    {
        if monitors[i].id() == id {
            return Some(i);
        }
        i += 1;
    }
    None
}

/// The first display with the identifier `id`, if the enumeration has
/// one.
pub fn get_monitor_by_id(monitors: &Vec<SafeMonitor>, id: u32) -> (r: Option<&SafeMonitor>)
    ensures
        match r {
            Some(m) => exists|index: int|
                is_first_with_id(monitors@, id, index) && *m == monitors@[index],
            None => none_with_id(monitors@, id),
        },
{
    match position_by_id(monitors, id) {
        Some(index) => Some(&monitors[index]),
        None => None,
    }
}

/// Why no frame could be captured.
#[derive(Clone, Copy, Debug, PartialEq, Eq, Structural)]
pub enum CaptureError {
    /// The display is no longer among the enumerated ones.
    NotFound,
    /// The display reports a width or a height of zero.
    InvalidDimensions,
    /// The capture itself failed.
    Transport,
}

/// Picks the display to capture from in a fresh enumeration: the first
/// one with the identifier, unless it has vanished or has no area.
pub fn capture_target(monitors: &Vec<SafeMonitor>, id: u32) -> (r: Result<usize, CaptureError>)
    ensures
        match r {
            Ok(index) => is_first_with_id(monitors@, id, index as int) && monitors@[index as int]@.width
                != 0 && monitors@[index as int]@.height != 0,
            Err(CaptureError::NotFound) => none_with_id(monitors@, id),
            Err(CaptureError::InvalidDimensions) => exists|index: int|
                is_first_with_id(monitors@, id, index) && (monitors@[index]@.width == 0
                    || monitors@[index]@.height == 0),
            Err(CaptureError::Transport) => false,
        },
{
    match position_by_id(monitors, id) {
        None => Err(CaptureError::NotFound),
        Some(index) => {
            if monitors[index].width() == 0 || monitors[index].height() == 0 {
                Err(CaptureError::InvalidDimensions)
            } else {
                Ok(index)
            }
        },
    }
}

/// The name of a session's file: `monitor_`, the display's identifier,
/// `_`, the time at which the session started, and the extension.
pub open spec fn session_file_name(monitor_id: u32, started: Timestamp, extension: Seq<char>)
    -> Seq<char> {
    "monitor_"@ + number(monitor_id as nat) + seq!['_'] + started.file_stamp() + extension
}

fn file_name(monitor_id: u32, started: &Timestamp, extension: &str) -> (name: String)
    ensures
        name@ == session_file_name(monitor_id, *started, extension@),
{
    let mut name = String::from_str("monitor_");
    push_number(&mut name, monitor_id);
    crate::text::push_char(&mut name, '_');
    started.push_file_stamp(&mut name);
    name.append(extension);
    name
}

/// The name of the video file of a session.
pub fn video_file_name(monitor_id: u32, started: &Timestamp) -> (name: String)
    ensures
        name@ == session_file_name(monitor_id, *started, ".mp4"@),
{
    file_name(monitor_id, started, ".mp4")
}

/// The name of the activity log of a session.
pub fn log_file_name(monitor_id: u32, started: &Timestamp) -> (name: String)
    ensures
        name@ == session_file_name(monitor_id, *started, ".jsonl"@),
{
    file_name(monitor_id, started, ".jsonl")
}

/// Where a session stands.
#[derive(Clone, Copy, Debug, PartialEq, Eq, Structural)]
pub enum RecorderState {
    Idle,
    Running,
    Stopping,
    Stopped,
}

/// What a running session waits for.
#[derive(Clone, Copy, Debug, PartialEq, Eq, Structural)]
pub enum Stage {
    /// The tick boundary: the answer of the cancellation signal.
    Boundary,
    /// The time and the foreground window.
    Gate,
    /// A frame from the surface.
    Capturing,
    /// The measurement of the frame against the last kept one.
    Comparing,
    /// The end of a write to the encoder.
    Writing,
    /// The end of the wait before another write.
    Backoff,
    /// The time at which the work of the tick ended.
    Pacing,
}

/// The part of the pipeline in which a session failed.
#[derive(Clone, Copy, Debug, PartialEq, Eq, Structural)]
pub enum Phase {
    Capture,
    Diff,
    Encode,
    Activity,
}

/// A failure that ends a session, with the surface and the part of the
/// pipeline it belongs to.
#[derive(Clone, Copy, Debug, PartialEq, Eq, Structural)]
pub struct RecorderError {
    pub monitor_id: u32,
    pub phase: Phase,
}

/// Why a session ends.
#[derive(Clone, Copy, Debug, PartialEq, Eq, Structural)]
pub enum StopReason {
    /// The cancellation signal was seen at a tick boundary.
    Cancelled,
    /// A write to the encoder failed on its last attempt.
    Fatal(RecorderError),
}

/// What the session asks to be done outside, before it is told the
/// result.
#[derive(Clone, Copy, Debug, PartialEq, Eq, Structural)]
pub enum Action {
    /// Look at the cancellation signal without waiting.
    PollStop,
    /// Read the time and ask for the foreground window.
    ObserveActivity,
    /// Capture a frame from the surface.
    Capture,
    /// Measure the pending frame against the last kept one.
    Measure,
    /// Write the payload to the encoder's input.
    Write,
    /// Wait this many milliseconds.
    Backoff(u64),
    /// Read the clock.
    ReadClock,
    /// Sleep this many nanoseconds, then look at the cancellation signal.
    Sleep(u64),
    /// Close the encoder's input and wait for it to exit.
    Finish(StopReason),
    /// Nothing is left to do.
    Done,
    /// What was reported does not fit where the session stands; nothing
    /// changed.
    Ignored,
}

/// What happened outside, as a mathematical value.
pub enum Input {
    Started { now: u64, log_file_path: Seq<char> },
    Polled { cancelled: bool },
    Observed { now: Timestamp, window: Option<(Seq<char>, Seq<char>)> },
    Captured { frame: Option<FrameView> },
    Measured { scores: Option<Scores> },
    Written { ok: bool },
    BackoffElapsed,
    Clock { now: u64 },
    EncoderExited,
}

/// The answer of the session to what happened: what to do next, and the
/// segment to append to the activity log, if one was closed.
#[derive(Debug)]
pub struct Step {
    pub action: Action,
    pub persist: Option<ActivityLog>,
}

/// The session after an input, with its answer.
pub struct Outcome {
    pub next: RecorderView,
    pub action: Action,
    pub persist: Option<SegmentView>,
}

/// The count after one more frame, held at the end of its range.
pub open spec fn bump(count: u64) -> u64 {
    if count < u64::MAX {
        (count + 1) as u64
    } else {
        count
    }
}

/// A session as a mathematical value.
pub struct RecorderView {
    pub monitor_id: u32,
    pub output_dir: Seq<char>,
    pub interval: u64,
    pub state: RecorderState,
    pub stage: Stage,
    pub gate: Option<MonitorView>,
    pub previous: Option<FrameView>,
    pub pending: Option<FrameView>,
    pub payload: Option<Seq<u8>>,
    pub frame_counter: u64,
    pub forwarded: u64,
    pub next_tick: u64,
    pub retry: RetryState,
    pub max_average: Option<MaxAverageFrame>,
}

impl RecorderView {
    /// The session is running and waits for what `stage` names.
    pub open spec fn at(self, stage: Stage) -> bool {
        self.state == RecorderState::Running && self.stage == stage
    }

    /// What holds of a session at every moment: a count of attempts
    /// within its bound, a well-formed activity
    /// monitor once the session has started, no more frames forwarded
    /// than counted, and a last kept frame exactly where one was
    /// forwarded.
    pub open spec fn sound(self) -> bool {
        &&& self.retry.wf()
        &&& self.state != RecorderState::Idle ==> self.gate is Some && self.gate->0.wf()
        &&& self.forwarded <= self.frame_counter
        &&& self.forwarded == 0 <==> self.previous is None
    }

    /// What holds of a session between two inputs: it is sound, and what
    /// it waits for is at hand.
    pub open spec fn wf(self) -> bool {
        &&& self.sound()
        &&& self.at(Stage::Comparing) ==> self.pending is Some && self.previous is Some
        &&& self.at(Stage::Writing) ==> self.pending is Some && self.payload is Some
            && self.retry.open()
        &&& self.at(Stage::Backoff) ==> self.pending is Some && self.retry.open()
        &&& self.state == RecorderState::Running && (self.stage == Stage::Boundary || self.stage
            == Stage::Gate || self.stage == Stage::Capturing || self.stage == Stage::Pacing)
            ==> self.pending is None && self.payload is None
        &&& self.state != RecorderState::Running ==> self.pending is None && self.payload is None
    }

    /// The answer to an input that does not fit.
    pub open spec fn ignored(self) -> Outcome {
        Outcome { next: self, action: Action::Ignored, persist: None }
    }

    /// The session moves on to `stage` and asks for `action`.
    pub open spec fn proceed(self, stage: Stage, action: Action) -> Outcome {
        Outcome { next: RecorderView { stage, ..self }, action, persist: None }
    }

    /// The session ends: the open segment is closed for the log, the
    /// frame in hand is let go, and the encoder is to be finished.
    pub open spec fn stop(self, reason: StopReason) -> Outcome {
        Outcome {
            next: RecorderView {
                state: RecorderState::Stopping,
                gate: Some(MonitorView { current: None, ..self.gate->0 }),
                pending: None,
                payload: None,
                ..self
            },
            action: Action::Finish(reason),
            persist: self.gate->0.current,
        }
    }

    /// A write attempt failed: wait and try again, or end the session
    /// where it was the last attempt.
    pub open spec fn attempt_failed(self) -> Outcome {
        let counted = RecorderView { retry: self.retry.after(false), ..self };
        if self.retry.step(false) == RetryStep::Fatal {
            counted.stop(
                StopReason::Fatal(
                    RecorderError { monitor_id: self.monitor_id, phase: Phase::Encode },
                ),
            )
        } else {
            counted.proceed(Stage::Backoff, Action::Backoff(RETRY_DELAY_MS))
        }
    }

    /// The pending frame is to be forwarded: it is encoded, and the first
    /// write attempt begins. A frame that cannot be encoded counts as a
    /// failed attempt.
    pub open spec fn begin_write(self) -> Outcome {
        let frame = self.pending->0;
        let fresh = RetryState { attempts: 0, settled: false };
        match payload_of(frame.well_formed(), png_stream(frame.width, frame.height, frame.rgba)) {
            Ok(bytes) => RecorderView { payload: Some(bytes), retry: fresh, ..self }.proceed(
                Stage::Writing,
                Action::Write,
            ),
            Err(_) => RecorderView { payload: None, retry: fresh, ..self }.attempt_failed(),
        }
    }

    /// The pending frame is counted and let go, and the tick goes on to
    /// its end. A forwarded frame becomes the last kept one.
    pub open spec fn frame_done(self, forwarded: bool) -> Outcome {
        RecorderView {
            previous: if forwarded {
                self.pending
            } else {
                self.previous
            },
            pending: None,
            payload: None,
            frame_counter: bump(self.frame_counter),
            forwarded: if forwarded {
                bump(self.forwarded)
            } else {
                self.forwarded
            },
            ..self
        }.proceed(Stage::Pacing, Action::ReadClock)
    }

    /// The session after `input`, with its answer.
    pub open spec fn next(self, input: Input) -> Outcome {
        match input {
            Input::Started { now, log_file_path } => if self.state == RecorderState::Idle {
                Outcome {
                    next: RecorderView {
                        state: RecorderState::Running,
                        stage: Stage::Boundary,
                        gate: Some(
                            MonitorView {
                                current: None,
                                log_file_path,
                                blocked_apps: default_blocked_apps(),
                                blocked_titles: default_blocked_titles(),
                            },
                        ),
                        next_tick: now,
                        ..self
                    },
                    action: Action::PollStop,
                    persist: None,
                }
            } else {
                self.ignored()
            },
            Input::Polled { cancelled } => if !self.at(Stage::Boundary) {
                self.ignored()
            } else if cancelled {
                self.stop(StopReason::Cancelled)
            } else {
                self.proceed(Stage::Gate, Action::ObserveActivity)
            },
            Input::Observed { now, window } => if !self.at(Stage::Gate) {
                self.ignored()
            } else {
                let gate = self.gate->0;
                let checked = RecorderView { gate: Some(gate.after_check(now, window)), ..self };
                Outcome {
                    persist: gate.closed_by_check(now, window),
                    ..if gate.permits(window) {
                        checked.proceed(Stage::Capturing, Action::Capture)
                    } else {
                        checked.proceed(Stage::Pacing, Action::ReadClock)
                    }
                }
            },
            Input::Captured { frame } => if !self.at(Stage::Capturing) {
                self.ignored()
            } else {
                match frame {
                    None => self.proceed(Stage::Pacing, Action::ReadClock),
                    Some(f) => {
                        let holding = RecorderView { pending: Some(f), ..self };
                        if self.previous is None {
                            holding.begin_write()
                        } else {
                            holding.proceed(Stage::Comparing, Action::Measure)
                        }
                    },
                }
            },
            Input::Measured { scores } => if !self.at(Stage::Comparing) {
                self.ignored()
            } else {
                let measurement = measurement_of(self.previous, self.pending->0, scores);
                let measured = RecorderView {
                    max_average: max_after(
                        self.max_average,
                        compared(measurement),
                        self.frame_counter,
                    ),
                    ..self
                };
                if forwards(compared(measurement)) {
                    measured.begin_write()
                } else {
                    measured.frame_done(false)
                }
            },
            Input::Written { ok } => if !self.at(Stage::Writing) {
                self.ignored()
            } else if ok {
                RecorderView { retry: self.retry.after(true), ..self }.frame_done(true)
            } else {
                self.attempt_failed()
            },
            Input::BackoffElapsed => if !self.at(Stage::Backoff) {
                self.ignored()
            } else if self.payload is Some {
                self.proceed(Stage::Writing, Action::Write)
            } else {
                self.attempt_failed()
            },
            Input::Clock { now } => if !self.at(Stage::Pacing) {
                self.ignored()
            } else {
                let interval = self.interval;
                RecorderView {
                    next_tick: next_deadline(self.next_tick, interval, now),
                    ..self
                }.proceed(Stage::Boundary, Action::Sleep(sleep_for(self.next_tick, interval, now)))
            },
            Input::EncoderExited => if self.state == RecorderState::Stopping {
                Outcome {
                    next: RecorderView { state: RecorderState::Stopped, ..self },
                    action: Action::Done,
                    persist: None,
                }
            } else {
                self.ignored()
            },
        }
    }
}

/// An input is fit to be reported where the time it carries is valid.
pub open spec fn input_valid(input: Input) -> bool {
    input matches Input::Observed { now, .. } ==> now.valid()
}

/// Every input of a trace is fit to be reported.
pub open spec fn inputs_valid(inputs: Seq<Input>) -> bool {
    forall|i: int| 0 <= i < inputs.len() ==> input_valid(#[trigger] inputs[i])
}

impl RecorderView {
    /// The session after a whole trace of inputs, one after another.
    pub open spec fn run(self, inputs: Seq<Input>) -> RecorderView
        decreases inputs.len(),
    {
        if inputs.len() == 0 {
            self
        } else {
            self.run(inputs.drop_last()).next(inputs.last()).next
        }
    }
}

/// How far a session has come: a state never gives way to an earlier
/// one.
pub open spec fn progress(state: RecorderState) -> int {
    match state {
        RecorderState::Idle => 0,
        RecorderState::Running => 1,
        RecorderState::Stopping => 2,
        RecorderState::Stopped => 3,
    }
}

/// Whatever happens outside, a well-formed session stays well formed,
/// and every segment it hands over for the log is well formed.
pub proof fn lemma_next_preserves_wf(pre: RecorderView, input: Input)
    requires
        pre.wf(),
        input_valid(input),
    ensures
        pre.next(input).next.wf(),
        pre.next(input).persist matches Some(segment) ==> segment.wf(),
{
    match input {
        Input::Observed { now, window } => {
            if pre.at(Stage::Gate) {
                let gate = pre.gate->0;
                crate::timestamp::lemma_order_total(now, now);
                if gate.current is Some {
                    crate::timestamp::lemma_order_total(now, gate.current->0.start_time);
                }
            }
        },
        _ => {},
    }
}

/// A session only moves forward: from idle to running, to stopping, to
/// stopped; once stopped, no input changes it or is answered with work.
pub proof fn lemma_states_in_order(pre: RecorderView, input: Input)
    ensures
        progress(pre.next(input).next.state) >= progress(pre.state),
        progress(pre.next(input).next.state) <= progress(pre.state) + 1,
        pre.state == RecorderState::Stopped ==> pre.next(input).next == pre && pre.next(
            input,
        ).action == Action::Ignored,
        pre.state == RecorderState::Stopping ==> pre.next(input).action == Action::Done
            || pre.next(input).action == Action::Ignored,
{
}

/// The frame counter never goes down, and it counts a frame whether the
/// frame is forwarded or dropped; the count of forwarded frames moves
/// only when a write succeeds.
pub proof fn lemma_counters_monotone(pre: RecorderView, input: Input)
    ensures
        pre.next(input).next.frame_counter >= pre.frame_counter,
        pre.next(input).next.forwarded >= pre.forwarded,
        pre.next(input).next.forwarded != pre.forwarded ==> pre.at(Stage::Writing) && input
            == (Input::Written { ok: true }),
{
}

/// The last kept frame changes only when a write succeeds, and then
/// it becomes the frame that was written.
pub proof fn lemma_previous_changes_on_forward_only(pre: RecorderView, input: Input)
    ensures
        pre.next(input).next.previous != pre.previous ==> pre.at(Stage::Writing) && input == (
        Input::Written { ok: true }) && pre.next(input).next.previous == pre.pending,
{
}

/// While capture is not permitted nothing is captured or written: the
/// tick goes straight on to its end.
pub proof fn lemma_blocked_tick_skips_capture(
    pre: RecorderView,
    now: Timestamp,
    window: Option<(Seq<char>, Seq<char>)>,
)
    requires
        pre.at(Stage::Gate),
        !pre.gate->0.permits(window),
    ensures
        pre.next(Input::Observed { now, window }).action == Action::ReadClock,
        pre.next(Input::Observed { now, window }).next.previous == pre.previous,
        pre.next(Input::Observed { now, window }).next.frame_counter == pre.frame_counter,
{
}

/// The first frame of a session is forwarded without being measured.
pub proof fn lemma_first_frame_is_forwarded(pre: RecorderView, frame: FrameView)
    requires
        pre.wf(),
        pre.at(Stage::Capturing),
        pre.previous is None,
    ensures
        pre.next(Input::Captured { frame: Some(frame) }).action == Action::Write || pre.next(
            Input::Captured { frame: Some(frame) },
        ).action == Action::Backoff(RETRY_DELAY_MS),
{
}

/// A frame that was written is counted, becomes the last kept frame,
/// and the tick goes on to its end.
pub proof fn lemma_written_frame_is_counted(pre: RecorderView)
    requires
        pre.wf(),
        pre.at(Stage::Writing),
    ensures
        pre.next(Input::Written { ok: true }).action == Action::ReadClock,
        pre.next(Input::Written { ok: true }).next.previous == pre.pending,
        pre.next(Input::Written { ok: true }).next.frame_counter == bump(pre.frame_counter),
        pre.next(Input::Written { ok: true }).next.forwarded == bump(pre.forwarded),
{
}

/// A frame whose distance from the last kept one stays under the
/// threshold is counted and dropped: nothing is written, and the last
/// kept frame stays.
pub proof fn lemma_unchanged_frame_is_dropped(pre: RecorderView, scores: Option<Scores>)
    requires
        pre.at(Stage::Comparing),
        !forwards(compared(measurement_of(pre.previous, pre.pending->0, scores))),
    ensures
        pre.next(Input::Measured { scores }).action == Action::ReadClock,
        pre.next(Input::Measured { scores }).next.previous == pre.previous,
        pre.next(Input::Measured { scores }).next.forwarded == pre.forwarded,
        pre.next(Input::Measured { scores }).next.frame_counter == bump(pre.frame_counter),
{
}

/// A frame whose dimensions differ from those of the last kept one is
/// forwarded, whatever scores are reported for the two.
pub proof fn lemma_resized_frame_is_forwarded(pre: RecorderView, scores: Option<Scores>)
    requires
        pre.wf(),
        pre.at(Stage::Comparing),
        pre.previous->0.width != pre.pending->0.width || pre.previous->0.height
            != pre.pending->0.height,
    ensures
        pre.next(Input::Measured { scores }).action == Action::Write || pre.next(
            Input::Measured { scores },
        ).action == Action::Backoff(RETRY_DELAY_MS),
{
}

/// A frame is taken in only while no other frame is in hand, so frames
/// reach the encoder in the order in which they were captured.
pub proof fn lemma_one_frame_in_hand(pre: RecorderView, frame: FrameView)
    requires
        pre.wf(),
        pre.next(Input::Captured { frame: Some(frame) }).action != Action::Ignored,
    ensures
        pre.pending is None,
        pre.payload is None,
        pre.next(Input::Captured { frame: Some(frame) }).next.pending == Some(frame)
            || pre.next(Input::Captured { frame: Some(frame) }).next.state
            == RecorderState::Stopping,
{
}

/// A write that fails on its last attempt ends the session at once, and
/// the failure names the surface and the encoding phase.
pub proof fn lemma_last_failed_write_is_fatal(pre: RecorderView)
    requires
        pre.at(Stage::Writing),
        pre.retry.attempts + 1 >= crate::encode::MAX_RETRIES,
    ensures
        pre.next(Input::Written { ok: false }).next.state == RecorderState::Stopping,
        pre.next(Input::Written { ok: false }).action == Action::Finish(
            StopReason::Fatal(RecorderError { monitor_id: pre.monitor_id, phase: Phase::Encode }),
        ),
{
}


/// The deadline moves only when a session starts and when the clock is
/// read at the end of a tick's work; the interval never changes.
pub proof fn lemma_deadline_moves_at_tick_end_only(pre: RecorderView, input: Input)
    ensures
        pre.next(input).next.interval == pre.interval,
        pre.next(input).next.next_tick != pre.next_tick ==> (input is Started && pre.state
            == RecorderState::Idle) || (input is Clock && pre.at(Stage::Pacing)),
{
}

/// One tick fires per overrun. Where the work of a tick ends at `end`,
/// at or after the deadline that was due, however many intervals late:
/// the next tick is begun at `end` without sleep and the deadline becomes
/// `end`. The tick after that one, whenever its work ends, is begun
/// exactly at its deadline, which lies no earlier than one interval
/// after `end` (or at the end of the clock's range, where that comes
/// first): no second tick makes up for the overrun.
pub proof fn lemma_overrun_makes_one_tick(
    pre: RecorderView,
    end: u64,
    following: RecorderView,
    later: u64,
)
    requires
        pre.at(Stage::Pacing),
        due_after(pre.next_tick, pre.interval) <= end,
        following.at(Stage::Pacing),
        following.interval == pre.interval,
        following.next_tick == pre.next(Input::Clock { now: end }).next.next_tick,
    ensures
        pre.next(Input::Clock { now: end }).action == Action::Sleep(0),
        pre.next(Input::Clock { now: end }).next.next_tick == end,
        pre.next(Input::Clock { now: end }).next.at(Stage::Boundary),
        following.next(Input::Clock { now: later }).next.next_tick >= due_after(end, pre.interval),
        end + pre.interval <= u64::MAX ==> following.next(
            Input::Clock { now: later },
        ).next.next_tick >= end + pre.interval,
        following.next(Input::Clock { now: later }).action == Action::Sleep(
            (following.next(Input::Clock { now: later }).next.next_tick - later) as u64,
        ),
{
}

/// Through a whole session, whatever is reported and in whatever order,
/// the session stays well formed, never returns to an earlier state, and
/// its counters never go down.
pub proof fn lemma_run_keeps_order(pre: RecorderView, inputs: Seq<Input>)
    requires
        pre.wf(),
        inputs_valid(inputs),
    ensures
        pre.run(inputs).wf(),
        progress(pre.run(inputs).state) >= progress(pre.state),
        pre.run(inputs).frame_counter >= pre.frame_counter,
        pre.run(inputs).forwarded >= pre.forwarded,
        pre.run(inputs).forwarded <= pre.run(inputs).frame_counter,
    decreases inputs.len(),
{
    if inputs.len() > 0 {
        let before = inputs.drop_last();
        assert(inputs_valid(before)) by {
            assert forall|i: int| 0 <= i < before.len() implies input_valid(
                #[trigger] before[i],
            ) by {
                assert(before[i] == inputs[i]);
            }
        }
        lemma_run_keeps_order(pre, before);
        let mid = pre.run(before);
        assert(input_valid(inputs[inputs.len() - 1]));
        lemma_next_preserves_wf(mid, inputs.last());
        lemma_states_in_order(mid, inputs.last());
        lemma_counters_monotone(mid, inputs.last());
    }
}

/// A stopped session stays as it is, whatever is reported to it: only a
/// new session can record again.
pub proof fn lemma_stopped_stays_stopped(pre: RecorderView, inputs: Seq<Input>)
    requires
        pre.state == RecorderState::Stopped,
    ensures
        pre.run(inputs) == pre,
    decreases inputs.len(),
{
    if inputs.len() > 0 {
        lemma_stopped_stays_stopped(pre, inputs.drop_last());
        lemma_states_in_order(pre, inputs.last());
    }
}

/// One recording session of one surface.
pub struct Recorder {
    monitor_id: u32,
    output_dir: String,
    interval: u64,
    state: RecorderState,
    stage: Stage,
    gate: Option<ActivityMonitor>,
    previous: Option<Frame>,
    pending: Option<Frame>,
    payload: Option<Vec<u8>>,
    frame_counter: u64,
    forwarded: u64,
    next_tick: u64,
    retry: RetryState,
    max_average: Option<MaxAverageFrame>,
}

/// The view of an activity monitor that may be absent.
pub open spec fn gate_view(gate: Option<ActivityMonitor>) -> Option<MonitorView> {
    match gate {
        Some(g) => Some(g@),
        None => None,
    }
}

/// The view of bytes that may be absent.
pub open spec fn bytes_view(bytes: Option<Vec<u8>>) -> Option<Seq<u8>> {
    match bytes {
        Some(b) => Some(b@),
        None => None,
    }
}

impl View for Recorder {
    type V = RecorderView;

    closed spec fn view(&self) -> RecorderView {
        RecorderView {
            monitor_id: self.monitor_id,
            output_dir: self.output_dir@,
            interval: self.interval,
            state: self.state,
            stage: self.stage,
            gate: gate_view(self.gate),
            previous: frame_view(self.previous),
            pending: frame_view(self.pending),
            payload: bytes_view(self.payload),
            frame_counter: self.frame_counter,
            forwarded: self.forwarded,
            next_tick: self.next_tick,
            retry: self.retry,
            max_average: self.max_average,
        }
    }
}

fn bumped(count: u64) -> (r: u64)
    ensures
        r == bump(count),
{
    if count < u64::MAX {
        count + 1
    } else {
        count
    }
}

impl Recorder {
    /// A session for the surface `monitor_id` that has not started, with
    /// `interval` nanoseconds between two ticks.
    pub fn new(monitor_id: u32, output_dir: String, interval: u64) -> (r: Recorder)
        ensures
            r@ == (RecorderView {
                monitor_id,
                output_dir: output_dir@,
                interval,
                state: RecorderState::Idle,
                stage: Stage::Boundary,
                gate: None,
                previous: None,
                pending: None,
                payload: None,
                frame_counter: 0,
                forwarded: 0,
                next_tick: 0,
                retry: RetryState { attempts: 0, settled: false },
                max_average: None,
            }),
            r@.wf(),
    {
        Recorder {
            monitor_id,
            output_dir,
            interval,
            state: RecorderState::Idle,
            stage: Stage::Boundary,
            gate: None,
            previous: None,
            pending: None,
            payload: None,
            frame_counter: 0,
            forwarded: 0,
            next_tick: 0,
            retry: RetryState::new(),
            max_average: None,
        }
    }

    pub fn monitor_id(&self) -> (r: u32)
        ensures
            r == self@.monitor_id,
    {
        self.monitor_id
    }

    pub fn output_dir(&self) -> (r: &String)
        ensures
            r@ == self@.output_dir,
    {
        &self.output_dir
    }

    /// The time between two ticks, in nanoseconds.
    pub fn interval(&self) -> (r: u64)
        ensures
            r == self@.interval,
    {
        self.interval
    }

    pub fn state(&self) -> (r: RecorderState)
        ensures
            r == self@.state,
    {
        self.state
    }

    pub fn stage(&self) -> (r: Stage)
        ensures
            r == self@.stage,
    {
        self.stage
    }

    /// How many frames went through the differ, forwarded or dropped.
    pub fn frame_counter(&self) -> (r: u64)
        ensures
            r == self@.frame_counter,
    {
        self.frame_counter
    }

    /// How many frames were written to the encoder.
    pub fn forwarded(&self) -> (r: u64)
        ensures
            r == self@.forwarded,
    {
        self.forwarded
    }

    /// The largest distance measured so far, for observation.
    pub fn max_average(&self) -> (r: Option<MaxAverageFrame>)
        ensures
            r == self@.max_average,
    {
        self.max_average
    }

    /// The frame kept last, against which the next one is measured.
    pub fn previous_image(&self) -> (r: &Option<Frame>)
        ensures
            frame_view(*r) == self@.previous,
    {
        &self.previous
    }

    /// The frame in hand.
    pub fn pending_image(&self) -> (r: &Option<Frame>)
        ensures
            frame_view(*r) == self@.pending,
    {
        &self.pending
    }

    /// The bytes to write to the encoder for the frame in hand.
    pub fn payload(&self) -> (r: &Option<Vec<u8>>)
        ensures
            bytes_view(*r) == self@.payload,
    {
        &self.payload
    }

    /// The activity monitor in use, once it has started.
    pub fn activity_monitor(&self) -> (r: &Option<ActivityMonitor>)
        ensures
            gate_view(*r) == self@.gate,
    {
        &self.gate
    }

    fn ignore(&self) -> (step: Step)
        ensures
            step.action == Action::Ignored,
            step.persist is None,
    {
        Step { action: Action::Ignored, persist: None }
    }

    fn finish(&mut self, reason: StopReason) -> (step: Step)
        requires
            old(self)@.sound(),
            old(self)@.state == RecorderState::Running,
        ensures
            final(self)@ == old(self)@.stop(reason).next,
            step.action == old(self)@.stop(reason).action,
            segment_view(step.persist) == old(self)@.stop(reason).persist,
            final(self)@.wf(),
            step.persist matches Some(s) ==> s@.wf(),
    {
        let mut gate = self.gate.take().unwrap();
        let closed = gate.flush();
        self.gate = Some(gate);
        self.state = RecorderState::Stopping;
        self.pending = None;
        self.payload = None;
        Step { action: Action::Finish(reason), persist: closed }
    }

    fn fail_attempt(&mut self) -> (step: Step)
        requires
            old(self)@.sound(),
            old(self)@.state == RecorderState::Running,
            old(self)@.retry.open(),
            old(self)@.pending is Some,
        ensures
            final(self)@ == old(self)@.attempt_failed().next,
            step.action == old(self)@.attempt_failed().action,
            segment_view(step.persist) == old(self)@.attempt_failed().persist,
            final(self)@.wf(),
            step.persist matches Some(s) ==> s@.wf(),
    {
        match self.retry.after_attempt(false) {
            RetryStep::Fatal => {
                self.finish(
                    StopReason::Fatal(
                        RecorderError { monitor_id: self.monitor_id, phase: Phase::Encode },
                    ),
                )
            },
            _ => {
                self.stage = Stage::Backoff;
                Step { action: Action::Backoff(RETRY_DELAY_MS), persist: None }
            },
        }
    }

    fn start_write(&mut self) -> (step: Step)
        requires
            old(self)@.sound(),
            old(self)@.state == RecorderState::Running,
            old(self)@.pending is Some,
        ensures
            final(self)@ == old(self)@.begin_write().next,
            step.action == old(self)@.begin_write().action,
            segment_view(step.persist) == old(self)@.begin_write().persist,
            final(self)@.wf(),
            step.persist matches Some(s) ==> s@.wf(),
    {
        let encoded = match &self.pending {
            Some(frame) => write_frame_to_ffmpeg(frame),
            None => Err(crate::encode::EncodeError::MalformedFrame),
        };
        self.retry = RetryState::new();
        match encoded {
            Ok(bytes) => {
                self.payload = Some(bytes);
                self.stage = Stage::Writing;
                Step { action: Action::Write, persist: None }
            },
            Err(_) => {
                self.payload = None;
                self.fail_attempt()
            },
        }
    }

    fn finish_frame(&mut self, forwarded: bool) -> (step: Step)
        requires
            old(self)@.sound(),
            old(self)@.state == RecorderState::Running,
            forwarded ==> old(self)@.pending is Some,
        ensures
            final(self)@ == old(self)@.frame_done(forwarded).next,
            step.action == old(self)@.frame_done(forwarded).action,
            segment_view(step.persist) == old(self)@.frame_done(forwarded).persist,
            final(self)@.wf(),
            step.persist is None,
    {
        let frame = self.pending.take();
        if forwarded {
            self.previous = frame;
            self.forwarded = bumped(self.forwarded);
        }
        self.payload = None;
        self.frame_counter = bumped(self.frame_counter);
        self.stage = Stage::Pacing;
        Step { action: Action::ReadClock, persist: None }
    }

    /// The session starts at `now` on the tick clock; its activity log
    /// is kept at `log_file_path`.
    pub fn start(&mut self, now: u64, log_file_path: String) -> (step: Step)
        requires
            old(self)@.wf(),
        ensures
            final(self)@ == old(self)@.next(Input::Started { now, log_file_path: log_file_path@ }).next,
            step.action == old(self)@.next(
                Input::Started { now, log_file_path: log_file_path@ },
            ).action,
            step.persist is None,
            final(self)@.wf(),
    {
        if self.state != RecorderState::Idle {
            return self.ignore();
        }
        self.gate = Some(ActivityMonitor::new(log_file_path));
        self.state = RecorderState::Running;
        self.stage = Stage::Boundary;
        self.next_tick = now;
        Step { action: Action::PollStop, persist: None }
    }

    /// The cancellation signal was looked at, at a tick boundary.
    pub fn on_poll(&mut self, cancelled: bool) -> (step: Step)
        requires
            old(self)@.wf(),
        ensures
            final(self)@ == old(self)@.next(Input::Polled { cancelled }).next,
            step.action == old(self)@.next(Input::Polled { cancelled }).action,
            segment_view(step.persist) == old(self)@.next(Input::Polled { cancelled }).persist,
            final(self)@.wf(),
            step.persist matches Some(s) ==> s@.wf(),
    {
        if self.state != RecorderState::Running || self.stage != Stage::Boundary {
            return self.ignore();
        }
        if cancelled {
            self.finish(StopReason::Cancelled)
        } else {
            self.stage = Stage::Gate;
            Step { action: Action::ObserveActivity, persist: None }
        }
    }

    /// The time was read and the foreground window asked for; `window`
    /// is `None` where the query failed.
    pub fn on_activity(&mut self, now: Timestamp, window: Option<WindowInfo>) -> (step: Step)
        requires
            old(self)@.wf(),
            now.valid(),
        ensures
            final(self)@ == old(self)@.next(
                Input::Observed { now, window: window_view(window) },
            ).next,
            step.action == old(self)@.next(
                Input::Observed { now, window: window_view(window) },
            ).action,
            segment_view(step.persist) == old(self)@.next(
                Input::Observed { now, window: window_view(window) },
            ).persist,
            final(self)@.wf(),
            step.persist matches Some(s) ==> s@.wf(),
    {
        if self.state != RecorderState::Running || self.stage != Stage::Gate {
            return self.ignore();
        }
        let mut gate = self.gate.take().unwrap();
        let verdict = gate.check_activity(now, window);
        self.gate = Some(gate);
        if verdict.permitted {
            self.stage = Stage::Capturing;
            Step { action: Action::Capture, persist: verdict.closed }
        } else {
            self.stage = Stage::Pacing;
            Step { action: Action::ReadClock, persist: verdict.closed }
        }
    }

    /// The capture ended; `frame` is `None` where it failed, and the
    /// tick is then skipped.
    pub fn on_capture(&mut self, frame: Option<Frame>) -> (step: Step)
        requires
            old(self)@.wf(),
        ensures
            final(self)@ == old(self)@.next(Input::Captured { frame: frame_view(frame) }).next,
            step.action == old(self)@.next(Input::Captured { frame: frame_view(frame) }).action,
            segment_view(step.persist) == old(self)@.next(
                Input::Captured { frame: frame_view(frame) },
            ).persist,
            final(self)@.wf(),
            step.persist matches Some(s) ==> s@.wf(),
    {
        if self.state != RecorderState::Running || self.stage != Stage::Capturing {
            return self.ignore();
        }
        match frame {
            None => {
                self.stage = Stage::Pacing;
                Step { action: Action::ReadClock, persist: None }
            },
            Some(f) => {
                self.pending = Some(f);
                if self.previous.is_none() {
                    self.start_write()
                } else {
                    self.stage = Stage::Comparing;
                    Step { action: Action::Measure, persist: None }
                }
            },
        }
    }

    /// The metrics were computed for the frame in hand and the last kept
    /// one; `scores` is `None` where they failed. Frames of different
    /// dimensions count as unmeasurable whatever is reported.
    pub fn on_measure(&mut self, scores: Option<Scores>) -> (step: Step)
        requires
            old(self)@.wf(),
        ensures
            final(self)@ == old(self)@.next(Input::Measured { scores }).next,
            step.action == old(self)@.next(Input::Measured { scores }).action,
            segment_view(step.persist) == old(self)@.next(Input::Measured { scores }).persist,
            final(self)@.wf(),
            step.persist matches Some(s) ==> s@.wf(),
    {
        if self.state != RecorderState::Running || self.stage != Stage::Comparing {
            return self.ignore();
        }
        let measurement = match &self.pending {
            Some(current) => measure_frames(&self.previous, current, scores),
            None => Measurement::NoPrevious,
        };
        let outcome = compare_with_previous_image(
            measurement,
            &mut self.max_average,
            self.frame_counter,
        );
        if should_write(outcome) {
            self.start_write()
        } else {
            self.finish_frame(false)
        }
    }

    /// A write to the encoder ended.
    pub fn on_write(&mut self, ok: bool) -> (step: Step)
        requires
            old(self)@.wf(),
        ensures
            final(self)@ == old(self)@.next(Input::Written { ok }).next,
            step.action == old(self)@.next(Input::Written { ok }).action,
            segment_view(step.persist) == old(self)@.next(Input::Written { ok }).persist,
            final(self)@.wf(),
            step.persist matches Some(s) ==> s@.wf(),
    {
        if self.state != RecorderState::Running || self.stage != Stage::Writing {
            return self.ignore();
        }
        if ok {
            let _ = self.retry.after_attempt(true);
            self.finish_frame(true)
        } else {
            self.fail_attempt()
        }
    }

    /// The wait before another write attempt ended.
    pub fn on_backoff(&mut self) -> (step: Step)
        requires
            old(self)@.wf(),
        ensures
            final(self)@ == old(self)@.next(Input::BackoffElapsed).next,
            step.action == old(self)@.next(Input::BackoffElapsed).action,
            segment_view(step.persist) == old(self)@.next(Input::BackoffElapsed).persist,
            final(self)@.wf(),
            step.persist matches Some(s) ==> s@.wf(),
    {
        if self.state != RecorderState::Running || self.stage != Stage::Backoff {
            return self.ignore();
        }
        if self.payload.is_some() {
            self.stage = Stage::Writing;
            Step { action: Action::Write, persist: None }
        } else {
            self.fail_attempt()
        }
    }

    /// The clock was read at the end of the tick's work.
    pub fn on_clock(&mut self, now: u64) -> (step: Step)
        requires
            old(self)@.wf(),
        ensures
            final(self)@ == old(self)@.next(Input::Clock { now }).next,
            step.action == old(self)@.next(Input::Clock { now }).action,
            step.persist is None,
            final(self)@.wf(),
    {
        if self.state != RecorderState::Running || self.stage != Stage::Pacing {
            return self.ignore();
        }
        let wait = pace(&mut self.next_tick, self.interval, now);
        self.stage = Stage::Boundary;
        Step { action: Action::Sleep(wait), persist: None }
    }

    /// The encoder's input was closed and the encoder has exited, or
    /// waiting for it failed: either way the session is over.
    pub fn on_exit(&mut self) -> (step: Step)
        requires
            old(self)@.wf(),
        ensures
            final(self)@ == old(self)@.next(Input::EncoderExited).next,
            step.action == old(self)@.next(Input::EncoderExited).action,
            step.persist is None,
            final(self)@.wf(),
    {
        if self.state != RecorderState::Stopping {
            return self.ignore();
        }
        self.state = RecorderState::Stopped;
        Step { action: Action::Done, persist: None }
    }
}

} // verus!
