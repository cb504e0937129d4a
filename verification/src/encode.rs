//! The encoder sink: where the encoder program is looked for, how it is
//! started, what is written to it, and how a failed write is retried.

use vstd::prelude::*;
use vstd::string::StringExecFns;
use crate::frame::Frame;

verus! {

/// A frame together with its number in the session.
#[derive(Debug)]
pub struct CaptureResult {
    pub image: Frame,
    pub frame_number: u64,
}

/// One place where the encoder program may lie: in `directory` itself, or
/// in the directory named `ffmpeg` inside it.
#[derive(Debug)]
pub struct Probe {
    pub directory: String,
    pub nested: bool,
}

/// What looking at one place gave.
#[derive(Debug)]
pub enum Finding {
    /// No file lies there.
    Absent,
    /// A file lies there, at this path.
    Present(String),
}

/// A finding as a mathematical value: the path of the file that lies
/// there, if one does.
pub open spec fn finding_view(finding: Finding) -> Option<Seq<char>> {
    match finding {
        Finding::Absent => None,
        Finding::Present(path) => Some(path@),
    }
}

/// The places to look at, in order: first the `ffmpeg` directory inside
/// each directory from the program's own upward; then the program's own
/// directory itself; then the `ffmpeg` directory inside the working
/// directory, and the working directory itself. `ancestors` starts with
/// the program's own directory.
pub open spec fn plan_of(ancestors: Seq<Seq<char>>, working_dir: Option<Seq<char>>) -> Seq<
    (Seq<char>, bool),
> {
    Seq::new(ancestors.len(), |k: int| (ancestors[k], true)) + (if ancestors.len() > 0 {
        seq![(ancestors[0], false)]
    } else {
        Seq::empty()
    }) + (match working_dir {
        Some(d) => seq![(d, true), (d, false)],
        None => Seq::empty(),
    })
}

/// The encoder program that is used: the path of the first place where a
/// file lies, else what the search path of the system gave.
pub open spec fn located(findings: Seq<Option<Seq<char>>>, fallback: Option<Seq<char>>) -> Option<
    Seq<char>,
>
    decreases findings.len(),
{
    if findings.len() == 0 {
        fallback
    } else {
        match findings[0] {
            Some(path) => Some(path),
            None => located(findings.skip(1), fallback),
        }
    }
}

/// The encoder that is picked lies at a place that was looked at, the
/// first with a file, or is what the search path gave where no place
/// has a file; none is picked exactly where no place has a file and the
/// search path gave nothing.
pub proof fn lemma_located_is_first_match(
    findings: Seq<Option<Seq<char>>>,
    fallback: Option<Seq<char>>,
)
    ensures
        (forall|i: int| 0 <= i < findings.len() ==> findings[i] is None) ==> located(
            findings,
            fallback,
        ) == fallback,
        forall|i: int|
            0 <= i < findings.len() && findings[i] is Some && (forall|j: int|
                0 <= j < i ==> findings[j] is None) ==> located(findings, fallback)
                == findings[i],
        located(findings, fallback) is None <==> fallback is None && (forall|i: int|
            0 <= i < findings.len() ==> findings[i] is None),
    decreases findings.len(),
{
    if findings.len() > 0 {
        let rest = findings.skip(1);
        lemma_located_is_first_match(rest, fallback);
        assert(forall|i: int| 0 <= i < rest.len() ==> rest[i] == findings[i + 1]);
        if findings[0] is None {
            assert forall|i: int|
                0 <= i < findings.len() && findings[i] is Some && (forall|j: int|
                    0 <= j < i ==> findings[j] is None) implies located(findings, fallback)
                == findings[i] by {
                assert(i >= 1);
                assert(rest[i - 1] == findings[i]);
                assert(forall|j: int| 0 <= j < i - 1 ==> rest[j] is None) by {
                    assert forall|j: int| 0 <= j < i - 1 implies rest[j] is None by {
                        assert(rest[j] == findings[j + 1]);
                    }
                }
            }
            if forall|i: int| 0 <= i < findings.len() ==> findings[i] is None {
                assert(forall|i: int| 0 <= i < rest.len() ==> rest[i] is None);
            }
            if forall|i: int| 0 <= i < rest.len() ==> rest[i] is None {
                assert forall|i: int| 0 <= i < findings.len() implies findings[i] is None by {
                    if i >= 1 {
                        assert(rest[i - 1] == findings[i]);
                    }
                }
            }
        }
    }
}

/// The view of a text that may be absent.
pub open spec fn text_view(text: Option<String>) -> Option<Seq<char>> {
    match text {
        Some(t) => Some(t@),
        None => None,
    }
}

/// Lists the places where the encoder program is looked for, in the
/// order in which they count. `ancestors` starts with the program's own
/// directory and goes upward.
pub fn probe_plan(ancestors: &Vec<String>, working_dir: &Option<String>) -> (plan: Vec<Probe>)
    ensures
        plan@.map_values(|p: Probe| (p.directory@, p.nested)) == plan_of(
            ancestors@.map_values(|s: String| s@),
            text_view(*working_dir),
        ),
{
    let ghost names = ancestors@.map_values(|s: String| s@);
    let mut plan: Vec<Probe> = Vec::new();
    let mut i: usize = 0;
    while i < ancestors.len()
        invariant
            i <= ancestors.len(),
            names == ancestors@.map_values(|s: String| s@),
            plan@.map_values(|p: Probe| (p.directory@, p.nested)) == Seq::new(
                i as nat,
                |k: int| (names[k], true),
            ),
        decreases ancestors.len() - i,
    {
        let ghost before = plan@.map_values(|p: Probe| (p.directory@, p.nested));
        plan.push(Probe { directory: ancestors[i].clone(), nested: true });
        assert(plan@.map_values(|p: Probe| (p.directory@, p.nested)) =~= Seq::new(
            (i + 1) as nat,
            |k: int| (names[k], true),
        )) by {
            let after = plan@.map_values(|p: Probe| (p.directory@, p.nested));
            assert(before.len() == i);
            assert(names[i as int] == ancestors@[i as int]@);
            assert forall|k: int| 0 <= k < after.len() implies after[k] == (names[k], true) by {
                if k < i {
                    assert(after[k] == before[k]);
                }
            }
        }
        i += 1;
    }
    let ghost nested = plan@.map_values(|p: Probe| (p.directory@, p.nested));
    if ancestors.len() > 0 {
        plan.push(Probe { directory: ancestors[0].clone(), nested: false });
        assert(names[0] == ancestors@[0]@);
        assert(plan@.map_values(|p: Probe| (p.directory@, p.nested)) =~= nested + seq![
            (names[0], false),
        ]);
    } else {
        assert(nested + Seq::<(Seq<char>, bool)>::empty() =~= nested);
    }
    let ghost listed = plan@.map_values(|p: Probe| (p.directory@, p.nested));
    match working_dir {
        Some(d) => {
            plan.push(Probe { directory: d.clone(), nested: true });
            plan.push(Probe { directory: d.clone(), nested: false });
            assert(plan@.map_values(|p: Probe| (p.directory@, p.nested)) =~= listed + seq![
                (d@, true),
                (d@, false),
            ]);
        },
        None => {
            assert(listed + Seq::<(Seq<char>, bool)>::empty() =~= listed);
        },
    }
    plan
}

/// Picks the encoder program: the first place of the plan where a file
/// lies wins; with none, what the search path of the system gave; with
/// neither, no encoder is found and no session can start.
pub fn find_ffmpeg_path(findings: &Vec<Finding>, on_search_path: Option<String>) -> (path:
    Option<String>)
    ensures
        text_view(path) == located(
            findings@.map_values(|f: Finding| finding_view(f)),
            text_view(on_search_path),
        ),
{
    let ghost views = findings@.map_values(|f: Finding| finding_view(f));
    let ghost fallback = text_view(on_search_path);
    let mut i: usize = 0;
    assert(views.skip(0) == views);
    while i < findings.len()
        invariant
            i <= findings.len(),
            views == findings@.map_values(|f: Finding| finding_view(f)),
            fallback == text_view(on_search_path),
            located(views, fallback) == located(views.skip(i as int), fallback),
        decreases findings.len() - i,
    {
        let ghost rest = views.skip(i as int);
        assert(rest.len() > 0);
        assert(rest[0] == finding_view(findings@[i as int]));
        assert(rest.skip(1) == views.skip(i + 1));
        match &findings[i] {
            Finding::Present(path) => {
                let found = path.clone();
                assert(located(rest, fallback) == Some(found@));
                return Some(found);
            },
            Finding::Absent => {
                assert(located(rest, fallback) == located(rest.skip(1), fallback));
            },
        }
        i += 1;
    }
    assert(views.skip(i as int).len() == 0);
    on_search_path
}

/// The arguments with which the encoder is started: a stream of PNG
/// images on its input at the given rate, both dimensions padded to even,
/// HEVC at constant quality 23 with the fastest preset and the `hvc1`
/// tag, 4:2:0 pixels, and the output file last.
pub open spec fn encoder_arguments(rate: Seq<char>, output_file: Seq<char>) -> Seq<Seq<char>> {
    seq![
        "-f"@,
        "image2pipe"@,
        "-vcodec"@,
        "png"@,
        "-r"@,
        rate,
        "-i"@,
        "-"@,
        "-vf"@,
        "pad=width=ceil(iw/2)*2:height=ceil(ih/2)*2"@,
        "-vcodec"@,
        "libx265"@,
        "-tag:v"@,
        "hvc1"@,
        "-preset"@,
        "ultrafast"@,
        "-crf"@,
        "23"@,
        "-pix_fmt"@,
        "yuv420p"@,
        output_file,
    ]
}

/// Builds the arguments with which the encoder is started, for the frame
/// rate written as `rate`.
pub fn ffmpeg_args(output_file: &str, rate: &str) -> (args: Vec<String>)
    ensures
        args@.map_values(|s: String| s@) == encoder_arguments(rate@, output_file@),
{
    let mut args: Vec<String> = Vec::new();
    args.push(String::from_str("-f"));
    args.push(String::from_str("image2pipe"));
    args.push(String::from_str("-vcodec"));
    args.push(String::from_str("png"));
    args.push(String::from_str("-r"));
    args.push(String::from_str(rate));
    args.push(String::from_str("-i"));
    args.push(String::from_str("-"));
    args.push(String::from_str("-vf"));
    args.push(String::from_str("pad=width=ceil(iw/2)*2:height=ceil(ih/2)*2"));
    args.push(String::from_str("-vcodec"));
    args.push(String::from_str("libx265"));
    args.push(String::from_str("-tag:v"));
    args.push(String::from_str("hvc1"));
    args.push(String::from_str("-preset"));
    args.push(String::from_str("ultrafast"));
    args.push(String::from_str("-crf"));
    args.push(String::from_str("23"));
    args.push(String::from_str("-pix_fmt"));
    args.push(String::from_str("yuv420p"));
    args.push(String::from_str(output_file));
    assert(args@.map_values(|s: String| s@) =~= encoder_arguments(rate@, output_file@));
    args
}

/// The PNG stream that the `image` crate writes for an RGBA image of the
/// given size and pixels; `None` where it refuses the image.
pub uninterp spec fn png_stream(width: nat, height: nat, rgba: Seq<u8>) -> Option<Seq<u8>>;

/// Encodes RGBA pixels as a PNG stream in memory.
///
/// Builds an `image::RgbaImage` over a copy of the pixels with
/// `ImageBuffer::from_raw` and writes it with `DynamicImage::write_to` in
/// the PNG format. The encoder is deterministic, so the contract names
/// its result; it claims nothing else. The buffer must hold exactly the
/// pixels, since the encoder panics on any other length.
#[verifier::external_body]
fn encode_png(width: u32, height: u32, rgba: &Vec<u8>) -> (stream: Option<Vec<u8>>)
    requires
        rgba@.len() == 4 * (width as nat) * (height as nat),
    ensures
        match stream {
            Some(bytes) => png_stream(width as nat, height as nat, rgba@) == Some(bytes@),
            None => png_stream(width as nat, height as nat, rgba@) is None,
        },
{
    let image = image::RgbaImage::from_raw(width, height, rgba.clone())?;
    let mut buffer: Vec<u8> = Vec::new();
    image::DynamicImage::ImageRgba8(image)
        .write_to(&mut std::io::Cursor::new(&mut buffer), image::ImageFormat::Png)
        .ok()?;
    Some(buffer)
}

/// Why a frame could not be turned into bytes for the encoder.
#[derive(Clone, Copy, Debug, PartialEq, Eq, Structural)]
pub enum EncodeError {
    /// The buffer does not hold exactly the pixels of the frame.
    MalformedFrame,
    /// The PNG encoder refused the frame.
    EncoderRefused,
}

/// What is written to the encoder for a frame, given the PNG stream of
/// its pixels.
pub open spec fn payload_of(well_formed: bool, stream: Option<Seq<u8>>) -> Result<
    Seq<u8>,
    EncodeError,
> {
    if !well_formed {
        Err(EncodeError::MalformedFrame)
    } else {
        match stream {
            Some(bytes) => Ok(bytes),
            None => Err(EncodeError::EncoderRefused),
        }
    }
}

/// The view of an encoding result.
pub open spec fn payload_view(payload: Result<Vec<u8>, EncodeError>) -> Result<
    Seq<u8>,
    EncodeError,
> {
    match payload {
        Ok(bytes) => Ok(bytes@),
        Err(e) => Err(e),
    }
}

/// Decides what is written for a frame from what the PNG encoder gave.
pub fn payload_from(stream: Option<Vec<u8>>) -> (payload: Result<Vec<u8>, EncodeError>)
    ensures
        payload_view(payload) == payload_of(
            true,
            match stream {
                Some(bytes) => Some(bytes@),
                None => None,
            },
        ),
{
    match stream {
        Some(bytes) => Ok(bytes),
        None => Err(EncodeError::EncoderRefused),
    }
}

/// Encodes a frame as the bytes that are written to the encoder's input:
/// one PNG image, built fully in memory.
pub fn write_frame_to_ffmpeg(frame: &Frame) -> (payload: Result<Vec<u8>, EncodeError>)
    ensures
        payload_view(payload) == payload_of(
            frame@.well_formed(),
            png_stream(frame@.width, frame@.height, frame@.rgba),
        ),
{
    if !frame.is_well_formed() {
        return Err(EncodeError::MalformedFrame);
    }
    payload_from(encode_png(frame.width, frame.height, &frame.rgba))
}

/// The most attempts that one write gets.
pub const MAX_RETRIES: u8 = 3;

/// The time between two attempts, in milliseconds.
pub const RETRY_DELAY_MS: u64 = 100;

/// What follows an attempt to write.
#[derive(Clone, Copy, Debug, PartialEq, Eq, Structural)]
pub enum RetryStep {
    /// The write succeeded.
    Done,
    /// The write failed: wait `RETRY_DELAY_MS`, then try again.
    Wait,
    /// The write failed for the last time: the session must end.
    Fatal,
}

/// The attempts of one write.
#[derive(Clone, Copy, Debug, PartialEq, Eq, Structural)]
pub struct RetryState {
    pub attempts: u8,
    pub settled: bool,
}

impl RetryState {
    /// No more attempts were made than a write gets.
    pub open spec fn wf(self) -> bool {
        self.attempts <= MAX_RETRIES
    }

    /// Whether another attempt may be made.
    pub open spec fn open(self) -> bool {
        !self.settled && self.attempts < MAX_RETRIES
    }

    /// The state after an attempt that ended as `ok` says.
    pub open spec fn after(self, ok: bool) -> RetryState {
        RetryState {
            attempts: (self.attempts + 1) as u8,
            settled: ok || self.attempts + 1 >= MAX_RETRIES,
        }
    }

    /// What follows an attempt that ended as `ok` says.
    pub open spec fn step(self, ok: bool) -> RetryStep {
        if ok {
            RetryStep::Done
        } else if self.attempts + 1 >= MAX_RETRIES {
            RetryStep::Fatal
        } else {
            RetryStep::Wait
        }
    }

    /// The state after the attempts whose ends `outcomes` lists, as far
    /// as attempts are made: none follows a success or the last failure.
    pub open spec fn run(self, outcomes: Seq<bool>) -> RetryState
        decreases outcomes.len(),
    {
        if outcomes.len() == 0 || !self.open() {
            self
        } else {
            self.after(outcomes[0]).run(outcomes.skip(1))
        }
    }

    /// The state before the first attempt.
    pub fn new() -> (r: RetryState)
        ensures
            r == (RetryState { attempts: 0, settled: false }),
            r.wf(),
            r.open(),
    {
        RetryState { attempts: 0, settled: false }
    }

    /// Whether another attempt may be made.
    pub fn is_open(&self) -> (r: bool)
        ensures
            r == self.open(),
    {
        !self.settled && self.attempts < MAX_RETRIES
    }

    /// Records the end of an attempt and says what follows.
    pub fn after_attempt(&mut self, ok: bool) -> (step: RetryStep)
        requires
            old(self).open(),
        ensures
            *final(self) == old(self).after(ok),
            step == old(self).step(ok),
            final(self).wf(),
            final(self).open() <==> step == RetryStep::Wait,
    {
        self.attempts = self.attempts + 1;
        if ok {
            self.settled = true;
            RetryStep::Done
        } else if self.attempts >= MAX_RETRIES {
            self.settled = true;
            RetryStep::Fatal
        } else {
            RetryStep::Wait
        }
    }
}

/// However the attempts end, a write gets at most `MAX_RETRIES` of them.
pub proof fn lemma_retry_bounded(state: RetryState, outcomes: Seq<bool>)
    requires
        state.wf(),
    ensures
        state.run(outcomes).wf(),
        state.run(outcomes).attempts <= state.attempts + outcomes.len(),
        state.run(outcomes).attempts >= state.attempts,
    decreases outcomes.len(),
{
    if outcomes.len() > 0 && state.open() {
        lemma_retry_bounded(state.after(outcomes[0]), outcomes.skip(1));
    }
}

/// No attempt follows a success: every attempt but the last one made
/// has failed. And the attempts go on until one succeeds, the outcomes
/// run out, or the bound is reached.
pub proof fn lemma_attempts_stop_at_success(state: RetryState, outcomes: Seq<bool>)
    requires
        state.wf(),
        state.open(),
    ensures
        ({
            let made = state.run(outcomes).attempts - state.attempts;
            &&& forall|i: int| 0 <= i < made - 1 ==> !outcomes[i]
            &&& made < outcomes.len() && state.run(outcomes).attempts < MAX_RETRIES ==> made >= 1
                && outcomes[made - 1]
            &&& made >= 1 && outcomes[made - 1] ==> state.run(outcomes).settled
        }),
    decreases outcomes.len(),
{
    if outcomes.len() > 0 {
        let next = state.after(outcomes[0]);
        let rest = outcomes.skip(1);
        lemma_retry_bounded(next, rest);
        if next.open() {
            lemma_attempts_stop_at_success(next, rest);
            let made = state.run(outcomes).attempts - state.attempts;
            assert(forall|i: int| 0 <= i < made - 1 ==> !outcomes[i]) by {
                assert forall|i: int| 0 <= i < made - 1 implies !outcomes[i] by {
                    if i > 0 {
                        assert(outcomes[i] == rest[i - 1]);
                    }
                }
            }
            if made - 1 >= 1 {
                assert(outcomes[made - 1] == rest[made - 2]);
            }
        }
    }
}

} // verus!
