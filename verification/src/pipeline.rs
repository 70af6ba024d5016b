//! The upscaling pipeline as a state machine.
//!
//! The caller runs the processes.  It hands every line of output and every
//! exit to the pipeline, and the pipeline says what to log, what progress to
//! report, and which stage to start next.  The stages are strictly
//! sequential: decode, upscale, encode; a stage that fails ends the pipeline.

use vstd::prelude::*;
use vstd::string::*;
use crate::error::ConversionError;
use crate::progress::{
    band, decode_progress, decode_stage_progress, encode_progress, encode_stage_progress,
    lemma_progress_in_band, next_report, report_of, reported_after, upscale_progress,
    upscale_stage_progress, RunningStage, ENCODE_CAP,
};
use crate::text::{
    char_is_digit, chars_of, is_digit, parse_u32, parse_unsigned, push_signed_decimal,
    signed_decimal, trim, trimmed, views,
};
use crate::types::opt_view;

verus! {

/// What capture group 1 holds in the first match of the regular expression
/// `pattern` in `text`: the outer `None` where `pattern` is not a valid
/// expression, the inner `None` where nothing matches or the group took no
/// part in the match.
pub uninterp spec fn first_group(pattern: Seq<char>, text: Seq<char>) -> Option<
    Option<Seq<char>>,
>;

/// The texts of a capture.
pub open spec fn capture_view(capture: Option<Option<String>>) -> Option<Option<Seq<char>>> {
    match capture {
        Some(group) => Some(opt_view(group)),
        None => None,
    }
}

/// Compiles `pattern` with `regex::Regex::new`, searches `text` with
/// `Regex::captures`, and takes group 1 of the match with `Captures::get`
/// and `Match::as_str`.  The contract only names the result: it is whatever
/// the regex crate finds, and the same for the same two texts.
#[verifier::external_body]
pub(crate) fn capture_first_group(pattern: &str, text: &str) -> (r: Option<Option<String>>)
    ensures
        capture_view(r) == first_group(pattern@, text@),
{
    match regex::Regex::new(pattern) {
        Ok(re) => match re.captures(text) {
            Some(caps) => match caps.get(1) {
                Some(m) => Some(Some(m.as_str().to_string())),
                None => Some(None),
            },
            None => Some(None),
        },
        Err(_) => None,
    }
}

/// The expression that finds the frame counter in a line of the
/// transcoder's output.
pub open spec fn frame_pattern() -> Seq<char> {
    "frame=\\s*(\\d+)"@
}

/// The number that a capture denotes: the captured text read as an
/// unsigned decimal number that fits 32 bits.
pub open spec fn counter_of(capture: Option<Option<Seq<char>>>) -> Option<u32> {
    match capture {
        Some(Some(digits)) => match parse_unsigned(digits, u32::MAX as nat) {
            Some(n) => Some(n as u32),
            None => None,
        },
        _ => None,
    }
}

/// Reads the frame counter out of what the frame pattern captured.
pub fn read_frame_counter(capture: Option<Option<String>>) -> (r: Option<u32>)
    ensures
        r == counter_of(capture_view(capture)),
{
    match capture {
        Some(Some(digits)) => parse_u32(digits.as_str()),
        _ => None,
    }
}

/// The frame counter of a line of transcoder output, if the line has one.
pub fn frame_counter(line: &str) -> (r: Option<u32>)
    ensures
        r == counter_of(first_group(frame_pattern(), line@)),
{
    read_frame_counter(capture_first_group("frame=\\s*(\\d+)", line))
}

/// Whether `needle` stands somewhere in `text`.
pub open spec fn contains_text(text: Seq<char>, needle: Seq<char>) -> bool {
    exists|i: int|
        0 <= i <= text.len() - needle.len() && #[trigger] text.subrange(i, i + needle.len())
            == needle
}

fn matches_at(text: &Vec<char>, needle: &Vec<char>, at: usize) -> (r: bool)
    requires
        at + needle.len() <= text.len(),
    ensures
        r == (text@.subrange(at as int, at + needle.len()) == needle@),
{
    let mut k: usize = 0;
    while k < needle.len()
        invariant
            k <= needle.len(),
            at + needle.len() <= text.len(),
            forall|j: int| 0 <= j < k ==> text@[at + j] == needle@[j],
        decreases needle.len() - k,
    {
        if text[at + k] != needle[k] {
            assert(text@.subrange(at as int, at + needle.len())[k as int] != needle@[k as int]);
            return false;
        }
        k += 1;
    }
    assert(text@.subrange(at as int, at + needle.len()) =~= needle@);
    true
}

/// Searches `text` for `needle`.
pub fn text_contains(text: &str, needle: &str) -> (r: bool)
    ensures
        r == contains_text(text@, needle@),
{
    let t = chars_of(text);
    let n = chars_of(needle);
    if n.len() > t.len() {
        return false;
    }
    let last = t.len() - n.len();
    let mut i: usize = 0;
    while i <= last
        invariant
            i <= last,
            last == t.len() - n.len(),
            n.len() <= t.len(),
            t@ == text@,
            n@ == needle@,
            forall|j: int| 0 <= j < i ==> #[trigger] t@.subrange(j, j + n.len()) != n@,
        decreases last - i,
    {
        if matches_at(&t, &n, i) {
            return true;
        }
        if i == last {
            return false;
        }
        i += 1;
    }
    false
}

/// Whether one of `markers` stands in `line`.
pub open spec fn has_marker(line: Seq<char>, markers: Seq<Seq<char>>) -> bool {
    exists|k: int| 0 <= k < markers.len() && contains_text(line, #[trigger] markers[k])
}

fn line_has_marker(line: &str, markers: &Vec<String>) -> (r: bool)
    ensures
        r == has_marker(line@, views(markers@)),
{
    let mut k: usize = 0;
    while k < markers.len()
        invariant
            k <= markers.len(),
            forall|j: int| 0 <= j < k ==> !contains_text(line@, #[trigger] views(markers@)[j]),
        decreases markers.len() - k,
    {
        if text_contains(line, markers[k].as_str()) {
            assert(contains_text(line@, views(markers@)[k as int]));
            return true;
        }
        k += 1;
    }
    false
}

/// A line that only reports a percentage: it starts with a digit and ends
/// with `%`.
pub open spec fn is_percentage(line: Seq<char>) -> bool {
    line.len() > 0 && line.last() == '%' && is_digit(line.first())
}

fn is_percentage_line(line: &str) -> (r: bool)
    ensures
        r == is_percentage(line@),
{
    let v = chars_of(line);
    v.len() > 0 && v[v.len() - 1] == '%' && char_is_digit(v[0])
}

/// Where the pipeline stands.
#[derive(Clone, Copy, Debug, PartialEq, Eq, Structural)]
pub enum Stage {
    Decode,
    Upscale,
    Encode,
    Done,
    Failed,
}

/// The pipeline of one task.
#[derive(Debug)]
pub struct Pipeline {
    pub stage: Stage,
    /// The number of frames to work through: the estimate at first, the
    /// number of extracted frames once decoding is done.
    pub total_frames: u32,
    /// The frames that the upscaler has finished.
    pub completed_frames: u32,
    /// The last line that the upscaler wrote.
    pub last_line: String,
    /// The texts by which the upscaler marks a finished frame.
    pub markers: Vec<String>,
    /// The highest progress reported so far, in hundredths of a percent.
    pub reported: u32,
}

/// A pipeline as plain values.
pub struct PipelineView {
    pub stage: Stage,
    pub total_frames: u32,
    pub completed_frames: u32,
    pub last_line: Seq<char>,
    pub markers: Seq<Seq<char>>,
    pub reported: u32,
}

impl View for Pipeline {
    type V = PipelineView;

    open spec fn view(&self) -> PipelineView {
        PipelineView {
            stage: self.stage,
            total_frames: self.total_frames,
            completed_frames: self.completed_frames,
            last_line: self.last_line@,
            markers: views(self.markers@),
            reported: self.reported,
        }
    }
}

/// What to do with a line of output.
#[derive(Debug)]
pub struct LineOutcome {
    /// The line to put into the log, tagged by stage.
    pub log: Option<String>,
    /// The progress to report, in hundredths of a percent.  It is never
    /// below a progress that the pipeline has reported before.
    pub progress: Option<u32>,
}

/// What to do after a stage has exited.
#[derive(Debug)]
pub enum StageExit {
    /// Start the given stage.
    Start(RunningStage),
    /// The result is written; report completion.
    Completed,
    /// The pipeline has failed; clean up and report the error.
    Failed(ConversionError),
    /// The pipeline had already ended.
    Ignored,
}

/// Whether the pipeline reads the frame counter of a line.
pub open spec fn reads_counter(p: PipelineView) -> bool {
    (p.stage == Stage::Decode || p.stage == Stage::Encode) && p.total_frames > 0
}

/// The log entry for a line.
pub open spec fn line_log(p: PipelineView, line: Seq<char>) -> Option<Seq<char>> {
    match p.stage {
        Stage::Decode => Some("[DECODE] "@ + trimmed(line)),
        Stage::Upscale => if !is_percentage(trimmed(line)) && trimmed(line).len() > 0 {
            Some("[UPSCALE] "@ + trimmed(line))
        } else {
            None
        },
        Stage::Encode => Some("[ENCODE] "@ + trimmed(line)),
        _ => None,
    }
}

/// One more, unless the count is full.
pub open spec fn counted(n: u32) -> u32 {
    if n < u32::MAX {
        (n + 1) as u32
    } else {
        n
    }
}

/// The progress that a line stands for, by the formula of the stage.
pub open spec fn computed_progress(p: PipelineView, line: Seq<char>, counter: Option<u32>)
    -> Option<u32> {
    match p.stage {
        Stage::Decode => if p.total_frames > 0 && counter is Some {
            Some(decode_progress(counter->0 as nat, p.total_frames as nat) as u32)
        } else {
            None
        },
        Stage::Upscale => if has_marker(line, p.markers) {
            Some(
                upscale_progress(
                    counted(p.completed_frames) as nat,
                    p.total_frames as nat,
                ) as u32,
            )
        } else {
            None
        },
        Stage::Encode => if p.total_frames > 0 && counter is Some {
            Some(encode_progress(counter->0 as nat, p.total_frames as nat) as u32)
        } else {
            None
        },
        _ => None,
    }
}

/// The progress that a line gives rise to: what the line stands for, unless
/// that lies below the highest report so far.
pub open spec fn line_progress(p: PipelineView, line: Seq<char>, counter: Option<u32>) -> Option<
    u32,
> {
    report_of(p.reported, computed_progress(p, line, counter))
}

/// The pipeline after a line.
pub open spec fn after_line(p: PipelineView, line: Seq<char>, counter: Option<u32>)
    -> PipelineView {
    let reported = reported_after(p.reported, computed_progress(p, line, counter));
    if p.stage == Stage::Upscale {
        PipelineView {
            last_line: line,
            completed_frames: if has_marker(line, p.markers) {
                counted(p.completed_frames)
            } else {
                p.completed_frames
            },
            reported,
            ..p
        }
    } else {
        PipelineView { reported, ..p }
    }
}

/// The frame counter that the pipeline reads from a line, given what the
/// frame pattern captures in it.
pub open spec fn counter_read(p: PipelineView, capture: Option<Option<Seq<char>>>) -> Option<u32> {
    if reads_counter(p) {
        counter_of(capture)
    } else {
        None
    }
}

/// The stage that runs, if one does.
pub open spec fn running(stage: Stage) -> Option<RunningStage> {
    match stage {
        Stage::Decode => Some(RunningStage::Decode),
        Stage::Upscale => Some(RunningStage::Upscale),
        Stage::Encode => Some(RunningStage::Encode),
        _ => None,
    }
}

/// An exit status as the failure message shows it.
pub open spec fn status_text(code: Option<i32>) -> Seq<char> {
    match code {
        Some(n) => "Some("@ + signed_decimal(n as int) + ")"@,
        None => "None"@,
    }
}

/// The pipeline after the process of its stage has exited with `code`.
/// `frames_on_disk` is the number of extracted frames, where it could be
/// counted; a count above zero replaces the estimate.
pub open spec fn after_exit(p: PipelineView, code: Option<i32>, frames_on_disk: Option<u32>)
    -> PipelineView {
    match p.stage {
        Stage::Decode => if code == Some(0i32) {
            PipelineView {
                stage: Stage::Upscale,
                total_frames: match frames_on_disk {
                    Some(n) => if n > 0 {
                        n
                    } else {
                        p.total_frames
                    },
                    None => p.total_frames,
                },
                ..p
            }
        } else {
            PipelineView { stage: Stage::Failed, ..p }
        },
        Stage::Upscale => if code == Some(0i32) {
            PipelineView { stage: Stage::Encode, ..p }
        } else {
            PipelineView { stage: Stage::Failed, ..p }
        },
        Stage::Encode => if code == Some(0i32) {
            PipelineView { stage: Stage::Done, ..p }
        } else {
            PipelineView { stage: Stage::Failed, ..p }
        },
        _ => p,
    }
}

/// Why a stage that exited with `code` has failed.
pub open spec fn failure_reason(p: PipelineView, code: Option<i32>) -> Seq<char> {
    match p.stage {
        Stage::Decode => "Frame extraction failed"@,
        Stage::Upscale => "Upscaling failed: "@ + p.last_line,
        _ => "Encoder failed with code "@ + status_text(code),
    }
}

/// Whether `exit` is what the pipeline `p` answers to an exit with `code`.
pub open spec fn exit_answer(p: PipelineView, code: Option<i32>, exit: StageExit) -> bool {
    match running(p.stage) {
        None => exit is Ignored,
        Some(stage) => if code == Some(0i32) {
            match stage {
                RunningStage::Decode => exit == StageExit::Start(RunningStage::Upscale),
                RunningStage::Upscale => exit == StageExit::Start(RunningStage::Encode),
                RunningStage::Encode => exit is Completed,
            }
        } else {
            exit matches StageExit::Failed(e) && e is Worker && e.reason() == failure_reason(
                p,
                code,
            )
        },
    }
}

/// The markers of the upscaler that ships with the application.
pub fn default_markers() -> (r: Vec<String>)
    ensures
        views(r@) == seq!["\u{2192}"@, "->"@],
{
    let mut markers: Vec<String> = Vec::new();
    markers.push(String::from_str("\u{2192}"));
    markers.push(String::from_str("->"));
    assert(views(markers@) =~= seq!["\u{2192}"@, "->"@]);
    markers
}

impl Pipeline {
    /// A pipeline about to decode, expecting `expected_frames` frames.
    pub fn new(expected_frames: u32, markers: Vec<String>) -> (p: Pipeline)
        ensures
            p@ == (PipelineView {
                stage: Stage::Decode,
                total_frames: expected_frames,
                completed_frames: 0,
                last_line: Seq::empty(),
                markers: views(markers@),
                reported: 0,
            }),
    {
        Pipeline {
            stage: Stage::Decode,
            total_frames: expected_frames,
            completed_frames: 0,
            last_line: String::new(),
            markers,
            reported: 0,
        }
    }

    fn log_entry(&self, line: &str) -> (r: Option<String>)
        ensures
            opt_view(r) == line_log(self@, line@),
    {
        let text = trim(line);
        match self.stage {
            Stage::Decode => Some(String::from_str("[DECODE] ").concat(text)),
            Stage::Upscale => {
                if !is_percentage_line(text) && !text.is_empty() {
                    Some(String::from_str("[UPSCALE] ").concat(text))
                } else {
                    None
                }
            },
            Stage::Encode => Some(String::from_str("[ENCODE] ").concat(text)),
            _ => None,
        }
    }

    /// Takes one line of output, with the frame counter that was read from
    /// it.  The line is logged under the tag of the stage.  A frame counter,
    /// or a finished frame of the upscaler, gives progress within the band of
    /// the stage; it is reported unless it lies below the highest report so
    /// far, so that the reports of a pipeline never go back.
    pub fn on_line_with(&mut self, line: &str, counter: Option<u32>) -> (r: LineOutcome)
        ensures
            final(self)@ == after_line(old(self)@, line@, counter),
            opt_view(r.log) == line_log(old(self)@, line@),
            r.progress == line_progress(old(self)@, line@, counter),
            r.progress matches Some(p) ==> old(self)@.reported <= p <= ENCODE_CAP,
            r.progress matches Some(p) ==> running(old(self).stage) matches Some(stage) && band(
                stage,
            ).0 <= p <= band(stage).1,
            final(self)@.reported == (if r.progress is Some {
                r.progress->0
            } else {
                old(self)@.reported
            }),
    {
        let log = self.log_entry(line);
        let mut computed: Option<u32> = None;
        match self.stage {
            Stage::Decode => {
                if let Some(frame) = counter {
                    computed = decode_stage_progress(frame, self.total_frames);
                }
            },
            Stage::Upscale => {
                self.last_line = String::from_str(line);
                if line_has_marker(line, &self.markers) {
                    if self.completed_frames < u32::MAX {
                        self.completed_frames = self.completed_frames + 1;
                    }
                    computed =
                    Some(upscale_stage_progress(self.completed_frames, self.total_frames));
                }
            },
            Stage::Encode => {
                if let Some(frame) = counter {
                    computed = encode_stage_progress(frame, self.total_frames);
                }
            },
            _ => {},
        }
        let progress = next_report(&mut self.reported, computed);
        LineOutcome { log, progress }
    }

    /// Takes one line of output.  While decoding and encoding, the frame
    /// counter is what the frame pattern captures in the line.
    pub fn on_line(&mut self, line: &str) -> (r: LineOutcome)
        ensures
            final(self)@ == after_line(
                old(self)@,
                line@,
                counter_read(old(self)@, first_group(frame_pattern(), line@)),
            ),
            opt_view(r.log) == line_log(old(self)@, line@),
            r.progress == line_progress(
                old(self)@,
                line@,
                counter_read(old(self)@, first_group(frame_pattern(), line@)),
            ),
            r.progress matches Some(p) ==> old(self)@.reported <= p <= ENCODE_CAP,
            r.progress matches Some(p) ==> running(old(self).stage) matches Some(stage) && band(
                stage,
            ).0 <= p <= band(stage).1,
            final(self)@.reported == (if r.progress is Some {
                r.progress->0
            } else {
                old(self)@.reported
            }),
    {
        let reads = (self.stage == Stage::Decode || self.stage == Stage::Encode)
            && self.total_frames > 0;
        let counter = if reads {
            frame_counter(line)
        } else {
            None
        };
        self.on_line_with(line, counter)
    }

    /// Takes the exit of the process of the running stage.  Exit status
    /// zero moves on to the next stage, and from encoding to completion; any
    /// other or a missing status fails the pipeline.
    pub fn on_exit(&mut self, code: Option<i32>, frames_on_disk: Option<u32>) -> (r: StageExit)
        ensures
            final(self)@ == after_exit(old(self)@, code, frames_on_disk),
            exit_answer(old(self)@, code, r),
            final(self)@.reported == old(self)@.reported,
    {
        let success = match code {
            Some(n) => n == 0,
            None => false,
        };
        match self.stage {
            Stage::Decode => {
                if success {
                    self.stage = Stage::Upscale;
                    if let Some(n) = frames_on_disk {
                        if n > 0 {
                            self.total_frames = n;
                        }
                    }
                    StageExit::Start(RunningStage::Upscale)
                } else {
                    self.stage = Stage::Failed;
                    StageExit::Failed(
                        ConversionError::Worker(String::from_str("Frame extraction failed")),
                    )
                }
            },
            Stage::Upscale => {
                if success {
                    self.stage = Stage::Encode;
                    StageExit::Start(RunningStage::Encode)
                } else {
                    self.stage = Stage::Failed;
                    StageExit::Failed(
                        ConversionError::Worker(
                            String::from_str("Upscaling failed: ").concat(self.last_line.as_str()),
                        ),
                    )
                }
            },
            Stage::Encode => {
                if success {
                    self.stage = Stage::Done;
                    StageExit::Completed
                } else {
                    self.stage = Stage::Failed;
                    let mut reason = String::from_str("Encoder failed with code ");
                    match code {
                        Some(n) => {
                            reason.append("Some(");
                            push_signed_decimal(&mut reason, n as i64);
                            reason.append(")");
                        },
                        None => {
                            reason.append("None");
                        },
                    }
                    assert(reason@ =~= "Encoder failed with code "@ + status_text(code));
                    StageExit::Failed(ConversionError::Worker(reason))
                }
            },
            _ => StageExit::Ignored,
        }
    }
}

/// The place of a stage in the pipeline; the two ends come last.
pub open spec fn stage_order(stage: Stage) -> nat {
    match stage {
        Stage::Decode => 0,
        Stage::Upscale => 1,
        Stage::Encode => 2,
        Stage::Done => 3,
        Stage::Failed => 3,
    }
}

/// The pipeline only moves forward: a line never changes the stage, an exit
/// moves a running stage to its successor or to failure, and a pipeline
/// that has ended stays as it is.  Only a successful encode ends in `Done`.
pub proof fn lemma_stages_in_order(
    p: PipelineView,
    line: Seq<char>,
    counter: Option<u32>,
    code: Option<i32>,
    frames_on_disk: Option<u32>,
)
    ensures
        after_line(p, line, counter).stage == p.stage,
        stage_order(after_exit(p, code, frames_on_disk).stage) >= stage_order(p.stage),
        running(p.stage) is Some ==> after_exit(p, code, frames_on_disk).stage == Stage::Failed
            || stage_order(after_exit(p, code, frames_on_disk).stage) == stage_order(p.stage) + 1,
        running(p.stage) is None ==> after_exit(p, code, frames_on_disk) == p,
        after_exit(p, code, frames_on_disk).stage == Stage::Done && p.stage != Stage::Done ==> p.stage
            == Stage::Encode && code == Some(0i32),
{
}

/// What a pipeline is handed: a line of output with the frame counter read
/// from it, or the exit of the process of the running stage.
pub enum PipelineEvent {
    Line { line: Seq<char>, counter: Option<u32> },
    Exit { code: Option<i32>, frames_on_disk: Option<u32> },
}

/// The pipeline after one event.
pub open spec fn after_event(p: PipelineView, event: PipelineEvent) -> PipelineView {
    match event {
        PipelineEvent::Line { line, counter } => after_line(p, line, counter),
        PipelineEvent::Exit { code, frames_on_disk } => after_exit(p, code, frames_on_disk),
    }
}

/// The progress that one event makes the pipeline report.
pub open spec fn event_report(p: PipelineView, event: PipelineEvent) -> Option<u32> {
    match event {
        PipelineEvent::Line { line, counter } => line_progress(p, line, counter),
        PipelineEvent::Exit { .. } => None,
    }
}

/// The pipeline after a sequence of events.
pub open spec fn after_events(p: PipelineView, events: Seq<PipelineEvent>) -> PipelineView
    decreases events.len(),
{
    if events.len() == 0 {
        p
    } else {
        after_event(after_events(p, events.drop_last()), events.last())
    }
}

/// Every progress that a sequence of events makes the pipeline report, in
/// the order of the reports.
pub open spec fn reports_of(p: PipelineView, events: Seq<PipelineEvent>) -> Seq<u32>
    decreases events.len(),
{
    if events.len() == 0 {
        Seq::empty()
    } else {
        let earlier = reports_of(p, events.drop_last());
        match event_report(after_events(p, events.drop_last()), events.last()) {
            Some(report) => earlier.push(report),
            None => earlier,
        }
    }
}

/// Progress never goes back.  Whatever lines and exits a pipeline is handed,
/// in whatever order and with whatever frame counters, each report is at
/// least the one before it, none is below what was reported before the first
/// event, and none exceeds 99 percent.
pub proof fn lemma_reports_never_fall(p: PipelineView, events: Seq<PipelineEvent>)
    ensures
        forall|i: int, j: int|
            0 <= i <= j < reports_of(p, events).len() ==> reports_of(p, events)[i] <= reports_of(
                p,
                events,
            )[j],
        forall|i: int|
            0 <= i < reports_of(p, events).len() ==> p.reported <= (#[trigger] reports_of(
                p,
                events,
            )[i]) <= ENCODE_CAP,
        forall|i: int|
            0 <= i < reports_of(p, events).len() ==> (#[trigger] reports_of(p, events)[i])
                <= after_events(p, events).reported,
        p.reported <= after_events(p, events).reported,
    decreases events.len(),
{
    if events.len() > 0 {
        let earlier = events.drop_last();
        lemma_reports_never_fall(p, earlier);
        let before = after_events(p, earlier);
        let after = after_events(p, events);
        let all = reports_of(p, events);
        let first = reports_of(p, earlier);
        match event_report(before, events.last()) {
            Some(report) => {
                let line = events.last()->line;
                let counter = events.last()->counter;
                let stage = running(before.stage)->0;
                let count = match stage {
                    RunningStage::Upscale => counted(before.completed_frames) as nat,
                    _ => counter->0 as nat,
                };
                lemma_progress_in_band(stage, count, before.total_frames as nat);
                assert(all == first.push(report));
                assert(before.reported <= report <= ENCODE_CAP);
                assert(after.reported == report);
                assert forall|a: int, b: int| 0 <= a <= b < all.len() implies all[a] <= all[b] by {
                    if b < first.len() {
                        assert(first[a] <= first[b]);
                    } else if a < first.len() {
                        assert(first[a] <= before.reported);
                    }
                }
                assert forall|a: int| 0 <= a < all.len() implies p.reported <= (#[trigger] all[a])
                    <= ENCODE_CAP && all[a] <= after.reported by {
                    if a < first.len() {
                        assert(first[a] <= before.reported);
                    }
                }
            },
            None => {
                assert(all == first);
                assert(after.reported == before.reported);
            },
        }
    }
}

} // verus!
