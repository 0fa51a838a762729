//! The job pipeline: the order of the stages, cancellation, and the events
//! sent to the client.
//!
//! The stages themselves (a subprocess, a transfer) run outside; this module
//! decides, from the stage a job is in and what just happened, what comes
//! next.

use vstd::prelude::*;
use crate::text::{decimal_of, decimal_text, padded_decimal, padded_decimal_text, push_char};

verus! {

/// Where a job is.
#[derive(Debug, Clone, Copy, PartialEq, Eq, Structural)]
pub enum Stage {
    Ripping,
    Encoding,
    Uploading,
    /// Registering the upload with the library and asking for a rescan.
    Registering,
    Done,
    Cancelled,
    Failed,
}

/// What happened to a job.
#[derive(Debug, Clone, Copy, PartialEq, Eq)]
pub enum Event {
    /// The running stage ended normally.
    StageFinished,
    /// The running stage ended with an error.
    StageFailed,
    /// The client sent the cancel message.
    CancelRequested,
}

/// What the runner of a job does next.
#[derive(Debug, Clone, Copy, PartialEq, Eq)]
pub enum Action {
    StartEncoding,
    StartUploading,
    Register,
    /// Raise the cancellation flag (the running stage stops at its next line
    /// or chunk) and delete the job's ripped and encoded files.
    CleanUp,
    /// Send the client an error event and close the job.
    ReportFailure,
    /// Close the job.
    Finish,
    Nothing,
}

/// The state of a job: its stage, and whether cancellation was asked for.
#[derive(Debug, Clone, Copy, PartialEq, Eq)]
pub struct JobState {
    pub stage: Stage,
    pub cancelled: bool,
}

/// Whether a stage is one of rip, encode and upload.
pub open spec fn is_transfer(s: Stage) -> bool {
    s == Stage::Ripping || s == Stage::Encoding || s == Stage::Uploading
}

/// Whether a job in stage `s` is over.
pub open spec fn is_over(s: Stage) -> bool {
    s == Stage::Done || s == Stage::Cancelled || s == Stage::Failed
}

/// The state and action after event `e` in state `j`.
pub open spec fn transition(j: JobState, e: Event) -> (JobState, Action) {
    if is_over(j.stage) {
        (j, Action::Nothing)
    } else {
        match e {
            Event::CancelRequested => if is_transfer(j.stage) && !j.cancelled {
                (JobState { cancelled: true, ..j }, Action::CleanUp)
            } else {
                (j, Action::Nothing)
            },
            Event::StageFailed => if j.cancelled {
                (JobState { stage: Stage::Cancelled, ..j }, Action::Finish)
            } else {
                (JobState { stage: Stage::Failed, ..j }, Action::ReportFailure)
            },
            Event::StageFinished => if j.cancelled {
                (JobState { stage: Stage::Cancelled, ..j }, Action::Finish)
            } else {
                match j.stage {
                    Stage::Ripping => (JobState { stage: Stage::Encoding, ..j }, Action::StartEncoding),
                    Stage::Encoding => (JobState { stage: Stage::Uploading, ..j }, Action::StartUploading),
                    Stage::Uploading => (JobState { stage: Stage::Registering, ..j }, Action::Register),
                    _ => (JobState { stage: Stage::Done, ..j }, Action::Finish),
                }
            },
        }
    }
}

/// A job as it starts: ripping, not cancelled.
pub fn start_job() -> (j: JobState)
    ensures
        j == (JobState { stage: Stage::Ripping, cancelled: false }),
{
    JobState { stage: Stage::Ripping, cancelled: false }
}

/// Moves a job on by one event, and says what to do.
///
/// Stages run in the order rip, encode, upload, then registration. A cancel
/// during a transfer stage raises the flag and cleans up at once; the
/// running stage then ends, and the job ends cancelled without starting
/// another stage. A failed stage ends the job with an error event.
pub fn on_event(job: &mut JobState, e: Event) -> (a: Action)
    ensures
        (*final(job), a) == transition(*old(job), e),
{
    let stage = job.stage;
    if stage == Stage::Done || stage == Stage::Cancelled || stage == Stage::Failed {
        return Action::Nothing;
    }
    match e {
        Event::CancelRequested => {
            if (stage == Stage::Ripping || stage == Stage::Encoding || stage == Stage::Uploading) && !job.cancelled {
                job.cancelled = true;
                Action::CleanUp
            } else {
                Action::Nothing
            }
        },
        Event::StageFailed => {
            if job.cancelled {
                job.stage = Stage::Cancelled;
                Action::Finish
            } else {
                job.stage = Stage::Failed;
                Action::ReportFailure
            }
        },
        Event::StageFinished => {
            if job.cancelled {
                job.stage = Stage::Cancelled;
                return Action::Finish;
            }
            match stage {
                Stage::Ripping => {
                    job.stage = Stage::Encoding;
                    Action::StartEncoding
                },
                Stage::Encoding => {
                    job.stage = Stage::Uploading;
                    Action::StartUploading
                },
                Stage::Uploading => {
                    job.stage = Stage::Registering;
                    Action::Register
                },
                _ => {
                    job.stage = Stage::Done;
                    Action::Finish
                },
            }
        },
    }
}

/// The actions that a run of events from state `j` gives, in order, with the
/// state it ends in.
pub open spec fn run(j: JobState, events: Seq<Event>) -> (JobState, Seq<Action>)
    decreases events.len(),
{
    if events.len() == 0 {
        (j, Seq::empty())
    } else {
        let (j1, acts) = run(j, events.drop_last());
        let (j2, a) = transition(j1, events.last());
        (j2, acts.push(a))
    }
}

/// Whether an action starts work that a cancelled job must not do.
pub open spec fn starts_work(a: Action) -> bool {
    a == Action::StartEncoding || a == Action::StartUploading || a == Action::Register
}

/// Once a cancel is accepted, whatever happens next, no later stage starts:
/// no encode, upload or registration, and the job ends cancelled (or stays
/// where it is) rather than failed or done.
pub proof fn lemma_cancel_stops_later_stages(j: JobState, events: Seq<Event>)
    requires
        j.cancelled,
        !is_over(j.stage) || j.stage == Stage::Cancelled,
    ensures
        forall|i: int| 0 <= i < run(j, events).1.len() ==> !starts_work(#[trigger] run(j, events).1[i]),
        run(j, events).0.cancelled,
        run(j, events).0.stage == Stage::Cancelled || !is_over(run(j, events).0.stage),
    decreases events.len(),
{
    if events.len() > 0 {
        lemma_cancel_stops_later_stages(j, events.drop_last());
        let (j1, acts) = run(j, events.drop_last());
        assert forall|i: int| 0 <= i < run(j, events).1.len() implies !starts_work(#[trigger] run(j, events).1[i]) by {
            if i < acts.len() {
                assert(run(j, events).1[i] == acts[i]);
            }
        }
    }
}

/// A cancel during a transfer stage is answered with the clean-up at once.
pub proof fn lemma_cancel_cleans_up(j: JobState)
    requires
        is_transfer(j.stage),
        !j.cancelled,
    ensures
        transition(j, Event::CancelRequested) == (JobState { cancelled: true, ..j }, Action::CleanUp),
{
}

/// The three transfer stages.
#[derive(Debug, Clone, Copy, PartialEq, Eq)]
pub enum StageName {
    Ripping,
    Encoding,
    Uploading,
}

/// The type of a stage's progress events.
pub open spec fn progress_type(s: StageName) -> Seq<char> {
    match s {
        StageName::Ripping => "ripping_progress"@,
        StageName::Encoding => "encoding_progress"@,
        StageName::Uploading => "upload_progress"@,
    }
}

/// The type of a stage's closing event.
pub open spec fn done_type(s: StageName) -> Seq<char> {
    match s {
        StageName::Ripping => "ripping_done"@,
        StageName::Encoding => "encoding_done"@,
        StageName::Uploading => "uploading_done"@,
    }
}

/// The type of a stage's error event.
pub open spec fn error_type(s: StageName) -> Seq<char> {
    match s {
        StageName::Ripping => "ripping_error"@,
        StageName::Encoding => "encoding_error"@,
        StageName::Uploading => "upload_error"@,
    }
}

/// The hexadecimal digit for `d`.
pub open spec fn hex_digit(d: int) -> char {
    if d < 10 {
        ((d + 48) as u8) as char
    } else {
        ((d + 87) as u8) as char
    }
}

/// The characters that stand for `c` inside a JSON string.
pub open spec fn escaped_char(c: char) -> Seq<char> {
    if c == '"' {
        seq!['\\', '"']
    } else if c == '\\' {
        seq!['\\', '\\']
    } else if (c as u32) < 32 {
        seq!['\\', 'u', '0', '0', hex_digit((c as u32 / 16) as int), hex_digit((c as u32 % 16) as int)]
    } else {
        seq![c]
    }
}

/// `s` as the inside of a JSON string.
pub open spec fn json_escaped(s: Seq<char>) -> Seq<char>
    decreases s.len(),
{
    if s.len() == 0 {
        Seq::empty()
    } else {
        json_escaped(s.drop_last()) + escaped_char(s.last())
    }
}

fn hex_char(d: u32) -> (c: char)
    requires
        d < 16,
    ensures
        c == hex_digit(d as int),
{
    if d < 10 {
        ((d as u8) + 48u8) as char
    } else {
        ((d as u8) + 87u8) as char
    }
}

/// Appends `s` to `out` as the inside of a JSON string.
pub fn push_escaped(out: &mut String, s: &str)
    ensures
        final(out)@ == old(out)@ + json_escaped(s@),
{
    let n = s.unicode_len();
    let mut i: usize = 0;
    let ghost start = out@;
    while i < n
        invariant
            n == s@.len(),
            i <= n,
            out@ == start + json_escaped(s@.take(i as int)),
        decreases n - i,
    {
        assert(s@.take(i + 1).drop_last() =~= s@.take(i as int));
        let c = s.get_char(i);
        let ghost before = out@;
        if c == '"' {
            push_char(out, '\\');
            push_char(out, '"');
        } else if c == '\\' {
            push_char(out, '\\');
            push_char(out, '\\');
        } else if (c as u32) < 32 {
            push_char(out, '\\');
            push_char(out, 'u');
            push_char(out, '0');
            push_char(out, '0');
            push_char(out, hex_char(c as u32 / 16));
            push_char(out, hex_char(c as u32 % 16));
        } else {
            push_char(out, c);
        }
        assert(out@ =~= before + escaped_char(c));
        assert(start + json_escaped(s@.take(i + 1)) =~= start + json_escaped(s@.take(i as int)) + escaped_char(c));
        i = i + 1;
    }
    assert(s@.take(n as int) =~= s@);
}

/// A fraction in millionths as a decimal number with six places.
pub open spec fn fraction_text(ppm: u64) -> Seq<char> {
    decimal_of((ppm / 1_000_000) as nat) + seq!['.'] + padded_decimal((ppm % 1_000_000) as nat, 6)
}

/// The progress event of a stage: its type, and as payload the label, the
/// progress as a fraction, the step and the estimated seconds left.
pub open spec fn progress_event(stage: StageName, label: Seq<char>, progress: u64, step: usize, eta_ms: u64) -> Seq<char> {
    "{\"type\":\""@ + progress_type(stage) + "\",\"payload\":{\"label\":\""@ + json_escaped(label)
        + "\",\"progress\":"@ + fraction_text(progress) + ",\"step\":"@ + decimal_of(step as nat)
        + ",\"eta\":"@ + decimal_of((eta_ms / 1000) as nat) + "}}"@
}

fn type_text(stage: StageName, kind: u8) -> (r: String)
    requires
        kind < 3,
    ensures
        kind == 0 ==> r@ == progress_type(stage),
        kind == 1 ==> r@ == done_type(stage),
        kind == 2 ==> r@ == error_type(stage),
{
    match stage {
        StageName::Ripping => if kind == 0 {
            "ripping_progress".to_string()
        } else if kind == 1 {
            "ripping_done".to_string()
        } else {
            "ripping_error".to_string()
        },
        StageName::Encoding => if kind == 0 {
            "encoding_progress".to_string()
        } else if kind == 1 {
            "encoding_done".to_string()
        } else {
            "encoding_error".to_string()
        },
        StageName::Uploading => if kind == 0 {
            "upload_progress".to_string()
        } else if kind == 1 {
            "uploading_done".to_string()
        } else {
            "upload_error".to_string()
        },
    }
}

/// The progress event of a stage, as JSON text.
pub fn progress_message(stage: StageName, label: &str, progress: u64, step: usize, eta_ms: u64) -> (r: String)
    ensures
        r@ == progress_event(stage, label@, progress, step, eta_ms),
{
    let mut r = "{\"type\":\"".to_string();
    let t = type_text(stage, 0);
    r.append(t.as_str());
    r.append("\",\"payload\":{\"label\":\"");
    push_escaped(&mut r, label);
    r.append("\",\"progress\":");
    let whole = decimal_text(progress / 1_000_000);
    r.append(whole.as_str());
    push_char(&mut r, '.');
    let part = padded_decimal_text(progress % 1_000_000, 6);
    r.append(part.as_str());
    r.append(",\"step\":");
    let st = decimal_text(step as u64);
    r.append(st.as_str());
    r.append(",\"eta\":");
    let et = decimal_text(eta_ms / 1000);
    r.append(et.as_str());
    r.append("}}");
    proof {
        assert(seq!['.'] =~= Seq::<char>::empty().push('.'));
    }
    assert(r@ =~= progress_event(stage, label@, progress, step, eta_ms));
    r
}

/// The closing event of a stage, as JSON text.
pub fn done_message(stage: StageName) -> (r: String)
    ensures
        r@ == "{\"type\":\""@ + done_type(stage) + "\"}"@,
{
    let mut r = "{\"type\":\"".to_string();
    let t = type_text(stage, 1);
    r.append(t.as_str());
    r.append("\"}");
    r
}

/// The error event of a stage, with the error's text, as JSON text.
pub fn error_message(stage: StageName, message: &str) -> (r: String)
    ensures
        r@ == "{\"type\":\""@ + error_type(stage) + "\",\"payload\":{\"message\":\""@ + json_escaped(message@) + "\"}}"@,
{
    let mut r = "{\"type\":\"".to_string();
    let t = type_text(stage, 2);
    r.append(t.as_str());
    r.append("\",\"payload\":{\"message\":\"");
    push_escaped(&mut r, message);
    r.append("\"}}");
    r
}

/// How many failed completion checks of a remote command are followed by
/// another check; the next failure gives up.
pub const MAX_RETRIES: u32 = 10;

/// What to do after checking whether a remote command has completed.
#[derive(Debug, Clone, Copy, PartialEq, Eq)]
pub enum PollDecision {
    Completed,
    /// Wait, then check again.
    Retry,
    /// Fail the step: the command did not complete in time.
    GiveUp,
}

/// The decision after a check, given how many checks failed before it.
pub open spec fn poll_decision(failures: u32, completed: bool) -> PollDecision {
    if completed {
        PollDecision::Completed
    } else if failures as int + 1 > MAX_RETRIES as int {
        PollDecision::GiveUp
    } else {
        PollDecision::Retry
    }
}

/// Counts a completion check and decides what follows it; `failures` holds
/// how many checks have failed so far.
pub fn next_poll(failures: &mut u32, completed: bool) -> (d: PollDecision)
    ensures
        d == poll_decision(*old(failures), completed),
        d == PollDecision::Retry ==> *final(failures) == *old(failures) + 1,
        d != PollDecision::Retry ==> *final(failures) == *old(failures),
{
    if completed {
        return PollDecision::Completed;
    }
    if *failures >= MAX_RETRIES {
        return PollDecision::GiveUp;
    }
    *failures = *failures + 1;
    PollDecision::Retry
}

/// Starting from no failures, a command that never completes is given up on
/// at its eleventh check, never later: the wait is bounded.
pub proof fn lemma_poll_is_bounded(failures: u32)
    requires
        failures <= MAX_RETRIES,
    ensures
        poll_decision(failures, false) == PollDecision::GiveUp <==> failures == MAX_RETRIES,
{
}

} // verus!
