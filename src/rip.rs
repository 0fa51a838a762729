//! One rip of one title: the ripping tool's arguments, and the reading of its
//! progress lines into progress events.

use vstd::prelude::*;
use crate::protocol::{csv_fields, int_text_value, parse_csv_line, parse_unsigned, views};
use crate::text::{decimal_of, decimal_text, has_prefix, owned, starts_with};
use crate::tracker::{fraction_of, fresh_tracker, update_spec, ProgressTracker, TrackerView};

verus! {

/// The progress of a stage at one moment, as sent to the client.
pub struct ProgressPayload {
    pub step_title: String,
    pub step_details: String,
    /// Progress of the current step, in millionths.
    pub progress: u64,
    /// Index of the current item (title, file) in the stage.
    pub step: usize,
    /// Estimated time left, in milliseconds.
    pub eta: u64,
}

/// Why a line of rip output could not be read.
#[derive(Debug, Clone, Copy, PartialEq, Eq)]
pub enum RipError {
    /// A progress record lacks a column it needs.
    MissingValue,
    /// A progress count is not a number.
    BadNumber,
}

/// The arguments that make the ripping tool rip title `title_id` of `device`
/// into `output_dir`, with messages and progress on standard output.
pub fn rip_arguments(device: &str, title_id: usize, output_dir: &str) -> (r: Vec<String>)
    ensures
        views(r@) == seq![
            "--messages=-stdout"@,
            "--progress=-same"@,
            "-r"@,
            "mkv"@,
            "dev:"@ + device@,
            decimal_of(title_id as nat),
            output_dir@,
        ],
{
    let mut r: Vec<String> = Vec::new();
    r.push("--messages=-stdout".to_string());
    r.push("--progress=-same".to_string());
    r.push("-r".to_string());
    r.push("mkv".to_string());
    let mut dev = "dev:".to_string();
    dev.append(device);
    r.push(dev);
    r.push(decimal_text(title_id as u64));
    r.push(owned(output_dir));
    assert(views(r@) =~= seq![
        "--messages=-stdout"@,
        "--progress=-same"@,
        "-r"@,
        "mkv"@,
        "dev:"@ + device@,
        decimal_of(title_id as nat),
        output_dir@,
    ]);
    r
}

/// The arguments that make the ripping tool describe the disc in `device`.
pub fn probe_arguments(device: &str) -> (r: Vec<String>)
    ensures
        views(r@) == seq!["-r"@, "info"@, "dev:"@ + device@],
{
    let mut r: Vec<String> = Vec::new();
    r.push("-r".to_string());
    r.push("info".to_string());
    let mut dev = "dev:".to_string();
    dev.append(device);
    r.push(dev);
    assert(views(r@) =~= seq!["-r"@, "info"@, "dev:"@ + device@]);
    r
}

/// The tag of step title records.
pub open spec fn step_tag() -> Seq<char> {
    seq!['P', 'R', 'G', 'T', ':']
}

/// The tag of step detail records.
pub open spec fn detail_tag() -> Seq<char> {
    seq!['P', 'R', 'G', 'C', ':']
}

/// The tag of progress records.
pub open spec fn value_tag() -> Seq<char> {
    seq!['P', 'R', 'G', 'V', ':']
}

/// The state of a [`RipSession`].
pub struct RipView {
    pub step_title: Seq<char>,
    pub step_details: Seq<char>,
    pub progress: u64,
    pub step: usize,
    pub tracker: TrackerView,
}

/// The session after a progress record `curr` of `total` at time `now`: a
/// zero total changes nothing; a refused tracker update leaves the tracker.
pub open spec fn progress_step(v: RipView, now: u64, curr: u64, total: u64) -> RipView {
    if total == 0 {
        v
    } else {
        RipView {
            progress: fraction_of(curr, total),
            tracker: match update_spec(v.tracker, now, curr, total) {
                Ok(t) => t,
                Err(_) => v.tracker,
            },
            ..v
        }
    }
}

/// The session after one line of rip output read at time `now`.
pub open spec fn rip_line(v: RipView, line: Seq<char>, now: u64) -> Result<RipView, RipError> {
    let cols = csv_fields(line);
    if has_prefix(cols[0], step_tag()) {
        if cols.len() <= 2 {
            Err(RipError::MissingValue)
        } else {
            Ok(RipView { step_title: cols[2], ..v })
        }
    } else if has_prefix(cols[0], detail_tag()) {
        if cols.len() <= 2 {
            Err(RipError::MissingValue)
        } else {
            Ok(RipView { step_details: cols[2], ..v })
        }
    } else if has_prefix(cols[0], value_tag()) {
        if cols.len() <= 1 {
            Err(RipError::MissingValue)
        } else if int_text_value(cols[1], 0, u64::MAX as int) is None {
            Err(RipError::BadNumber)
        } else if cols.len() <= 2 {
            Err(RipError::MissingValue)
        } else if int_text_value(cols[2], 0, u64::MAX as int) is None {
            Err(RipError::BadNumber)
        } else {
            Ok(progress_step(
                v,
                now,
                int_text_value(cols[1], 0, u64::MAX as int)->0 as u64,
                int_text_value(cols[2], 0, u64::MAX as int)->0 as u64,
            ))
        }
    } else {
        Ok(v)
    }
}

/// Reads the output of one rip, line by line, into progress events.
pub struct RipSession {
    current_step: String,
    current_step_details: String,
    current_progress: u64,
    step: usize,
    tracker: ProgressTracker,
}

impl RipSession {
    /// The session's state.
    pub closed spec fn view(&self) -> RipView {
        RipView {
            step_title: self.current_step@,
            step_details: self.current_step_details@,
            progress: self.current_progress,
            step: self.step,
            tracker: self.tracker.view(),
        }
    }

    /// The session's invariant.
    pub closed spec fn wf(&self) -> bool {
        self.tracker.wf()
    }

    /// A session for the title at position `step` of the job, started at
    /// time `now_ms`.
    pub fn new(step: usize, now_ms: u64) -> (s: RipSession)
        ensures
            s.wf(),
            s.view().step_title.len() == 0,
            s.view().step_details.len() == 0,
            s.view().progress == 0,
            s.view().step == step,
            s.view().tracker == fresh_tracker(now_ms),
    {
        RipSession {
            current_step: String::new(),
            current_step_details: String::new(),
            current_progress: 0,
            step,
            tracker: ProgressTracker::new(now_ms),
        }
    }

    /// Reads one line of rip output at time `now_ms`, and gives the progress
    /// event that follows it.
    pub fn on_line(&mut self, line: &str, now_ms: u64) -> (r: Result<ProgressPayload, RipError>)
        requires
            old(self).wf(),
        ensures
            final(self).wf(),
            match rip_line(old(self).view(), line@, now_ms) {
                Ok(v) => r is Ok && final(self).view() == v && payload_of(r->Ok_0, v),
                Err(e) => r == Err::<ProgressPayload, RipError>(e),
            },
    {
        let columns = parse_csv_line(line);
        let head = columns[0].as_str();
        let t = "PRGT:";
        let c = "PRGC:";
        let v = "PRGV:";
        proof {
            reveal_strlit("PRGT:");
            reveal_strlit("PRGC:");
            reveal_strlit("PRGV:");
            assert(t@ =~= step_tag());
            assert(c@ =~= detail_tag());
            assert(v@ =~= value_tag());
        }
        if starts_with(head, t) {
            if columns.len() <= 2 {
                return Err(RipError::MissingValue);
            }
            self.current_step = columns[2].clone();
        } else if starts_with(head, c) {
            if columns.len() <= 2 {
                return Err(RipError::MissingValue);
            }
            self.current_step_details = columns[2].clone();
        } else if starts_with(head, v) {
            if columns.len() <= 1 {
                return Err(RipError::MissingValue);
            }
            let curr = match parse_unsigned(columns[1].as_str(), u64::MAX) {
                Some(n) => n,
                None => {
                    return Err(RipError::BadNumber);
                },
            };
            if columns.len() <= 2 {
                return Err(RipError::MissingValue);
            }
            let total = match parse_unsigned(columns[2].as_str(), u64::MAX) {
                Some(n) => n,
                None => {
                    return Err(RipError::BadNumber);
                },
            };
            if total > 0 {
                let capped = if curr > total { total } else { curr };
                assert(capped as int * 1_000_000 / total as int <= 1_000_000) by (nonlinear_arith)
                    requires
                        capped <= total,
                        total > 0,
                {
                    assert(capped as int * 1_000_000 <= total as int * 1_000_000);
                }
                self.current_progress = ((capped as u128 * 1_000_000u128) / total as u128) as u64;
                let _ = self.tracker.update(now_ms, curr, total);
            }
        }
        Ok(ProgressPayload {
            step_title: self.current_step.clone(),
            step_details: self.current_step_details.clone(),
            progress: self.current_progress,
            step: self.step,
            eta: self.tracker.get_eta(),
        })
    }
}

/// `p` reports the session state `v`.
pub open spec fn payload_of(p: ProgressPayload, v: RipView) -> bool {
    &&& p.step_title@ == v.step_title
    &&& p.step_details@ == v.step_details
    &&& p.progress == v.progress
    &&& p.step == v.step
    &&& p.eta == v.tracker.eta
}

} // verus!
