//! The per-call context: labels read once from the target path, and the
//! lifecycle `Created -> Started -> Completed` whose transitions decide which
//! metric records a call produces.
//!
//! A call dropped before completion is left in `Started`: no completion is
//! recorded for it and its in-flight count is not taken back. That gap is
//! kept on purpose; a caller that wants it closed reads `phase` on drop.

use vstd::prelude::*;
use crate::status::{StatusCode, header_status, status_from_header};
use crate::target::{TargetError, target_labels, split_target};

verus! {

/// Where a call stands in its lifecycle.
#[derive(Clone, Copy, Debug, PartialEq, Eq, Structural)]
pub enum Phase {
    /// Made, not yet polled.
    Created,
    /// Polled at least once; `start` is the clock reading, in nanoseconds,
    /// at the first poll.
    Started { start: u64 },
    /// Its result has been observed.
    Completed,
}

/// How the inner handler finished a call.
#[derive(Debug)]
pub enum Outcome {
    /// The handler itself failed (a transport error): no response exists.
    Failed,
    /// The handler produced a response; `status_header` is the value of its
    /// status header, where it carries one.
    Responded { status_header: Option<Vec<u8>> },
}

/// The status that a call's outcome is recorded under.
pub open spec fn outcome_status(o: Outcome) -> StatusCode {
    match o {
        Outcome::Failed => StatusCode::Unknown,
        Outcome::Responded { status_header: None } => StatusCode::Okay,
        Outcome::Responded { status_header: Some(v) } => header_status(v@),
    }
}

impl Outcome {
    /// The status this outcome is recorded under: `Unknown` for a failed
    /// handler, `Okay` for a response without a status header, else the
    /// decoded header.
    pub fn status(&self) -> (r: StatusCode)
        ensures
            r == outcome_status(*self),
    {
        match self {
            Outcome::Failed => StatusCode::Unknown,
            Outcome::Responded { status_header: None } => StatusCode::Okay,
            Outcome::Responded { status_header: Some(v) } => status_from_header(v.as_slice()),
        }
    }
}

/// Nanoseconds between two clock readings; a reading earlier than `start`
/// counts as no time at all.
pub open spec fn elapsed_nanos(start: u64, now: u64) -> u64 {
    if now >= start { (now - start) as u64 } else { 0 }
}

/// The elapsed time recorded for a call is exactly the clock's advance since
/// the call's first poll, and grows with the clock reading at completion.
pub proof fn lemma_elapsed_follows_clock(start: u64, now: u64, later: u64)
    requires
        start <= now <= later,
    ensures
        elapsed_nanos(start, now) == now - start,
        elapsed_nanos(start, now) <= elapsed_nanos(start, later),
        elapsed_nanos(start, later) - elapsed_nanos(start, now) == later - now,
{
}

/// A data point that a call produces, in terms of plain values.
pub enum RecordView {
    /// The call started: `started_total` and `active_requests` go up by one
    /// under {service, method}.
    Started { service: Seq<char>, method: Seq<char> },
    /// The call completed: `active_requests` goes down by one under
    /// {service, method}; `handled_total` goes up by one and `elapsed` is
    /// recorded, both under {service, method, status}.
    Finished { service: Seq<char>, method: Seq<char>, status: StatusCode, elapsed: u64 },
}

/// What a call context holds, in terms of plain values.
pub struct CallView {
    pub service: Seq<char>,
    pub method: Seq<char>,
    pub phase: Phase,
}

/// The records that the start of a call produces.
pub struct StartRecord {
    pub service: String,
    pub method: String,
}

impl View for StartRecord {
    type V = RecordView;

    open spec fn view(&self) -> RecordView {
        RecordView::Started { service: self.service@, method: self.method@ }
    }
}

/// The records that the completion of a call produces.
pub struct FinishRecord {
    pub service: String,
    pub method: String,
    pub status: StatusCode,
    pub elapsed_nanos: u64,
}

impl View for FinishRecord {
    type V = RecordView;

    open spec fn view(&self) -> RecordView {
        RecordView::Finished {
            service: self.service@,
            method: self.method@,
            status: self.status,
            elapsed: self.elapsed_nanos,
        }
    }
}

/// The records held by an optional start record.
pub open spec fn start_views(r: Option<StartRecord>) -> Seq<RecordView> {
    match r {
        Some(x) => seq![x@],
        None => seq![],
    }
}

/// The records held by an optional finish record.
pub open spec fn finish_views(r: Option<FinishRecord>) -> Seq<RecordView> {
    match r {
        Some(x) => seq![x@],
        None => seq![],
    }
}

/// The context after a poll at clock reading `now`: a created call starts.
pub open spec fn begin_view(c: CallView, now: u64) -> CallView {
    match c.phase {
        Phase::Created => CallView { phase: Phase::Started { start: now }, ..c },
        _ => c,
    }
}

/// What a poll records: a start, for a created call only.
pub open spec fn begin_records(c: CallView) -> Seq<RecordView> {
    match c.phase {
        Phase::Created => seq![RecordView::Started { service: c.service, method: c.method }],
        _ => seq![],
    }
}

/// The context after its result is observed: a started call completes.
pub open spec fn finish_view(c: CallView) -> CallView {
    match c.phase {
        Phase::Started { .. } => CallView { phase: Phase::Completed, ..c },
        _ => c,
    }
}

/// What observing the result records: a completion, for a started call only.
pub open spec fn finish_records(c: CallView, now: u64, o: Outcome) -> Seq<RecordView> {
    match c.phase {
        Phase::Started { start } => seq![
            RecordView::Finished {
                service: c.service,
                method: c.method,
                status: outcome_status(o),
                elapsed: elapsed_nanos(start, now),
            },
        ],
        _ => seq![],
    }
}

/// The state of one call: its labels and where it stands.
pub struct CallContext {
    service: String,
    method: String,
    phase: Phase,
}

impl View for CallContext {
    type V = CallView;

    closed spec fn view(&self) -> CallView {
        CallView { service: self.service@, method: self.method@, phase: self.phase }
    }
}

impl CallContext {
    /// A context for a call to `path`, labelled by the text before and after
    /// its last `/`. A path with no `/` is refused, and nothing is recorded.
    pub fn for_target(path: &str) -> (r: Result<CallContext, TargetError>)
        ensures
            match r {
                Ok(c) => {
                    &&& target_labels(path@) == Some((c@.service, c@.method))
                    &&& c@.phase == Phase::Created
                },
                Err(e) => target_labels(path@) is None && e == TargetError::MissingSeparator,
            },
    {
        match split_target(path) {
            Ok((service, method)) => Ok(CallContext { service, method, phase: Phase::Created }),
            Err(e) => Err(e),
        }
    }

    /// The service label.
    pub fn service(&self) -> (r: &String)
        ensures
            r@ == self@.service,
    {
        &self.service
    }

    /// The method label.
    pub fn method(&self) -> (r: &String)
        ensures
            r@ == self@.method,
    {
        &self.method
    }

    /// Where the call stands.
    pub fn phase(&self) -> (r: Phase)
        ensures
            r == self@.phase,
    {
        self.phase
    }

    /// A poll of the call at clock reading `now`, before the inner handler is
    /// polled. The first poll starts the call and returns its start record;
    /// every later poll changes nothing and returns `None`.
    pub fn begin(&mut self, now: u64) -> (r: Option<StartRecord>)
        ensures
            final(self)@ == begin_view(old(self)@, now),
            start_views(r) == begin_records(old(self)@),
    {
        match self.phase {
            Phase::Created => {
                self.phase = Phase::Started { start: now };
                Some(StartRecord { service: self.service.clone(), method: self.method.clone() })
            },
            _ => None,
        }
    }

    /// The inner handler's result, observed at clock reading `now`. A started
    /// call completes and returns its finish record, with the status of
    /// `outcome` and the time since its start; otherwise nothing changes and
    /// `None` is returned.
    pub fn finish(&mut self, now: u64, outcome: &Outcome) -> (r: Option<FinishRecord>)
        ensures
            final(self)@ == finish_view(old(self)@),
            finish_views(r) == finish_records(old(self)@, now, *outcome),
    {
        match self.phase {
            Phase::Started { start } => {
                self.phase = Phase::Completed;
                let elapsed = if now >= start { now - start } else { 0 };
                Some(FinishRecord {
                    service: self.service.clone(),
                    method: self.method.clone(),
                    status: outcome.status(),
                    elapsed_nanos: elapsed,
                })
            },
            _ => None,
        }
    }
}

} // verus!
