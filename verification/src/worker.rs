//! The worker: a scan of one partition, candidate by candidate, as a state
//! machine with three ways to end.

use vstd::prelude::*;
use crate::candidate::{dotted_quad, format_candidate};
use crate::digest::{digest_matches, sha256, DigestEngine};
use crate::partition::Partition;
use crate::shared::SharedProgress;

verus! {

/// A worker reads the found flag before each candidate whose zero-based index
/// in its partition is a positive multiple of this number.
pub const CANCEL_CADENCE: u64 = 1_000_000;

/// A worker adds this number to the processed counter after each candidate
/// whose zero-based index in its partition is a positive multiple of it.
pub const REPORT_BATCH: u64 = 100_000;

/// Whether the text of `candidate` hashes to `target`.
pub open spec fn is_preimage(candidate: nat, target: Seq<u8>) -> bool {
    sha256(dotted_quad(candidate)) == target
}

/// No candidate from `from` up to, but not including, `to` hashes to `target`.
pub open spec fn none_match(from: nat, to: nat, target: Seq<u8>) -> bool {
    forall|candidate: nat| from <= candidate < to ==> !is_preimage(candidate, target)
}

/// Whether the found flag is read before the candidate at `index`.
pub open spec fn poll_due(index: nat) -> bool {
    index != 0 && index % (CANCEL_CADENCE as nat) == 0
}

/// Whether a batch is reported after the candidate at `index`.
pub open spec fn report_due(index: nat) -> bool {
    index != 0 && index % (REPORT_BATCH as nat) == 0
}

/// What a worker has added to the processed counter once `steps` candidates
/// have been examined and passed over: one batch for each positive multiple of
/// the batch size among the indices `0 .. steps`.
pub open spec fn batches_reported(steps: nat) -> nat {
    if steps == 0 {
        0
    } else {
        (REPORT_BATCH * ((steps - 1) / REPORT_BATCH as int)) as nat
    }
}

/// The states of a worker. `Scanning` and `ReportingBatch` carry the
/// zero-based index, in the worker's partition, of the candidate at hand; the
/// other three are final.
#[derive(Clone, Copy, Debug, PartialEq, Eq, Structural)]
pub enum WorkerState {
    /// About to examine the candidate at `index`.
    Scanning { index: u64 },
    /// The candidate at `index` did not match and a batch is due.
    ReportingBatch { index: u64 },
    /// The partition is exhausted without a match.
    Completed,
    /// The found flag was seen raised.
    Cancelled,
    /// `candidate` hashes to the target.
    Matched { candidate: u64 },
}

impl WorkerState {
    /// One of the three final states.
    pub open spec fn is_terminal(&self) -> bool {
        self is Completed || self is Cancelled || self is Matched
    }

    /// The state fits the partition: an index is within it, a batch is
    /// reported only where one is due, and a match lies in the partition.
    pub open spec fn wf(&self, part: Partition) -> bool {
        match *self {
            WorkerState::Scanning { index } => index <= part.size(),
            WorkerState::ReportingBatch { index } => index < part.size() && report_due(
                index as nat,
            ),
            WorkerState::Matched { candidate } => part.contains(candidate as nat),
            _ => true,
        }
    }

    /// Whether the state is final.
    pub fn terminal(&self) -> (b: bool)
        ensures
            b == self.is_terminal(),
    {
        match self {
            WorkerState::Scanning { .. } => false,
            WorkerState::ReportingBatch { .. } => false,
            _ => true,
        }
    }
}

/// The state in which a worker starts.
pub open spec fn initial_state() -> WorkerState {
    WorkerState::Scanning { index: 0 }
}

/// The transition rule. `found` is what the found flag read; it counts only
/// where a poll is due. A final state stays as it is.
pub open spec fn next_state(
    part: Partition,
    target: Seq<u8>,
    state: WorkerState,
    found: bool,
) -> WorkerState {
    match state {
        WorkerState::Scanning { index } => {
            if index >= part.size() {
                WorkerState::Completed
            } else if poll_due(index as nat) && found {
                WorkerState::Cancelled
            } else if is_preimage((part.start + index) as nat, target) {
                WorkerState::Matched { candidate: (part.start + index) as u64 }
            } else if report_due(index as nat) {
                WorkerState::ReportingBatch { index }
            } else {
                WorkerState::Scanning { index: (index + 1) as u64 }
            }
        },
        WorkerState::ReportingBatch { index } => WorkerState::Scanning { index: (index + 1) as u64 },
        _ => state,
    }
}

/// How many transitions a state is at most away from a final one.
pub open spec fn remaining_steps(part: Partition, state: WorkerState) -> nat {
    match state {
        WorkerState::Scanning { index } => (2 * (part.size() - index) + 1) as nat,
        WorkerState::ReportingBatch { index } => (2 * (part.size() - index)) as nat,
        _ => 0,
    }
}

/// Whether the found flag has to be read before the next transition.
pub fn needs_poll(part: &Partition, state: &WorkerState) -> (due: bool)
    requires
        part.wf(),
    ensures
        due == (state matches WorkerState::Scanning { index } && index < part.size() && poll_due(
            index as nat,
        )),
{
    match state {
        WorkerState::Scanning { index } => *index < part.len() && *index != 0 && *index
            % CANCEL_CADENCE == 0,
        _ => false,
    }
}

/// Formats `candidate`, hashes the text and compares the digest with `target`.
/// Afterwards `buf` holds the text of `candidate`.
pub fn examine(candidate: u64, target: &[u8], engine: &mut DigestEngine, buf: &mut Vec<u8>) -> (hit:
    bool)
    requires
        old(engine).ready(),
    ensures
        hit == is_preimage(candidate as nat, target@),
        final(engine).ready(),
        final(buf)@ == dotted_quad(candidate as nat),
{
    format_candidate(candidate, buf);
    let digest = engine.digest(buf.as_slice());
    digest_matches(&digest, target)
}

/// One transition of the worker, by the rule of [`next_state`]. A candidate is
/// hashed only in `Scanning`, and there only if the partition is not exhausted
/// and no raised flag was read.
pub fn advance(
    part: &Partition,
    state: WorkerState,
    found: bool,
    target: &[u8],
    engine: &mut DigestEngine,
    buf: &mut Vec<u8>,
) -> (next: WorkerState)
    requires
        part.wf(),
        state.wf(*part),
        old(engine).ready(),
    ensures
        next == next_state(*part, target@, state, found),
        next.wf(*part),
        final(engine).ready(),
        !state.is_terminal() ==> remaining_steps(*part, next) < remaining_steps(*part, state),
        !state.is_terminal() ==> (next matches WorkerState::Matched { candidate } ==> final(buf)@
            == dotted_quad(candidate as nat)),
{
    match state {
        WorkerState::Scanning { index } => {
            if index >= part.len() {
                WorkerState::Completed
            } else if index != 0 && index % CANCEL_CADENCE == 0 && found {
                WorkerState::Cancelled
            } else {
                let candidate: u64 = part.start + index;
                if examine(candidate, target, engine, buf) {
                    WorkerState::Matched { candidate }
                } else if index != 0 && index % REPORT_BATCH == 0 {
                    WorkerState::ReportingBatch { index }
                } else {
                    WorkerState::Scanning { index: index + 1 }
                }
            }
        },
        WorkerState::ReportingBatch { index } => WorkerState::Scanning { index: index + 1 },
        _ => state,
    }
}

/// What a worker hands back when it has ended.
#[derive(Clone, Copy, Debug, PartialEq, Eq, Structural)]
pub struct WorkerReport {
    /// The final state.
    pub state: WorkerState,
    /// How many candidates were hashed.
    pub examined: u64,
    /// How much the worker added to the processed counter.
    pub reported: u64,
}

/// The reports with which a worker may end on a partition, whatever the found
/// flag read along the way:
/// - `Completed`: every candidate was hashed and none matched;
/// - `Matched`: the candidate is the first of the partition that matches, and
///   the scan stopped with it;
/// - `Cancelled`: the scan stopped before a candidate at which a poll was due,
///   and no candidate before that one matched.
/// In each case the worker has reported one batch for each batch boundary
/// that it passed.
pub open spec fn report_allowed(part: Partition, target: Seq<u8>, report: WorkerReport) -> bool {
    match report.state {
        WorkerState::Completed => {
            &&& report.examined == part.size()
            &&& none_match(part.start as nat, part.start as nat + part.size(), target)
            &&& report.reported == batches_reported(part.size())
        },
        WorkerState::Matched { candidate } => {
            &&& part.contains(candidate as nat)
            &&& is_preimage(candidate as nat, target)
            &&& none_match(part.start as nat, candidate as nat, target)
            &&& report.examined == candidate - part.start + 1
            &&& report.reported == batches_reported((candidate - part.start) as nat)
        },
        WorkerState::Cancelled => {
            &&& report.examined < part.size()
            &&& poll_due(report.examined as nat)
            &&& none_match(part.start as nat, part.start as nat + report.examined as nat, target)
            &&& report.reported == batches_reported(report.examined as nat)
        },
        _ => false,
    }
}

/// What holds between the transitions of a running worker.
spec fn scan_invariant(
    part: Partition,
    target: Seq<u8>,
    state: WorkerState,
    at: u64,
    reported: u64,
) -> bool {
    &&& state.wf(part)
    &&& at <= part.size()
    &&& none_match(part.start as nat, part.start as nat + at as nat, target)
    &&& match state {
        WorkerState::Scanning { index } => at == index && reported == batches_reported(at as nat),
        WorkerState::ReportingBatch { index } => at == index + 1 && reported == batches_reported(
            index as nat,
        ),
        WorkerState::Completed => at == part.size() && reported == batches_reported(at as nat),
        WorkerState::Cancelled => at < part.size() && poll_due(at as nat) && reported
            == batches_reported(at as nat),
        WorkerState::Matched { candidate } => at == candidate - part.start && is_preimage(
            candidate as nat,
            target,
        ) && reported == batches_reported(at as nat),
    }
}

/// Scans `part` for a candidate whose text hashes to `target`: the whole life
/// of one worker. The found flag of `shared` is read where a poll is due and
/// raised on a match; the processed counter of `shared` grows by one batch at
/// each batch boundary.
///
/// What the flag reads is not known here, so the contract says what holds of
/// every reading. A partition of at most `CANCEL_CADENCE` candidates is never
/// polled, and its report is fixed by the partition and the target alone.
pub fn run_worker(part: &Partition, target: &[u8], shared: &SharedProgress) -> (report:
    WorkerReport)
    requires
        part.wf(),
    ensures
        report_allowed(*part, target@, report),
{
    let mut engine = DigestEngine::new();
    let mut buf: Vec<u8> = Vec::new();
    let mut state = WorkerState::Scanning { index: 0 };
    let mut at: u64 = 0;
    let mut reported: u64 = 0;
    while !state.terminal()
        invariant
            part.wf(),
            engine.ready(),
            scan_invariant(*part, target@, state, at, reported),
        decreases remaining_steps(*part, state),
    {
        match state {
            WorkerState::Scanning { index } => {
                let found = needs_poll(part, &state) && shared.is_found();
                let next = advance(part, state, found, target, &mut engine, &mut buf);
                match next {
                    WorkerState::Scanning { .. } | WorkerState::ReportingBatch { .. } => {
                        at = index + 1;
                    },
                    WorkerState::Matched { .. } => {
                        shared.mark_found();
                    },
                    _ => {},
                }
                state = next;
            },
            WorkerState::ReportingBatch { .. } => {
                shared.add_processed(REPORT_BATCH);
                reported = reported + REPORT_BATCH;
                state = advance(part, state, false, target, &mut engine, &mut buf);
            },
            _ => {},
        }
    }
    let examined: u64 = match state {
        WorkerState::Matched { .. } => at + 1,
        _ => at,
    };
    WorkerReport { state, examined, reported }
}

} // verus!
