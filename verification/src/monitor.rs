//! The progress monitor: the figures of one status update, computed in whole
//! hundredths from the processed counter and the elapsed time, and the status
//! line that shows them.

use vstd::prelude::*;
use vstd::string::StringSliceAdditionalSpecFns;
use crate::candidate::{dotted_quad, format_candidate};
use crate::encode::{decimal, encode_decimal, ASCII_ZERO};

verus! {

/// ASCII code of the carriage return, which takes the cursor back to the
/// start of the line so that an update overwrites the one before.
pub const CARRIAGE_RETURN: u8 = 13;

/// ASCII code of the decimal point.
pub const DECIMAL_POINT: u8 = 46;

/// The whole part of a quotient, or what stands for it where the divisor is
/// zero.
#[derive(Clone, Copy, Debug, PartialEq, Eq, Structural)]
pub enum Quotient {
    /// The quotient, rounded down.
    Finite(u128),
    /// A positive number divided by zero.
    Infinite,
    /// Zero divided by zero.
    Undefined,
}

/// `numer / denom`, rounded down, with the two cases of a zero divisor told apart.
pub open spec fn quotient_of(numer: nat, denom: nat) -> Quotient {
    if denom > 0 {
        Quotient::Finite((numer / denom) as u128)
    } else if numer > 0 {
        Quotient::Infinite
    } else {
        Quotient::Undefined
    }
}

/// `numer / denom`, rounded down, with the two cases of a zero divisor told apart.
pub fn quotient(numer: u128, denom: u128) -> (q: Quotient)
    ensures
        q == quotient_of(numer as nat, denom as nat),
{
    if denom > 0 {
        Quotient::Finite(numer / denom)
    } else if numer > 0 {
        Quotient::Infinite
    } else {
        Quotient::Undefined
    }
}

/// The figures of one status update.
#[derive(Clone, Copy, Debug, PartialEq, Eq, Structural)]
pub struct ProgressStats {
    /// Candidates reported as processed.
    pub processed: u64,
    /// Candidates in the keyspace.
    pub total: u64,
    /// Candidates still to be processed.
    pub remaining: u64,
    /// Throughput, in hundredths of a candidate per second.
    pub rate: Quotient,
    /// Share of the keyspace processed, in hundredths of a percent.
    pub percent: Quotient,
    /// Time that the rest will take at this throughput, in hundredths of a second.
    pub eta: Quotient,
    /// Time since the start, in hundredths of a second.
    pub elapsed: u64,
}

/// The figures for `processed` candidates out of `total` after
/// `elapsed_millis` milliseconds, each rounded down to whole hundredths:
/// throughput is processed by elapsed time, the remaining time is the
/// remaining candidates by the throughput.
pub open spec fn stats_of(processed: nat, total: nat, elapsed_millis: nat) -> ProgressStats {
    ProgressStats {
        processed: processed as u64,
        total: total as u64,
        remaining: (total - processed) as u64,
        rate: quotient_of(processed * 100_000, elapsed_millis),
        percent: quotient_of(processed * 10_000, total),
        eta: quotient_of(((total - processed) * elapsed_millis) as nat, processed * 10),
        elapsed: (elapsed_millis / 10) as u64,
    }
}

/// Computes the figures of a status update from a reading of the processed
/// counter, the size of the keyspace and the time since the start.
pub fn progress_stats(processed: u64, total: u64, elapsed_millis: u64) -> (stats: ProgressStats)
    requires
        processed <= total,
    ensures
        stats == stats_of(processed as nat, total as nat, elapsed_millis as nat),
{
    let remaining: u64 = total - processed;
    assert(remaining as u128 * elapsed_millis as u128 <= 0xffff_ffff_ffff_ffff
        * 0xffff_ffff_ffff_ffff) by (nonlinear_arith)
        requires
            remaining <= 0xffff_ffff_ffff_ffff,
            elapsed_millis <= 0xffff_ffff_ffff_ffff,
    ;
    ProgressStats {
        processed,
        total,
        remaining,
        rate: quotient(processed as u128 * 100_000, elapsed_millis as u128),
        percent: quotient(processed as u128 * 10_000, total as u128),
        eta: quotient(remaining as u128 * elapsed_millis as u128, processed as u128 * 10),
        elapsed: elapsed_millis / 10,
    }
}

/// A number of hundredths written with two decimals: `1234` is `12.34`.
pub open spec fn fixed_point(hundredths: nat) -> Seq<u8> {
    decimal(hundredths / 100) + seq![
        DECIMAL_POINT,
        (ASCII_ZERO + hundredths % 100 / 10) as u8,
        (ASCII_ZERO + hundredths % 10) as u8,
    ]
}

/// A quotient as it is shown: with two decimals, or as `inf` or `NaN`.
pub open spec fn quotient_text(q: Quotient) -> Seq<u8> {
    match q {
        Quotient::Finite(hundredths) => fixed_point(hundredths as nat),
        Quotient::Infinite => "inf".spec_bytes(),
        Quotient::Undefined => "NaN".spec_bytes(),
    }
}

/// The status line: a carriage return, then processed and total candidates,
/// throughput, share processed, remaining time and elapsed time.
pub open spec fn status_line(stats: ProgressStats) -> Seq<u8> {
    seq![CARRIAGE_RETURN] + decimal(stats.processed as nat) + "/".spec_bytes() + decimal(
        stats.total as nat,
    ) + " IPs | ".spec_bytes() + quotient_text(stats.rate) + " IPs/sec | Progress: ".spec_bytes()
        + quotient_text(stats.percent) + "% | ETA: ".spec_bytes() + quotient_text(stats.eta)
        + "s | Elapsed: ".spec_bytes() + fixed_point(stats.elapsed as nat) + "s".spec_bytes()
}

/// The line that announces a match.
pub open spec fn announcement(candidate: nat) -> Seq<u8> {
    "Found matching IP: ".spec_bytes() + dotted_quad(candidate)
}

fn append_text(buf: &mut Vec<u8>, text: &str)
    ensures
        final(buf)@ == old(buf)@ + text.spec_bytes(),
{
    buf.extend_from_slice(text.as_bytes());
    assert(buf@ =~= old(buf)@ + text.spec_bytes());
}

fn append_fixed_point(buf: &mut Vec<u8>, hundredths: u128)
    ensures
        final(buf)@ == old(buf)@ + fixed_point(hundredths as nat),
{
    encode_decimal(hundredths / 100, buf);
    buf.push(DECIMAL_POINT);
    buf.push(ASCII_ZERO + (hundredths % 100 / 10) as u8);
    buf.push(ASCII_ZERO + (hundredths % 10) as u8);
    assert(buf@ =~= old(buf)@ + fixed_point(hundredths as nat));
}

fn append_quotient(buf: &mut Vec<u8>, q: Quotient)
    ensures
        final(buf)@ == old(buf)@ + quotient_text(q),
{
    match q {
        Quotient::Finite(hundredths) => append_fixed_point(buf, hundredths),
        Quotient::Infinite => append_text(buf, "inf"),
        Quotient::Undefined => append_text(buf, "NaN"),
    }
}

/// Renders the status line for `stats`.
pub fn render_status_line(stats: &ProgressStats) -> (line: Vec<u8>)
    ensures
        line@ == status_line(*stats),
{
    let mut line: Vec<u8> = Vec::new();
    line.push(CARRIAGE_RETURN);
    encode_decimal(stats.processed as u128, &mut line);
    append_text(&mut line, "/");
    encode_decimal(stats.total as u128, &mut line);
    append_text(&mut line, " IPs | ");
    append_quotient(&mut line, stats.rate);
    append_text(&mut line, " IPs/sec | Progress: ");
    append_quotient(&mut line, stats.percent);
    append_text(&mut line, "% | ETA: ");
    append_quotient(&mut line, stats.eta);
    append_text(&mut line, "s | Elapsed: ");
    append_fixed_point(&mut line, stats.elapsed as u128);
    append_text(&mut line, "s");
    line
}

/// Renders the line that announces `candidate` as the match.
pub fn render_announcement(candidate: u64) -> (line: Vec<u8>)
    ensures
        line@ == announcement(candidate as nat),
{
    let mut text: Vec<u8> = Vec::new();
    format_candidate(candidate, &mut text);
    let mut line: Vec<u8> = Vec::new();
    append_text(&mut line, "Found matching IP: ");
    line.extend_from_slice(text.as_slice());
    assert(line@ =~= announcement(candidate as nat));
    line
}

/// What the monitor does after an update.
#[derive(Clone, Copy, Debug, PartialEq, Eq, Structural)]
pub enum MonitorAction {
    /// Sleep one polling interval, then poll again.
    Sleep,
    /// Stop: the update just shown was the last.
    Stop,
}

/// One round of the monitor.
pub struct MonitorUpdate {
    /// The status line to show, in place of the one before.
    pub line: Vec<u8>,
    /// What to do once the line is shown.
    pub action: MonitorAction,
}

/// One round of the monitor, from what it read: the processed counter, the
/// time since the start and the found flag. The update is shown in every
/// round, also in the one that sees the flag raised, which is the last.
pub fn monitor_round(processed: u64, total: u64, elapsed_millis: u64, found: bool) -> (update:
    MonitorUpdate)
    requires
        processed <= total,
    ensures
        update.line@ == status_line(
            stats_of(processed as nat, total as nat, elapsed_millis as nat),
        ),
        update.action == if found {
            MonitorAction::Stop
        } else {
            MonitorAction::Sleep
        },
{
    let stats = progress_stats(processed, total, elapsed_millis);
    let line = render_status_line(&stats);
    let action = if found {
        MonitorAction::Stop
    } else {
        MonitorAction::Sleep
    };
    MonitorUpdate { line, action }
}

} // verus!
