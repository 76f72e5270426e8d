//! Classification of a single HTTP probe.
//!
//! A probe either completes with some HTTP status code or fails
//! (timeout, connection error). A completed probe with a success
//! status is recorded as `Up`; everything else is recorded as `Down`.
//! A probe failure is not an error of the system: it still yields a
//! result row, and the entry is still acknowledged.

use vstd::prelude::*;

verus! {

/// Outcome recorded for one probe of one website from one region.
#[derive(Clone, Copy, Debug, PartialEq, Eq, Structural)]
pub enum ProbeStatus {
    Up,
    Down,
}

/// What the HTTP layer observed for one probe, reduced to plain
/// values: either a response with its status code, or no usable
/// response at all (timeout, connection error).
#[derive(Clone, Copy, Debug, PartialEq, Eq, Structural)]
pub enum ProbeOutcome {
    Response(u16),
    Failed,
}

/// One persisted probe result ("tick"): created once per processed
/// stream entry, persisted before that entry is acknowledged.
#[derive(Clone, Debug)]
pub struct ProbeResult {
    pub website_id: String,
    pub region_id: String,
    pub latency_ms: u64,
    pub status: ProbeStatus,
    pub timestamp_ms: u64,
}

/// An HTTP status code in the success range.
pub open spec fn is_success_code(code: u16) -> bool {
    200 <= code < 300
}

/// The status a probe outcome is classified as: `Up` exactly when a
/// response arrived and its status code is a success code.
pub open spec fn classified(outcome: ProbeOutcome) -> ProbeStatus {
    match outcome {
        ProbeOutcome::Response(code) => if is_success_code(code) {
            ProbeStatus::Up
        } else {
            ProbeStatus::Down
        },
        ProbeOutcome::Failed => ProbeStatus::Down,
    }
}

/// Classify one probe outcome.
pub fn classify_outcome(outcome: ProbeOutcome) -> (r: ProbeStatus)
    ensures
        r == classified(outcome),
{
    match outcome {
        ProbeOutcome::Response(code) => {
            if 200 <= code && code < 300 {
                ProbeStatus::Up
            } else {
                ProbeStatus::Down
            }
        },
        ProbeOutcome::Failed => ProbeStatus::Down,
    }
}

/// Clamp an observed probe duration so that a value above the probe
/// timeout is never recorded: the recorded latency is capped at the
/// configured timeout.
pub fn cap_latency(elapsed_ms: u64, timeout_ms: u64) -> (r: u64)
    ensures
        r <= timeout_ms,
        elapsed_ms <= timeout_ms ==> r == elapsed_ms,
        elapsed_ms > timeout_ms ==> r == timeout_ms,
{
    if elapsed_ms > timeout_ms {
        timeout_ms
    } else {
        elapsed_ms
    }
}

/// Build the result row for one probe: the status is the
/// classification of the outcome, and the recorded latency never
/// exceeds the probe timeout. A probe that timed out therefore yields
/// `Down` with latency capped at the timeout.
pub fn make_result(
    website_id: String,
    region_id: String,
    outcome: ProbeOutcome,
    elapsed_ms: u64,
    timeout_ms: u64,
    timestamp_ms: u64,
) -> (r: ProbeResult)
    ensures
        r.website_id@ == website_id@,
        r.region_id@ == region_id@,
        r.status == classified(outcome),
        r.latency_ms <= timeout_ms,
        elapsed_ms <= timeout_ms ==> r.latency_ms == elapsed_ms,
        elapsed_ms > timeout_ms ==> r.latency_ms == timeout_ms,
        r.timestamp_ms == timestamp_ms,
{
    ProbeResult {
        website_id,
        region_id,
        latency_ms: cap_latency(elapsed_ms, timeout_ms),
        status: classify_outcome(outcome),
        timestamp_ms,
    }
}

} // verus!
