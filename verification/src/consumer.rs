//! The consumer's per-snapshot step.
//!
//! For every slot snapshot the consumer parses the envelope and
//! decides whether it is news: the snapshot must parse cleanly, name
//! a writer the consumer knows, and carry a sequence number above
//! the last one seen from that writer.  Only then is the end-to-end
//! latency measured against the frame's start timestamp and fed to
//! the p95 estimator.  Everything else — a torn read, an unwritten
//! slot, a stale re-read of a slot the busy-polling sweep visits
//! again — is discarded without error and without a sample.

use vstd::prelude::*;
use crate::envelope::{
    Envelope,
    SpecEnvelope,
    parse_envelope,
    spec_is_fresh,
    spec_parse_envelope,
    is_fresh,
};
use crate::metrics::P95Tracker;

verus! {

/// The consumer-side latency of a frame: how many microseconds
/// after the frame's start timestamp the consumer saw it, clamped
/// at zero when the clocks disagree.
pub open spec fn spec_latency(start_ts: int, now: int) -> int {
    if now >= start_ts {
        now - start_ts
    } else {
        0
    }
}

/// The latency sample for a frame started at `start_ts`, read at
/// `now`.
pub fn latency_micros(start_ts: u64, now: u64) -> (l: u64)
    ensures
        l == spec_latency(start_ts as int, now as int),
{
    if now >= start_ts {
        now - start_ts
    } else {
        0
    }
}

/// Whether a cleanly parsed envelope is accepted: its writer id
/// names one of the tracked writers and its sequence exceeds the
/// last one seen from that writer.
pub open spec fn spec_accepts(last_seen: Seq<Option<u64>>, se: SpecEnvelope) -> bool {
    &&& 0 <= se.writer_id < last_seen.len()
    &&& spec_is_fresh(last_seen[se.writer_id], se.sequence)
}

/// Consumes one snapshot.
///
/// Parses it and, when the parse is clean and the sequence is fresh
/// for its writer, pushes the frame's latency at time `now` into
/// the estimator, records the sequence as the last seen from that
/// writer, and hands the envelope back.  A snapshot that fails to
/// parse, names an unknown writer, or repeats a sequence already
/// seen is discarded: no sample, no state change.  `last_seen`
/// holds, per writer id, the last sequence accepted from it.
pub fn consume_snapshot(
    snap: &[u8],
    now: u64,
    tracker: &mut P95Tracker,
    last_seen: &mut Vec<Option<u64>>,
) -> (r: Option<Envelope>)
    requires
        old(tracker).wf(),
    ensures
        final(tracker).wf(),
        final(tracker).cap() == old(tracker).cap(),
        final(last_seen)@.len() == old(last_seen)@.len(),
        match spec_parse_envelope(snap@) {
            Some(se) => {
                if spec_accepts(old(last_seen)@, se) {
                    &&& r matches Some(env) && env.writer_id == se.writer_id && env.sequence
                        == se.sequence && env.start_ts_micros == se.start_ts_micros && env.offset
                        == se.offset && env.payload@ == se.payload
                    &&& final(tracker).seen() == old(tracker).seen().push(
                        spec_latency(se.start_ts_micros, now as int) as u128,
                    )
                    &&& final(last_seen)@ == old(last_seen)@.update(
                        se.writer_id,
                        Some(se.sequence as u64),
                    )
                } else {
                    &&& r is None
                    &&& *final(tracker) == *old(tracker)
                    &&& *final(last_seen) == *old(last_seen)
                }
            },
            None => {
                &&& r is None
                &&& *final(tracker) == *old(tracker)
                &&& *final(last_seen) == *old(last_seen)
            },
        },
{
    match parse_envelope(snap) {
        Some(env) => {
            if env.writer_id < last_seen.len() as u64 {
                let writer = env.writer_id as usize;
                let last = last_seen[writer];
                if is_fresh(last, env.sequence) {
                    let sample = latency_micros(env.start_ts_micros, now);
                    tracker.push(sample as u128);
                    last_seen.set(writer, Some(env.sequence));
                    return Some(env);
                }
            }
            None
        },
        None => None,
    }
}

} // verus!
