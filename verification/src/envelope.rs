//! Parsing a consumer snapshot into the timing envelope.
//!
//! A snapshot is whatever bytes currently sit in a slot.  The
//! consumer truncates it at the first NUL, splits the prefix on the
//! first four colons into `writer_id`, `sequence`,
//! `start_ts_micros` and `offset`, and takes the rest as the
//! payload.  A snapshot that does not follow this grammar — a torn
//! read, or a slot never written — parses to nothing and is simply
//! skipped; that is the whole torn-read policy.

use vstd::prelude::*;
use crate::decimal::{all_digits, dec_value, parse_u64_digits};
use crate::framing::{COLON, frame_bytes, header_bytes, zero_padded};

verus! {

/// The parsed form of a snapshot, over mathematical values.
pub struct SpecEnvelope {
    pub writer_id: int,
    pub sequence: int,
    pub start_ts_micros: int,
    pub offset: int,
    pub payload: Seq<u8>,
}

/// The parsed form of a snapshot.
#[derive(Debug)]
pub struct Envelope {
    pub writer_id: u64,
    pub sequence: u64,
    pub start_ts_micros: u64,
    pub offset: u64,
    pub payload: Vec<u8>,
}

/// The least index `i >= from` with `s[i] == b`, or `s.len()` when
/// there is none.
pub open spec fn first_at(s: Seq<u8>, b: u8, from: int) -> int
    decreases s.len() - from,
{
    if from < 0 || from >= s.len() {
        s.len() as int
    } else if s[from] == b {
        from
    } else {
        first_at(s, b, from + 1)
    }
}

/// `first_at` lands exactly on a position `k` before which `b` does
/// not occur and which holds `b` (or is the end).
pub proof fn lemma_first_at_is(s: Seq<u8>, b: u8, from: int, k: int)
    requires
        0 <= from <= k <= s.len(),
        forall|j: int| from <= j < k ==> s[j] != b,
        k < s.len() ==> s[k] == b,
    ensures
        first_at(s, b, from) == k,
    decreases k - from,
{
    if from < k {
        lemma_first_at_is(s, b, from + 1, k);
    }
}

/// A numeric header field: nonempty, digits only, fits a `u64`.
pub open spec fn valid_field(f: Seq<u8>) -> bool {
    &&& f.len() > 0
    &&& all_digits(f)
    &&& dec_value(f) <= u64::MAX
}

/// What a snapshot parses to: the envelope when the snapshot follows
/// the framing grammar up to its first NUL, nothing otherwise.
pub open spec fn spec_parse_envelope(snap: Seq<u8>) -> Option<SpecEnvelope> {
    let msg = snap.take(first_at(snap, 0, 0));
    if msg.len() == 0 {
        None
    } else {
        let c1 = first_at(msg, COLON, 0);
        let c2 = first_at(msg, COLON, c1 + 1);
        let c3 = first_at(msg, COLON, c2 + 1);
        let c4 = first_at(msg, COLON, c3 + 1);
        if c4 >= msg.len() {
            None
        } else {
            let f1 = msg.subrange(0, c1);
            let f2 = msg.subrange(c1 + 1, c2);
            let f3 = msg.subrange(c2 + 1, c3);
            let f4 = msg.subrange(c3 + 1, c4);
            if valid_field(f1) && valid_field(f2) && valid_field(f3) && valid_field(f4) {
                Some(
                    SpecEnvelope {
                        writer_id: dec_value(f1),
                        sequence: dec_value(f2),
                        start_ts_micros: dec_value(f3),
                        offset: dec_value(f4),
                        payload: msg.skip(c4 + 1),
                    },
                )
            } else {
                None
            }
        }
    }
}

/// The least index in `[from, to)` holding `b`, or `to`.
fn find_byte_range(s: &[u8], b: u8, from: usize, to: usize) -> (r: usize)
    requires
        from <= to <= s@.len(),
    ensures
        from <= r <= to,
        r < to ==> s@[r as int] == b,
        forall|j: int| from <= j < r ==> s@[j] != b,
{
    let mut i: usize = from;
    while i < to
        invariant
            from <= i <= to <= s@.len(),
            forall|j: int| from <= j < i ==> s@[j] != b,
        decreases to - i,
    {
        if s[i] == b {
            return i;
        }
        i = i + 1;
    }
    i
}

/// Parses a snapshot.
///
/// Returns the envelope exactly when the snapshot follows the
/// framing grammar (`spec_parse_envelope`); a torn or unwritten
/// snapshot yields `None` and is skipped by the consumer.
pub fn parse_envelope(snap: &[u8]) -> (r: Option<Envelope>)
    ensures
        match r {
            Some(env) => spec_parse_envelope(snap@) == Some(
                SpecEnvelope {
                    writer_id: env.writer_id as int,
                    sequence: env.sequence as int,
                    start_ts_micros: env.start_ts_micros as int,
                    offset: env.offset as int,
                    payload: env.payload@,
                },
            ),
            None => spec_parse_envelope(snap@) is None,
        },
{
    let n = snap.len();
    let nul = find_byte_range(snap, 0, 0, n);
    proof {
        lemma_first_at_is(snap@, 0, 0, nul as int);
    }
    let ghost msg = snap@.take(nul as int);
    proof {
        assert(forall|j: int| 0 <= j < nul ==> msg[j] == snap@[j]);
    }
    if nul == 0 {
        return None;
    }
    let c1 = find_byte_range(snap, COLON, 0, nul);
    proof {
        lemma_first_at_is(msg, COLON, 0, c1 as int);
    }
    if c1 >= nul {
        return None;
    }
    let c2 = find_byte_range(snap, COLON, c1 + 1, nul);
    proof {
        lemma_first_at_is(msg, COLON, c1 + 1, c2 as int);
    }
    if c2 >= nul {
        return None;
    }
    let c3 = find_byte_range(snap, COLON, c2 + 1, nul);
    proof {
        lemma_first_at_is(msg, COLON, c2 + 1, c3 as int);
    }
    if c3 >= nul {
        return None;
    }
    let c4 = find_byte_range(snap, COLON, c3 + 1, nul);
    proof {
        lemma_first_at_is(msg, COLON, c3 + 1, c4 as int);
    }
    if c4 >= nul {
        return None;
    }
    proof {
        assert(msg.subrange(0, c1 as int) =~= snap@.subrange(0, c1 as int));
        assert(msg.subrange(c1 + 1, c2 as int) =~= snap@.subrange(c1 + 1, c2 as int));
        assert(msg.subrange(c2 + 1, c3 as int) =~= snap@.subrange(c2 + 1, c3 as int));
        assert(msg.subrange(c3 + 1, c4 as int) =~= snap@.subrange(c3 + 1, c4 as int));
    }
    let writer_id = match parse_u64_digits(snap, 0, c1) {
        Some(v) => v,
        None => {
            return None;
        },
    };
    let sequence = match parse_u64_digits(snap, c1 + 1, c2) {
        Some(v) => v,
        None => {
            return None;
        },
    };
    let start_ts_micros = match parse_u64_digits(snap, c2 + 1, c3) {
        Some(v) => v,
        None => {
            return None;
        },
    };
    let offset = match parse_u64_digits(snap, c3 + 1, c4) {
        Some(v) => v,
        None => {
            return None;
        },
    };
    let payload = vstd::slice::slice_to_vec(&snap[c4 + 1..nul]);
    proof {
        assert(payload@ =~= msg.skip(c4 + 1));
    }
    Some(Envelope { writer_id, sequence, start_ts_micros, offset, payload })
}

/// Round trip: a slot holding a complete frame — whatever bytes sit
/// behind its NUL terminator — parses to exactly the fields and the
/// payload that were framed, provided the payload itself holds no
/// NUL byte.
pub proof fn lemma_frame_parse_round_trip(
    writer_id: u64,
    sequence: u64,
    timestamp: u64,
    offset: u64,
    payload: Seq<u8>,
    tail: Seq<u8>,
)
    requires
        forall|i: int| 0 <= i < payload.len() ==> payload[i] != 0,
    ensures
        spec_parse_envelope(
            frame_bytes(
                writer_id as nat,
                sequence as nat,
                timestamp as nat,
                offset as nat,
                payload,
            ) + tail,
        ) == Some(
            SpecEnvelope {
                writer_id: writer_id as int,
                sequence: sequence as int,
                start_ts_micros: timestamp as int,
                offset: offset as int,
                payload: payload,
            },
        ),
{
    let dw = crate::decimal::dec_digits(writer_id as nat);
    let ds = crate::decimal::dec_digits(sequence as nat);
    let dt = crate::decimal::dec_digits(timestamp as nat);
    let zp = zero_padded(offset as nat);
    let h = header_bytes(writer_id as nat, sequence as nat, timestamp as nat, offset as nat);
    let fr = frame_bytes(
        writer_id as nat,
        sequence as nat,
        timestamp as nat,
        offset as nat,
        payload,
    );
    let snap = fr + tail;
    crate::decimal::lemma_dec_digits_wf(writer_id as nat);
    crate::decimal::lemma_dec_digits_wf(sequence as nat);
    crate::decimal::lemma_dec_digits_wf(timestamp as nat);
    crate::decimal::lemma_dec_round_trip(writer_id as nat);
    crate::decimal::lemma_dec_round_trip(sequence as nat);
    crate::decimal::lemma_dec_round_trip(timestamp as nat);
    crate::framing::lemma_zero_padded_wf(offset as nat);

    let c1 = dw.len() as int;
    let c2 = c1 + 1 + ds.len();
    let c3 = c2 + 1 + dt.len();
    let c4 = c3 + 1 + zp.len();
    let hl = h.len() as int;
    assert(hl == c4 + 1);
    let nul = hl + payload.len() as int;

    // the bytes of the header, field by field
    assert(forall|j: int| 0 <= j < c1 ==> h[j] == dw[j]);
    assert(h[c1] == COLON);
    assert(forall|j: int| c1 + 1 <= j < c2 ==> h[j] == ds[j - (c1 + 1)]);
    assert(h[c2] == COLON);
    assert(forall|j: int| c2 + 1 <= j < c3 ==> h[j] == dt[j - (c2 + 1)]);
    assert(h[c3] == COLON);
    assert(forall|j: int| c3 + 1 <= j < c4 ==> h[j] == zp[j - (c3 + 1)]);
    assert(h[c4] == COLON);

    // the bytes of the snapshot
    assert(forall|j: int| 0 <= j < hl ==> snap[j] == h[j]);
    assert(forall|j: int| hl <= j < nul ==> snap[j] == payload[j - hl]);
    assert(snap[nul] == 0);

    // the first NUL sits right after the payload
    assert forall|j: int| 0 <= j < nul implies snap[j] != 0 by {
        if j < c1 {
            assert(snap[j] == dw[j] && 48 <= dw[j] <= 57);
        } else if j == c1 || j == c2 || j == c3 || j == c4 {
        } else if j < c2 {
            assert(snap[j] == ds[j - (c1 + 1)] && 48 <= ds[j - (c1 + 1)] <= 57);
        } else if j < c3 {
            assert(snap[j] == dt[j - (c2 + 1)] && 48 <= dt[j - (c2 + 1)] <= 57);
        } else if j < c4 {
            assert(snap[j] == zp[j - (c3 + 1)] && 48 <= zp[j - (c3 + 1)] <= 57);
        } else {
            assert(snap[j] == payload[j - hl]);
        }
    }
    lemma_first_at_is(snap, 0, 0, nul);

    let msg = snap.take(nul);
    assert(msg =~= h + payload);
    assert(msg.len() == nul > 0);

    // the first four colons delimit the four numeric fields
    assert forall|j: int| 0 <= j < c1 implies msg[j] != COLON by {
        assert(msg[j] == dw[j] && 48 <= dw[j] <= 57);
    }
    lemma_first_at_is(msg, COLON, 0, c1);
    assert forall|j: int| c1 + 1 <= j < c2 implies msg[j] != COLON by {
        assert(msg[j] == ds[j - (c1 + 1)] && 48 <= ds[j - (c1 + 1)] <= 57);
    }
    lemma_first_at_is(msg, COLON, c1 + 1, c2);
    assert forall|j: int| c2 + 1 <= j < c3 implies msg[j] != COLON by {
        assert(msg[j] == dt[j - (c2 + 1)] && 48 <= dt[j - (c2 + 1)] <= 57);
    }
    lemma_first_at_is(msg, COLON, c2 + 1, c3);
    assert forall|j: int| c3 + 1 <= j < c4 implies msg[j] != COLON by {
        assert(msg[j] == zp[j - (c3 + 1)] && 48 <= zp[j - (c3 + 1)] <= 57);
    }
    lemma_first_at_is(msg, COLON, c3 + 1, c4);

    // the fields are the rendered digits
    assert(msg.subrange(0, c1) =~= dw);
    assert(msg.subrange(c1 + 1, c2) =~= ds);
    assert(msg.subrange(c2 + 1, c3) =~= dt);
    assert(msg.subrange(c3 + 1, c4) =~= zp);
    assert(msg.skip(c4 + 1) =~= payload);
}

/// Torn-read policy over two successive writes to one slot: a
/// snapshot holding either complete frame parses to the fields of
/// that frame, so its sequence is one of the two sequences written
/// and its timestamp one of the two timestamps written.
pub proof fn lemma_successive_writes_fields(
    writer_id: u64,
    sequence: u64,
    ts_first: u64,
    ts_second: u64,
    offset: u64,
    payload_first: Seq<u8>,
    payload_second: Seq<u8>,
    tail_first: Seq<u8>,
    tail_second: Seq<u8>,
    snap: Seq<u8>,
)
    requires
        sequence < u64::MAX,
        forall|i: int| 0 <= i < payload_first.len() ==> payload_first[i] != 0,
        forall|i: int| 0 <= i < payload_second.len() ==> payload_second[i] != 0,
        snap == frame_bytes(
            writer_id as nat,
            sequence as nat,
            ts_first as nat,
            offset as nat,
            payload_first,
        ) + tail_first || snap == frame_bytes(
            writer_id as nat,
            (sequence + 1) as nat,
            ts_second as nat,
            offset as nat,
            payload_second,
        ) + tail_second,
    ensures
        spec_parse_envelope(snap) is Some,
        ({
            let env = spec_parse_envelope(snap)->Some_0;
            &&& env.writer_id == writer_id
            &&& env.sequence == sequence || env.sequence == sequence + 1
            &&& env.start_ts_micros == ts_first || env.start_ts_micros == ts_second
        }),
{
    if snap == frame_bytes(
        writer_id as nat,
        sequence as nat,
        ts_first as nat,
        offset as nat,
        payload_first,
    ) + tail_first {
        lemma_frame_parse_round_trip(
            writer_id,
            sequence,
            ts_first,
            offset,
            payload_first,
            tail_first,
        );
    } else {
        lemma_frame_parse_round_trip(
            writer_id,
            (sequence + 1) as u64,
            ts_second,
            offset,
            payload_second,
            tail_second,
        );
    }
}

/// One record of a writer history: what some write call framed.
pub struct WriteRecord {
    pub writer_id: int,
    pub sequence: int,
    pub payload: Seq<u8>,
}

/// Each writer's sequence numbers increase strictly along a history.
pub open spec fn sequences_strictly_increase(history: Seq<WriteRecord>) -> bool {
    forall|k: int, l: int|
        0 <= k < l < history.len() && #[trigger] history[k].writer_id == #[trigger] history[l].writer_id
            ==> history[k].sequence < history[l].sequence
}

/// Snapshots that parse to the same `(writer_id, sequence)` pair
/// carry the same payload: because a writer's sequence strictly
/// increases with every write, a pair denotes at most one write in
/// the history, so two clean reads agreeing on the pair saw the same
/// publication.
pub proof fn lemma_same_sequence_same_payload(history: Seq<WriteRecord>, i: int, j: int)
    requires
        sequences_strictly_increase(history),
        0 <= i < history.len(),
        0 <= j < history.len(),
        history[i].writer_id == history[j].writer_id,
        history[i].sequence == history[j].sequence,
    ensures
        i == j,
        history[i].payload == history[j].payload,
{
    if i < j {
        assert(history[i].sequence < history[j].sequence);
    }
    if j < i {
        assert(history[j].sequence < history[i].sequence);
    }
}

/// A sequence number is news when it exceeds the last one seen from
/// the same writer; everything else is a stale re-read of the slot.
pub open spec fn spec_is_fresh(last_seen: Option<u64>, sequence: int) -> bool {
    match last_seen {
        Option::Some(last) => sequence > last,
        Option::None => true,
    }
}

/// Whether a cleanly parsed snapshot is news: its sequence exceeds
/// the last sequence seen from the same writer.
pub fn is_fresh(last_seen: Option<u64>, sequence: u64) -> (fresh: bool)
    ensures
        fresh == spec_is_fresh(last_seen, sequence as int),
{
    match last_seen {
        Some(last) => sequence > last,
        None => true,
    }
}

} // verus!
