//! Framing of a message into a slot.
//!
//! A framed message is the ASCII header
//! `writer_id ":" sequence ":" start_ts_micros ":" offset ":"`
//! followed by the payload and one NUL byte.  The offset field is the
//! writer id plus the byte offset of the slot inside the partition,
//! zero-padded to the decimal width of the largest machine word so
//! that the header of a given writer has a fixed prefix length.

use vstd::prelude::*;
use crate::decimal::{dec_digits, lemma_dec_digits_u64, lemma_dec_digits_wf};

verus! {

/// ASCII code of the field separator `:`.
pub const COLON: u8 = 58;

/// Decimal width of `usize::MAX` on a 64-bit machine: the width the
/// offset field is zero-padded to.
pub const MAX_USIZE_STRING_LENGTH: usize = 20;

/// Largest length the framing header can take: four separators and
/// four numeric fields of at most 20 digits each.
pub const MAX_HEADER_LEN: usize = 84;

/// Smallest length the framing header can take: four separators,
/// three single-digit fields and the fixed-width offset field.
pub const MIN_HEADER_LEN: usize = 27;

/// The digits of `n`, left-padded with ASCII zeros to the fixed
/// offset-field width.
pub open spec fn zero_padded(n: nat) -> Seq<u8> {
    if dec_digits(n).len() >= MAX_USIZE_STRING_LENGTH {
        dec_digits(n)
    } else {
        Seq::new((MAX_USIZE_STRING_LENGTH - dec_digits(n).len()) as nat, |i: int| 48u8)
            + dec_digits(n)
    }
}

/// The header bytes for the given field values.
pub open spec fn header_bytes(writer_id: nat, sequence: nat, timestamp: nat, offset: nat) -> Seq<
    u8,
> {
    dec_digits(writer_id) + seq![COLON] + dec_digits(sequence) + seq![COLON] + dec_digits(
        timestamp,
    ) + seq![COLON] + zero_padded(offset) + seq![COLON]
}

/// The full frame: header, payload, one NUL terminator.
pub open spec fn frame_bytes(
    writer_id: nat,
    sequence: nat,
    timestamp: nat,
    offset: nat,
    payload: Seq<u8>,
) -> Seq<u8> {
    header_bytes(writer_id, sequence, timestamp, offset) + payload + seq![0u8]
}

/// Header lengths never exceed `MAX_HEADER_LEN` for fields that fit
/// in a machine word.
pub proof fn lemma_header_len_bound(writer_id: u64, sequence: u64, timestamp: u64, offset: u64)
    ensures
        header_bytes(
            writer_id as nat,
            sequence as nat,
            timestamp as nat,
            offset as nat,
        ).len() <= MAX_HEADER_LEN,
        header_bytes(writer_id as nat, sequence as nat, timestamp as nat, offset as nat).len()
            >= 27,
{
    lemma_dec_digits_u64(writer_id);
    lemma_dec_digits_u64(sequence);
    lemma_dec_digits_u64(timestamp);
    lemma_dec_digits_u64(offset);
    lemma_dec_digits_wf(writer_id as nat);
    lemma_dec_digits_wf(sequence as nat);
    lemma_dec_digits_wf(timestamp as nat);
    lemma_dec_digits_wf(offset as nat);
}

/// The padded offset field is made of digits, is never empty, and
/// still denotes `n`.
pub proof fn lemma_zero_padded_wf(n: nat)
    ensures
        crate::decimal::all_digits(zero_padded(n)),
        zero_padded(n).len() >= 1,
        crate::decimal::dec_value(zero_padded(n)) == n,
{
    lemma_dec_digits_wf(n);
    crate::decimal::lemma_dec_round_trip(n);
    if dec_digits(n).len() < MAX_USIZE_STRING_LENGTH {
        let pad = (MAX_USIZE_STRING_LENGTH - dec_digits(n).len()) as nat;
        crate::decimal::lemma_dec_value_leading_zeros(pad, dec_digits(n));
    }
}

/// The digits of `n` padded with ASCII zeros to the offset-field
/// width.
pub fn zero_padded_bytes(n: u64) -> (v: Vec<u8>)
    ensures
        v@ == zero_padded(n as nat),
{
    let digits = crate::decimal::u64_to_dec_bytes(n);
    if digits.len() >= MAX_USIZE_STRING_LENGTH {
        return digits;
    }
    let pad: usize = MAX_USIZE_STRING_LENGTH - digits.len();
    let mut v: Vec<u8> = Vec::new();
    let mut k: usize = 0;
    while k < pad
        invariant
            k <= pad,
            v@ =~= Seq::new(k as nat, |i: int| 48u8),
        decreases pad - k,
    {
        v.push(48);
        proof {
            assert(v@ =~= Seq::new((k + 1) as nat, |i: int| 48u8));
        }
        k = k + 1;
    }
    v.extend_from_slice(digits.as_slice());
    proof {
        assert(v@ =~= zero_padded(n as nat));
    }
    v
}

/// Builds the frame for one write: header, payload, NUL.
pub fn make_frame(
    writer_id: usize,
    sequence: usize,
    timestamp: u64,
    offset: usize,
    payload: &[u8],
) -> (f: Vec<u8>)
    ensures
        f@ == frame_bytes(
            writer_id as nat,
            sequence as nat,
            timestamp as nat,
            offset as nat,
            payload@,
        ),
{
    let mut f = crate::decimal::u64_to_dec_bytes(writer_id as u64);
    f.push(COLON);
    let seq_digits = crate::decimal::u64_to_dec_bytes(sequence as u64);
    f.extend_from_slice(seq_digits.as_slice());
    f.push(COLON);
    let ts_digits = crate::decimal::u64_to_dec_bytes(timestamp);
    f.extend_from_slice(ts_digits.as_slice());
    f.push(COLON);
    let off_padded = zero_padded_bytes(offset as u64);
    f.extend_from_slice(off_padded.as_slice());
    f.push(COLON);
    f.extend_from_slice(payload);
    f.push(0);
    proof {
        assert(f@ =~= frame_bytes(
            writer_id as nat,
            sequence as nat,
            timestamp as nat,
            offset as nat,
            payload@,
        ));
    }
    f
}

} // verus!
