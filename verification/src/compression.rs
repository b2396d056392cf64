//! Inflation of compressed websocket frames.
//!
//! The exchange sends every market-data frame gzip-compressed; each
//! one is inflated into a fixed per-worker buffer of one slot stride,
//! since payloads are expected to fit in a slot.

use vstd::prelude::*;
use std::io::Read;

verus! {

/// What the gzip decoder yields for `input` when read into a buffer
/// of `cap` bytes: the bytes written, or nothing when the input is
/// rejected.  Decompression is a function of the input bytes and the
/// buffer size alone.
pub uninterp spec fn gz_inflate(input: Seq<u8>, cap: nat) -> Option<Seq<u8>>;

/// A frame that could not be inflated; it is dropped as transient.
#[derive(Clone, Copy, Debug, PartialEq, Eq, Structural)]
pub struct InflateError;

/// Relies on flate2's `MultiGzDecoder` (through one
/// `std::io::Read::read` call): decodes gzip members of `bytes` into
/// the front of `buffer` and returns how many bytes it wrote.  The
/// buffer keeps its length; only its first `n` bytes are promised.
#[verifier::external_body]
pub fn gz_inflate_to_buffer(bytes: &Vec<u8>, buffer: &mut Vec<u8>) -> (r: Result<
    usize,
    InflateError,
>)
    ensures
        final(buffer)@.len() == old(buffer)@.len(),
        match r {
            Ok(n) => n <= final(buffer)@.len() && gz_inflate(bytes@, old(buffer)@.len() as nat)
                == Some(final(buffer)@.take(n as int)),
            Err(_) => gz_inflate(bytes@, old(buffer)@.len() as nat) is None,
        },
{
    let mut gz = flate2::read::MultiGzDecoder::new(&bytes[..]);
    match gz.read(buffer.as_mut_slice()) {
        Ok(n) => Ok(n),
        Err(_) => Err(InflateError),
    }
}

} // verus!
