//! Sizing and partitioning of the slot table.
//!
//! The orchestrator splits the filtered instrument list into
//! partitions of `MARKETS_PER_WEBSOCKET` instruments, one feed worker
//! per partition, and sizes the shared mapping to hold one slot of
//! `CHUNK_SIZE` bytes per instrument.

use vstd::prelude::*;

verus! {

/// Bytes per slot (the stride of the slot table).
pub const CHUNK_SIZE: usize = 320;

/// Instruments routed over one websocket connection; also the number
/// of slots in one partition of the slot table.
pub const MARKETS_PER_WEBSOCKET: usize = 150;

/// Number of partitions (one feed worker and one websocket each)
/// needed for `symbol_count` instruments of `width` per partition.
pub fn partition_count(symbol_count: usize, width: usize) -> (count: usize)
    requires
        width >= 1,
        symbol_count / width < usize::MAX,
    ensures
        count == symbol_count / width + 1,
{
    symbol_count / width + 1
}

/// Number of websockets the orchestrator opens for `symbol_count`
/// instruments, at the default partition width.
pub fn websocket_count(symbol_count: usize) -> (count: usize)
    ensures
        count == symbol_count / MARKETS_PER_WEBSOCKET + 1,
{
    partition_count(symbol_count, MARKETS_PER_WEBSOCKET)
}

/// Size in bytes of a mapping of `partitions * width` slots of
/// `stride` bytes, or `None` when it does not fit in `usize`.
pub fn required_file_size(partitions: usize, width: usize, stride: usize) -> (size: Option<
    usize,
>)
    requires
        stride >= 1,
    ensures
        match size {
            Some(n) => n == partitions * width * stride,
            None => partitions * width * stride > usize::MAX,
        },
{
    match partitions.checked_mul(width) {
        Some(slots) => slots.checked_mul(stride),
        None => {
            proof {
                vstd::arithmetic::mul::lemma_mul_inequality(
                    1,
                    stride as int,
                    partitions as int * width as int,
                );
                vstd::arithmetic::mul::lemma_mul_is_commutative(
                    partitions as int * width as int,
                    stride as int,
                );
            }
            None
        },
    }
}

} // verus!
