//! The per-partition slot writer.
//!
//! One writer owns partition `writer_id` of the slot table: the
//! `chunk_count` slots starting at slot `writer_id * chunk_count`.
//! Each write frames a payload (header, payload, NUL) and publishes
//! it into one slot of that partition, leaving every byte outside the
//! partition untouched.

use vstd::prelude::*;
use crate::errors::WorkerError;
use crate::framing::{frame_bytes, make_frame, lemma_header_len_bound, MAX_HEADER_LEN};
use crate::slot_table::SlotTable;

verus! {

/// A single-partition writer with its monotonically increasing
/// per-writer sequence counter.
pub struct SharedMemoryWriter {
    writer_id: usize,
    chunk_size: usize,
    chunk_count: usize,
    sequence: usize,
}

impl SharedMemoryWriter {
    /// The partition this writer owns.
    pub closed spec fn writer_id(&self) -> nat {
        self.writer_id as nat
    }

    /// Bytes per slot.
    pub closed spec fn chunk_size(&self) -> nat {
        self.chunk_size as nat
    }

    /// Slots in this writer's partition.
    pub closed spec fn chunk_count(&self) -> nat {
        self.chunk_count as nat
    }

    /// The sequence number the next write will carry.
    pub closed spec fn sequence(&self) -> nat {
        self.sequence as nat
    }

    /// The writer matches the table it writes into: same stride, and
    /// its partition lies inside the table.
    pub open spec fn owns_partition_of(&self, table: &SlotTable) -> bool {
        &&& table.stride() == self.chunk_size()
        &&& (self.writer_id() + 1) * self.chunk_count() <= table.slot_count()
    }

    /// The absolute slot index behind `chunk_index` of this writer.
    pub open spec fn abs_slot(&self, chunk_index: int) -> int {
        self.writer_id() * self.chunk_count() + chunk_index
    }

    /// The value of the frame's offset field for `chunk_index`:
    /// the writer id plus the byte offset of the slot inside the
    /// partition.
    pub open spec fn offset_field(&self, chunk_index: int) -> int {
        self.writer_id() + chunk_index * self.chunk_size()
    }

    /// Slot `chunk_index` of `after` holds the frame this writer
    /// (in state `self`, before the call) produces for `payload` and
    /// `timestamp`, over the old tail of that slot in `before`.
    pub open spec fn published(
        &self,
        before: SlotTable,
        after: SlotTable,
        chunk_index: int,
        payload: Seq<u8>,
        timestamp: u64,
    ) -> bool {
        let frame = frame_bytes(
            self.writer_id(),
            self.sequence(),
            timestamp as nat,
            self.offset_field(chunk_index) as nat,
            payload,
        );
        &&& frame.len() <= self.chunk_size()
        &&& after.slot(self.abs_slot(chunk_index)) == frame + before.slot(
            self.abs_slot(chunk_index),
        ).skip(frame.len() as int)
    }

    /// A fresh writer for partition `writer_id`, starting at
    /// sequence 0.
    pub fn create(writer_id: usize, chunk_size: usize, chunk_count: usize) -> (w:
        SharedMemoryWriter)
        ensures
            w.writer_id() == writer_id,
            w.chunk_size() == chunk_size,
            w.chunk_count() == chunk_count,
            w.sequence() == 0,
    {
        SharedMemoryWriter { writer_id, chunk_size, chunk_count, sequence: 0 }
    }

    /// The sequence number the next write will carry.
    pub fn get_sequence(&self) -> (n: usize)
        ensures
            n == self.sequence(),
    {
        self.sequence
    }

    /// Frames `payload` with the given timestamp and publishes it
    /// into slot `chunk_index` of this writer's partition.
    ///
    /// Fails, changing nothing, exactly when the framed message would
    /// exceed the stride; on success the slot starts with the frame,
    /// keeps its old tail, every other slot is unchanged, and the
    /// sequence counter advances by one.
    pub fn write_at(
        &mut self,
        table: &mut SlotTable,
        chunk_index: usize,
        payload: &[u8],
        timestamp: u64,
    ) -> (r: Result<(), WorkerError>)
        requires
            old(table).wf(),
            old(self).owns_partition_of(old(table)),
            chunk_index < old(self).chunk_count(),
            old(self).sequence() < usize::MAX,
        ensures
            final(table).wf(),
            final(table).stride() == old(table).stride(),
            final(table).slot_count() == old(table).slot_count(),
            r matches Ok(_) <==> frame_bytes(
                old(self).writer_id(),
                old(self).sequence(),
                timestamp as nat,
                old(self).offset_field(chunk_index as int) as nat,
                payload@,
            ).len() <= old(self).chunk_size(),
            match r {
                Ok(_) => {
                    &&& final(self).writer_id() == old(self).writer_id()
                    &&& final(self).chunk_size() == old(self).chunk_size()
                    &&& final(self).chunk_count() == old(self).chunk_count()
                    &&& final(self).sequence() == old(self).sequence() + 1
                    &&& {
                        let frame = frame_bytes(
                            old(self).writer_id(),
                            old(self).sequence(),
                            timestamp as nat,
                            old(self).offset_field(chunk_index as int) as nat,
                            payload@,
                        );
                        final(table).slot(old(self).abs_slot(chunk_index as int)) == frame + old(
                            table,
                        ).slot(old(self).abs_slot(chunk_index as int)).skip(frame.len() as int)
                    }
                    &&& forall|j: int|
                        0 <= j < old(table).slot_count() && j != old(self).abs_slot(
                            chunk_index as int,
                        ) ==> final(table).slot(j) == old(table).slot(j)
                },
                Err(e) => {
                    &&& e == WorkerError::FrameTooLarge
                    &&& *final(self) == *old(self)
                    &&& *final(table) == *old(table)
                },
            },
    {
        proof {
            lemma_partition_in_table(self, table, chunk_index as int);
        }
        let offset: usize = self.writer_id + chunk_index * self.chunk_size;
        let frame = make_frame(self.writer_id, self.sequence, timestamp, offset, payload);
        if frame.len() > self.chunk_size {
            return Err(WorkerError::FrameTooLarge);
        }
        let slot_index: usize = self.writer_id * self.chunk_count + chunk_index;
        table.write_slot(slot_index, &frame);
        self.sequence = self.sequence + 1;
        Ok(())
    }

    /// Frames `payload` with the current wall clock (0 when the clock
    /// fails) and publishes it into slot `chunk_index`.
    ///
    /// A payload short enough for the largest possible header always
    /// succeeds; failure reports the frame as oversized and changes
    /// nothing.
    pub fn write(&mut self, table: &mut SlotTable, chunk_index: usize, payload: &[u8]) -> (r:
        Result<(), WorkerError>)
        requires
            old(table).wf(),
            old(self).owns_partition_of(old(table)),
            chunk_index < old(self).chunk_count(),
            old(self).sequence() < usize::MAX,
        ensures
            final(table).wf(),
            final(table).stride() == old(table).stride(),
            final(table).slot_count() == old(table).slot_count(),
            final(self).writer_id() == old(self).writer_id(),
            final(self).chunk_size() == old(self).chunk_size(),
            final(self).chunk_count() == old(self).chunk_count(),
            payload@.len() + MAX_HEADER_LEN + 1 <= old(self).chunk_size() ==> r matches Ok(_),
            match r {
                Ok(_) => {
                    &&& final(self).sequence() == old(self).sequence() + 1
                    &&& exists|timestamp: u64|
                        #[trigger] old(self).published(
                            *old(table),
                            *final(table),
                            chunk_index as int,
                            payload@,
                            timestamp,
                        )
                    &&& forall|j: int|
                        0 <= j < old(table).slot_count() && j != old(self).abs_slot(
                            chunk_index as int,
                        ) ==> final(table).slot(j) == old(table).slot(j)
                },
                Err(e) => {
                    &&& e == WorkerError::FrameTooLarge
                    &&& payload@.len() + MAX_HEADER_LEN + 1 > old(self).chunk_size()
                    &&& *final(self) == *old(self)
                    &&& *final(table) == *old(table)
                },
            },
    {
        let timestamp = match crate::time_util::now_micros() {
            Some(t) => t,
            None => 0,
        };
        proof {
            lemma_partition_in_table(self, table, chunk_index as int);
            lemma_header_len_bound(
                self.writer_id as u64,
                self.sequence as u64,
                timestamp,
                (self.writer_id + chunk_index * self.chunk_size) as u64,
            );
        }
        let r = self.write_at(table, chunk_index, payload, timestamp);
        proof {
            if r matches Ok(_) {
                assert(old(self).published(
                    *old(table),
                    *table,
                    chunk_index as int,
                    payload@,
                    timestamp,
                ));
            }
        }
        r
    }
}

/// Every slot of the writer's partition lies inside the table, and
/// the arithmetic on indices and offsets stays inside `usize`.
pub proof fn lemma_partition_in_table(w: &SharedMemoryWriter, table: &SlotTable, chunk_index: int)
    requires
        table.wf(),
        w.owns_partition_of(table),
        0 <= chunk_index < w.chunk_count(),
    ensures
        0 <= w.abs_slot(chunk_index) < table.slot_count(),
        w.writer_id() * w.chunk_count() + chunk_index < table.slot_count(),
        0 <= w.offset_field(chunk_index) <= usize::MAX,
        chunk_index * w.chunk_size() <= usize::MAX,
{
    let wid = w.writer_id() as int;
    let cc = w.chunk_count() as int;
    let cs = w.chunk_size() as int;
    let sc = table.slot_count() as int;
    assert((wid + 1) * cc == wid * cc + cc) by (nonlinear_arith);
    vstd::arithmetic::mul::lemma_mul_nonnegative(wid, cc);
    assert(wid * cc + chunk_index < sc);
    // offset_field = wid + chunk_index * cs; bound it by the region size
    assert(chunk_index * cs <= (cc - 1) * cs) by {
        vstd::arithmetic::mul::lemma_mul_inequality(chunk_index, cc - 1, cs);
    }
    assert(sc * cs <= usize::MAX) by {
        assert(table.region().len() == sc * cs && table.region().len() <= usize::MAX);
    }
    assert(wid + (cc - 1) * cs <= sc * cs) by (nonlinear_arith)
        requires
            wid * cc + cc <= sc,
            cs >= 2,
            wid >= 0,
            cc >= 1,
    ;
}

} // verus!
