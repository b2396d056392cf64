//! The consumer-side slot reader.
//!
//! The reader sweeps the whole slot table round-robin: each call
//! snapshots the current slot and advances to the next one, wrapping
//! after the last slot.  It never blocks and never decides whether a
//! snapshot is new; the caller detects stale or torn data by parsing
//! the envelope and comparing sequence numbers.

use vstd::prelude::*;
use crate::slot_table::SlotTable;

verus! {

/// Round-robin reader over a table of `chunk_count` slots of
/// `chunk_size` bytes.
pub struct SharedMemoryReader {
    chunk_size: usize,
    chunk_count: usize,
    current_chunk_id: usize,
}

impl SharedMemoryReader {
    /// Bytes per slot.
    pub closed spec fn chunk_size(&self) -> nat {
        self.chunk_size as nat
    }

    /// Slots in the table the reader sweeps.
    pub closed spec fn chunk_count(&self) -> nat {
        self.chunk_count as nat
    }

    /// The slot the next read will snapshot.
    pub closed spec fn current_chunk_id(&self) -> nat {
        self.current_chunk_id as nat
    }

    /// There is at least one slot and the cursor points at one.
    pub open spec fn wf(&self) -> bool {
        &&& self.chunk_count() >= 1
        &&& self.current_chunk_id() < self.chunk_count()
    }

    /// The reader sweeps exactly the slots of `table`.
    pub open spec fn matches_table(&self, table: &SlotTable) -> bool {
        &&& table.stride() == self.chunk_size()
        &&& table.slot_count() == self.chunk_count()
    }

    /// A fresh reader starting its sweep at slot 0.
    pub fn create(chunk_size: usize, chunk_count: usize) -> (r: SharedMemoryReader)
        requires
            chunk_count >= 1,
        ensures
            r.wf(),
            r.chunk_size() == chunk_size,
            r.chunk_count() == chunk_count,
            r.current_chunk_id() == 0,
    {
        SharedMemoryReader { chunk_size, chunk_count, current_chunk_id: 0 }
    }

    /// Snapshots the current slot and advances the cursor by one,
    /// wrapping at the end of the table.
    pub fn read_next_message(&mut self, table: &SlotTable) -> (snap: Vec<u8>)
        requires
            old(self).wf(),
            table.wf(),
            old(self).matches_table(table),
        ensures
            final(self).wf(),
            final(self).matches_table(table),
            final(self).chunk_size() == old(self).chunk_size(),
            final(self).chunk_count() == old(self).chunk_count(),
            snap@ == table.slot(old(self).current_chunk_id() as int),
            snap@.len() == old(self).chunk_size(),
            final(self).current_chunk_id() == (old(self).current_chunk_id() + 1) % old(
                self,
            ).chunk_count(),
    {
        let snap = table.snapshot(self.current_chunk_id);
        proof {
            crate::slot_table::lemma_slot_range(table, self.current_chunk_id as int);
        }
        self.current_chunk_id = self.current_chunk_id + 1;
        if self.current_chunk_id >= self.chunk_count {
            self.current_chunk_id = 0;
            proof {
                assert(old(self).current_chunk_id() + 1 == old(self).chunk_count());
                vstd::arithmetic::div_mod::lemma_mod_self_0(old(self).chunk_count() as int);
            }
        } else {
            proof {
                vstd::arithmetic::div_mod::lemma_small_mod(
                    (old(self).current_chunk_id() + 1) as nat,
                    old(self).chunk_count(),
                );
            }
        }
        snap
    }
}

/// Some read of a sweep of `n` reads starting at slot `start` lands
/// on slot `s`.
pub open spec fn sweep_visits(start: int, n: int, s: int) -> bool {
    exists|i: int| 0 <= i < n && #[trigger] ((start + i) % n) == s
}

/// A full sweep of `n` reads starting anywhere visits every slot
/// exactly once: the `i`-th read of the sweep lands on slot
/// `(start + i) % n`, no two reads of the sweep land on the same
/// slot, and every slot is hit by some read of the sweep.
pub proof fn lemma_round_robin_cycle(start: int, n: int)
    requires
        0 <= start < n,
    ensures
        forall|i: int, j: int|
            0 <= i < j < n ==> #[trigger] ((start + i) % n) != #[trigger] ((start + j) % n),
        forall|s: int| 0 <= s < n ==> #[trigger] sweep_visits(start, n, s),
{
    assert forall|i: int, j: int|
        0 <= i < j < n implies #[trigger] ((start + i) % n) != #[trigger] ((start + j) % n) by {
        lemma_wrap_mod(start + i, n);
        lemma_wrap_mod(start + j, n);
    }
    assert forall|s: int| 0 <= s < n implies #[trigger] sweep_visits(start, n, s) by {
        let i = if s >= start {
            s - start
        } else {
            s - start + n
        };
        lemma_wrap_mod(start + i, n);
        assert(0 <= i < n && (start + i) % n == s);
    }
}

/// Modulo of a value below twice the modulus: identity below `n`,
/// one subtraction above.
pub proof fn lemma_wrap_mod(a: int, n: int)
    requires
        0 <= a,
        0 < n,
        a < 2 * n,
    ensures
        a % n == if a < n {
            a
        } else {
            a - n
        },
{
    if a < n {
        vstd::arithmetic::div_mod::lemma_fundamental_div_mod_converse_mod(a, n, 0, a);
    } else {
        vstd::arithmetic::div_mod::lemma_fundamental_div_mod_converse_mod(a, n, 1, a - n);
    }
}

} // verus!
