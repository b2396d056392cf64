//! The fixed-stride slot table.
//!
//! A table is one contiguous byte region split into `slot_count`
//! slots of `stride` bytes each; slot `i` covers the byte range
//! `[i * stride, (i + 1) * stride)`.  A write touches one slot and
//! only the prefix it was handed; the rest of the slot keeps the
//! bytes of earlier writes, which readers never see past the payload
//! NUL.  The process-shared file mapping that backs the table in a
//! running system carries exactly this layout.

use vstd::prelude::*;
use crate::errors::ConfigError;
use crate::framing::MIN_HEADER_LEN;

verus! {

/// The slot table: `slot_count` slots of `stride` bytes.
pub struct SlotTable {
    bytes: Vec<u8>,
    stride: usize,
    slot_count: usize,
}

impl SlotTable {
    /// The whole byte region, in slot order.
    pub closed spec fn region(&self) -> Seq<u8> {
        self.bytes@
    }

    /// Bytes per slot.
    pub closed spec fn stride(&self) -> nat {
        self.stride as nat
    }

    /// Number of slots.
    pub closed spec fn slot_count(&self) -> nat {
        self.slot_count as nat
    }

    /// The region is exactly `slot_count * stride` bytes and every
    /// slot can hold the smallest header, one payload byte and NUL.
    pub open spec fn wf(&self) -> bool {
        &&& self.region().len() == self.slot_count() * self.stride()
        &&& self.stride() >= MIN_HEADER_LEN + 2
        &&& self.stride() <= usize::MAX
        &&& self.slot_count() <= usize::MAX
        &&& self.region().len() <= usize::MAX
    }

    /// The bytes of slot `i`.
    pub open spec fn slot(&self, i: int) -> Seq<u8> {
        self.region().subrange(i * self.stride(), (i + 1) * self.stride())
    }

    /// Creates a zero-filled table.
    ///
    /// Rejects a stride that cannot hold even the smallest header
    /// plus one payload byte and the NUL, and a table that would not
    /// fit in the address space.
    pub fn create(slot_count: usize, stride: usize) -> (r: Result<SlotTable, ConfigError>)
        ensures
            match r {
                Ok(t) => {
                    &&& stride >= MIN_HEADER_LEN + 2
                    &&& slot_count * stride <= usize::MAX
                    &&& t.wf()
                    &&& t.stride() == stride
                    &&& t.slot_count() == slot_count
                    &&& t.region() == Seq::new((slot_count * stride) as nat, |i: int| 0u8)
                },
                Err(ConfigError::StrideTooSmall) => stride < MIN_HEADER_LEN + 2,
                Err(ConfigError::SizeOverflow) => stride >= MIN_HEADER_LEN + 2 && slot_count
                    * stride > usize::MAX,
            },
    {
        if stride < MIN_HEADER_LEN + 2 {
            return Err(ConfigError::StrideTooSmall);
        }
        match slot_count.checked_mul(stride) {
            Some(size) => {
                let bytes = vec![0u8; size];
                Ok(SlotTable { bytes, stride, slot_count })
            },
            None => Err(ConfigError::SizeOverflow),
        }
    }

    /// Bytes per slot.
    pub fn get_stride(&self) -> (s: usize)
        ensures
            s == self.stride(),
    {
        self.stride
    }

    /// Number of slots.
    pub fn get_slot_count(&self) -> (c: usize)
        ensures
            c == self.slot_count(),
    {
        self.slot_count
    }

    /// Writes `data` into the front of slot `slot_index`.
    ///
    /// Only the first `data.len()` bytes of the slot change; the tail
    /// of the slot and every byte outside the slot keep their old
    /// value.
    pub fn write_slot(&mut self, slot_index: usize, data: &Vec<u8>)
        requires
            old(self).wf(),
            slot_index < old(self).slot_count(),
            data@.len() <= old(self).stride(),
        ensures
            final(self).wf(),
            final(self).stride() == old(self).stride(),
            final(self).slot_count() == old(self).slot_count(),
            final(self).slot(slot_index as int) == data@ + old(self).slot(slot_index as int).skip(
                data@.len() as int,
            ),
            forall|j: int|
                0 <= j < old(self).slot_count() && j != slot_index ==> final(self).slot(j) == old(
                    self,
                ).slot(j),
            forall|k: int|
                0 <= k < old(self).region().len() && !(slot_index * old(self).stride() <= k
                    < slot_index * old(self).stride() + data@.len()) ==> final(self).region()[k]
                    == old(self).region()[k],
    {
        let region_len: usize = self.bytes.len();
        proof {
            lemma_slot_range(old(self), slot_index as int);
        }
        let base: usize = slot_index * self.stride;
        let mut j: usize = 0;
        while j < data.len()
            invariant
                self.stride == old(self).stride,
                self.slot_count == old(self).slot_count,
                self.bytes@.len() == old(self).bytes@.len(),
                j <= data@.len() <= self.stride,
                base == slot_index as int * self.stride,
                base + self.stride <= self.bytes@.len(),
                base + self.stride <= usize::MAX,
                forall|k: int|
                    0 <= k < self.bytes@.len() && !(base <= k < base + j) ==> self.bytes@[k]
                        == old(self).bytes@[k],
                forall|k: int| base <= k < base + j ==> self.bytes@[k] == data@[k - base],
            decreases data@.len() - j,
        {
            let b = data[j];
            self.bytes.set(base + j, b);
            j = j + 1;
        }
        proof {
            assert(self.slot(slot_index as int) =~= data@ + old(self).slot(
                slot_index as int,
            ).skip(data@.len() as int));
            assert forall|jj: int|
                0 <= jj < old(self).slot_count() && jj != slot_index implies self.slot(jj) == old(
                self,
            ).slot(jj) by {
                lemma_slot_range(old(self), jj);
                lemma_slots_disjoint(old(self), jj, slot_index as int);
                assert(self.slot(jj) =~= old(self).slot(jj));
            }
        }
    }

    /// Copies the current bytes of slot `slot_index` out of the
    /// table.
    pub fn snapshot(&self, slot_index: usize) -> (snap: Vec<u8>)
        requires
            self.wf(),
            slot_index < self.slot_count(),
        ensures
            snap@ == self.slot(slot_index as int),
    {
        let region_len: usize = self.bytes.len();
        proof {
            lemma_slot_range(self, slot_index as int);
        }
        let base: usize = slot_index * self.stride;
        let mut snap: Vec<u8> = Vec::new();
        let mut j: usize = 0;
        while j < self.stride
            invariant
                j <= self.stride,
                base == slot_index as int * self.stride,
                base + self.stride <= self.bytes@.len(),
                base + self.stride <= usize::MAX,
                snap@.len() == j,
                forall|k: int| 0 <= k < j ==> snap@[k] == self.bytes@[base + k],
            decreases self.stride - j,
        {
            let b = self.bytes[base + j];
            snap.push(b);
            j = j + 1;
        }
        proof {
            assert(snap@ =~= self.slot(slot_index as int));
        }
        snap
    }
}

/// Slot `i` of a well-formed table lies inside the region.
pub proof fn lemma_slot_range(t: &SlotTable, i: int)
    requires
        t.wf(),
        0 <= i < t.slot_count(),
    ensures
        0 <= i * t.stride(),
        (i + 1) * t.stride() == i * t.stride() + t.stride(),
        i * t.stride() + t.stride() <= t.region().len(),
        t.slot(i).len() == t.stride(),
{
    vstd::arithmetic::mul::lemma_mul_inequality(i + 1, t.slot_count() as int, t.stride() as int);
    vstd::arithmetic::mul::lemma_mul_nonnegative(i, t.stride() as int);
    assert((i + 1) * (t.stride() as int) == i * (t.stride() as int) + t.stride() as int)
        by (nonlinear_arith);
}

/// Different slots of a table cover disjoint byte ranges.
pub proof fn lemma_slots_disjoint(t: &SlotTable, i: int, j: int)
    requires
        t.wf(),
        0 <= i < t.slot_count(),
        0 <= j < t.slot_count(),
        i != j,
    ensures
        i < j ==> (i + 1) * t.stride() <= j * t.stride(),
        j < i ==> (j + 1) * t.stride() <= i * t.stride(),
{
    if i < j {
        vstd::arithmetic::mul::lemma_mul_inequality(i + 1, j, t.stride() as int);
    } else {
        vstd::arithmetic::mul::lemma_mul_inequality(j + 1, i, t.stride() as int);
    }
}

} // verus!
