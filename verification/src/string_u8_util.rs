//! Small byte-string helpers shared by the slot readers.

use vstd::prelude::*;
use crate::envelope::first_at;

verus! {

/// Whether every byte of `buf` is zero — an untouched slot.
pub fn is_zero(buf: &[u8]) -> (z: bool)
    ensures
        z <==> (forall|i: int| 0 <= i < buf@.len() ==> buf@[i] == 0),
{
    let mut i: usize = 0;
    while i < buf.len()
        invariant
            i <= buf@.len(),
            forall|j: int| 0 <= j < i ==> buf@[j] == 0,
        decreases buf@.len() - i,
    {
        if buf[i] != 0 {
            return false;
        }
        i = i + 1;
    }
    true
}

/// The bytes of `buf` up to (not including) its first NUL, or all
/// of them when there is none — what a reader treats as the live
/// content of a snapshot.
pub fn null_terminated_prefix(buf: &[u8]) -> (r: &[u8])
    ensures
        r@ == buf@.take(first_at(buf@, 0, 0)),
{
    let mut i: usize = 0;
    while i < buf.len()
        invariant
            i <= buf@.len(),
            forall|j: int| 0 <= j < i ==> buf@[j] != 0,
        decreases buf@.len() - i,
    {
        if buf[i] == 0 {
            proof {
                crate::envelope::lemma_first_at_is(buf@, 0, 0, i as int);
            }
            return &buf[0..i];
        }
        i = i + 1;
    }
    proof {
        crate::envelope::lemma_first_at_is(buf@, 0, 0, i as int);
        assert(buf@.take(i as int) =~= buf@);
    }
    &buf[0..buf.len()]
}

} // verus!
