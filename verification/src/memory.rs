//! Byte memories: blank RAM, ROM images copied into place, and the errors of
//! restoring a saved state.

use vstd::prelude::*;

verus! {

/// `n` zero bytes.
pub open spec fn zeros(n: nat) -> Seq<u8> {
    Seq::new(n, |i: int| 0u8)
}

/// `dst` with as much of `src` as fits copied over its start.
pub open spec fn overlaid(dst: Seq<u8>, src: Seq<u8>) -> Seq<u8> {
    Seq::new(
        dst.len(),
        |i: int|
            if i < src.len() {
                src[i]
            } else {
                dst[i]
            },
    )
}

/// A memory of `n` zero bytes.
pub fn zeroed(n: usize) -> (v: Vec<u8>)
    ensures
        v@ == zeros(n as nat),
{
    let v: Vec<u8> = vec![0u8; n];
    assert(v@ =~= zeros(n as nat));
    v
}

/// A copy of a byte string.
pub fn copied(src: &[u8]) -> (v: Vec<u8>)
    ensures
        v@ == src@,
{
    let mut v: Vec<u8> = Vec::new();
    let mut i: usize = 0;
    while i < src.len()
        invariant
            i <= src@.len(),
            v@ == src@.take(i as int),
        decreases src@.len() - i,
    {
        v.push(src[i]);
        i += 1;
        assert(v@ =~= src@.take(i as int));
    }
    assert(src@.take(src@.len() as int) =~= src@);
    v
}

/// A copy of part of a byte string.
pub fn copied_range(src: &[u8], from: usize, to: usize) -> (v: Vec<u8>)
    requires
        from <= to <= src@.len(),
    ensures
        v@ == src@.subrange(from as int, to as int),
{
    let mut v: Vec<u8> = Vec::new();
    let mut i: usize = from;
    while i < to
        invariant
            from <= i <= to <= src@.len(),
            v@ == src@.subrange(from as int, i as int),
        decreases to - i,
    {
        v.push(src[i]);
        i += 1;
        assert(v@ =~= src@.subrange(from as int, i as int));
    }
    v
}

/// Copy as much of `src` as fits over the start of `dst`.
pub fn overlay(dst: &mut Vec<u8>, src: &[u8])
    ensures
        final(dst)@ == overlaid(old(dst)@, src@),
{
    let ghost start = dst@;
    let mut i: usize = 0;
    while i < dst.len() && i < src.len()
        invariant
            i <= start.len(),
            i <= src@.len(),
            dst@ == overlaid(start, src@.take(i as int)),
        decreases start.len() - i,
    {
        dst[i] = src[i];
        i += 1;
        assert(dst@ =~= overlaid(start, src@.take(i as int)));
    }
    assert(dst@ =~= overlaid(start, src@));
}

/// Set every byte of a memory.
pub fn fill(dst: &mut Vec<u8>, value: u8)
    ensures
        final(dst)@ == Seq::new(old(dst)@.len(), |i: int| value),
{
    let ghost start = dst@;
    let mut i: usize = 0;
    while i < dst.len()
        invariant
            i <= start.len(),
            dst@.len() == start.len(),
            forall|k: int| 0 <= k < i ==> dst@[k] == value,
        decreases start.len() - i,
    {
        dst[i] = value;
        i += 1;
    }
    assert(dst@ =~= Seq::new(start.len(), |i: int| value));
}

/// Why a saved state could not be restored.
#[derive(Clone, Copy, Debug, PartialEq, Eq, Structural)]
pub enum SaveError {
    /// The data ends before the state does.
    UnexpectedEnd,
    /// A memory in the saved state has the wrong size.
    SizeMismatch,
}

} // verus!
