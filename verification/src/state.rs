//! Saved-state byte strings: a writer that appends fields and a reader that
//! takes them back in the same order.

use vstd::prelude::*;

use crate::memory::{SaveError, copied, copied_range};

verus! {

/// A 64-bit value as eight bytes, least significant first.
pub open spec fn le64(v: u64) -> Seq<u8> {
    seq![
        v as u8,
        (v >> 8) as u8,
        (v >> 16) as u8,
        (v >> 24) as u8,
        (v >> 32) as u8,
        (v >> 40) as u8,
        (v >> 48) as u8,
        (v >> 56) as u8,
    ]
}

/// The 64-bit value that eight bytes stand for.
pub open spec fn of_le64(s: Seq<u8>) -> u64 {
    s[0] as u64 | (s[1] as u64) << 8 | (s[2] as u64) << 16 | (s[3] as u64) << 24 | (s[4] as u64)
        << 32 | (s[5] as u64) << 40 | (s[6] as u64) << 48 | (s[7] as u64) << 56
}

/// A 32-bit value as four bytes, least significant first.
pub open spec fn le32(v: u32) -> Seq<u8> {
    seq![v as u8, (v >> 8) as u8, (v >> 16) as u8, (v >> 24) as u8]
}

/// The 32-bit value that four bytes stand for.
pub open spec fn of_le32(s: Seq<u8>) -> u32 {
    s[0] as u32 | (s[1] as u32) << 8 | (s[2] as u32) << 16 | (s[3] as u32) << 24
}

/// A flag as a byte.
pub open spec fn flag(b: bool) -> u8 {
    if b {
        1
    } else {
        0
    }
}

/// Reading eight bytes back gives the value that was written, and the bytes are
/// its digits to the base 256, the units first.
pub proof fn lemma_le64(v: u64)
    ensures
        of_le64(le64(v)) == v,
        le64(v)[0] == v % 0x100,
        le64(v)[1] == (v / 0x100) % 0x100,
        le64(v)[2] == (v / 0x1_0000) % 0x100,
        le64(v)[3] == (v / 0x100_0000) % 0x100,
        le64(v)[4] == (v / 0x1_0000_0000) % 0x100,
        le64(v)[5] == (v / 0x100_0000_0000) % 0x100,
        le64(v)[6] == (v / 0x1_0000_0000_0000) % 0x100,
        le64(v)[7] == v / 0x100_0000_0000_0000,
{
    assert((v as u8) == v % 0x100 && ((v >> 8) as u8) == (v / 0x100) % 0x100 && ((v >> 16) as u8) == (v
        / 0x1_0000) % 0x100 && ((v >> 24) as u8) == (v / 0x100_0000) % 0x100 && ((v >> 32) as u8) == (v
        / 0x1_0000_0000) % 0x100 && ((v >> 40) as u8) == (v / 0x100_0000_0000) % 0x100 && ((v
        >> 48) as u8) == (v / 0x1_0000_0000_0000) % 0x100 && ((v >> 56) as u8) == v
        / 0x100_0000_0000_0000 && v == (v as u8) as u64 | (((v >> 8) as u8) as u64) << 8 | (((v >> 16) as u8) as u64)
        << 16 | (((v >> 24) as u8) as u64) << 24 | (((v >> 32) as u8) as u64) << 32 | (((v
        >> 40) as u8) as u64) << 40 | (((v >> 48) as u8) as u64) << 48 | (((v >> 56) as u8) as u64)
        << 56) by (bit_vector);
}

/// The same for four bytes.
pub proof fn lemma_le32(v: u32)
    ensures
        of_le32(le32(v)) == v,
        le32(v)[0] == v % 0x100,
        le32(v)[1] == (v / 0x100) % 0x100,
        le32(v)[2] == (v / 0x1_0000) % 0x100,
        le32(v)[3] == v / 0x100_0000,
{
    assert((v as u8) == v % 0x100 && ((v >> 8) as u8) == (v / 0x100) % 0x100 && ((v >> 16) as u8) == (v
        / 0x1_0000) % 0x100 && ((v >> 24) as u8) == v / 0x100_0000 && v == (v as u8) as u32 | (((v >> 8) as u8) as u32) << 8 | (((v >> 16) as u8) as u32)
        << 16 | (((v >> 24) as u8) as u32) << 24) by (bit_vector);
}

/// Appending piece by piece is appending the pieces joined.
pub proof fn lemma_append(start: Seq<u8>, joined: Seq<u8>, piece: Seq<u8>)
    ensures
        (start + joined) + piece == start + (joined + piece),
{
    assert((start + joined) + piece =~= start + (joined + piece));
}

pub proof fn lemma_nothing_appended(start: Seq<u8>)
    ensures
        start + Seq::<u8>::empty() == start,
{
    assert(start + Seq::<u8>::empty() =~= start);
}

/// Appends fields to a byte string.
pub struct StateWriter {
    bytes: Vec<u8>,
}

impl View for StateWriter {
    type V = Seq<u8>;

    closed spec fn view(&self) -> Seq<u8> {
        self.bytes@
    }
}

impl StateWriter {
    pub fn new() -> (w: StateWriter)
        ensures
            w@ == Seq::<u8>::empty(),
    {
        StateWriter { bytes: Vec::new() }
    }

    pub fn write_u8(&mut self, v: u8)
        ensures
            final(self)@ == old(self)@ + seq![v],
    {
        self.bytes.push(v);
        assert(self@ =~= old(self)@ + seq![v]);
    }

    pub fn write_bool(&mut self, v: bool)
        ensures
            final(self)@ == old(self)@ + seq![flag(v)],
    {
        self.write_u8(
            if v {
                1
            } else {
                0
            },
        );
    }

    pub fn write_u64_le(&mut self, v: u64)
        ensures
            final(self)@ == old(self)@ + le64(v),
    {
        self.bytes.push(v as u8);
        self.bytes.push((v >> 8) as u8);
        self.bytes.push((v >> 16) as u8);
        self.bytes.push((v >> 24) as u8);
        self.bytes.push((v >> 32) as u8);
        self.bytes.push((v >> 40) as u8);
        self.bytes.push((v >> 48) as u8);
        self.bytes.push((v >> 56) as u8);
        assert(self@ =~= old(self)@ + le64(v));
    }

    pub fn write_u32_le(&mut self, v: u32)
        ensures
            final(self)@ == old(self)@ + le32(v),
    {
        self.bytes.push(v as u8);
        self.bytes.push((v >> 8) as u8);
        self.bytes.push((v >> 16) as u8);
        self.bytes.push((v >> 24) as u8);
        assert(self@ =~= old(self)@ + le32(v));
    }

    pub fn write_bytes(&mut self, v: &[u8])
        ensures
            final(self)@ == old(self)@ + v@,
    {
        let ghost start = self@;
        let mut i: usize = 0;
        while i < v.len()
            invariant
                i <= v@.len(),
                self@ == start + v@.take(i as int),
            decreases v@.len() - i,
        {
            self.bytes.push(v[i]);
            i += 1;
            assert(self@ =~= start + v@.take(i as int));
        }
        assert(v@.take(v@.len() as int) =~= v@);
    }

    /// The bytes written.
    pub fn into_vec(self) -> (v: Vec<u8>)
        ensures
            v@ == self@,
    {
        self.bytes
    }
}

/// Takes fields off the front of a byte string. Its view is what is left.
pub struct StateReader {
    bytes: Vec<u8>,
    pos: usize,
}

impl View for StateReader {
    type V = Seq<u8>;

    closed spec fn view(&self) -> Seq<u8> {
        self.bytes@.skip(self.pos as int)
    }
}

impl StateReader {
    #[verifier::type_invariant]
    closed spec fn in_range(&self) -> bool {
        self.pos <= self.bytes@.len()
    }

    pub fn new(bytes: &[u8]) -> (r: StateReader)
        ensures
            r@ == bytes@,
    {
        let r: StateReader = StateReader { bytes: copied(bytes), pos: 0 };
        assert(r@ =~= bytes@);
        r
    }

    /// How many bytes are left.
    pub fn left(&self) -> (n: usize)
        ensures
            n == self@.len(),
    {
        proof {
            use_type_invariant(self);
        }
        self.bytes.len() - self.pos
    }

    /// Take `n` bytes.
    pub fn take_bytes(&mut self, n: usize) -> (r: Result<Vec<u8>, SaveError>)
        ensures
            n <= old(self)@.len() ==> r is Ok && r->Ok_0@ == old(self)@.take(n as int) && final(self)@ == old(self)@.skip(n as int),
            n > old(self)@.len() ==> r == Err::<Vec<u8>, SaveError>(SaveError::UnexpectedEnd)
                && final(self)@ == old(self)@,
    {
        proof {
            use_type_invariant(&*self);
        }
        if n > self.bytes.len() - self.pos {
            return Err(SaveError::UnexpectedEnd);
        }
        let ghost before = self@;
        let from: usize = self.pos;
        let v: Vec<u8> = copied_range(self.bytes.as_slice(), from, from + n);
        self.pos = from + n;
        assert(v@ =~= before.take(n as int));
        assert(self@ =~= before.skip(n as int));
        Ok(v)
    }
}

/// The 32-bit value stored at `at`.
pub fn u32_at(bytes: &Vec<u8>, at: usize) -> (v: u32)
    requires
        at + 4 <= bytes.len(),
    ensures
        v == of_le32(bytes@.subrange(at as int, at + 4)),
{
    bytes[at] as u32 | (bytes[at + 1] as u32) << 8 | (bytes[at + 2] as u32) << 16 | (bytes[at
        + 3] as u32) << 24
}

/// The 64-bit value stored at `at`.
pub fn u64_at(bytes: &Vec<u8>, at: usize) -> (v: u64)
    requires
        at + 8 <= bytes.len(),
    ensures
        v == of_le64(bytes@.subrange(at as int, at + 8)),
{
    bytes[at] as u64 | (bytes[at + 1] as u64) << 8 | (bytes[at + 2] as u64) << 16 | (bytes[at
        + 3] as u64) << 24 | (bytes[at + 4] as u64) << 32 | (bytes[at + 5] as u64) << 40 | (bytes[at
        + 6] as u64) << 48 | (bytes[at + 7] as u64) << 56
}

} // verus!
