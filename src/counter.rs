//! A two-byte counter record.
use vstd::prelude::*;
use crate::codec::{append_u16, copy_prefix, le_u16, lemma_le_lengths, lemma_u16_round_trip, read_u16, u16_at};
use crate::error::ProcessError;

verus! {

/// Bytes of a packed counter.
pub const COUNTER_LEN: usize = 2;

/// A count that stops at its largest value instead of wrapping.
#[derive(Clone, Copy, Debug, PartialEq, Eq, Structural)]
pub struct Counter {
    pub count: u16,
}

pub open spec fn counter_bytes(c: Counter) -> Seq<u8> {
    le_u16(c.count)
}

/// Every counter that is packed into a buffer unpacks from it unchanged.
pub proof fn lemma_counter_round_trip(c: Counter, s: Seq<u8>)
    requires
        s.len() >= COUNTER_LEN,
        s.subrange(0, COUNTER_LEN as int) == counter_bytes(c),
    ensures
        u16_at(s, 0) == c.count,
{
    lemma_u16_round_trip(s, 0, c.count);
}

impl Counter {
    pub fn new() -> (r: Counter)
        ensures
            r.count == 0,
    {
        Counter { count: 0 }
    }

    /// Adds one, saturating at `u16::MAX`.
    pub fn increment(&mut self)
        ensures
            final(self).count == if old(self).count == u16::MAX {
                u16::MAX
            } else {
                (old(self).count + 1) as u16
            },
    {
        self.count = self.count.saturating_add(1);
    }

    /// Writes the count over `dst[0..COUNTER_LEN]`, refusing a shorter buffer.
    pub fn pack(&self, dst: &mut [u8]) -> (r: Result<(), ProcessError>)
        ensures
            r is Ok <==> old(dst)@.len() >= COUNTER_LEN,
            r is Err ==> r == Err::<(), ProcessError>(ProcessError::InvalidAccountData)
                && final(dst)@ == old(dst)@,
            r is Ok ==> final(dst)@.len() == old(dst)@.len() && final(dst)@.subrange(
                0,
                COUNTER_LEN as int,
            ) == counter_bytes(*self) && final(dst)@.subrange(
                COUNTER_LEN as int,
                old(dst)@.len() as int,
            ) == old(dst)@.subrange(COUNTER_LEN as int, old(dst)@.len() as int),
    {
        if dst.len() < COUNTER_LEN {
            return Err(ProcessError::InvalidAccountData);
        }
        let mut out: Vec<u8> = Vec::with_capacity(COUNTER_LEN);
        append_u16(&mut out, self.count);
        proof {
            lemma_le_lengths(self.count, 0, 0);
            assert(out@ =~= counter_bytes(*self));
        }
        copy_prefix(dst, &out);
        Ok(())
    }

    /// Reads the count; only a buffer shorter than the layout is an error.
    pub fn unpack_unchecked(src: &[u8]) -> (r: Result<Counter, ProcessError>)
        ensures
            r is Ok <==> src@.len() >= COUNTER_LEN,
            r matches Ok(c) ==> c.count == u16_at(src@, 0),
            r matches Err(e) ==> e == ProcessError::InvalidAccountData,
    {
        if src.len() < COUNTER_LEN {
            return Err(ProcessError::InvalidAccountData);
        }
        Ok(Counter { count: read_u16(src, 0) })
    }
}

} // verus!
