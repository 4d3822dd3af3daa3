//! The standalone record of one investment.
use vstd::prelude::*;
use crate::codec::{
    append_i64, append_key, append_u64, copy_prefix, i64_at, key_at, le_i64, le_u64,
    lemma_i64_round_trip, lemma_le_lengths, lemma_u64_round_trip, read_i64, read_key, read_u64,
    u64_at, zeros,
};
use crate::error::ProcessError;
use crate::pool::FundPoolInvestorView;
use crate::key::Key;

verus! {

/// Bytes of a packed investor record.
pub const INVESTOR_LEN: usize = 152;

pub struct InvestorView {
    pub investor: Seq<u8>,
    pub pool_address: Seq<u8>,
    pub address: Seq<u8>,
    pub amount: u64,
    pub token_address: Seq<u8>,
    pub token_count: u64,
    pub date: i64,
}

impl InvestorView {
    pub open spec fn wf(self) -> bool {
        &&& self.investor.len() == 32
        &&& self.pool_address.len() == 32
        &&& self.address.len() == 32
        &&& self.token_address.len() == 32
    }

    pub open spec fn encode(self) -> Seq<u8> {
        self.investor + self.pool_address + self.address + le_u64(self.amount)
            + self.token_address + le_u64(self.token_count) + le_i64(self.date)
    }

    /// Any buffer long enough decodes: the record has no flag or count.
    pub open spec fn decode(s: Seq<u8>) -> InvestorView {
        InvestorView {
            investor: key_at(s, 0),
            pool_address: key_at(s, 32),
            address: key_at(s, 64),
            amount: u64_at(s, 96),
            token_address: key_at(s, 104),
            token_count: u64_at(s, 136),
            date: i64_at(s, 144),
        }
    }
}

/// Every investor record that is packed into a buffer unpacks from it unchanged.
pub proof fn lemma_investor_round_trip(v: InvestorView, s: Seq<u8>)
    requires
        v.wf(),
        s.len() >= INVESTOR_LEN,
        s.subrange(0, INVESTOR_LEN as int) == v.encode(),
    ensures
        InvestorView::decode(s) == v,
{
    let e = v.encode();
    lemma_le_lengths(0, v.amount, v.date);
    lemma_le_lengths(0, v.token_count, 0);
    assert(key_at(s, 0) =~= e.subrange(0, 32));
    assert(e.subrange(0, 32) =~= v.investor);
    assert(key_at(s, 32) =~= e.subrange(32, 64));
    assert(e.subrange(32, 64) =~= v.pool_address);
    assert(key_at(s, 64) =~= e.subrange(64, 96));
    assert(e.subrange(64, 96) =~= v.address);
    assert(s.subrange(96, 104) =~= e.subrange(96, 104));
    assert(e.subrange(96, 104) =~= le_u64(v.amount));
    lemma_u64_round_trip(s, 96, v.amount);
    assert(key_at(s, 104) =~= e.subrange(104, 136));
    assert(e.subrange(104, 136) =~= v.token_address);
    assert(s.subrange(136, 144) =~= e.subrange(136, 144));
    assert(e.subrange(136, 144) =~= le_u64(v.token_count));
    lemma_u64_round_trip(s, 136, v.token_count);
    assert(s.subrange(144, 152) =~= e.subrange(144, 152));
    assert(e.subrange(144, 152) =~= le_i64(v.date));
    lemma_i64_round_trip(s, 144, v.date);
}

/// A copy of one investment transaction, kept in its own account.
#[derive(Clone, Copy, Debug)]
pub struct Investor {
    pub investor: Key,
    pub pool_address: Key,
    pub address: Key,
    pub amount: u64,
    pub token_address: Key,
    pub token_count: u64,
    pub date: i64,
}

impl View for Investor {
    type V = InvestorView;

    open spec fn view(&self) -> InvestorView {
        InvestorView {
            investor: self.investor@,
            pool_address: self.pool_address@,
            address: self.address@,
            amount: self.amount,
            token_address: self.token_address@,
            token_count: self.token_count,
            date: self.date,
        }
    }
}

impl Investor {
    /// The entry that a pool records for this investment.
    pub open spec fn entry_view(&self) -> FundPoolInvestorView {
        FundPoolInvestorView {
            investor: self.investor@,
            address: self.address@,
            token_count: self.token_count,
            date: self.date,
        }
    }

    /// An empty record dated `date`.
    pub fn new(date: i64) -> (r: Investor)
        ensures
            r@ == (InvestorView {
                investor: zeros(32),
                pool_address: zeros(32),
                address: zeros(32),
                amount: 0,
                token_address: zeros(32),
                token_count: 0,
                date,
            }),
    {
        Investor {
            investor: Key::zero(),
            pool_address: Key::zero(),
            address: Key::zero(),
            amount: 0,
            token_address: Key::zero(),
            token_count: 0,
            date,
        }
    }

    pub(crate) fn encode(&self) -> (r: Vec<u8>)
        ensures
            r@ == self@.encode(),
            r@.len() == INVESTOR_LEN,
    {
        let mut out: Vec<u8> = Vec::with_capacity(INVESTOR_LEN);
        append_key(&mut out, &self.investor);
        append_key(&mut out, &self.pool_address);
        append_key(&mut out, &self.address);
        append_u64(&mut out, self.amount);
        append_key(&mut out, &self.token_address);
        append_u64(&mut out, self.token_count);
        append_i64(&mut out, self.date);
        assert(out@ =~= self@.encode());
        proof {
            lemma_le_lengths(0, self.amount, self.date);
            lemma_le_lengths(0, self.token_count, 0);
        }
        out
    }

    /// Writes the fixed layout over `dst[0..INVESTOR_LEN]`; later bytes are kept.
    pub fn pack_into_slice(&self, dst: &mut [u8])
        requires
            old(dst)@.len() >= INVESTOR_LEN,
        ensures
            final(dst)@.len() == old(dst)@.len(),
            final(dst)@.subrange(0, INVESTOR_LEN as int) == self@.encode(),
            final(dst)@.subrange(INVESTOR_LEN as int, old(dst)@.len() as int)
                == old(dst)@.subrange(INVESTOR_LEN as int, old(dst)@.len() as int),
    {
        let bytes = self.encode();
        proof {
            lemma_le_lengths(0, self.amount, self.date);
            lemma_le_lengths(0, self.token_count, 0);
        }
        copy_prefix(dst, &bytes);
    }

    /// Packs into `dst`, refusing a buffer shorter than the layout.
    pub fn pack(&self, dst: &mut [u8]) -> (r: Result<(), ProcessError>)
        ensures
            r is Ok <==> old(dst)@.len() >= INVESTOR_LEN,
            r is Err ==> r == Err::<(), ProcessError>(ProcessError::InvalidAccountData)
                && final(dst)@ == old(dst)@,
            r is Ok ==> final(dst)@.len() == old(dst)@.len() && final(dst)@.subrange(
                0,
                INVESTOR_LEN as int,
            ) == self@.encode() && final(dst)@.subrange(INVESTOR_LEN as int, old(dst)@.len() as int)
                == old(dst)@.subrange(INVESTOR_LEN as int, old(dst)@.len() as int),
    {
        if dst.len() < INVESTOR_LEN {
            return Err(ProcessError::InvalidAccountData);
        }
        self.pack_into_slice(dst);
        Ok(())
    }

    pub fn unpack_from_slice(src: &[u8]) -> (r: Investor)
        requires
            src@.len() >= INVESTOR_LEN,
        ensures
            r@ == InvestorView::decode(src@),
    {
        Investor {
            investor: read_key(src, 0),
            pool_address: read_key(src, 32),
            address: read_key(src, 64),
            amount: read_u64(src, 96),
            token_address: read_key(src, 104),
            token_count: read_u64(src, 136),
            date: read_i64(src, 144),
        }
    }

    /// Decodes whatever the buffer holds; only a short buffer is an error.
    pub fn unpack_unchecked(src: &[u8]) -> (r: Result<Investor, ProcessError>)
        ensures
            r is Ok <==> src@.len() >= INVESTOR_LEN,
            r matches Ok(i) ==> i@ == InvestorView::decode(src@),
            r matches Err(e) ==> e == ProcessError::InvalidAccountData,
    {
        if src.len() < INVESTOR_LEN {
            return Err(ProcessError::InvalidAccountData);
        }
        Ok(Investor::unpack_from_slice(src))
    }
}

} // verus!
