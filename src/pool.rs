//! The fund-pool record and the investor entries embedded in it.
use vstd::prelude::*;
use crate::codec::{
    append_bool, append_i64, append_key, append_u16, append_u64, append_zeros, bool_at,
    bool_byte, bool_valid, copy_prefix, i64_at, key_at, le_i64, le_u16, le_u64, lemma_i64_round_trip,
    lemma_le_lengths, lemma_u16_round_trip, lemma_u64_round_trip, read_bool, read_i64, read_key,
    read_u16, read_u64, u16_at, u64_at, zeros,
};
use crate::error::{PoolError, ProcessError};
use crate::key::Key;

verus! {

/// Most investors one pool records.
pub const FUND_POOL_INVESTOR_LIMIT: usize = 100;

/// Most withdrawers one pool records.
pub const FUND_POOL_WITHDRAWER_LIMIT: usize = 100;

/// Bytes of one embedded investor entry.
pub const FUND_POOL_INVESTOR_LEN: usize = 80;

/// Bytes of the fixed fields that precede the two entry regions.
pub const FUND_POOL_HEADER_LEN: usize = 134;

/// Bytes of a packed fund pool: the header and two regions of 100 entries.
pub const FUND_POOL_LEN: usize = 16134;

pub struct FundPoolInvestorView {
    pub investor: Seq<u8>,
    pub address: Seq<u8>,
    pub token_count: u64,
    pub date: i64,
}

/// One investment (or withdrawal) as the pool records it. Two entries stand
/// for the same investor when their addresses agree.
#[derive(Clone, Copy, Debug)]
pub struct FundPoolInvestor {
    pub investor: Key,
    pub address: Key,
    pub token_count: u64,
    pub date: i64,
}

impl View for FundPoolInvestor {
    type V = FundPoolInvestorView;

    open spec fn view(&self) -> FundPoolInvestorView {
        FundPoolInvestorView {
            investor: self.investor@,
            address: self.address@,
            token_count: self.token_count,
            date: self.date,
        }
    }
}

impl PartialEq for FundPoolInvestor {
    fn eq(&self, other: &FundPoolInvestor) -> (r: bool) {
        self.address.same_as(&other.address)
    }
}

impl vstd::std_specs::cmp::PartialEqSpecImpl for FundPoolInvestor {
    open spec fn obeys_eq_spec() -> bool {
        true
    }

    open spec fn eq_spec(&self, other: &FundPoolInvestor) -> bool {
        self.address@ == other.address@
    }
}

pub open spec fn entry_bytes(e: FundPoolInvestorView) -> Seq<u8> {
    e.address + e.investor + le_u64(e.token_count) + le_i64(e.date)
}

pub open spec fn entry_at(s: Seq<u8>, off: int) -> FundPoolInvestorView {
    FundPoolInvestorView {
        address: key_at(s, off),
        investor: key_at(s, off + 32),
        token_count: u64_at(s, off + 64),
        date: i64_at(s, off + 72),
    }
}

pub open spec fn entry_sized(e: FundPoolInvestorView) -> bool {
    e.address.len() == 32 && e.investor.len() == 32
}

pub open spec fn entries_sized(es: Seq<FundPoolInvestorView>) -> bool {
    forall|i: int| 0 <= i < es.len() ==> entry_sized(#[trigger] es[i])
}

/// Entries laid end to end, 80 bytes each.
pub open spec fn entries_bytes(es: Seq<FundPoolInvestorView>) -> Seq<u8>
    decreases es.len(),
{
    if es.len() == 0 {
        Seq::empty()
    } else {
        entries_bytes(es.drop_last()) + entry_bytes(es.last())
    }
}

pub open spec fn entries_from(s: Seq<u8>, off: int, n: nat) -> Seq<FundPoolInvestorView> {
    Seq::new(n, |i: int| entry_at(s, off + 80 * i))
}

pub open spec fn entry_views(es: Seq<FundPoolInvestor>) -> Seq<FundPoolInvestorView> {
    es.map_values(|e: FundPoolInvestor| e@)
}

/// Whether some entry has the given address.
pub open spec fn has_address(es: Seq<FundPoolInvestorView>, a: Seq<u8>) -> bool {
    exists|i: int| 0 <= i < es.len() && (#[trigger] es[i]).address == a
}

proof fn lemma_entry_round_trip(s: Seq<u8>, off: int, e: FundPoolInvestorView)
    requires
        entry_sized(e),
        0 <= off,
        off + 80 <= s.len(),
        s.subrange(off, off + 80) == entry_bytes(e),
    ensures
        entry_at(s, off) == e,
{
    let b = entry_bytes(e);
    lemma_le_lengths(0, e.token_count, e.date);
    assert(key_at(s, off) =~= b.subrange(0, 32));
    assert(b.subrange(0, 32) =~= e.address);
    assert(key_at(s, off + 32) =~= b.subrange(32, 64));
    assert(b.subrange(32, 64) =~= e.investor);
    assert(s.subrange(off + 64, off + 72) =~= b.subrange(64, 72));
    assert(b.subrange(64, 72) =~= le_u64(e.token_count));
    lemma_u64_round_trip(s, off + 64, e.token_count);
    assert(s.subrange(off + 72, off + 80) =~= b.subrange(72, 80));
    assert(b.subrange(72, 80) =~= le_i64(e.date));
    lemma_i64_round_trip(s, off + 72, e.date);
}

proof fn lemma_entries_bytes(es: Seq<FundPoolInvestorView>)
    requires
        entries_sized(es),
    ensures
        entries_bytes(es).len() == 80 * es.len(),
        forall|i: int|
            0 <= i < es.len() ==> #[trigger] entries_bytes(es).subrange(80 * i, 80 * i + 80)
                == entry_bytes(es[i]),
    decreases es.len(),
{
    if es.len() > 0 {
        let init = es.drop_last();
        lemma_entries_bytes(init);
        lemma_le_lengths(0, es.last().token_count, es.last().date);
        let p = entries_bytes(init);
        assert forall|i: int| 0 <= i < es.len() implies #[trigger] entries_bytes(es).subrange(
            80 * i,
            80 * i + 80,
        ) == entry_bytes(es[i]) by {
            if i < es.len() - 1 {
                assert(entries_bytes(es).subrange(80 * i, 80 * i + 80) =~= p.subrange(
                    80 * i,
                    80 * i + 80,
                ));
                assert(init[i] == es[i]);
            } else {
                assert(entries_bytes(es).subrange(80 * i, 80 * i + 80) =~= entry_bytes(
                    es.last(),
                ));
            }
        }
    }
}

proof fn lemma_entries_round_trip(s: Seq<u8>, off: int, es: Seq<FundPoolInvestorView>)
    requires
        entries_sized(es),
        0 <= off,
        off + 80 * es.len() <= s.len(),
        s.subrange(off, off + 80 * es.len()) == entries_bytes(es),
    ensures
        entries_from(s, off, es.len()) == es,
{
    lemma_entries_bytes(es);
    assert forall|i: int| 0 <= i < es.len() implies #[trigger] entries_from(s, off, es.len())[i]
        == es[i] by {
        assert(s.subrange(off + 80 * i, off + 80 * i + 80) =~= entries_bytes(es).subrange(
            80 * i,
            80 * i + 80,
        ));
        lemma_entry_round_trip(s, off + 80 * i, es[i]);
    }
    assert(entries_from(s, off, es.len()) =~= es);
}

fn append_entries(out: &mut Vec<u8>, es: &Vec<FundPoolInvestor>)
    ensures
        final(out)@ == old(out)@ + entries_bytes(entry_views(es@)),
{
    let ghost start = out@;
    let mut i: usize = 0;
    while i < es.len()
        invariant
            i <= es@.len(),
            out@ == start + entries_bytes(entry_views(es@.subrange(0, i as int))),
        decreases es@.len() - i,
    {
        let e = es[i];
        append_key(out, &e.address);
        append_key(out, &e.investor);
        append_u64(out, e.token_count);
        append_i64(out, e.date);
        proof {
            let prev = entry_views(es@.subrange(0, i as int));
            let next = entry_views(es@.subrange(0, i + 1));
            assert(next.drop_last() =~= prev);
            assert(next.last() == es@[i as int]@);
            assert(out@ =~= start + entries_bytes(next));
        }
        i = i + 1;
    }
    assert(es@.subrange(0, es@.len() as int) =~= es@);
}

fn read_entries(src: &[u8], off: usize, n: usize) -> (r: Vec<FundPoolInvestor>)
    requires
        off + 80 * n <= src@.len(),
    ensures
        entry_views(r@) == entries_from(src@, off as int, n as nat),
        r@.len() == n,
{
    let _len = src.len();
    let mut r: Vec<FundPoolInvestor> = Vec::with_capacity(n);
    let mut i: usize = 0;
    while i < n
        invariant
            i <= n,
            off + 80 * n <= src@.len(),
            _len == src@.len(),
            r@.len() == i,
            entry_views(r@) == entries_from(src@, off as int, i as nat),
        decreases n - i,
    {
        let o = off + 80 * i;
        let e = FundPoolInvestor {
            address: read_key(src, o),
            investor: read_key(src, o + 32),
            token_count: read_u64(src, o + 64),
            date: read_i64(src, o + 72),
        };
        let ghost prev = r@;
        r.push(e);
        assert(entry_views(r@) =~= entry_views(prev).push(e@));
        i = i + 1;
        assert(entry_views(r@) =~= entries_from(src@, off as int, i as nat));
    }
    r
}

fn find_address(es: &Vec<FundPoolInvestor>, a: &Key) -> (r: bool)
    ensures
        r == has_address(entry_views(es@), a@),
{
    let mut i: usize = 0;
    while i < es.len()
        invariant
            i <= es@.len(),
            forall|j: int| 0 <= j < i ==> es@[j].address@ != a@,
        decreases es@.len() - i,
    {
        if es[i].address.same_as(a) {
            assert(entry_views(es@)[i as int].address == a@);
            return true;
        }
        i = i + 1;
    }
    proof {
        if has_address(entry_views(es@), a@) {
            let j = choose|j: int|
                0 <= j < entry_views(es@).len() && (#[trigger] entry_views(es@)[j]).address
                    == a@;
            assert(es@[j].address@ == a@);
        }
    }
    false
}

pub struct FundPoolView {
    pub is_initialized: bool,
    pub manager: Seq<u8>,
    pub address: Seq<u8>,
    pub token_address: Seq<u8>,
    pub fee_in_lamports: u64,
    pub token_count: u64,
    pub rm_token_count: u64,
    pub token_to_lamport_ratio: u64,
    pub is_finalized: bool,
    pub icon: u16,
    pub investors: Seq<FundPoolInvestorView>,
    pub withdrawers: Seq<FundPoolInvestorView>,
}

impl FundPoolView {
    pub open spec fn wf(self) -> bool {
        &&& self.manager.len() == 32
        &&& self.address.len() == 32
        &&& self.token_address.len() == 32
        &&& entries_sized(self.investors)
        &&& entries_sized(self.withdrawers)
        &&& self.investors.len() <= FUND_POOL_INVESTOR_LIMIT
        &&& self.withdrawers.len() <= FUND_POOL_WITHDRAWER_LIMIT
    }

    /// The fixed fields, in layout order, with both entry counts.
    pub open spec fn header(self) -> Seq<u8> {
        seq![bool_byte(self.is_initialized)] + self.manager + self.address + self.token_address
            + le_u64(self.fee_in_lamports) + le_u64(self.token_count) + le_u64(
            self.rm_token_count,
        ) + le_u64(self.token_to_lamport_ratio) + seq![bool_byte(self.is_finalized)] + le_u16(
            self.icon,
        ) + seq![self.investors.len() as u8, self.withdrawers.len() as u8]
    }

    pub open spec fn encode(self) -> Seq<u8> {
        self.header() + entries_bytes(self.investors) + zeros(
            (80 * (FUND_POOL_INVESTOR_LIMIT - self.investors.len())) as nat,
        ) + entries_bytes(self.withdrawers) + zeros(
            (80 * (FUND_POOL_WITHDRAWER_LIMIT - self.withdrawers.len())) as nat,
        )
    }

    pub open spec fn decodable(s: Seq<u8>) -> bool {
        &&& s.len() >= FUND_POOL_LEN
        &&& bool_valid(s, 0)
        &&& bool_valid(s, 129)
        &&& s[132] <= FUND_POOL_INVESTOR_LIMIT
        &&& s[133] <= FUND_POOL_WITHDRAWER_LIMIT
    }

    pub open spec fn decode(s: Seq<u8>) -> FundPoolView {
        FundPoolView {
            is_initialized: bool_at(s, 0),
            manager: key_at(s, 1),
            address: key_at(s, 33),
            token_address: key_at(s, 65),
            fee_in_lamports: u64_at(s, 97),
            token_count: u64_at(s, 105),
            rm_token_count: u64_at(s, 113),
            token_to_lamport_ratio: u64_at(s, 121),
            is_finalized: bool_at(s, 129),
            icon: u16_at(s, 130),
            investors: entries_from(s, 134, s[132] as nat),
            withdrawers: entries_from(s, 8134, s[133] as nat),
        }
    }
}

proof fn lemma_header_len(v: FundPoolView)
    requires
        v.wf(),
    ensures
        v.header().len() == FUND_POOL_HEADER_LEN,
{
    lemma_le_lengths(v.icon, v.fee_in_lamports, 0);
    lemma_le_lengths(0, v.token_count, 0);
    lemma_le_lengths(0, v.rm_token_count, 0);
    lemma_le_lengths(0, v.token_to_lamport_ratio, 0);
}

#[verifier::rlimit(40)]
proof fn lemma_header_round_trip(v: FundPoolView, s: Seq<u8>)
    requires
        v.wf(),
        s.len() >= FUND_POOL_HEADER_LEN,
        s.subrange(0, FUND_POOL_HEADER_LEN as int) == v.header(),
    ensures
        bool_valid(s, 0),
        bool_valid(s, 129),
        s[132] == v.investors.len(),
        s[133] == v.withdrawers.len(),
        bool_at(s, 0) == v.is_initialized,
        key_at(s, 1) == v.manager,
        key_at(s, 33) == v.address,
        key_at(s, 65) == v.token_address,
        u64_at(s, 97) == v.fee_in_lamports,
        u64_at(s, 105) == v.token_count,
        u64_at(s, 113) == v.rm_token_count,
        u64_at(s, 121) == v.token_to_lamport_ratio,
        bool_at(s, 129) == v.is_finalized,
        u16_at(s, 130) == v.icon,
{
    let h = v.header();
    lemma_le_lengths(v.icon, v.fee_in_lamports, 0);
    lemma_le_lengths(0, v.token_count, 0);
    lemma_le_lengths(0, v.rm_token_count, 0);
    lemma_le_lengths(0, v.token_to_lamport_ratio, 0);
    assert(h.len() == 134);
    assert(s[0] == h[0]);
    assert(s[129] == h[129]);
    assert(s[132] == h[132]);
    assert(s[133] == h[133]);
    assert(key_at(s, 1) =~= h.subrange(1, 33));
    assert(h.subrange(1, 33) =~= v.manager);
    assert(key_at(s, 33) =~= h.subrange(33, 65));
    assert(h.subrange(33, 65) =~= v.address);
    assert(key_at(s, 65) =~= h.subrange(65, 97));
    assert(h.subrange(65, 97) =~= v.token_address);
    assert(s.subrange(97, 105) =~= h.subrange(97, 105));
    assert(h.subrange(97, 105) =~= le_u64(v.fee_in_lamports));
    lemma_u64_round_trip(s, 97, v.fee_in_lamports);
    assert(s.subrange(105, 113) =~= h.subrange(105, 113));
    assert(h.subrange(105, 113) =~= le_u64(v.token_count));
    lemma_u64_round_trip(s, 105, v.token_count);
    assert(s.subrange(113, 121) =~= h.subrange(113, 121));
    assert(h.subrange(113, 121) =~= le_u64(v.rm_token_count));
    lemma_u64_round_trip(s, 113, v.rm_token_count);
    assert(s.subrange(121, 129) =~= h.subrange(121, 129));
    assert(h.subrange(121, 129) =~= le_u64(v.token_to_lamport_ratio));
    lemma_u64_round_trip(s, 121, v.token_to_lamport_ratio);
    assert(s.subrange(130, 132) =~= h.subrange(130, 132));
    assert(h.subrange(130, 132) =~= le_u16(v.icon));
    lemma_u16_round_trip(s, 130, v.icon);
}

/// Every fund pool that is packed into a buffer unpacks from it unchanged.
pub proof fn lemma_fund_pool_round_trip(v: FundPoolView, s: Seq<u8>)
    requires
        v.wf(),
        s.len() >= FUND_POOL_LEN,
        s.subrange(0, FUND_POOL_LEN as int) == v.encode(),
    ensures
        FundPoolView::decodable(s),
        FundPoolView::decode(s) == v,
{
    let e = v.encode();
    let ni = v.investors.len() as int;
    let nw = v.withdrawers.len() as int;
    lemma_entries_bytes(v.investors);
    lemma_entries_bytes(v.withdrawers);
    lemma_header_len(v);
    assert(s.subrange(0, 134) =~= v.header());
    lemma_header_round_trip(v, s);
    assert(e.subrange(134, 134 + 80 * ni) =~= entries_bytes(v.investors));
    assert(s.subrange(134, 134 + 80 * ni) =~= e.subrange(134, 134 + 80 * ni));
    lemma_entries_round_trip(s, 134, v.investors);
    assert(e.subrange(8134, 8134 + 80 * nw) =~= entries_bytes(v.withdrawers));
    assert(s.subrange(8134, 8134 + 80 * nw) =~= e.subrange(8134, 8134 + 80 * nw));
    lemma_entries_round_trip(s, 8134, v.withdrawers);
}

/// A fund pool: its terms, its remaining allocation and the investors and
/// withdrawers recorded so far.
#[derive(Debug)]
pub struct FundPool {
    pub is_initialized: bool,
    pub manager: Key,
    pub address: Key,
    pub token_address: Key,
    pub fee_in_lamports: u64,
    pub token_count: u64,
    pub rm_token_count: u64,
    pub token_to_lamport_ratio: u64,
    pub is_finalized: bool,
    pub icon: u16,
    pub investors: Vec<FundPoolInvestor>,
    pub withdrawers: Vec<FundPoolInvestor>,
}

impl View for FundPool {
    type V = FundPoolView;

    open spec fn view(&self) -> FundPoolView {
        FundPoolView {
            is_initialized: self.is_initialized,
            manager: self.manager@,
            address: self.address@,
            token_address: self.token_address@,
            fee_in_lamports: self.fee_in_lamports,
            token_count: self.token_count,
            rm_token_count: self.rm_token_count,
            token_to_lamport_ratio: self.token_to_lamport_ratio,
            is_finalized: self.is_finalized,
            icon: self.icon,
            investors: entry_views(self.investors@),
            withdrawers: entry_views(self.withdrawers@),
        }
    }
}

impl FundPool {
    pub open spec fn wf(&self) -> bool {
        self@.wf()
    }

    /// A pool with every field zero and no entries.
    pub fn new(is_initialized: bool) -> (r: FundPool)
        ensures
            r.wf(),
            r@ == (FundPoolView {
                is_initialized,
                manager: zeros(32),
                address: zeros(32),
                token_address: zeros(32),
                fee_in_lamports: 0,
                token_count: 0,
                rm_token_count: 0,
                token_to_lamport_ratio: 0,
                is_finalized: false,
                icon: 0,
                investors: Seq::empty(),
                withdrawers: Seq::empty(),
            }),
    {
        let r = FundPool {
            is_initialized,
            manager: Key::zero(),
            address: Key::zero(),
            token_address: Key::zero(),
            fee_in_lamports: 0,
            token_count: 0,
            rm_token_count: 0,
            token_to_lamport_ratio: 0,
            is_finalized: false,
            icon: 0,
            investors: Vec::new(),
            withdrawers: Vec::new(),
        };
        assert(entry_views(r.investors@) =~= Seq::<FundPoolInvestorView>::empty());
        assert(entry_views(r.withdrawers@) =~= Seq::<FundPoolInvestorView>::empty());
        r
    }

    pub fn is_initialized(&self) -> (r: bool)
        ensures
            r == self@.is_initialized,
    {
        self.is_initialized
    }

    /// Records an investor: refused when the pool already holds the
    /// maximum, or an entry with the same address.
    pub fn register_fund_pool_investor(&mut self, investor: FundPoolInvestor) -> (r: Result<
        bool,
        PoolError,
    >)
        requires
            old(self).wf(),
        ensures
            final(self).wf(),
            old(self)@.investors.len() >= FUND_POOL_INVESTOR_LIMIT ==> r == Err::<
                bool,
                PoolError,
            >(PoolError::MaxInvestorReached),
            old(self)@.investors.len() < FUND_POOL_INVESTOR_LIMIT && has_address(
                old(self)@.investors,
                investor.address@,
            ) ==> r == Err::<bool, PoolError>(PoolError::InvestorAlreadyExists),
            r is Err ==> final(self)@ == old(self)@,
            r is Ok <==> old(self)@.investors.len() < FUND_POOL_INVESTOR_LIMIT && !has_address(
                old(self)@.investors,
                investor.address@,
            ),
            r is Ok ==> r == Ok::<bool, PoolError>(true) && final(self)@ == (FundPoolView {
                investors: old(self)@.investors.push(investor@),
                ..old(self)@
            }),
    {
        if self.investors.len() < FUND_POOL_INVESTOR_LIMIT {
            if !find_address(&self.investors, &investor.address) {
                let ghost prev = self.investors@;
                self.investors.push(investor);
                assert(entry_views(self.investors@) =~= entry_views(prev).push(investor@));
                return Ok(true);
            }
            return Err(PoolError::InvestorAlreadyExists);
        }
        Err(PoolError::MaxInvestorReached)
    }

    /// Records the investment that `investor` describes, under its own date.
    pub fn register_investor(&mut self, investor: crate::investor::Investor) -> (r: Result<
        bool,
        PoolError,
    >)
        requires
            old(self).wf(),
        ensures
            final(self).wf(),
            old(self)@.investors.len() >= FUND_POOL_INVESTOR_LIMIT ==> r == Err::<
                bool,
                PoolError,
            >(PoolError::MaxInvestorReached),
            old(self)@.investors.len() < FUND_POOL_INVESTOR_LIMIT && has_address(
                old(self)@.investors,
                investor.address@,
            ) ==> r == Err::<bool, PoolError>(PoolError::InvestorAlreadyExists),
            r is Err ==> final(self)@ == old(self)@,
            r is Ok <==> old(self)@.investors.len() < FUND_POOL_INVESTOR_LIMIT && !has_address(
                old(self)@.investors,
                investor.address@,
            ),
            r is Ok ==> r == Ok::<bool, PoolError>(true) && final(self)@ == (FundPoolView {
                investors: old(self)@.investors.push(investor.entry_view()),
                ..old(self)@
            }),
    {
        self.register_fund_pool_investor(
            FundPoolInvestor {
                investor: investor.investor,
                address: investor.address,
                token_count: investor.token_count,
                date: investor.date,
            },
        )
    }

    pub fn investor_count(&self) -> (r: usize)
        ensures
            r == self@.investors.len(),
    {
        self.investors.len()
    }

    /// Records a withdrawer unless the pool is full or already holds an entry
    /// with the same address; tells whether it was recorded.
    pub fn register_withdrawer(&mut self, withdrawer: FundPoolInvestor) -> (r: bool)
        requires
            old(self).wf(),
        ensures
            final(self).wf(),
            r == (old(self)@.withdrawers.len() < FUND_POOL_WITHDRAWER_LIMIT && !has_address(
                old(self)@.withdrawers,
                withdrawer.address@,
            )),
            r ==> final(self)@ == (FundPoolView {
                withdrawers: old(self)@.withdrawers.push(withdrawer@),
                ..old(self)@
            }),
            !r ==> final(self)@ == old(self)@,
    {
        if self.withdrawers.len() < FUND_POOL_WITHDRAWER_LIMIT {
            if !find_address(&self.withdrawers, &withdrawer.address) {
                let ghost prev = self.withdrawers@;
                self.withdrawers.push(withdrawer);
                assert(entry_views(self.withdrawers@) =~= entry_views(prev).push(withdrawer@));
                return true;
            }
        }
        false
    }

    pub fn withdrawer_count(&self) -> (r: usize)
        ensures
            r == self@.withdrawers.len(),
    {
        self.withdrawers.len()
    }

    /// The recorded investors, in order of registration.
    pub fn investors(&self) -> (r: Vec<FundPoolInvestor>)
        ensures
            entry_views(r@) == self@.investors,
    {
        let r = self.investors.clone();
        assert(r@ =~= self.investors@);
        r
    }

    /// The recorded withdrawers, in order of registration.
    pub fn withdrawers(&self) -> (r: Vec<FundPoolInvestor>)
        ensures
            entry_views(r@) == self@.withdrawers,
    {
        let r = self.withdrawers.clone();
        assert(r@ =~= self.withdrawers@);
        r
    }

    pub(crate) fn encode(&self) -> (r: Vec<u8>)
        requires
            self.wf(),
        ensures
            r@ == self@.encode(),
            r@.len() == FUND_POOL_LEN,
    {
        let mut out: Vec<u8> = Vec::with_capacity(FUND_POOL_LEN);
        append_bool(&mut out, self.is_initialized);
        append_key(&mut out, &self.manager);
        append_key(&mut out, &self.address);
        append_key(&mut out, &self.token_address);
        append_u64(&mut out, self.fee_in_lamports);
        append_u64(&mut out, self.token_count);
        append_u64(&mut out, self.rm_token_count);
        append_u64(&mut out, self.token_to_lamport_ratio);
        append_bool(&mut out, self.is_finalized);
        append_u16(&mut out, self.icon);
        out.push(self.investors.len() as u8);
        out.push(self.withdrawers.len() as u8);
        assert(out@ =~= self@.header());
        append_entries(&mut out, &self.investors);
        append_zeros(&mut out, 80 * (FUND_POOL_INVESTOR_LIMIT - self.investors.len()));
        append_entries(&mut out, &self.withdrawers);
        append_zeros(&mut out, 80 * (FUND_POOL_WITHDRAWER_LIMIT - self.withdrawers.len()));
        assert(out@ =~= self@.encode());
        proof {
            lemma_entries_bytes(self@.investors);
            lemma_entries_bytes(self@.withdrawers);
            lemma_header_len(self@);
        }
        out
    }

    /// Writes the fixed layout over `dst[0..FUND_POOL_LEN]`; later bytes are kept.
    pub fn pack_into_slice(&self, dst: &mut [u8])
        requires
            self.wf(),
            old(dst)@.len() >= FUND_POOL_LEN,
        ensures
            final(dst)@.len() == old(dst)@.len(),
            final(dst)@.subrange(0, FUND_POOL_LEN as int) == self@.encode(),
            final(dst)@.subrange(FUND_POOL_LEN as int, old(dst)@.len() as int)
                == old(dst)@.subrange(FUND_POOL_LEN as int, old(dst)@.len() as int),
    {
        let bytes = self.encode();
        proof {
            lemma_entries_bytes(self@.investors);
            lemma_entries_bytes(self@.withdrawers);
            lemma_header_len(self@);
        }
        copy_prefix(dst, &bytes);
    }

    /// Packs into `dst`, refusing a buffer shorter than the layout.
    pub fn pack(&self, dst: &mut [u8]) -> (r: Result<(), ProcessError>)
        requires
            self.wf(),
        ensures
            r is Ok <==> old(dst)@.len() >= FUND_POOL_LEN,
            r is Err ==> r == Err::<(), ProcessError>(ProcessError::InvalidAccountData)
                && final(dst)@ == old(dst)@,
            r is Ok ==> final(dst)@.len() == old(dst)@.len() && final(dst)@.subrange(
                0,
                FUND_POOL_LEN as int,
            ) == self@.encode() && final(dst)@.subrange(
                FUND_POOL_LEN as int,
                old(dst)@.len() as int,
            ) == old(dst)@.subrange(FUND_POOL_LEN as int, old(dst)@.len() as int),
    {
        if dst.len() < FUND_POOL_LEN {
            return Err(ProcessError::InvalidAccountData);
        }
        self.pack_into_slice(dst);
        Ok(())
    }

    /// Reads the layout from `src[0..FUND_POOL_LEN]`; a flag byte other than 0
    /// or 1, or a count above its capacity, is rejected.
    pub fn unpack_from_slice(src: &[u8]) -> (r: Result<FundPool, ProcessError>)
        requires
            src@.len() >= FUND_POOL_LEN,
        ensures
            r is Ok <==> FundPoolView::decodable(src@),
            r matches Ok(p) ==> p.wf() && p@ == FundPoolView::decode(src@),
            r matches Err(e) ==> e == ProcessError::InvalidAccountData,
    {
        let is_initialized = match read_bool(src, 0) {
            Ok(b) => b,
            Err(e) => return Err(e),
        };
        let is_finalized = match read_bool(src, 129) {
            Ok(b) => b,
            Err(e) => return Err(e),
        };
        let ni = src[132] as usize;
        let nw = src[133] as usize;
        if ni > FUND_POOL_INVESTOR_LIMIT || nw > FUND_POOL_WITHDRAWER_LIMIT {
            return Err(ProcessError::InvalidAccountData);
        }
        let investors = read_entries(src, 134, ni);
        let withdrawers = read_entries(src, 8134, nw);
        let p = FundPool {
            is_initialized,
            manager: read_key(src, 1),
            address: read_key(src, 33),
            token_address: read_key(src, 65),
            fee_in_lamports: read_u64(src, 97),
            token_count: read_u64(src, 105),
            rm_token_count: read_u64(src, 113),
            token_to_lamport_ratio: read_u64(src, 121),
            is_finalized,
            icon: read_u16(src, 130),
            investors,
            withdrawers,
        };
        assert(p@ == FundPoolView::decode(src@));
        Ok(p)
    }

    /// Decodes whatever the buffer holds, initialized or not; a zeroed buffer
    /// gives a pool whose initialization flag is false.
    pub fn unpack_unchecked(src: &[u8]) -> (r: Result<FundPool, ProcessError>)
        ensures
            r is Ok <==> FundPoolView::decodable(src@),
            r matches Ok(p) ==> p.wf() && p@ == FundPoolView::decode(src@),
            r matches Err(e) ==> e == ProcessError::InvalidAccountData,
    {
        if src.len() < FUND_POOL_LEN {
            return Err(ProcessError::InvalidAccountData);
        }
        FundPool::unpack_from_slice(src)
    }

    /// Decodes a pool that must already be initialized.
    pub fn unpack(src: &[u8]) -> (r: Result<FundPool, ProcessError>)
        ensures
            r is Ok <==> FundPoolView::decodable(src@) && FundPoolView::decode(
                src@,
            ).is_initialized,
            r matches Ok(p) ==> p.wf() && p@ == FundPoolView::decode(src@),
            r matches Err(e) ==> e == ProcessError::InvalidAccountData,
    {
        let p = match FundPool::unpack_unchecked(src) {
            Ok(p) => p,
            Err(e) => return Err(e),
        };
        if !p.is_initialized {
            return Err(ProcessError::InvalidAccountData);
        }
        Ok(p)
    }
}

} // verus!
