//! Bounded membership sets of keys: a user's (or manager's) pool index, and
//! the market of listed fund pools.
use vstd::prelude::*;
use crate::codec::{
    all_keys_sized, append_key, append_keys, append_zeros, contains_key, copy_prefix, key_at,
    key_views, keys_bytes, keys_from, lemma_key_views_sized, lemma_keys_bytes,
    lemma_keys_round_trip, lemma_le_lengths, lemma_u16_round_trip, le_u16, position_of,
    read_key, read_keys, read_u16, u16_at, append_u16, zeros,
};
use crate::error::ProcessError;
use crate::key::Key;

verus! {

/// Most addresses one user index can hold.
pub const USER_POOL_SIZE_LIMIT: usize = 50;

/// Bytes of a packed user index: owner key, one count byte, the slots.
pub const USER_POOL_LEN: usize = 1633;

/// Most fund pools one market can list.
pub const POOL_MARKET_SIZE_LIMIT: usize = 100;

/// Bytes of a packed market: two count bytes, the slots, creator key.
pub const MARKET_LEN: usize = 3234;

/// `add` on a bounded set: nothing changes when it is full or already holds `k`.
pub open spec fn set_add(s: Seq<Seq<u8>>, k: Seq<u8>, cap: nat) -> Seq<Seq<u8>> {
    if s.len() < cap && !s.contains(k) {
        s.push(k)
    } else {
        s
    }
}

/// Removal of the first occurrence of `k`, if there is one.
pub open spec fn removes_first(s: Seq<Seq<u8>>, k: Seq<u8>, r: Seq<Seq<u8>>) -> bool {
    if s.contains(k) {
        exists|i: int|
            0 <= i < s.len() && s[i] == k && (forall|j: int| 0 <= j < i ==> s[j] != k) && r
                == s.remove(i)
    } else {
        r == s
    }
}

/// Removal of every occurrence of `k`, survivors kept in order.
pub open spec fn remove_all(s: Seq<Seq<u8>>, k: Seq<u8>) -> Seq<Seq<u8>> {
    s.filter(|x: Seq<u8>| x != k)
}

/// A full registry is left unchanged by adding a key it does not hold, and its
/// size stays at the capacity.
pub proof fn lemma_add_beyond_capacity(s: Seq<Seq<u8>>, k: Seq<u8>, cap: nat)
    requires
        s.len() == cap,
        !s.contains(k),
    ensures
        set_add(s, k, cap) == s,
        set_add(s, k, cap).len() == cap,
{
}

/// Adding the same key twice in a row gives the same set as adding it once.
pub proof fn lemma_add_idempotent(s: Seq<Seq<u8>>, k: Seq<u8>, cap: nat)
    ensures
        set_add(set_add(s, k, cap), k, cap) == set_add(s, k, cap),
{
    if s.len() < cap && !s.contains(k) {
        assert(s.push(k)[s.len() as int] == k);
        assert(s.push(k).contains(k));
    }
}

/// Removing a key that is absent changes nothing, under either removal rule.
pub proof fn lemma_remove_absent(s: Seq<Seq<u8>>, k: Seq<u8>, r: Seq<Seq<u8>>)
    requires
        !s.contains(k),
    ensures
        removes_first(s, k, r) <==> r == s,
        remove_all(s, k) == s,
    decreases s.len(),
{
    if s.len() > 0 {
        let init = s.drop_last();
        assert forall|x: Seq<u8>| init.contains(x) implies s.contains(x) by {
            let i = choose|i: int| 0 <= i < init.len() && init[i] == x;
            assert(s[i] == x);
        }
        lemma_remove_absent(init, k, init);
        assert(s.last() != k) by {
            assert(s[s.len() - 1] == s.last());
        }
        reveal(Seq::filter);
        assert(init.push(s.last()) =~= s);
    }
}

pub struct UserPoolView {
    pub user: Seq<u8>,
    pub addresses: Seq<Seq<u8>>,
}

/// The set of fund-pool addresses that one user or manager is involved in.
#[derive(Debug)]
pub struct UserPool {
    pub user: Key,
    pub addresses: Vec<Key>,
}

impl View for UserPool {
    type V = UserPoolView;

    open spec fn view(&self) -> UserPoolView {
        UserPoolView { user: self.user@, addresses: key_views(self.addresses@) }
    }
}

impl UserPoolView {
    pub open spec fn wf(self) -> bool {
        &&& self.user.len() == 32
        &&& all_keys_sized(self.addresses)
        &&& self.addresses.len() <= USER_POOL_SIZE_LIMIT
    }

    pub open spec fn encode(self) -> Seq<u8> {
        self.user + seq![self.addresses.len() as u8] + keys_bytes(self.addresses) + zeros(
            (32 * (USER_POOL_SIZE_LIMIT - self.addresses.len())) as nat,
        )
    }

    pub open spec fn decodable(s: Seq<u8>) -> bool {
        s.len() >= USER_POOL_LEN && s[32] <= USER_POOL_SIZE_LIMIT
    }

    pub open spec fn decode(s: Seq<u8>) -> UserPoolView {
        UserPoolView { user: key_at(s, 0), addresses: keys_from(s, 33, s[32] as nat) }
    }
}

/// Every index that is packed into a buffer unpacks from it unchanged.
pub proof fn lemma_user_pool_round_trip(v: UserPoolView, s: Seq<u8>)
    requires
        v.wf(),
        s.len() >= USER_POOL_LEN,
        s.subrange(0, USER_POOL_LEN as int) == v.encode(),
    ensures
        UserPoolView::decodable(s),
        UserPoolView::decode(s) == v,
{
    let n = v.addresses.len() as int;
    let e = v.encode();
    lemma_keys_bytes(v.addresses);
    assert(s[32] == e[32]);
    assert(key_at(s, 0) =~= v.user);
    assert(e.subrange(33, 33 + 32 * n) =~= keys_bytes(v.addresses));
    assert(s.subrange(33, 33 + 32 * n) =~= e.subrange(33, 33 + 32 * n));
    lemma_keys_round_trip(s, 33, v.addresses);
}

impl UserPool {
    pub open spec fn wf(&self) -> bool {
        self@.wf()
    }

    pub fn new() -> (r: UserPool)
        ensures
            r.wf(),
            r@.user == zeros(32),
            r@.addresses == Seq::<Seq<u8>>::empty(),
    {
        let r = UserPool { user: Key::zero(), addresses: Vec::new() };
        assert(key_views(r.addresses@) =~= Seq::<Seq<u8>>::empty());
        r
    }

    /// Adds `pubkey` unless the index is full or already holds it.
    pub fn add_address(&mut self, pubkey: Key)
        requires
            old(self).wf(),
        ensures
            final(self).wf(),
            final(self)@.user == old(self)@.user,
            final(self)@.addresses == set_add(
                old(self)@.addresses,
                pubkey@,
                USER_POOL_SIZE_LIMIT as nat,
            ),
    {
        if self.addresses.len() < USER_POOL_SIZE_LIMIT {
            if !contains_key(&self.addresses, &pubkey) {
                let ghost prev = self.addresses@;
                self.addresses.push(pubkey);
                assert(key_views(self.addresses@) =~= key_views(prev).push(pubkey@));
            }
        }
    }

    /// Removes the first occurrence of `pubkey`; nothing changes if it is absent.
    pub fn remove_address(&mut self, pubkey: Key)
        requires
            old(self).wf(),
        ensures
            final(self).wf(),
            final(self)@.user == old(self)@.user,
            removes_first(old(self)@.addresses, pubkey@, final(self)@.addresses),
    {
        let ghost prev = key_views(self.addresses@);
        let found = position_of(&self.addresses, &pubkey);
        if let Some(i) = found {
            self.addresses.remove(i);
            assert(key_views(self.addresses@) =~= prev.remove(i as int));
            assert(prev.contains(pubkey@));
        }
    }

    /// The stored addresses, in order.
    pub fn all(&self) -> (r: Vec<Key>)
        ensures
            key_views(r@) == self@.addresses,
    {
        let r = self.addresses.clone();
        assert(r@ =~= self.addresses@);
        r
    }

    pub fn len(&self) -> (r: usize)
        ensures
            r == self@.addresses.len(),
    {
        self.addresses.len()
    }

    pub(crate) fn encode(&self) -> (r: Vec<u8>)
        requires
            self.wf(),
        ensures
            r@ == self@.encode(),
            r@.len() == USER_POOL_LEN,
    {
        let mut out: Vec<u8> = Vec::with_capacity(USER_POOL_LEN);
        append_key(&mut out, &self.user);
        out.push(self.addresses.len() as u8);
        append_keys(&mut out, &self.addresses);
        append_zeros(&mut out, 32 * (USER_POOL_SIZE_LIMIT - self.addresses.len()));
        assert(out@ =~= self@.encode());
        proof {
            lemma_key_views_sized(self.addresses@);
            lemma_keys_bytes(self@.addresses);
        }
        out
    }

    /// Writes the fixed layout over `dst[0..USER_POOL_LEN]`; later bytes are kept.
    pub fn pack_into_slice(&self, dst: &mut [u8])
        requires
            self.wf(),
            old(dst)@.len() >= USER_POOL_LEN,
        ensures
            final(dst)@.len() == old(dst)@.len(),
            final(dst)@.subrange(0, USER_POOL_LEN as int) == self@.encode(),
            final(dst)@.subrange(USER_POOL_LEN as int, old(dst)@.len() as int)
                == old(dst)@.subrange(USER_POOL_LEN as int, old(dst)@.len() as int),
    {
        let bytes = self.encode();
        proof {
            lemma_key_views_sized(self.addresses@);
            lemma_keys_bytes(self@.addresses);
        }
        copy_prefix(dst, &bytes);
    }

    /// Packs into `dst`, refusing a buffer shorter than the layout.
    pub fn pack(&self, dst: &mut [u8]) -> (r: Result<(), ProcessError>)
        requires
            self.wf(),
        ensures
            r is Ok <==> old(dst)@.len() >= USER_POOL_LEN,
            r is Err ==> r == Err::<(), ProcessError>(ProcessError::InvalidAccountData)
                && final(dst)@ == old(dst)@,
            r is Ok ==> final(dst)@.len() == old(dst)@.len() && final(dst)@.subrange(
                0,
                USER_POOL_LEN as int,
            ) == self@.encode() && final(dst)@.subrange(
                USER_POOL_LEN as int,
                old(dst)@.len() as int,
            ) == old(dst)@.subrange(USER_POOL_LEN as int, old(dst)@.len() as int),
    {
        if dst.len() < USER_POOL_LEN {
            return Err(ProcessError::InvalidAccountData);
        }
        self.pack_into_slice(dst);
        Ok(())
    }

    /// Reads the layout from `src[0..USER_POOL_LEN]`; a count above the
    /// capacity is rejected.
    pub fn unpack_from_slice(src: &[u8]) -> (r: Result<UserPool, ProcessError>)
        requires
            src@.len() >= USER_POOL_LEN,
        ensures
            r is Ok <==> UserPoolView::decodable(src@),
            r matches Ok(p) ==> p.wf() && p@ == UserPoolView::decode(src@),
            r matches Err(e) ==> e == ProcessError::InvalidAccountData,
    {
        let user = read_key(src, 0);
        let n = src[32] as usize;
        if n > USER_POOL_SIZE_LIMIT {
            return Err(ProcessError::InvalidAccountData);
        }
        let addresses = read_keys(src, 33, n);
        let p = UserPool { user, addresses };
        proof {
            lemma_key_views_sized(addresses@);
        }
        Ok(p)
    }

    /// Decodes whatever the buffer holds; only a short buffer or a count
    /// above the capacity is an error. A zeroed buffer gives an empty index.
    pub fn unpack_unchecked(src: &[u8]) -> (r: Result<UserPool, ProcessError>)
        ensures
            r is Ok <==> UserPoolView::decodable(src@),
            r matches Ok(p) ==> p.wf() && p@ == UserPoolView::decode(src@),
            r matches Err(e) ==> e == ProcessError::InvalidAccountData,
    {
        if src.len() < USER_POOL_LEN {
            return Err(ProcessError::InvalidAccountData);
        }
        UserPool::unpack_from_slice(src)
    }
}

pub struct MarketView {
    pub creator: Seq<u8>,
    pub fund_pools: Seq<Seq<u8>>,
}

/// The listed fund pools of one market, with its creator.
///
/// The stored size always equals the number of listed pools.
#[derive(Debug)]
pub struct Market {
    pub pool_size: u16,
    pub fund_pools: Vec<Key>,
    pub creator: Key,
}

impl View for Market {
    type V = MarketView;

    open spec fn view(&self) -> MarketView {
        MarketView { creator: self.creator@, fund_pools: key_views(self.fund_pools@) }
    }
}

impl MarketView {
    pub open spec fn wf(self) -> bool {
        &&& self.creator.len() == 32
        &&& all_keys_sized(self.fund_pools)
        &&& self.fund_pools.len() <= POOL_MARKET_SIZE_LIMIT
    }

    pub open spec fn encode(self) -> Seq<u8> {
        le_u16(self.fund_pools.len() as u16) + keys_bytes(self.fund_pools) + zeros(
            (32 * (POOL_MARKET_SIZE_LIMIT - self.fund_pools.len())) as nat,
        ) + self.creator
    }

    pub open spec fn decodable(s: Seq<u8>) -> bool {
        s.len() >= MARKET_LEN && u16_at(s, 0) <= POOL_MARKET_SIZE_LIMIT
    }

    pub open spec fn decode(s: Seq<u8>) -> MarketView {
        MarketView { creator: key_at(s, 3202), fund_pools: keys_from(s, 2, u16_at(s, 0) as nat) }
    }
}

/// Every market that is packed into a buffer unpacks from it unchanged.
pub proof fn lemma_market_round_trip(v: MarketView, s: Seq<u8>)
    requires
        v.wf(),
        s.len() >= MARKET_LEN,
        s.subrange(0, MARKET_LEN as int) == v.encode(),
    ensures
        MarketView::decodable(s),
        MarketView::decode(s) == v,
{
    let n = v.fund_pools.len() as int;
    let e = v.encode();
    lemma_keys_bytes(v.fund_pools);
    lemma_le_lengths(n as u16, 0, 0);
    assert(s.subrange(0, 2) =~= le_u16(n as u16));
    lemma_u16_round_trip(s, 0, n as u16);
    assert(e.subrange(3202, 3234) =~= v.creator);
    assert(key_at(s, 3202) =~= e.subrange(3202, 3234));
    assert(e.subrange(2, 2 + 32 * n) =~= keys_bytes(v.fund_pools));
    assert(s.subrange(2, 2 + 32 * n) =~= e.subrange(2, 2 + 32 * n));
    lemma_keys_round_trip(s, 2, v.fund_pools);
}

impl Market {
    pub open spec fn wf(&self) -> bool {
        &&& self@.wf()
        &&& self.pool_size as int == self.fund_pools@.len()
    }

    pub fn new() -> (r: Market)
        ensures
            r.wf(),
            r@.creator == zeros(32),
            r@.fund_pools == Seq::<Seq<u8>>::empty(),
    {
        let r = Market { pool_size: 0, fund_pools: Vec::new(), creator: Key::zero() };
        assert(key_views(r.fund_pools@) =~= Seq::<Seq<u8>>::empty());
        r
    }

    /// The number of listed pools as stored in the record.
    pub fn pool_size(&self) -> (r: u16)
        requires
            self.wf(),
        ensures
            r == self@.fund_pools.len(),
    {
        self.pool_size
    }

    /// Lists `pubkey` unless the market is full or already lists it.
    pub fn add_fund_pool(&mut self, pubkey: Key)
        requires
            old(self).wf(),
        ensures
            final(self).wf(),
            final(self)@.creator == old(self)@.creator,
            final(self)@.fund_pools == set_add(
                old(self)@.fund_pools,
                pubkey@,
                POOL_MARKET_SIZE_LIMIT as nat,
            ),
    {
        if self.fund_pools.len() < POOL_MARKET_SIZE_LIMIT {
            if !contains_key(&self.fund_pools, &pubkey) {
                let ghost prev = self.fund_pools@;
                self.fund_pools.push(pubkey);
                self.pool_size = self.fund_pools.len() as u16;
                assert(key_views(self.fund_pools@) =~= key_views(prev).push(pubkey@));
            }
        }
    }

    /// Unlists every occurrence of `pubkey`, keeping the others in order.
    pub fn remove_fund_pool(&mut self, pubkey: Key)
        requires
            old(self).wf(),
        ensures
            final(self).wf(),
            final(self)@.creator == old(self)@.creator,
            final(self)@.fund_pools == remove_all(old(self)@.fund_pools, pubkey@),
    {
        let ghost all = key_views(self.fund_pools@);
        let mut kept: Vec<Key> = Vec::new();
        let mut i: usize = 0;
        while i < self.fund_pools.len()
            invariant
                i <= self.fund_pools@.len(),
                all == key_views(self.fund_pools@),
                kept@.len() <= i,
                key_views(kept@) == remove_all(all.subrange(0, i as int), pubkey@),
            decreases self.fund_pools@.len() - i,
        {
            let ghost prev = kept@;
            if !self.fund_pools[i].same_as(&pubkey) {
                kept.push(self.fund_pools[i]);
                assert(key_views(kept@) =~= key_views(prev).push(self.fund_pools@[i as int]@));
            }
            proof {
                reveal(Seq::filter);
                assert(all.subrange(0, i + 1).drop_last() =~= all.subrange(0, i as int));
                assert(all.subrange(0, i + 1).last() == all[i as int]);
            }
            i = i + 1;
        }
        assert(all.subrange(0, i as int) =~= all);
        self.fund_pools = kept;
        self.pool_size = self.fund_pools.len() as u16;
    }

    pub fn len(&self) -> (r: usize)
        ensures
            r == self@.fund_pools.len(),
    {
        self.fund_pools.len()
    }

    /// The listed pools, in order.
    pub fn all(&self) -> (r: Vec<Key>)
        ensures
            key_views(r@) == self@.fund_pools,
    {
        let r = self.fund_pools.clone();
        assert(r@ =~= self.fund_pools@);
        r
    }

    /// Unlists every pool.
    pub fn clear(&mut self)
        requires
            old(self).wf(),
        ensures
            final(self).wf(),
            final(self)@.creator == old(self)@.creator,
            final(self)@.fund_pools == Seq::<Seq<u8>>::empty(),
    {
        self.fund_pools.clear();
        self.pool_size = self.fund_pools.len() as u16;
        assert(key_views(self.fund_pools@) =~= Seq::<Seq<u8>>::empty());
    }

    pub(crate) fn encode(&self) -> (r: Vec<u8>)
        requires
            self.wf(),
        ensures
            r@ == self@.encode(),
            r@.len() == MARKET_LEN,
    {
        let mut out: Vec<u8> = Vec::with_capacity(MARKET_LEN);
        append_u16(&mut out, self.pool_size);
        append_keys(&mut out, &self.fund_pools);
        append_zeros(&mut out, 32 * (POOL_MARKET_SIZE_LIMIT - self.fund_pools.len()));
        append_key(&mut out, &self.creator);
        assert(out@ =~= self@.encode());
        proof {
            lemma_key_views_sized(self.fund_pools@);
            lemma_keys_bytes(self@.fund_pools);
            lemma_le_lengths(self.pool_size, 0, 0);
        }
        out
    }

    /// Writes the fixed layout over `dst[0..MARKET_LEN]`; later bytes are kept.
    pub fn pack_into_slice(&self, dst: &mut [u8])
        requires
            self.wf(),
            old(dst)@.len() >= MARKET_LEN,
        ensures
            final(dst)@.len() == old(dst)@.len(),
            final(dst)@.subrange(0, MARKET_LEN as int) == self@.encode(),
            final(dst)@.subrange(MARKET_LEN as int, old(dst)@.len() as int)
                == old(dst)@.subrange(MARKET_LEN as int, old(dst)@.len() as int),
    {
        let bytes = self.encode();
        proof {
            lemma_key_views_sized(self.fund_pools@);
            lemma_keys_bytes(self@.fund_pools);
            lemma_le_lengths(self.pool_size, 0, 0);
        }
        copy_prefix(dst, &bytes);
    }

    /// Packs into `dst`, refusing a buffer shorter than the layout.
    pub fn pack(&self, dst: &mut [u8]) -> (r: Result<(), ProcessError>)
        requires
            self.wf(),
        ensures
            r is Ok <==> old(dst)@.len() >= MARKET_LEN,
            r is Err ==> r == Err::<(), ProcessError>(ProcessError::InvalidAccountData)
                && final(dst)@ == old(dst)@,
            r is Ok ==> final(dst)@.len() == old(dst)@.len() && final(dst)@.subrange(
                0,
                MARKET_LEN as int,
            ) == self@.encode() && final(dst)@.subrange(MARKET_LEN as int, old(dst)@.len() as int)
                == old(dst)@.subrange(MARKET_LEN as int, old(dst)@.len() as int),
    {
        if dst.len() < MARKET_LEN {
            return Err(ProcessError::InvalidAccountData);
        }
        self.pack_into_slice(dst);
        Ok(())
    }

    /// Reads the layout from `src[0..MARKET_LEN]`; a size above the capacity
    /// is rejected.
    pub fn unpack_from_slice(src: &[u8]) -> (r: Result<Market, ProcessError>)
        requires
            src@.len() >= MARKET_LEN,
        ensures
            r is Ok <==> MarketView::decodable(src@),
            r matches Ok(m) ==> m.wf() && m@ == MarketView::decode(src@),
            r matches Err(e) ==> e == ProcessError::InvalidAccountData,
    {
        let n = read_u16(src, 0);
        if n as usize > POOL_MARKET_SIZE_LIMIT {
            return Err(ProcessError::InvalidAccountData);
        }
        let fund_pools = read_keys(src, 2, n as usize);
        let creator = read_key(src, 3202);
        proof {
            lemma_key_views_sized(fund_pools@);
        }
        Ok(Market { pool_size: n, fund_pools, creator })
    }

    /// Decodes whatever the buffer holds; only a short buffer or a size above
    /// the capacity is an error. A zeroed buffer gives an empty market.
    pub fn unpack_unchecked(src: &[u8]) -> (r: Result<Market, ProcessError>)
        ensures
            r is Ok <==> MarketView::decodable(src@),
            r matches Ok(m) ==> m.wf() && m@ == MarketView::decode(src@),
            r matches Err(e) ==> e == ProcessError::InvalidAccountData,
    {
        if src.len() < MARKET_LEN {
            return Err(ProcessError::InvalidAccountData);
        }
        Market::unpack_from_slice(src)
    }
}

} // verus!
