//! Instruction handlers: the checks each instruction makes on the accounts it
//! is given, and the writes and transfers that follow when they pass.
use vstd::prelude::*;
use crate::codec::{copy_prefix, zeros};
use crate::error::{PoolError, ProcessError};
use crate::pool::{
    has_address, FundPool, FundPoolInvestorView, FundPoolView, FUND_POOL_INVESTOR_LIMIT,
    FUND_POOL_LEN,
};
use crate::instruction::{decode_instruction, FundPoolArgs, FundPoolArgsView, PoolInstruction, PoolInstructionView};
use crate::investor::{Investor, InvestorView, INVESTOR_LEN};
use crate::key::Key;
use crate::registry::{
    remove_all, removes_first, set_add, Market, MarketView, UserPool, UserPoolView, MARKET_LEN,
    POOL_MARKET_SIZE_LIMIT, USER_POOL_LEN, USER_POOL_SIZE_LIMIT,
};

verus! {

/// One account handed to an instruction, as the host presents it.
#[derive(Debug)]
pub struct Account {
    pub key: Key,
    pub owner: Key,
    pub is_signer: bool,
    pub data: Vec<u8>,
}

/// `d` with its front replaced by `enc`.
pub open spec fn overwrite(d: Seq<u8>, enc: Seq<u8>) -> Seq<u8> {
    enc + d.subrange(enc.len() as int, d.len() as int)
}

/// The accounts agree in number, identity, owner and signer flag, and the data
/// of every account outside `changed` is the same.
pub open spec fn only_data_changed(a: Seq<Account>, b: Seq<Account>, changed: Set<int>) -> bool {
    &&& a.len() == b.len()
    &&& forall|i: int|
        0 <= i < a.len() ==> {
            &&& (#[trigger] b[i]).key == a[i].key
            &&& b[i].owner == a[i].owner
            &&& b[i].is_signer == a[i].is_signer
            &&& !changed.contains(i) ==> b[i].data@ == a[i].data@
        }
}

fn write_prefix(accounts: &mut Vec<Account>, i: usize, bytes: &Vec<u8>)
    requires
        i < old(accounts)@.len(),
        bytes@.len() <= old(accounts)@[i as int].data@.len(),
    ensures
        only_data_changed(old(accounts)@, final(accounts)@, set![i as int]),
        final(accounts)@[i as int].data@ == overwrite(old(accounts)@[i as int].data@, bytes@),
{
    let ghost before = accounts@;
    let acct = &mut accounts[i];
    copy_prefix(acct.data.as_mut_slice(), bytes);
    proof {
        let d = before[i as int].data@;
        assert(accounts@[i as int].data@ =~= overwrite(d, bytes@));
    }
}

fn zero_fill(accounts: &mut Vec<Account>, i: usize)
    requires
        i < old(accounts)@.len(),
    ensures
        only_data_changed(old(accounts)@, final(accounts)@, set![i as int]),
        final(accounts)@[i as int].data@ == zeros(old(accounts)@[i as int].data@.len()),
{
    let ghost before = accounts@;
    let acct = &mut accounts[i];
    let n = acct.data.len();
    let mut j: usize = 0;
    while j < n
        invariant
            j <= n,
            n == acct.data@.len(),
            acct.key == before[i as int].key,
            acct.owner == before[i as int].owner,
            acct.is_signer == before[i as int].is_signer,
            forall|k: int| 0 <= k < j ==> acct.data@[k] == 0u8,
        decreases n - j,
    {
        acct.data.set(j, 0u8);
        j = j + 1;
    }
    proof {
        assert(acct.data@ =~= zeros(n as nat));
    }
}

/// The user index in `d` after `address` is filed under `user`: an index of
/// another user is left alone, an unreadable one is started afresh, and a
/// buffer too short for an index is not touched.
pub open spec fn user_pool_registered(d: Seq<u8>, address: Seq<u8>, user: Seq<u8>) -> Seq<u8> {
    if d.len() < USER_POOL_LEN {
        d
    } else if UserPoolView::decodable(d) {
        let p = UserPoolView::decode(d);
        if p.user == user || p.user == zeros(32) {
            overwrite(
                d,
                UserPoolView {
                    user,
                    addresses: set_add(p.addresses, address, USER_POOL_SIZE_LIMIT as nat),
                }.encode(),
            )
        } else {
            d
        }
    } else {
        overwrite(d, UserPoolView { user, addresses: seq![address] }.encode())
    }
}

/// `nd` is the user index in `d` after `address` is taken out of the index of
/// `user`; any other content is left alone.
pub open spec fn user_pool_removed(d: Seq<u8>, address: Seq<u8>, user: Seq<u8>, nd: Seq<u8>) -> bool {
    if UserPoolView::decodable(d) && UserPoolView::decode(d).user == user {
        exists|rest: Seq<Seq<u8>>|
            removes_first(UserPoolView::decode(d).addresses, address, rest) && nd == overwrite(
                d,
                UserPoolView { user, addresses: rest }.encode(),
            )
    } else {
        nd == d
    }
}

/// The market in `d` after `address` is listed; an unreadable market is
/// reset to an empty one.
pub open spec fn market_registered(d: Seq<u8>, address: Seq<u8>) -> Seq<u8> {
    if d.len() < MARKET_LEN {
        d
    } else if MarketView::decodable(d) {
        let m = MarketView::decode(d);
        overwrite(
            d,
            MarketView {
                creator: m.creator,
                fund_pools: set_add(m.fund_pools, address, POOL_MARKET_SIZE_LIMIT as nat),
            }.encode(),
        )
    } else {
        overwrite(d, MarketView { creator: zeros(32), fund_pools: Seq::empty() }.encode())
    }
}

/// The market in `d` after `address` is unlisted; an unreadable market is
/// left alone.
pub open spec fn market_removed(d: Seq<u8>, address: Seq<u8>) -> Seq<u8> {
    if MarketView::decodable(d) {
        let m = MarketView::decode(d);
        overwrite(
            d,
            MarketView { creator: m.creator, fund_pools: remove_all(m.fund_pools, address) }.encode(),
        )
    } else {
        d
    }
}

fn register_address_to_user_pool(accounts: &mut Vec<Account>, i: usize, address: Key, user: Key)
    requires
        i < old(accounts)@.len(),
    ensures
        only_data_changed(old(accounts)@, final(accounts)@, set![i as int]),
        final(accounts)@[i as int].data@ == user_pool_registered(
            old(accounts)@[i as int].data@,
            address@,
            user@,
        ),
{
    let zero = Key::zero();
    match UserPool::unpack_unchecked(accounts[i].data.as_slice()) {
        Ok(mut pool) => {
            if pool.user.same_as(&user) || pool.user.same_as(&zero) {
                pool.user = user;
                pool.add_address(address);
                let bytes = pool.encode();
                write_prefix(accounts, i, &bytes);
            }
        },
        Err(_) => {
            if accounts[i].data.len() >= USER_POOL_LEN {
                let mut pool = UserPool::new();
                pool.user = user;
                pool.add_address(address);
                proof {
                    assert(pool@.addresses =~= seq![address@]);
                }
                let bytes = pool.encode();
                write_prefix(accounts, i, &bytes);
            }
        },
    }
}

fn remove_address_from_user_pool(accounts: &mut Vec<Account>, i: usize, address: Key, user: Key)
    requires
        i < old(accounts)@.len(),
    ensures
        only_data_changed(old(accounts)@, final(accounts)@, set![i as int]),
        user_pool_removed(
            old(accounts)@[i as int].data@,
            address@,
            user@,
            final(accounts)@[i as int].data@,
        ),
{
    if let Ok(mut pool) = UserPool::unpack_unchecked(accounts[i].data.as_slice()) {
        if pool.user.same_as(&user) {
            let ghost before = pool@.addresses;
            pool.remove_address(address);
            let bytes = pool.encode();
            write_prefix(accounts, i, &bytes);
            assert(removes_first(before, address@, pool@.addresses));
        }
    }
}

fn register_address_to_market(accounts: &mut Vec<Account>, i: usize, address: Key)
    requires
        i < old(accounts)@.len(),
    ensures
        only_data_changed(old(accounts)@, final(accounts)@, set![i as int]),
        final(accounts)@[i as int].data@ == market_registered(
            old(accounts)@[i as int].data@,
            address@,
        ),
{
    match Market::unpack_unchecked(accounts[i].data.as_slice()) {
        Ok(mut market) => {
            market.add_fund_pool(address);
            let bytes = market.encode();
            write_prefix(accounts, i, &bytes);
        },
        Err(_) => {
            if accounts[i].data.len() >= MARKET_LEN {
                let market = Market::new();
                let bytes = market.encode();
                write_prefix(accounts, i, &bytes);
            }
        },
    }
}

fn remove_address_from_market(accounts: &mut Vec<Account>, i: usize, address: Key)
    requires
        i < old(accounts)@.len(),
    ensures
        only_data_changed(old(accounts)@, final(accounts)@, set![i as int]),
        final(accounts)@[i as int].data@ == market_removed(old(accounts)@[i as int].data@, address@),
{
    if let Ok(mut market) = Market::unpack_unchecked(accounts[i].data.as_slice()) {
        market.remove_fund_pool(address);
        let bytes = market.encode();
        write_prefix(accounts, i, &bytes);
    }
}

/// A value movement that the host performs on the program's behalf once the
/// handler's checks have passed.
#[derive(Clone, Copy, Debug)]
pub enum Action {
    /// Native-currency transfer, signed by `from`.
    Transfer { from: Key, to: Key, lamports: u64 },
    /// Mint `amount` tokens of `mint` into `account`, authorised by
    /// `authority`, then hand `account` over to the program.
    MintTo { mint: Key, account: Key, authority: Key, amount: u64 },
    /// Token transfer out of the pool's token account, signed by the program.
    TokenPayout { source: Key, destination: Key, amount: u64 },
}

/// Whether an update of a fund pool was applied or, the claimed manager or
/// address not matching, skipped without any change.
#[derive(Clone, Copy, Debug, PartialEq, Eq, Structural)]
pub enum UpdateOutcome {
    Applied,
    Skipped,
}

pub open spec fn owned_by(a: Account, program_id: Seq<u8>) -> bool {
    a.owner@ == program_id
}

/// The pool that a create instruction with arguments `f` starts.
pub open spec fn created_pool(f: FundPoolArgsView) -> FundPoolView {
    FundPoolView {
        is_initialized: true,
        manager: f.manager,
        address: f.address,
        token_address: f.token_address,
        fee_in_lamports: f.lamports,
        token_count: f.token_count,
        rm_token_count: f.token_count,
        token_to_lamport_ratio: f.token_to_lamport_ratio,
        is_finalized: f.is_finalized,
        icon: f.icon,
        investors: Seq::empty(),
        withdrawers: Seq::empty(),
    }
}

/// The first check that a fund-pool creation fails, in the order they are made.
pub open spec fn create_fund_pool_error(a: Seq<Account>, program_id: Seq<u8>) -> Option<ProcessError> {
    if a.len() < 7 {
        Some(ProcessError::NotEnoughAccountKeys)
    } else if !a[3].is_signer {
        Some(ProcessError::MissingSignature)
    } else if !owned_by(a[0], program_id) {
        Some(ProcessError::IncorrectOwner)
    } else if FundPoolView::decodable(a[0].data@) && FundPoolView::decode(
        a[0].data@,
    ).is_initialized {
        Some(ProcessError::Custom(PoolError::ObjectAlreadyCreated))
    } else if a[0].data@.len() < FUND_POOL_LEN {
        Some(ProcessError::InvalidAccountData)
    } else {
        None
    }
}

/// Accounts: the pool, the manager's index, the market, the signer, the token
/// mint, the token account, the token program.
pub open spec fn create_fund_pool_effect(
    f: FundPoolArgsView,
    program_id: Seq<u8>,
    token_program_id: Seq<u8>,
    a: Seq<Account>,
    b: Seq<Account>,
    acts: Seq<Action>,
) -> bool {
    &&& only_data_changed(a, b, set![0int, 1int, 2int])
    &&& b[0].data@ == overwrite(a[0].data@, created_pool(f).encode())
    &&& b[1].data@ == if owned_by(a[1], program_id) {
        user_pool_registered(a[1].data@, f.address, f.manager)
    } else {
        a[1].data@
    }
    &&& b[2].data@ == if owned_by(a[2], program_id) && f.is_finalized {
        market_registered(a[2].data@, f.address)
    } else {
        a[2].data@
    }
    &&& acts == if a[5].owner@ == token_program_id {
        seq![Action::MintTo { mint: a[4].key, account: a[5].key, authority: a[3].key, amount: f.token_count }]
    } else {
        Seq::<Action>::empty()
    }
}

/// Creates a fund pool in the first account, files it in the manager's index
/// and, when it is finalized, lists it in the market.
pub fn create_fund_pool(
    args: &FundPoolArgs,
    program_id: &Key,
    token_program_id: &Key,
    accounts: &mut Vec<Account>,
) -> (r: Result<Vec<Action>, ProcessError>)
    ensures
        match create_fund_pool_error(old(accounts)@, program_id@) {
            Some(e) => r == Err::<Vec<Action>, ProcessError>(e) && final(accounts)@ == old(
                accounts,
            )@,
            None => r matches Ok(acts) && create_fund_pool_effect(
                args.view(),
                program_id@,
                token_program_id@,
                old(accounts)@,
                final(accounts)@,
                acts@,
            ),
        },
{
    if accounts.len() < 7 {
        return Err(ProcessError::NotEnoughAccountKeys);
    }
    if !accounts[3].is_signer {
        return Err(ProcessError::MissingSignature);
    }
    if !accounts[0].owner.same_as(program_id) {
        return Err(ProcessError::IncorrectOwner);
    }
    if let Ok(stored) = FundPool::unpack_unchecked(accounts[0].data.as_slice()) {
        if stored.is_initialized {
            return Err(ProcessError::Custom(PoolError::ObjectAlreadyCreated));
        }
    }
    if accounts[0].data.len() < FUND_POOL_LEN {
        return Err(ProcessError::InvalidAccountData);
    }
    let ghost a = accounts@;
    let mut pool = FundPool::new(true);
    pool.is_finalized = args.is_finalized;
    pool.token_count = args.token_count;
    pool.rm_token_count = args.token_count;
    pool.token_to_lamport_ratio = args.token_to_lamport_ratio;
    pool.fee_in_lamports = args.lamports;
    pool.manager = args.manager;
    pool.icon = args.icon;
    pool.address = args.address;
    pool.token_address = args.token_address;
    let mut acts: Vec<Action> = Vec::new();
    if accounts[5].owner.same_as(token_program_id) {
        acts.push(
            Action::MintTo {
                mint: accounts[4].key,
                account: accounts[5].key,
                authority: accounts[3].key,
                amount: args.token_count,
            },
        );
    }
    assert(pool@ == created_pool(args.view()));
    let bytes = pool.encode();
    write_prefix(accounts, 0, &bytes);
    if accounts[1].owner.same_as(program_id) {
        register_address_to_user_pool(accounts, 1, args.address, args.manager);
    }
    if accounts[2].owner.same_as(program_id) && args.is_finalized {
        register_address_to_market(accounts, 2, args.address);
    }
    proof {
        assert(acts@ =~= (if a[5].owner@ == token_program_id@ {
            seq![Action::MintTo { mint: a[4].key, account: a[5].key, authority: a[3].key, amount: args.token_count }]
        } else {
            Seq::<Action>::empty()
        }));
    }
    Ok(acts)
}

/// The first check that a fund-pool update fails.
pub open spec fn update_fund_pool_error(a: Seq<Account>, program_id: Seq<u8>) -> Option<ProcessError> {
    if a.len() < 1 {
        Some(ProcessError::NotEnoughAccountKeys)
    } else if !owned_by(a[0], program_id) {
        Some(ProcessError::IncorrectOwner)
    } else if !(FundPoolView::decodable(a[0].data@) && FundPoolView::decode(
        a[0].data@,
    ).is_initialized) {
        Some(ProcessError::InvalidAccountData)
    } else {
        None
    }
}

/// An update goes through only for the stored manager and address.
pub open spec fn update_authorized(f: FundPoolArgsView, p: FundPoolView) -> bool {
    p.manager == f.manager && p.address == f.address
}

/// The stored pool `p` with the terms of an update; identity, allocation
/// left and entries are kept.
pub open spec fn updated_pool(f: FundPoolArgsView, p: FundPoolView) -> FundPoolView {
    FundPoolView {
        token_count: f.token_count,
        token_to_lamport_ratio: f.token_to_lamport_ratio,
        is_finalized: f.is_finalized,
        fee_in_lamports: f.lamports,
        icon: f.icon,
        ..p
    }
}

/// What an update that passed its checks does to the accounts.
pub open spec fn update_fund_pool_effect(
    f: FundPoolArgsView,
    a: Seq<Account>,
    b: Seq<Account>,
) -> bool {
    let p = FundPoolView::decode(a[0].data@);
    if update_authorized(f, p) {
        &&& only_data_changed(a, b, set![0int])
        &&& b[0].data@ == overwrite(a[0].data@, updated_pool(f, p).encode())
    } else {
        b == a
    }
}

/// Changes the terms of the pool in the first account when the claimed
/// manager and address are the stored ones; otherwise changes nothing and
/// still succeeds.
pub fn update_fund_pool(args: &FundPoolArgs, program_id: &Key, accounts: &mut Vec<Account>) -> (r:
    Result<UpdateOutcome, ProcessError>)
    ensures
        match update_fund_pool_error(old(accounts)@, program_id@) {
            Some(e) => r == Err::<UpdateOutcome, ProcessError>(e) && final(accounts)@ == old(
                accounts,
            )@,
            None => {
                &&& r == Ok::<UpdateOutcome, ProcessError>(
                    if update_authorized(
                        args.view(),
                        FundPoolView::decode(old(accounts)@[0].data@),
                    ) {
                        UpdateOutcome::Applied
                    } else {
                        UpdateOutcome::Skipped
                    },
                )
                &&& update_fund_pool_effect(args.view(), old(accounts)@, final(accounts)@)
            },
        },
{
    if accounts.len() < 1 {
        return Err(ProcessError::NotEnoughAccountKeys);
    }
    if !accounts[0].owner.same_as(program_id) {
        return Err(ProcessError::IncorrectOwner);
    }
    let mut pool = match FundPool::unpack(accounts[0].data.as_slice()) {
        Ok(p) => p,
        Err(e) => return Err(e),
    };
    if pool.manager.same_as(&args.manager) && pool.address.same_as(&args.address) {
        pool.token_count = args.token_count;
        pool.token_to_lamport_ratio = args.token_to_lamport_ratio;
        pool.is_finalized = args.is_finalized;
        pool.fee_in_lamports = args.lamports;
        pool.icon = args.icon;
        let bytes = pool.encode();
        write_prefix(accounts, 0, &bytes);
        Ok(UpdateOutcome::Applied)
    } else {
        Ok(UpdateOutcome::Skipped)
    }
}

/// The first check that a fund-pool deletion fails.
pub open spec fn delete_fund_pool_error(a: Seq<Account>, program_id: Seq<u8>) -> Option<ProcessError> {
    if a.len() < 4 {
        Some(ProcessError::NotEnoughAccountKeys)
    } else if !a[3].is_signer {
        Some(ProcessError::MissingSignature)
    } else if !owned_by(a[0], program_id) {
        Some(ProcessError::IncorrectOwner)
    } else if !(FundPoolView::decodable(a[0].data@) && FundPoolView::decode(
        a[0].data@,
    ).is_initialized) {
        Some(ProcessError::InvalidAccountData)
    } else {
        None
    }
}

/// Accounts: the pool, the manager's index, the market, the signer.
pub open spec fn delete_fund_pool_effect(program_id: Seq<u8>, a: Seq<Account>, b: Seq<Account>) -> bool {
    let p = FundPoolView::decode(a[0].data@);
    &&& only_data_changed(a, b, set![0int, 1int, 2int])
    &&& b[0].data@ == zeros(a[0].data@.len())
    &&& if owned_by(a[1], program_id) {
        user_pool_removed(a[1].data@, p.address, p.manager, b[1].data@)
    } else {
        b[1].data@ == a[1].data@
    }
    &&& b[2].data@ == if owned_by(a[2], program_id) {
        market_removed(a[2].data@, p.address)
    } else {
        a[2].data@
    }
}

/// Zero-fills the pool's whole account and takes the pool out of the
/// manager's index and the market.
pub fn delete_fund_pool(program_id: &Key, accounts: &mut Vec<Account>) -> (r: Result<
    (),
    ProcessError,
>)
    ensures
        match delete_fund_pool_error(old(accounts)@, program_id@) {
            Some(e) => r == Err::<(), ProcessError>(e) && final(accounts)@ == old(accounts)@,
            None => r is Ok && delete_fund_pool_effect(
                program_id@,
                old(accounts)@,
                final(accounts)@,
            ),
        },
{
    if accounts.len() < 4 {
        return Err(ProcessError::NotEnoughAccountKeys);
    }
    if !accounts[3].is_signer {
        return Err(ProcessError::MissingSignature);
    }
    if !accounts[0].owner.same_as(program_id) {
        return Err(ProcessError::IncorrectOwner);
    }
    let pool = match FundPool::unpack(accounts[0].data.as_slice()) {
        Ok(p) => p,
        Err(e) => return Err(e),
    };
    zero_fill(accounts, 0);
    if accounts[1].owner.same_as(program_id) {
        remove_address_from_user_pool(accounts, 1, pool.address, pool.manager);
    }
    if accounts[2].owner.same_as(program_id) {
        remove_address_from_market(accounts, 2, pool.address);
    }
    Ok(())
}

/// The first check that creating a market fails.
pub open spec fn create_market_error(a: Seq<Account>, program_id: Seq<u8>) -> Option<ProcessError> {
    if a.len() < 1 {
        Some(ProcessError::NotEnoughAccountKeys)
    } else if !owned_by(a[0], program_id) {
        Some(ProcessError::IncorrectOwner)
    } else if MarketView::decodable(a[0].data@) && MarketView::decode(a[0].data@).creator != zeros(
        32,
    ) {
        Some(ProcessError::Custom(PoolError::ObjectAlreadyCreated))
    } else if a[0].data@.len() < MARKET_LEN {
        Some(ProcessError::InvalidAccountData)
    } else {
        None
    }
}

pub open spec fn create_market_effect(creator: Seq<u8>, a: Seq<Account>, b: Seq<Account>) -> bool {
    &&& only_data_changed(a, b, set![0int])
    &&& b[0].data@ == overwrite(
        a[0].data@,
        MarketView { creator, fund_pools: Seq::empty() }.encode(),
    )
}

/// Starts an empty market owned by `creator` in the first account.
pub fn create_market(creator: Key, program_id: &Key, accounts: &mut Vec<Account>) -> (r: Result<
    (),
    ProcessError,
>)
    ensures
        match create_market_error(old(accounts)@, program_id@) {
            Some(e) => r == Err::<(), ProcessError>(e) && final(accounts)@ == old(accounts)@,
            None => r is Ok && create_market_effect(creator@, old(accounts)@, final(accounts)@),
        },
{
    if accounts.len() < 1 {
        return Err(ProcessError::NotEnoughAccountKeys);
    }
    if !accounts[0].owner.same_as(program_id) {
        return Err(ProcessError::IncorrectOwner);
    }
    if let Ok(stored) = Market::unpack_unchecked(accounts[0].data.as_slice()) {
        let zero = Key::zero();
        if !stored.creator.same_as(&zero) {
            return Err(ProcessError::Custom(PoolError::ObjectAlreadyCreated));
        }
    }
    if accounts[0].data.len() < MARKET_LEN {
        return Err(ProcessError::InvalidAccountData);
    }
    let mut market = Market::new();
    market.creator = creator;
    let bytes = market.encode();
    write_prefix(accounts, 0, &bytes);
    Ok(())
}

/// The first check that listing or unlisting a pool in a market fails.
pub open spec fn market_edit_error(a: Seq<Account>, program_id: Seq<u8>) -> Option<ProcessError> {
    if a.len() < 2 {
        Some(ProcessError::NotEnoughAccountKeys)
    } else if !owned_by(a[0], program_id) {
        Some(ProcessError::IncorrectOwner)
    } else if MarketView::decodable(a[0].data@) && MarketView::decode(a[0].data@).creator
        != a[1].key@ {
        Some(ProcessError::Custom(PoolError::UnmatchedCreator))
    } else {
        None
    }
}

pub open spec fn register_to_market_effect(fund_pool: Seq<u8>, a: Seq<Account>, b: Seq<Account>) -> bool {
    &&& only_data_changed(a, b, set![0int])
    &&& b[0].data@ == if MarketView::decodable(a[0].data@) {
        market_registered(a[0].data@, fund_pool)
    } else {
        a[0].data@
    }
}

pub open spec fn delete_from_market_effect(fund_pool: Seq<u8>, a: Seq<Account>, b: Seq<Account>) -> bool {
    &&& only_data_changed(a, b, set![0int])
    &&& b[0].data@ == market_removed(a[0].data@, fund_pool)
}

/// Lists `fund_pool` in the market of the first account, at the request of
/// its creator (the second account). An unreadable market is left alone.
pub fn register_to_market(fund_pool: Key, program_id: &Key, accounts: &mut Vec<Account>) -> (r:
    Result<(), ProcessError>)
    ensures
        match market_edit_error(old(accounts)@, program_id@) {
            Some(e) => r == Err::<(), ProcessError>(e) && final(accounts)@ == old(accounts)@,
            None => r is Ok && register_to_market_effect(
                fund_pool@,
                old(accounts)@,
                final(accounts)@,
            ),
        },
{
    if accounts.len() < 2 {
        return Err(ProcessError::NotEnoughAccountKeys);
    }
    if !accounts[0].owner.same_as(program_id) {
        return Err(ProcessError::IncorrectOwner);
    }
    if let Ok(mut market) = Market::unpack_unchecked(accounts[0].data.as_slice()) {
        if !market.creator.same_as(&accounts[1].key) {
            return Err(ProcessError::Custom(PoolError::UnmatchedCreator));
        }
        market.add_fund_pool(fund_pool);
        let bytes = market.encode();
        write_prefix(accounts, 0, &bytes);
    }
    Ok(())
}

/// Unlists `fund_pool` from the market of the first account, at the request
/// of its creator (the second account). An unreadable market is left alone.
pub fn delete_from_market(fund_pool: Key, program_id: &Key, accounts: &mut Vec<Account>) -> (r:
    Result<(), ProcessError>)
    ensures
        match market_edit_error(old(accounts)@, program_id@) {
            Some(e) => r == Err::<(), ProcessError>(e) && final(accounts)@ == old(accounts)@,
            None => r is Ok && delete_from_market_effect(
                fund_pool@,
                old(accounts)@,
                final(accounts)@,
            ),
        },
{
    if accounts.len() < 2 {
        return Err(ProcessError::NotEnoughAccountKeys);
    }
    if !accounts[0].owner.same_as(program_id) {
        return Err(ProcessError::IncorrectOwner);
    }
    if let Ok(mut market) = Market::unpack_unchecked(accounts[0].data.as_slice()) {
        if !market.creator.same_as(&accounts[1].key) {
            return Err(ProcessError::Custom(PoolError::UnmatchedCreator));
        }
        market.remove_fund_pool(fund_pool);
        let bytes = market.encode();
        write_prefix(accounts, 0, &bytes);
    }
    Ok(())
}

/// The arguments of an investment, keys as byte sequences.
pub struct InvestmentView {
    pub investor: Seq<u8>,
    pub pool_address: Seq<u8>,
    pub address: Seq<u8>,
    pub amount: u64,
    pub token_address: Seq<u8>,
    pub token_count: u64,
}

/// The first check that an investment fails, in the order they are made.
/// Accounts: the new investor record, the investor's index, the pool, the
/// signer, the system program, the pool's token account, the investor's token
/// account, the pool's token authority, the token program and, when the pool
/// charges a fee, the manager.
pub open spec fn add_investor_error(
    v: InvestmentView,
    a: Seq<Account>,
    program_id: Seq<u8>,
) -> Option<ProcessError> {
    if a.len() < 9 {
        Some(ProcessError::NotEnoughAccountKeys)
    } else if !a[3].is_signer {
        Some(ProcessError::MissingSignature)
    } else if !owned_by(a[0], program_id) || !owned_by(a[1], program_id) || !owned_by(
        a[2],
        program_id,
    ) {
        Some(ProcessError::IncorrectOwner)
    } else if !FundPoolView::decodable(a[2].data@) {
        Some(ProcessError::InvalidAccountData)
    } else {
        let p = FundPoolView::decode(a[2].data@);
        if !p.is_initialized {
            Some(ProcessError::Custom(PoolError::ObjectNotInitialized))
        } else if p.address != v.pool_address {
            Some(ProcessError::Custom(PoolError::UnmatchedPoolAddress))
        } else if a[0].key@ != v.address {
            Some(ProcessError::Custom(PoolError::UnmatchedInvestorAccountAddress))
        } else if p.token_to_lamport_ratio * v.token_count != v.amount {
            Some(ProcessError::Custom(PoolError::AmountsUnmatched))
        } else if p.fee_in_lamports > 0 && a.len() < 10 {
            Some(ProcessError::NotEnoughAccountKeys)
        } else if p.fee_in_lamports > 0 && a[9].key@ != p.manager {
            Some(ProcessError::Custom(PoolError::InvalidManagerAccount))
        } else if v.token_count > p.rm_token_count {
            Some(ProcessError::ArithmeticOverflow)
        } else if p.investors.len() >= FUND_POOL_INVESTOR_LIMIT {
            Some(ProcessError::Custom(PoolError::MaxInvestorReached))
        } else if has_address(p.investors, v.address) {
            Some(ProcessError::Custom(PoolError::InvestorAlreadyExists))
        } else if a[0].data@.len() < INVESTOR_LEN {
            Some(ProcessError::InvalidAccountData)
        } else {
            None
        }
    }
}

/// The record an investment leaves in the investor's account.
pub open spec fn investment_record(v: InvestmentView, date: i64) -> InvestorView {
    InvestorView {
        investor: v.investor,
        pool_address: v.pool_address,
        address: v.address,
        amount: v.amount,
        token_address: v.token_address,
        token_count: v.token_count,
        date,
    }
}

/// The pool `p` after an investment: fewer tokens left, one more investor.
pub open spec fn invested_pool(v: InvestmentView, date: i64, p: FundPoolView) -> FundPoolView {
    FundPoolView {
        rm_token_count: (p.rm_token_count - v.token_count) as u64,
        investors: p.investors.push(
            FundPoolInvestorView {
                investor: v.investor,
                address: v.address,
                token_count: v.token_count,
                date,
            },
        ),
        ..p
    }
}

/// The payment into the pool, the manager's fee when there is one, and the
/// token payout when the pool's token account belongs to the token program.
pub open spec fn investment_actions(
    v: InvestmentView,
    p: FundPoolView,
    a: Seq<Account>,
    token_program_id: Seq<u8>,
) -> Seq<Action> {
    seq![Action::Transfer { from: a[3].key, to: a[2].key, lamports: v.amount }] + (if p.fee_in_lamports
        > 0 {
        seq![Action::Transfer { from: a[3].key, to: a[9].key, lamports: p.fee_in_lamports }]
    } else {
        Seq::<Action>::empty()
    }) + (if a[5].owner@ == token_program_id {
        seq![Action::TokenPayout { source: a[5].key, destination: a[6].key, amount: v.token_count }]
    } else {
        Seq::<Action>::empty()
    })
}

pub open spec fn add_investor_effect(
    v: InvestmentView,
    date: i64,
    token_program_id: Seq<u8>,
    a: Seq<Account>,
    b: Seq<Account>,
    acts: Seq<Action>,
) -> bool {
    let p = FundPoolView::decode(a[2].data@);
    &&& only_data_changed(a, b, set![0int, 1int, 2int])
    &&& b[0].data@ == overwrite(a[0].data@, investment_record(v, date).encode())
    &&& b[1].data@ == user_pool_registered(a[1].data@, v.address, v.investor)
    &&& b[2].data@ == overwrite(a[2].data@, invested_pool(v, date, p).encode())
    &&& acts == investment_actions(v, p, a, token_program_id)
}

/// Buys `token_count` tokens of a pool for `amount`, which must be exactly
/// `token_count` times the pool's ratio. On success the investment is
/// recorded in its own account and in the pool, the pool's remaining count
/// drops, the investor's index gains the record's address, and the transfers
/// to perform are returned. `date` is the host clock's reading.
pub fn add_investor(
    investor: Key,
    pool_address: Key,
    address: Key,
    amount: u64,
    token_address: Key,
    token_count: u64,
    date: i64,
    program_id: &Key,
    token_program_id: &Key,
    accounts: &mut Vec<Account>,
) -> (r: Result<Vec<Action>, ProcessError>)
    ensures
        ({
            let v = InvestmentView {
                investor: investor@,
                pool_address: pool_address@,
                address: address@,
                amount,
                token_address: token_address@,
                token_count,
            };
            match add_investor_error(v, old(accounts)@, program_id@) {
                Some(e) => r == Err::<Vec<Action>, ProcessError>(e) && final(accounts)@ == old(
                    accounts,
                )@,
                None => r matches Ok(acts) && add_investor_effect(
                    v,
                    date,
                    token_program_id@,
                    old(accounts)@,
                    final(accounts)@,
                    acts@,
                ),
            }
        }),
{
    let ghost v = InvestmentView {
        investor: investor@,
        pool_address: pool_address@,
        address: address@,
        amount,
        token_address: token_address@,
        token_count,
    };
    if accounts.len() < 9 {
        return Err(ProcessError::NotEnoughAccountKeys);
    }
    if !accounts[3].is_signer {
        return Err(ProcessError::MissingSignature);
    }
    if !accounts[0].owner.same_as(program_id) || !accounts[1].owner.same_as(program_id)
        || !accounts[2].owner.same_as(program_id) {
        return Err(ProcessError::IncorrectOwner);
    }
    let mut pool = match FundPool::unpack_unchecked(accounts[2].data.as_slice()) {
        Ok(p) => p,
        Err(e) => return Err(e),
    };
    let ghost p = pool@;
    if !pool.is_initialized {
        return Err(ProcessError::Custom(PoolError::ObjectNotInitialized));
    }
    if !pool.address.same_as(&pool_address) {
        return Err(ProcessError::Custom(PoolError::UnmatchedPoolAddress));
    }
    if !accounts[0].key.same_as(&address) {
        return Err(ProcessError::Custom(PoolError::UnmatchedInvestorAccountAddress));
    }
    match pool.token_to_lamport_ratio.checked_mul(token_count) {
        Some(price) => {
            if price != amount {
                return Err(ProcessError::Custom(PoolError::AmountsUnmatched));
            }
        },
        None => {
            return Err(ProcessError::Custom(PoolError::AmountsUnmatched));
        },
    }
    if pool.fee_in_lamports > 0 {
        if accounts.len() < 10 {
            return Err(ProcessError::NotEnoughAccountKeys);
        }
        if !accounts[9].key.same_as(&pool.manager) {
            return Err(ProcessError::Custom(PoolError::InvalidManagerAccount));
        }
    }
    if token_count > pool.rm_token_count {
        return Err(ProcessError::ArithmeticOverflow);
    }
    let mut record = Investor::new(date);
    record.investor = investor;
    record.amount = amount;
    record.token_count = token_count;
    record.address = address;
    record.pool_address = pool_address;
    record.token_address = token_address;
    pool.rm_token_count = pool.rm_token_count - token_count;
    match pool.register_investor(record) {
        Ok(_) => {},
        Err(e) => return Err(ProcessError::Custom(e)),
    }
    if accounts[0].data.len() < INVESTOR_LEN {
        return Err(ProcessError::InvalidAccountData);
    }
    let ghost a = accounts@;
    let mut acts: Vec<Action> = Vec::new();
    acts.push(Action::Transfer { from: accounts[3].key, to: accounts[2].key, lamports: amount });
    if pool.fee_in_lamports > 0 {
        acts.push(
            Action::Transfer {
                from: accounts[3].key,
                to: accounts[9].key,
                lamports: pool.fee_in_lamports,
            },
        );
    }
    if accounts[5].owner.same_as(token_program_id) {
        acts.push(
            Action::TokenPayout {
                source: accounts[5].key,
                destination: accounts[6].key,
                amount: token_count,
            },
        );
    }
    proof {
        assert(acts@ =~= investment_actions(v, p, a, token_program_id@));
        assert(record@ == investment_record(v, date));
        assert(pool@ == invested_pool(v, date, p));
    }
    let record_bytes = record.encode();
    write_prefix(accounts, 0, &record_bytes);
    let pool_bytes = pool.encode();
    write_prefix(accounts, 2, &pool_bytes);
    register_address_to_user_pool(accounts, 1, address, investor);
    Ok(acts)
}

/// What processing an instruction with the handlers above does: a decode
/// failure leaves everything as it was; otherwise the handler's first failed
/// check is the error, and when none fails its effect takes place.
pub open spec fn process_post(
    s: Seq<u8>,
    program_id: Seq<u8>,
    token_program_id: Seq<u8>,
    date: i64,
    a: Seq<Account>,
    b: Seq<Account>,
    r: Result<Vec<Action>, ProcessError>,
) -> bool {
    match decode_instruction(s) {
        Err(e) => r == Err::<Vec<Action>, ProcessError>(ProcessError::Custom(e)) && b == a,
        Ok(i) => {
            let err = match i {
                PoolInstructionView::CreateFundPool(_) => create_fund_pool_error(a, program_id),
                PoolInstructionView::UpdateFundPool(_) => update_fund_pool_error(a, program_id),
                PoolInstructionView::DeleteFundPool => delete_fund_pool_error(a, program_id),
                PoolInstructionView::AddInvestor {
                    investor,
                    pool_address,
                    address,
                    amount,
                    token_address,
                    token_count,
                } => add_investor_error(
                    InvestmentView {
                        investor,
                        pool_address,
                        address,
                        amount,
                        token_address,
                        token_count,
                    },
                    a,
                    program_id,
                ),
                PoolInstructionView::CreateMarket { .. } => create_market_error(a, program_id),
                PoolInstructionView::RegisterToMarket { .. } => market_edit_error(a, program_id),
                PoolInstructionView::DeleteFromMarket { .. } => market_edit_error(a, program_id),
            };
            match err {
                Some(e) => r == Err::<Vec<Action>, ProcessError>(e) && b == a,
                None => r matches Ok(acts) && match i {
                    PoolInstructionView::CreateFundPool(f) => create_fund_pool_effect(
                        f,
                        program_id,
                        token_program_id,
                        a,
                        b,
                        acts@,
                    ),
                    PoolInstructionView::UpdateFundPool(f) => acts@ == Seq::<Action>::empty()
                        && update_fund_pool_effect(f, a, b),
                    PoolInstructionView::DeleteFundPool => acts@ == Seq::<Action>::empty()
                        && delete_fund_pool_effect(program_id, a, b),
                    PoolInstructionView::AddInvestor {
                        investor,
                        pool_address,
                        address,
                        amount,
                        token_address,
                        token_count,
                    } => add_investor_effect(
                        InvestmentView {
                            investor,
                            pool_address,
                            address,
                            amount,
                            token_address,
                            token_count,
                        },
                        date,
                        token_program_id,
                        a,
                        b,
                        acts@,
                    ),
                    PoolInstructionView::CreateMarket { creator } => acts@ == Seq::<
                        Action,
                    >::empty() && create_market_effect(creator, a, b),
                    PoolInstructionView::RegisterToMarket { fund_pool } => acts@ == Seq::<
                        Action,
                    >::empty() && register_to_market_effect(fund_pool, a, b),
                    PoolInstructionView::DeleteFromMarket { fund_pool } => acts@ == Seq::<
                        Action,
                    >::empty() && delete_from_market_effect(fund_pool, a, b),
                },
            }
        },
    }
}

fn no_actions(r: Result<(), ProcessError>) -> (out: Result<Vec<Action>, ProcessError>)
    ensures
        match r {
            Ok(_) => out matches Ok(acts) && acts@ == Seq::<Action>::empty(),
            Err(e) => out == Err::<Vec<Action>, ProcessError>(e),
        },
{
    match r {
        Ok(_) => Ok(Vec::new()),
        Err(e) => Err(e),
    }
}

/// Decodes `input` and runs its handler over `accounts`. `program_id` is this
/// program's identity, `token_program_id` the token program's, and `date` the
/// host clock's reading. The returned transfers are for the host to perform;
/// on an error nothing is written.
pub fn process_instruction(
    program_id: &Key,
    token_program_id: &Key,
    accounts: &mut Vec<Account>,
    input: &[u8],
    date: i64,
) -> (r: Result<Vec<Action>, ProcessError>)
    ensures
        process_post(
            input@,
            program_id@,
            token_program_id@,
            date,
            old(accounts)@,
            final(accounts)@,
            r,
        ),
{
    let instruction = match PoolInstruction::unpack(input) {
        Ok(i) => i,
        Err(e) => return Err(ProcessError::Custom(e)),
    };
    match instruction {
        PoolInstruction::CreateFundPool {
            manager,
            address,
            token_address,
            lamports,
            token_count,
            token_to_lamport_ratio,
            is_finalized,
            icon,
        } => {
            let args = FundPoolArgs {
                manager,
                address,
                token_address,
                lamports,
                token_count,
                token_to_lamport_ratio,
                is_finalized,
                icon,
            };
            create_fund_pool(&args, program_id, token_program_id, accounts)
        },
        PoolInstruction::UpdateFundPool {
            manager,
            address,
            token_address,
            lamports,
            token_count,
            token_to_lamport_ratio,
            is_finalized,
            icon,
        } => {
            let args = FundPoolArgs {
                manager,
                address,
                token_address,
                lamports,
                token_count,
                token_to_lamport_ratio,
                is_finalized,
                icon,
            };
            match update_fund_pool(&args, program_id, accounts) {
                Ok(_) => Ok(Vec::new()),
                Err(e) => Err(e),
            }
        },
        PoolInstruction::DeleteFundPool => no_actions(delete_fund_pool(program_id, accounts)),
        PoolInstruction::AddInvestor {
            investor,
            pool_address,
            address,
            amount,
            token_address,
            token_count,
        } => add_investor(
            investor,
            pool_address,
            address,
            amount,
            token_address,
            token_count,
            date,
            program_id,
            token_program_id,
            accounts,
        ),
        PoolInstruction::CreateMarket { creator } => no_actions(
            create_market(creator, program_id, accounts),
        ),
        PoolInstruction::RegisterToMarket { fund_pool } => no_actions(
            register_to_market(fund_pool, program_id, accounts),
        ),
        PoolInstruction::DeleteFromMarket { fund_pool } => no_actions(
            delete_from_market(fund_pool, program_id, accounts),
        ),
    }
}

/// An investment whose amount is not exactly the token count times the
/// pool's ratio fails as unmatched once the accounts are in order, and then
/// nothing is written: the pool is unchanged and no investor record is made.
pub proof fn lemma_unmatched_amount_refused(
    s: Seq<u8>,
    v: InvestmentView,
    program_id: Seq<u8>,
    token_program_id: Seq<u8>,
    date: i64,
    a: Seq<Account>,
    b: Seq<Account>,
    r: Result<Vec<Action>, ProcessError>,
)
    requires
        decode_instruction(s) == Ok::<PoolInstructionView, PoolError>(
            PoolInstructionView::AddInvestor {
                investor: v.investor,
                pool_address: v.pool_address,
                address: v.address,
                amount: v.amount,
                token_address: v.token_address,
                token_count: v.token_count,
            },
        ),
        a.len() >= 9,
        a[3].is_signer,
        owned_by(a[0], program_id),
        owned_by(a[1], program_id),
        owned_by(a[2], program_id),
        FundPoolView::decodable(a[2].data@),
        FundPoolView::decode(a[2].data@).is_initialized,
        FundPoolView::decode(a[2].data@).address == v.pool_address,
        a[0].key@ == v.address,
        FundPoolView::decode(a[2].data@).token_to_lamport_ratio * v.token_count != v.amount,
        process_post(s, program_id, token_program_id, date, a, b, r),
    ensures
        r == Err::<Vec<Action>, ProcessError>(ProcessError::Custom(PoolError::AmountsUnmatched)),
        b == a,
{
}

/// An update whose claimed manager is not the stored one succeeds and leaves
/// every account byte for byte as it was.
pub proof fn lemma_update_by_other_manager_ignored(
    s: Seq<u8>,
    f: FundPoolArgsView,
    program_id: Seq<u8>,
    token_program_id: Seq<u8>,
    date: i64,
    a: Seq<Account>,
    b: Seq<Account>,
    r: Result<Vec<Action>, ProcessError>,
)
    requires
        decode_instruction(s) == Ok::<PoolInstructionView, PoolError>(
            PoolInstructionView::UpdateFundPool(f),
        ),
        update_fund_pool_error(a, program_id) is None,
        FundPoolView::decode(a[0].data@).manager != f.manager,
        process_post(s, program_id, token_program_id, date, a, b, r),
    ensures
        r is Ok,
        b == a,
{
}

/// After a deletion succeeds the pool's account is all zeros, and reading it
/// back without the initialization check gives a pool that is not initialized.
pub proof fn lemma_deleted_pool_uninitialized(
    s: Seq<u8>,
    program_id: Seq<u8>,
    token_program_id: Seq<u8>,
    date: i64,
    a: Seq<Account>,
    b: Seq<Account>,
    r: Result<Vec<Action>, ProcessError>,
)
    requires
        decode_instruction(s) == Ok::<PoolInstructionView, PoolError>(
            PoolInstructionView::DeleteFundPool,
        ),
        process_post(s, program_id, token_program_id, date, a, b, r),
        r is Ok,
    ensures
        b[0].data@ == zeros(b[0].data@.len()),
        FundPoolView::decodable(b[0].data@),
        !FundPoolView::decode(b[0].data@).is_initialized,
{
    let d = b[0].data@;
    assert(d[0] == 0u8);
    assert(d[129] == 0u8);
    assert(d[132] == 0u8);
    assert(d[133] == 0u8);
}

} // verus!
