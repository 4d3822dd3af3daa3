use fund_pool::investor::INVESTOR_LEN;
use fund_pool::pool::FUND_POOL_LEN;
use fund_pool::processor::{create_fund_pool, delete_fund_pool, update_fund_pool};
use fund_pool::instruction::FundPoolArgs;
use fund_pool::registry::{MARKET_LEN, USER_POOL_LEN};
use fund_pool::{
    process_instruction, Account, Action, FundPool, Investor, Key, Market, PoolError,
    PoolInstruction, ProcessError, UpdateOutcome, UserPool,
};

const NOW: i64 = 1_650_000_000;

fn key(b: u8) -> Key {
    Key::new_from_array([b; 32])
}

fn program() -> Key {
    key(0xF0)
}

fn token_program() -> Key {
    key(0xF1)
}

fn acct(k: Key, owner: Key, signer: bool, len: usize) -> Account {
    Account { key: k, owner, is_signer: signer, data: vec![0u8; len] }
}

fn pool_ix(action: u8, manager: Key, address: Key, fee: u64, count: u64, ratio: u64, fin: bool) -> Vec<u8> {
    let mut v = vec![1u8, action];
    v.extend_from_slice(&manager.bytes);
    v.extend_from_slice(&address.bytes);
    v.extend_from_slice(&key(0x77).bytes);
    v.extend_from_slice(&fee.to_le_bytes());
    v.extend_from_slice(&count.to_le_bytes());
    v.extend_from_slice(&ratio.to_le_bytes());
    v.push(if fin { 1 } else { 0 });
    v.extend_from_slice(&9u16.to_le_bytes());
    v
}

fn invest_ix(investor: Key, pool_address: Key, address: Key, amount: u64, count: u64) -> Vec<u8> {
    let mut v = vec![2u8, 1];
    v.extend_from_slice(&investor.bytes);
    v.extend_from_slice(&pool_address.bytes);
    v.extend_from_slice(&address.bytes);
    v.extend_from_slice(&key(0x66).bytes);
    v.extend_from_slice(&amount.to_le_bytes());
    v.extend_from_slice(&count.to_le_bytes());
    v
}

fn market_ix(action: u8, k: Key) -> Vec<u8> {
    let mut v = vec![3u8, action];
    v.extend_from_slice(&k.bytes);
    v
}

const M: u8 = 0x4D;
const A: u8 = 0x41;
const INVESTOR: u8 = 0x49;
const RECORD: u8 = 0x52;

/// Accounts of a pool creation: pool, manager index, market, signer, mint,
/// token account, token program.
fn create_accounts() -> Vec<Account> {
    vec![
        acct(key(A), program(), false, FUND_POOL_LEN),
        acct(key(0x10), program(), false, USER_POOL_LEN),
        acct(key(0x11), program(), false, MARKET_LEN),
        acct(key(M), key(0), true, 0),
        acct(key(0x12), key(0), false, 0),
        acct(key(0x13), key(0), false, 0),
        acct(token_program(), key(0), false, 0),
    ]
}

/// A pool created by M at A with 1000 tokens at ratio 5, and its accounts.
fn created_pool(fee: u64, fin: bool) -> Vec<Account> {
    let mut accounts = create_accounts();
    let r = process_instruction(&program(), &token_program(), &mut accounts, &pool_ix(1, key(M), key(A), fee, 1000, 5, fin), 0);
    assert!(r.unwrap().is_empty());
    accounts
}

/// Accounts of an investment in the pool `pool`: record, investor index,
/// pool, signer, system program, pool token account, investor token
/// account, token authority, token program.
fn invest_accounts(pool: &Account) -> Vec<Account> {
    vec![
        acct(key(RECORD), program(), false, INVESTOR_LEN),
        acct(key(0x20), program(), false, USER_POOL_LEN),
        Account { key: pool.key, owner: pool.owner, is_signer: false, data: pool.data.clone() },
        acct(key(INVESTOR), key(0), true, 0),
        acct(key(0x21), key(0), false, 0),
        acct(key(0x22), token_program(), false, 0),
        acct(key(0x23), key(0), false, 0),
        acct(key(0x24), key(0), false, 0),
        acct(token_program(), key(0), false, 0),
    ]
}

#[test]
fn invest_scenario_succeeds() {
    let created = created_pool(0, false);
    let mut accounts = invest_accounts(&created[0]);
    let r = process_instruction(&program(), &token_program(), &mut accounts, &invest_ix(key(INVESTOR), key(A), key(RECORD), 50, 10), NOW);
    let acts = r.unwrap();
    assert_eq!(acts.len(), 2);
    assert!(matches!(acts[0], Action::Transfer { from, to, lamports: 50 } if from == key(INVESTOR) && to == key(A)));
    assert!(matches!(acts[1], Action::TokenPayout { source, destination, amount: 10 } if source == key(0x22) && destination == key(0x23)));
    let pool = FundPool::unpack(&accounts[2].data).unwrap();
    assert_eq!(pool.token_count, 1000);
    assert_eq!(pool.rm_token_count, 990);
    assert_eq!(pool.investor_count(), 1);
    assert_eq!(pool.investors()[0].date, NOW);
    assert_eq!(pool.investors()[0].address, key(RECORD));
    let rec = Investor::unpack_unchecked(&accounts[0].data).unwrap();
    assert_eq!(rec.investor, key(INVESTOR));
    assert_eq!(rec.pool_address, key(A));
    assert_eq!(rec.address, key(RECORD));
    assert_eq!(rec.amount, 50);
    assert_eq!(rec.token_count, 10);
    assert_eq!(rec.date, NOW);
    let index = UserPool::unpack_unchecked(&accounts[1].data).unwrap();
    assert_eq!(index.user, key(INVESTOR));
    assert_eq!(index.all(), vec![key(RECORD)]);
}

#[test]
fn invest_with_wrong_amount_fails() {
    let created = created_pool(0, false);
    let mut accounts = invest_accounts(&created[0]);
    let before: Vec<Vec<u8>> = accounts.iter().map(|a| a.data.clone()).collect();
    let r = process_instruction(&program(), &token_program(), &mut accounts, &invest_ix(key(INVESTOR), key(A), key(RECORD), 49, 10), NOW);
    assert_eq!(r.unwrap_err(), ProcessError::Custom(PoolError::AmountsUnmatched));
    let after: Vec<Vec<u8>> = accounts.iter().map(|a| a.data.clone()).collect();
    assert_eq!(before, after);
    let pool = FundPool::unpack(&accounts[2].data).unwrap();
    assert_eq!(pool.rm_token_count, 1000);
    assert_eq!(pool.investor_count(), 0);
    assert_eq!(accounts[0].data, vec![0u8; INVESTOR_LEN]);
}

#[test]
fn invest_overflowing_price_is_unmatched() {
    let created = created_pool(0, false);
    let mut accounts = invest_accounts(&created[0]);
    let r = process_instruction(&program(), &token_program(), &mut accounts, &invest_ix(key(INVESTOR), key(A), key(RECORD), 0, u64::MAX), NOW);
    assert_eq!(r.unwrap_err(), ProcessError::Custom(PoolError::AmountsUnmatched));
}

#[test]
fn invest_pays_manager_fee() {
    let created = created_pool(7, false);
    let mut accounts = invest_accounts(&created[0]);
    accounts.push(acct(key(M), key(0), false, 0));
    let acts = process_instruction(&program(), &token_program(), &mut accounts, &invest_ix(key(INVESTOR), key(A), key(RECORD), 50, 10), NOW).unwrap();
    assert_eq!(acts.len(), 3);
    assert!(matches!(acts[1], Action::Transfer { from, to, lamports: 7 } if from == key(INVESTOR) && to == key(M)));
}

#[test]
fn invest_fee_needs_the_manager_account() {
    let created = created_pool(7, false);
    let mut accounts = invest_accounts(&created[0]);
    let r = process_instruction(&program(), &token_program(), &mut accounts, &invest_ix(key(INVESTOR), key(A), key(RECORD), 50, 10), NOW);
    assert_eq!(r.unwrap_err(), ProcessError::NotEnoughAccountKeys);
    accounts.push(acct(key(0x99), key(0), false, 0));
    let r = process_instruction(&program(), &token_program(), &mut accounts, &invest_ix(key(INVESTOR), key(A), key(RECORD), 50, 10), NOW);
    assert_eq!(r.unwrap_err(), ProcessError::Custom(PoolError::InvalidManagerAccount));
}

#[test]
fn invest_checks_pool_and_record_addresses() {
    let created = created_pool(0, false);
    let mut accounts = invest_accounts(&created[0]);
    let r = process_instruction(&program(), &token_program(), &mut accounts, &invest_ix(key(INVESTOR), key(0x01), key(RECORD), 50, 10), NOW);
    assert_eq!(r.unwrap_err(), ProcessError::Custom(PoolError::UnmatchedPoolAddress));
    let r = process_instruction(&program(), &token_program(), &mut accounts, &invest_ix(key(INVESTOR), key(A), key(0x02), 50, 10), NOW);
    assert_eq!(r.unwrap_err(), ProcessError::Custom(PoolError::UnmatchedInvestorAccountAddress));
}

#[test]
fn invest_twice_with_same_record_fails() {
    let created = created_pool(0, false);
    let mut accounts = invest_accounts(&created[0]);
    let ix = invest_ix(key(INVESTOR), key(A), key(RECORD), 50, 10);
    process_instruction(&program(), &token_program(), &mut accounts, &ix, NOW).unwrap();
    let r = process_instruction(&program(), &token_program(), &mut accounts, &ix, NOW);
    assert_eq!(r.unwrap_err(), ProcessError::Custom(PoolError::InvestorAlreadyExists));
}

#[test]
fn invest_more_than_remaining_fails() {
    let created = created_pool(0, false);
    let mut accounts = invest_accounts(&created[0]);
    let r = process_instruction(&program(), &token_program(), &mut accounts, &invest_ix(key(INVESTOR), key(A), key(RECORD), 5005, 1001), NOW);
    assert_eq!(r.unwrap_err(), ProcessError::ArithmeticOverflow);
}

#[test]
fn invest_in_uninitialized_pool_fails() {
    let blank = acct(key(A), program(), false, FUND_POOL_LEN);
    let mut accounts = invest_accounts(&blank);
    let r = process_instruction(&program(), &token_program(), &mut accounts, &invest_ix(key(INVESTOR), key(A), key(RECORD), 0, 10), NOW);
    assert_eq!(r.unwrap_err(), ProcessError::Custom(PoolError::ObjectNotInitialized));
}

#[test]
fn invest_requires_signer_and_ownership() {
    let created = created_pool(0, false);
    let mut accounts = invest_accounts(&created[0]);
    accounts[3].is_signer = false;
    let ix = invest_ix(key(INVESTOR), key(A), key(RECORD), 50, 10);
    assert_eq!(process_instruction(&program(), &token_program(), &mut accounts, &ix, NOW).unwrap_err(), ProcessError::MissingSignature);
    accounts[3].is_signer = true;
    accounts[1].owner = key(0);
    assert_eq!(process_instruction(&program(), &token_program(), &mut accounts, &ix, NOW).unwrap_err(), ProcessError::IncorrectOwner);
    accounts.truncate(8);
    assert_eq!(process_instruction(&program(), &token_program(), &mut accounts, &ix, NOW).unwrap_err(), ProcessError::NotEnoughAccountKeys);
}

#[test]
fn create_registers_in_index_and_market() {
    let accounts = created_pool(0, true);
    let pool = FundPool::unpack(&accounts[0].data).unwrap();
    assert_eq!(pool.manager, key(M));
    assert_eq!(pool.address, key(A));
    assert_eq!(pool.token_address, key(0x77));
    assert_eq!(pool.rm_token_count, 1000);
    assert_eq!(pool.icon, 9);
    let index = UserPool::unpack_unchecked(&accounts[1].data).unwrap();
    assert_eq!(index.user, key(M));
    assert_eq!(index.all(), vec![key(A)]);
    let market = Market::unpack_unchecked(&accounts[2].data).unwrap();
    assert_eq!(market.all(), vec![key(A)]);
    let unlisted = created_pool(0, false);
    let market = Market::unpack_unchecked(&unlisted[2].data).unwrap();
    assert_eq!(market.len(), 0);
}

#[test]
fn create_mints_when_token_account_belongs_to_token_program() {
    let mut accounts = create_accounts();
    accounts[5].owner = token_program();
    let args = FundPoolArgs { manager: key(M), address: key(A), token_address: key(0x77), lamports: 0, token_count: 1000, token_to_lamport_ratio: 5, is_finalized: false, icon: 0 };
    let acts = create_fund_pool(&args, &program(), &token_program(), &mut accounts).unwrap();
    assert_eq!(acts.len(), 1);
    assert!(matches!(acts[0], Action::MintTo { mint, account, authority, amount: 1000 } if mint == key(0x12) && account == key(0x13) && authority == key(M)));
}

#[test]
fn create_twice_fails() {
    let mut accounts = created_pool(0, false);
    let r = process_instruction(&program(), &token_program(), &mut accounts, &pool_ix(1, key(M), key(A), 0, 1000, 5, false), 0);
    assert_eq!(r.unwrap_err(), ProcessError::Custom(PoolError::ObjectAlreadyCreated));
}

#[test]
fn create_checks_signer_owner_and_size() {
    let ix = pool_ix(1, key(M), key(A), 0, 1000, 5, false);
    let mut accounts = create_accounts();
    accounts[3].is_signer = false;
    assert_eq!(process_instruction(&program(), &token_program(), &mut accounts, &ix, 0).unwrap_err(), ProcessError::MissingSignature);
    let mut accounts = create_accounts();
    accounts[0].owner = key(0);
    assert_eq!(process_instruction(&program(), &token_program(), &mut accounts, &ix, 0).unwrap_err(), ProcessError::IncorrectOwner);
    let mut accounts = create_accounts();
    accounts[0].data = vec![0u8; 10];
    assert_eq!(process_instruction(&program(), &token_program(), &mut accounts, &ix, 0).unwrap_err(), ProcessError::InvalidAccountData);
}

#[test]
fn update_by_other_manager_changes_nothing() {
    let mut accounts = created_pool(0, false);
    let before = accounts[0].data.clone();
    let args = FundPoolArgs { manager: key(0x01), address: key(A), token_address: key(0), lamports: 1, token_count: 5, token_to_lamport_ratio: 6, is_finalized: true, icon: 1 };
    assert_eq!(update_fund_pool(&args, &program(), &mut accounts), Ok(UpdateOutcome::Skipped));
    assert_eq!(accounts[0].data, before);
    let r = process_instruction(&program(), &token_program(), &mut accounts, &pool_ix(2, key(0x01), key(A), 1, 5, 6, true), 0);
    assert!(r.unwrap().is_empty());
    assert_eq!(accounts[0].data, before);
}

#[test]
fn update_by_manager_applies() {
    let mut accounts = created_pool(0, false);
    let args = FundPoolArgs { manager: key(M), address: key(A), token_address: key(0), lamports: 3, token_count: 2000, token_to_lamport_ratio: 6, is_finalized: true, icon: 4 };
    assert_eq!(update_fund_pool(&args, &program(), &mut accounts), Ok(UpdateOutcome::Applied));
    let pool = FundPool::unpack(&accounts[0].data).unwrap();
    assert_eq!(pool.token_count, 2000);
    assert_eq!(pool.rm_token_count, 1000);
    assert_eq!(pool.token_to_lamport_ratio, 6);
    assert_eq!(pool.fee_in_lamports, 3);
    assert!(pool.is_finalized);
    assert_eq!(pool.icon, 4);
    assert_eq!(pool.token_address, key(0x77));
}

#[test]
fn update_of_missing_pool_fails() {
    let mut accounts = vec![acct(key(A), program(), false, FUND_POOL_LEN)];
    let args = FundPoolArgs { manager: key(0), address: key(0), token_address: key(0), lamports: 0, token_count: 0, token_to_lamport_ratio: 0, is_finalized: false, icon: 0 };
    assert_eq!(update_fund_pool(&args, &program(), &mut accounts), Err(ProcessError::InvalidAccountData));
}

#[test]
fn delete_zero_fills_and_unregisters() {
    let mut accounts = created_pool(0, true);
    accounts[0].data.push(0xAB);
    let r = process_instruction(&program(), &token_program(), &mut accounts, &[1u8, 44], 0);
    assert!(r.unwrap().is_empty());
    assert_eq!(accounts[0].data, vec![0u8; FUND_POOL_LEN + 1]);
    let p = FundPool::unpack_unchecked(&accounts[0].data).unwrap();
    assert!(!p.is_initialized);
    assert_eq!(UserPool::unpack_unchecked(&accounts[1].data).unwrap().len(), 0);
    assert_eq!(Market::unpack_unchecked(&accounts[2].data).unwrap().len(), 0);
    assert_eq!(delete_fund_pool(&program(), &mut accounts), Err(ProcessError::InvalidAccountData));
}

#[test]
fn market_lifecycle() {
    let creator = key(0xC0);
    let mut accounts = vec![acct(key(0x30), program(), false, MARKET_LEN), acct(creator, key(0), true, 0)];
    process_instruction(&program(), &token_program(), &mut accounts, &market_ix(1, creator), 0).unwrap();
    let r = process_instruction(&program(), &token_program(), &mut accounts, &market_ix(1, creator), 0);
    assert_eq!(r.unwrap_err(), ProcessError::Custom(PoolError::ObjectAlreadyCreated));
    process_instruction(&program(), &token_program(), &mut accounts, &market_ix(3, key(1)), 0).unwrap();
    process_instruction(&program(), &token_program(), &mut accounts, &market_ix(3, key(2)), 0).unwrap();
    let m = Market::unpack_unchecked(&accounts[0].data).unwrap();
    assert_eq!(m.creator, creator);
    assert_eq!(m.all(), vec![key(1), key(2)]);
    process_instruction(&program(), &token_program(), &mut accounts, &market_ix(44, key(1)), 0).unwrap();
    let m = Market::unpack_unchecked(&accounts[0].data).unwrap();
    assert_eq!(m.all(), vec![key(2)]);
    accounts[1].key = key(0xC1);
    let r = process_instruction(&program(), &token_program(), &mut accounts, &market_ix(3, key(5)), 0);
    assert_eq!(r.unwrap_err(), ProcessError::Custom(PoolError::UnmatchedCreator));
}

#[test]
fn decoder_rejects_bad_input() {
    assert_eq!(PoolInstruction::unpack(&[]).unwrap_err(), PoolError::InvalidModule);
    assert_eq!(PoolInstruction::unpack(&[9, 1]).unwrap_err(), PoolError::InvalidModule);
    assert_eq!(PoolInstruction::unpack(&[1]).unwrap_err(), PoolError::InvalidInstruction);
    assert_eq!(PoolInstruction::unpack(&[1, 9]).unwrap_err(), PoolError::InvalidAction);
    assert_eq!(PoolInstruction::unpack(&[2, 2]).unwrap_err(), PoolError::InvalidAction);
    assert_eq!(PoolInstruction::unpack(&[3, 2, 0]).unwrap_err(), PoolError::InvalidAction);
    assert_eq!(PoolInstruction::unpack(&[1, 1, 0, 0]).unwrap_err(), PoolError::InvalidInstruction);
    assert_eq!(PoolInstruction::unpack(&[3, 3, 0]).unwrap_err(), PoolError::InvalidInstruction);
    let mut bad_flag = pool_ix(1, key(M), key(A), 0, 1, 1, false);
    bad_flag[2 + 120] = 2;
    assert_eq!(PoolInstruction::unpack(&bad_flag).unwrap_err(), PoolError::InvalidInstruction);
    let mut accounts = create_accounts();
    let r = process_instruction(&program(), &token_program(), &mut accounts, &[7u8], 0);
    assert_eq!(r.unwrap_err(), ProcessError::Custom(PoolError::InvalidModule));
}

#[test]
fn decoder_reads_arguments() {
    let ix = pool_ix(2, key(M), key(A), 11, 22, 33, true);
    match PoolInstruction::unpack(&ix).unwrap() {
        PoolInstruction::UpdateFundPool { manager, address, token_address, lamports, token_count, token_to_lamport_ratio, is_finalized, icon } => {
            assert_eq!(manager, key(M));
            assert_eq!(address, key(A));
            assert_eq!(token_address, key(0x77));
            assert_eq!((lamports, token_count, token_to_lamport_ratio), (11, 22, 33));
            assert!(is_finalized);
            assert_eq!(icon, 9);
        }
        other => panic!("unexpected {:?}", other),
    }
    match PoolInstruction::unpack(&invest_ix(key(1), key(2), key(3), 50, 10)).unwrap() {
        PoolInstruction::AddInvestor { investor, pool_address, address, amount, token_address, token_count } => {
            assert_eq!((investor, pool_address, address, token_address), (key(1), key(2), key(3), key(0x66)));
            assert_eq!((amount, token_count), (50, 10));
        }
        other => panic!("unexpected {:?}", other),
    }
    assert!(matches!(PoolInstruction::unpack(&[1, 44]).unwrap(), PoolInstruction::DeleteFundPool));
    assert!(matches!(PoolInstruction::unpack(&market_ix(44, key(5))).unwrap(), PoolInstruction::DeleteFromMarket { fund_pool } if fund_pool == key(5)));
}

#[test]
fn update_may_clear_the_finalized_flag() {
    let mut accounts = created_pool(0, true);
    let args = FundPoolArgs { manager: key(M), address: key(A), token_address: key(0), lamports: 0, token_count: 1000, token_to_lamport_ratio: 5, is_finalized: false, icon: 9 };
    assert_eq!(update_fund_pool(&args, &program(), &mut accounts), Ok(UpdateOutcome::Applied));
    let pool = FundPool::unpack(&accounts[0].data).unwrap();
    assert!(!pool.is_finalized);
}

#[test]
fn register_to_unreadable_market_is_skipped() {
    let creator = key(0xC0);
    let mut accounts = vec![acct(key(0x30), program(), false, MARKET_LEN), acct(creator, key(0), true, 0)];
    accounts[0].data[0] = 0xFF;
    let before = accounts[0].data.clone();
    process_instruction(&program(), &token_program(), &mut accounts, &market_ix(3, key(1)), 0).unwrap();
    assert_eq!(accounts[0].data, before);
}

#[test]
fn manager_index_of_another_user_is_left_alone() {
    let mut accounts = create_accounts();
    let mut other = UserPool::new();
    other.user = key(0x99);
    other.pack(&mut accounts[1].data).unwrap();
    let before = accounts[1].data.clone();
    process_instruction(&program(), &token_program(), &mut accounts, &pool_ix(1, key(M), key(A), 0, 1000, 5, false), 0).unwrap();
    assert_eq!(accounts[1].data, before);
}
