use fund_pool::codec::{pack_bool, unpack_bool};
use fund_pool::investor::INVESTOR_LEN;
use fund_pool::pool::{FUND_POOL_INVESTOR_LIMIT, FUND_POOL_LEN};
use fund_pool::registry::{MARKET_LEN, USER_POOL_LEN};
use fund_pool::{Counter, FundPool, FundPoolInvestor, Investor, Key, Market, PoolError, ProcessError, UserPool};

fn key(b: u8) -> Key {
    Key::new_from_array([b; 32])
}

fn entry(b: u8, tokens: u64, date: i64) -> FundPoolInvestor {
    FundPoolInvestor { investor: key(b), address: key(b.wrapping_add(100)), token_count: tokens, date }
}

#[test]
fn bool_bytes() {
    let mut b = [7u8; 1];
    pack_bool(true, &mut b);
    assert_eq!(b, [1u8]);
    pack_bool(false, &mut b);
    assert_eq!(b, [0u8]);
    assert_eq!(unpack_bool(&[0u8]), Ok(false));
    assert_eq!(unpack_bool(&[1u8]), Ok(true));
    assert_eq!(unpack_bool(&[2u8]), Err(ProcessError::InvalidAccountData));
}

#[test]
fn record_lengths() {
    assert_eq!(FUND_POOL_LEN, 16134);
    assert_eq!(INVESTOR_LEN, 152);
    assert_eq!(USER_POOL_LEN, 1633);
    assert_eq!(MARKET_LEN, 3234);
}

#[test]
fn error_codes_follow_declaration_order() {
    assert_eq!(PoolError::InvalidInstruction.code(), 0);
    assert_eq!(PoolError::AmountsUnmatched.code(), 10);
    assert_eq!(PoolError::ObjectNotInitialized.code(), 12);
}

#[test]
fn fund_pool_round_trip() {
    let mut p = FundPool::new(true);
    p.manager = key(1);
    p.address = key(2);
    p.token_address = key(3);
    p.fee_in_lamports = 0x0102030405060708;
    p.token_count = 1000;
    p.rm_token_count = 990;
    p.token_to_lamport_ratio = 5;
    p.is_finalized = true;
    p.icon = 0xBEEF;
    assert_eq!(p.register_fund_pool_investor(entry(9, 10, -5)), Ok(true));
    assert_eq!(p.register_fund_pool_investor(entry(10, 20, 1_700_000_000)), Ok(true));
    assert!(p.register_withdrawer(entry(11, 3, 42)));
    let mut buf = vec![0xAAu8; FUND_POOL_LEN + 3];
    p.pack(&mut buf).unwrap();
    // fixed fields at their offsets, little-endian
    assert_eq!(buf[0], 1);
    assert_eq!(&buf[1..33], &[1u8; 32]);
    assert_eq!(&buf[97..105], &[8, 7, 6, 5, 4, 3, 2, 1]);
    assert_eq!(buf[129], 1);
    assert_eq!(&buf[130..132], &[0xEF, 0xBE]);
    assert_eq!(buf[132], 2);
    assert_eq!(buf[133], 1);
    // first entry: address, then investor
    assert_eq!(&buf[134..166], &[109u8; 32]);
    assert_eq!(&buf[166..198], &[9u8; 32]);
    // the withdrawer region starts at its own offset 0
    assert_eq!(&buf[8134..8166], &[111u8; 32]);
    // unused slots are zeroed and trailing bytes kept
    assert_eq!(buf[134 + 160], 0);
    assert_eq!(&buf[FUND_POOL_LEN..], &[0xAA, 0xAA, 0xAA]);
    let q = FundPool::unpack(&buf).unwrap();
    assert!(q.is_initialized);
    assert_eq!(q.manager, key(1));
    assert_eq!(q.address, key(2));
    assert_eq!(q.token_address, key(3));
    assert_eq!(q.fee_in_lamports, 0x0102030405060708);
    assert_eq!(q.token_count, 1000);
    assert_eq!(q.rm_token_count, 990);
    assert_eq!(q.token_to_lamport_ratio, 5);
    assert!(q.is_finalized);
    assert_eq!(q.icon, 0xBEEF);
    assert_eq!(q.investor_count(), 2);
    assert_eq!(q.withdrawer_count(), 1);
    let inv = q.investors();
    assert_eq!(inv[0].investor, key(9));
    assert_eq!(inv[0].address, key(109));
    assert_eq!(inv[0].token_count, 10);
    assert_eq!(inv[0].date, -5);
    assert_eq!(inv[1].date, 1_700_000_000);
    let wd = q.withdrawers();
    assert_eq!(wd[0].token_count, 3);
    assert_eq!(wd[0].date, 42);
}

#[test]
fn fund_pool_short_buffer_refused() {
    let p = FundPool::new(true);
    let mut buf = vec![5u8; FUND_POOL_LEN - 1];
    assert_eq!(p.pack(&mut buf), Err(ProcessError::InvalidAccountData));
    assert_eq!(buf, vec![5u8; FUND_POOL_LEN - 1]);
    assert!(matches!(FundPool::unpack_unchecked(&buf), Err(ProcessError::InvalidAccountData)));
}

#[test]
fn fund_pool_bad_flag_byte_refused() {
    let mut buf = vec![0u8; FUND_POOL_LEN];
    buf[0] = 2;
    assert!(matches!(FundPool::unpack_unchecked(&buf), Err(ProcessError::InvalidAccountData)));
    buf[0] = 0;
    buf[129] = 7;
    assert!(matches!(FundPool::unpack_unchecked(&buf), Err(ProcessError::InvalidAccountData)));
}

#[test]
fn fund_pool_count_above_capacity_refused() {
    let mut buf = vec![0u8; FUND_POOL_LEN];
    buf[132] = (FUND_POOL_INVESTOR_LIMIT + 1) as u8;
    assert!(matches!(FundPool::unpack_unchecked(&buf), Err(ProcessError::InvalidAccountData)));
}

#[test]
fn zeroed_buffer_reads_uninitialized() {
    let buf = vec![0u8; FUND_POOL_LEN];
    let p = FundPool::unpack_unchecked(&buf).unwrap();
    assert!(!p.is_initialized());
    assert_eq!(p.investor_count(), 0);
    assert!(matches!(FundPool::unpack(&buf), Err(ProcessError::InvalidAccountData)));
}

#[test]
fn investor_round_trip() {
    let mut i = Investor::new(-1_234_567);
    i.investor = key(1);
    i.pool_address = key(2);
    i.address = key(3);
    i.amount = 50;
    i.token_address = key(4);
    i.token_count = 10;
    let mut buf = vec![0u8; INVESTOR_LEN];
    i.pack(&mut buf).unwrap();
    assert_eq!(&buf[96..104], &[50, 0, 0, 0, 0, 0, 0, 0]);
    assert_eq!(&buf[144..152], &(-1_234_567i64).to_le_bytes());
    let j = Investor::unpack_unchecked(&buf).unwrap();
    assert_eq!(j.investor, key(1));
    assert_eq!(j.pool_address, key(2));
    assert_eq!(j.address, key(3));
    assert_eq!(j.amount, 50);
    assert_eq!(j.token_address, key(4));
    assert_eq!(j.token_count, 10);
    assert_eq!(j.date, -1_234_567);
}

#[test]
fn user_pool_round_trip() {
    let mut u = UserPool::new();
    u.user = key(7);
    u.add_address(key(1));
    u.add_address(key(2));
    let mut buf = vec![0xFFu8; USER_POOL_LEN];
    u.pack(&mut buf).unwrap();
    assert_eq!(buf[32], 2);
    assert_eq!(buf[33 + 64], 0);
    let v = UserPool::unpack_unchecked(&buf).unwrap();
    assert_eq!(v.user, key(7));
    assert_eq!(v.all(), vec![key(1), key(2)]);
}

#[test]
fn user_pool_count_above_capacity_refused() {
    let mut buf = vec![0u8; USER_POOL_LEN];
    buf[32] = 51;
    assert!(matches!(UserPool::unpack_unchecked(&buf), Err(ProcessError::InvalidAccountData)));
}

#[test]
fn market_round_trip() {
    let mut m = Market::new();
    m.creator = key(8);
    m.add_fund_pool(key(1));
    m.add_fund_pool(key(2));
    m.add_fund_pool(key(3));
    let mut buf = vec![0u8; MARKET_LEN];
    m.pack(&mut buf).unwrap();
    assert_eq!(&buf[0..2], &[3, 0]);
    assert_eq!(&buf[3202..3234], &[8u8; 32]);
    let n = Market::unpack_unchecked(&buf).unwrap();
    assert_eq!(n.creator, key(8));
    assert_eq!(n.pool_size(), 3);
    assert_eq!(n.all(), vec![key(1), key(2), key(3)]);
}

#[test]
fn market_size_above_capacity_refused() {
    let mut buf = vec![0u8; MARKET_LEN];
    buf[0] = 101;
    assert!(matches!(Market::unpack_unchecked(&buf), Err(ProcessError::InvalidAccountData)));
}

#[test]
fn counter_saturates_and_round_trips() {
    let mut c = Counter::new();
    c.increment();
    assert_eq!(c.count, 1);
    c.count = u16::MAX - 1;
    c.increment();
    assert_eq!(c.count, u16::MAX);
    c.increment();
    assert_eq!(c.count, u16::MAX);
    let mut buf = vec![0u8; 4];
    c.count = 0x1234;
    c.pack(&mut buf).unwrap();
    assert_eq!(buf, vec![0x34, 0x12, 0, 0]);
    assert_eq!(Counter::unpack_unchecked(&buf).unwrap().count, 0x1234);
    assert_eq!(Counter::unpack_unchecked(&buf[..1]), Err(ProcessError::InvalidAccountData));
}
