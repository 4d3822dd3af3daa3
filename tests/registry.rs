use fund_pool::pool::FUND_POOL_INVESTOR_LIMIT;
use fund_pool::registry::{POOL_MARKET_SIZE_LIMIT, USER_POOL_SIZE_LIMIT};
use fund_pool::{FundPool, FundPoolInvestor, Investor, Key, Market, PoolError, UserPool};

fn key(b: u8) -> Key {
    Key::new_from_array([b; 32])
}

fn wide_key(n: usize) -> Key {
    let mut a = [0u8; 32];
    a[0] = (n % 256) as u8;
    a[1] = (n / 256) as u8;
    a[31] = 0x5A;
    Key::new_from_array(a)
}

#[test]
fn user_pool_add_beyond_capacity_is_ignored() {
    let mut u = UserPool::new();
    for n in 0..USER_POOL_SIZE_LIMIT {
        u.add_address(wide_key(n));
    }
    assert_eq!(u.len(), USER_POOL_SIZE_LIMIT);
    let before = u.all();
    u.add_address(wide_key(USER_POOL_SIZE_LIMIT));
    assert_eq!(u.len(), USER_POOL_SIZE_LIMIT);
    assert_eq!(u.all(), before);
}

#[test]
fn market_add_beyond_capacity_is_ignored() {
    let mut m = Market::new();
    for n in 0..POOL_MARKET_SIZE_LIMIT {
        m.add_fund_pool(wide_key(n));
    }
    assert_eq!(m.len(), POOL_MARKET_SIZE_LIMIT);
    let before = m.all();
    m.add_fund_pool(wide_key(POOL_MARKET_SIZE_LIMIT));
    assert_eq!(m.len(), POOL_MARKET_SIZE_LIMIT);
    assert_eq!(m.pool_size(), POOL_MARKET_SIZE_LIMIT as u16);
    assert_eq!(m.all(), before);
}

#[test]
fn adding_twice_equals_adding_once() {
    let mut u = UserPool::new();
    u.add_address(key(1));
    u.add_address(key(2));
    u.add_address(key(2));
    assert_eq!(u.all(), vec![key(1), key(2)]);
    let mut m = Market::new();
    m.add_fund_pool(key(3));
    m.add_fund_pool(key(3));
    assert_eq!(m.all(), vec![key(3)]);
    assert_eq!(m.pool_size(), 1);
}

#[test]
fn removing_absent_key_is_noop() {
    let mut u = UserPool::new();
    u.add_address(key(1));
    u.remove_address(key(9));
    assert_eq!(u.all(), vec![key(1)]);
    let mut m = Market::new();
    m.add_fund_pool(key(1));
    m.remove_fund_pool(key(9));
    assert_eq!(m.all(), vec![key(1)]);
    assert_eq!(m.pool_size(), 1);
}

#[test]
fn removal_keeps_order_of_survivors() {
    let mut u = UserPool::new();
    u.add_address(key(1));
    u.add_address(key(2));
    u.add_address(key(3));
    u.remove_address(key(2));
    assert_eq!(u.all(), vec![key(1), key(3)]);
    let mut m = Market::new();
    m.add_fund_pool(key(1));
    m.add_fund_pool(key(2));
    m.add_fund_pool(key(3));
    m.remove_fund_pool(key(1));
    assert_eq!(m.all(), vec![key(2), key(3)]);
    assert_eq!(m.pool_size(), 2);
}

#[test]
fn market_clear_empties_and_zeroes_size() {
    let mut m = Market::new();
    m.add_fund_pool(key(1));
    m.add_fund_pool(key(2));
    m.clear();
    assert_eq!(m.len(), 0);
    assert_eq!(m.pool_size(), 0);
}

#[test]
fn investor_limit_is_a_hard_error() {
    let mut p = FundPool::new(true);
    for n in 0..FUND_POOL_INVESTOR_LIMIT {
        let e = FundPoolInvestor { investor: key(1), address: wide_key(n), token_count: 1, date: 0 };
        assert_eq!(p.register_fund_pool_investor(e), Ok(true));
    }
    let extra = FundPoolInvestor { investor: key(1), address: key(0xEE), token_count: 1, date: 0 };
    assert_eq!(p.register_fund_pool_investor(extra), Err(PoolError::MaxInvestorReached));
    assert_eq!(p.investor_count(), FUND_POOL_INVESTOR_LIMIT);
}

#[test]
fn same_address_is_the_same_investor() {
    let mut p = FundPool::new(true);
    let mut i = Investor::new(100);
    i.investor = key(1);
    i.address = key(2);
    i.token_count = 5;
    assert_eq!(p.register_investor(i), Ok(true));
    let mut j = i;
    j.investor = key(3);
    j.token_count = 6;
    assert_eq!(p.register_investor(j), Err(PoolError::InvestorAlreadyExists));
    assert_eq!(p.investor_count(), 1);
    let a = FundPoolInvestor { investor: key(1), address: key(2), token_count: 1, date: 1 };
    let b = FundPoolInvestor { investor: key(4), address: key(2), token_count: 9, date: 9 };
    assert!(a == b);
}

#[test]
fn withdrawers_deduplicate_and_cap() {
    let mut p = FundPool::new(true);
    let w = FundPoolInvestor { investor: key(1), address: key(2), token_count: 1, date: 1 };
    assert!(p.register_withdrawer(w));
    assert!(!p.register_withdrawer(w));
    assert_eq!(p.withdrawer_count(), 1);
}
