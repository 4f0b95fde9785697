use raffle::{Identity, RaffleConfig, RaffleError, RafflePool, MAX_ENTRANTS};

fn id(tag: u8) -> Identity {
    let mut bytes = [0u8; 32];
    bytes[0] = tag;
    bytes[31] = 0xA5;
    Identity::new(bytes)
}

fn numbered(n: u64) -> Identity {
    let mut bytes = [0u8; 32];
    bytes[..8].copy_from_slice(&n.to_le_bytes());
    bytes[31] = 1;
    Identity::new(bytes)
}

fn config(max_entrants: u64) -> RaffleConfig {
    RaffleConfig {
        creator: id(200),
        nft_mint: id(201),
        no_repeat: false,
        max_entrants,
        start_timestamp: 1_000,
        end_timestamp: 2_000,
        ticket_price_booga: 5,
        ticket_price_zion: 7,
        ticket_price_sol: 11,
        whitelisted: false,
    }
}

#[test]
fn new_pool_has_no_entrants() {
    let pool = RafflePool::new(config(3)).unwrap();
    assert_eq!(pool.count(), 0);
    assert_eq!(pool.winner_count(), 0);
    assert_eq!(pool.entrant(0), None);
    assert_eq!(pool.max_entrants(), 3);
}

#[test]
fn new_pool_keeps_its_configuration() {
    let cfg = RaffleConfig { no_repeat: true, whitelisted: true, ..config(17) };
    let pool = RafflePool::new(cfg).unwrap();
    assert_eq!(pool.config(), cfg);
    assert_eq!(pool.creator(), id(200));
    assert_eq!(pool.nft_mint(), id(201));
    assert!(pool.no_repeat());
    assert!(pool.whitelisted());
    assert_eq!(pool.max_entrants(), 17);
    assert_eq!(pool.start_timestamp(), 1_000);
    assert_eq!(pool.end_timestamp(), 2_000);
    assert_eq!(pool.ticket_price_booga(), 5);
    assert_eq!(pool.ticket_price_zion(), 7);
    assert_eq!(pool.ticket_price_sol(), 11);
}

#[test]
fn new_refuses_cap_above_record_size() {
    let res = RafflePool::new(config(MAX_ENTRANTS as u64 + 1));
    assert_eq!(res, Err(RaffleError::CapacityExceeded));
    assert!(RafflePool::new(config(MAX_ENTRANTS as u64)).is_ok());
}

#[test]
fn new_refuses_window_that_ends_before_it_starts() {
    let cfg = RaffleConfig { start_timestamp: 10, end_timestamp: 9, ..config(3) };
    assert_eq!(RafflePool::new(cfg), Err(RaffleError::InvalidWindow));
    let instant = RaffleConfig { start_timestamp: 10, end_timestamp: 10, ..config(3) };
    assert!(RafflePool::new(instant).is_ok());
}

#[test]
fn new_looks_at_the_cap_before_the_window() {
    let cfg = RaffleConfig {
        start_timestamp: 10,
        end_timestamp: 9,
        ..config(MAX_ENTRANTS as u64 + 1)
    };
    assert_eq!(RafflePool::new(cfg), Err(RaffleError::CapacityExceeded));
}

#[test]
fn appends_are_recorded_in_order() {
    let mut pool = RafflePool::new(config(10)).unwrap();
    let buyers = [id(4), id(2), id(9), id(2), id(1)];
    for (calls, buyer) in buyers.iter().enumerate() {
        assert_eq!(pool.count(), calls as u64);
        assert_eq!(pool.append(*buyer), Ok(()));
    }
    assert_eq!(pool.count(), 5);
    for (position, buyer) in buyers.iter().enumerate() {
        assert_eq!(pool.entrant(position as u64), Some(*buyer));
    }
    assert_eq!(pool.entrant(5), None);
}

#[test]
fn same_identity_may_enter_twice() {
    let mut pool = RafflePool::new(config(2)).unwrap();
    assert_eq!(pool.append(id(1)), Ok(()));
    assert_eq!(pool.append(id(1)), Ok(()));
    assert_eq!(pool.count(), 2);
    assert_eq!(pool.entrant(0), pool.entrant(1));
}

#[test]
fn append_at_capacity_fails_and_changes_nothing() {
    let mut pool = RafflePool::new(config(2)).unwrap();
    pool.append(id(1)).unwrap();
    pool.append(id(2)).unwrap();
    let before = pool;
    assert_eq!(pool.append(id(3)), Err(RaffleError::CapacityExceeded));
    assert_eq!(pool, before);
    assert_eq!(pool.count(), 2);
    assert_eq!(pool.entrant(0), Some(id(1)));
    assert_eq!(pool.entrant(1), Some(id(2)));
    assert_eq!(pool.entrant(2), None);
}

#[test]
fn fourth_append_after_three_fails() {
    let mut pool = RafflePool::new(config(3)).unwrap();
    pool.append(id(b'A')).unwrap();
    pool.append(id(b'B')).unwrap();
    pool.append(id(b'C')).unwrap();
    assert_eq!(pool.count(), 3);
    assert_eq!(pool.max_entrants(), 3);
    assert_eq!(pool.append(id(b'D')), Err(RaffleError::CapacityExceeded));
    assert_eq!(pool.count(), 3);
}

#[test]
fn pool_with_cap_zero_takes_nobody() {
    let mut pool = RafflePool::new(config(0)).unwrap();
    assert_eq!(pool.append(id(1)), Err(RaffleError::CapacityExceeded));
    assert_eq!(pool.count(), 0);
}

#[test]
fn record_fills_to_its_last_slot() {
    let cap = MAX_ENTRANTS as u64;
    let mut pool = RafflePool::new(config(cap)).unwrap();
    for n in 0..cap {
        assert_eq!(pool.append(numbered(n)), Ok(()));
    }
    assert_eq!(pool.count(), cap);
    assert_eq!(pool.entrant(0), Some(numbered(0)));
    assert_eq!(pool.entrant(cap - 1), Some(numbered(cap - 1)));
    assert_eq!(pool.entrant(cap), None);
    let before = pool;
    assert_eq!(pool.append(numbered(cap)), Err(RaffleError::CapacityExceeded));
    assert_eq!(pool, before);
}

#[test]
fn appends_touch_neither_winners_nor_claims() {
    let mut pool = RafflePool::new(config(5)).unwrap();
    pool.append(id(1)).unwrap();
    pool.append(id(2)).unwrap();
    pool.record_winners(&[1]).unwrap();
    pool.claim(0).unwrap();
    pool.append(id(3)).unwrap();
    assert_eq!(pool.winner_count(), 1);
    assert_eq!(pool.index(0), Some(1));
    assert_eq!(pool.winner(0), Some(id(2)));
    assert!(pool.is_claimed(0));
    assert_eq!(pool.count(), 3);
}

#[test]
fn window_includes_both_ends() {
    let pool = RafflePool::new(config(3)).unwrap();
    assert_eq!(pool.check_window(999), Err(RaffleError::InvalidWindow));
    assert_eq!(pool.check_window(1_000), Ok(()));
    assert_eq!(pool.check_window(1_500), Ok(()));
    assert_eq!(pool.check_window(2_000), Ok(()));
    assert_eq!(pool.check_window(2_001), Err(RaffleError::InvalidWindow));
    assert_eq!(pool.check_window(i64::MIN), Err(RaffleError::InvalidWindow));
    assert_eq!(pool.check_window(i64::MAX), Err(RaffleError::InvalidWindow));
}
