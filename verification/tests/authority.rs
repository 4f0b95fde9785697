use raffle::{GlobalPool, Identity, RaffleError, RafflePool, MAX_WINNERS};

fn id(tag: u8) -> Identity {
    let mut bytes = [0u8; 32];
    bytes[0] = tag;
    bytes[31] = 0xA5;
    Identity::new(bytes)
}

#[test]
fn default_identity_is_the_default_public_key() {
    let zero = Identity::default();
    assert_eq!(zero.to_bytes(), [0u8; 32]);
    assert_eq!(zero.to_bytes(), anchor_lang::prelude::Pubkey::default().to_bytes());
    assert_eq!(zero, Identity::new([0u8; 32]));
}

#[test]
fn zeros_are_all_zero() {
    let slots: [Identity; 7] = Identity::zeros();
    assert!(slots.iter().all(|slot| slot.to_bytes() == [0u8; 32]));
}

#[test]
fn identity_keeps_its_bytes() {
    let mut bytes = [0u8; 32];
    for (i, byte) in bytes.iter_mut().enumerate() {
        *byte = i as u8 * 3;
    }
    let identity = Identity::new(bytes);
    assert_eq!(identity.to_bytes(), bytes);
    assert_eq!(identity.bytes, bytes);
}

#[test]
fn identities_compare_byte_by_byte() {
    let mut bytes = [5u8; 32];
    let one = Identity::new(bytes);
    assert_eq!(one, Identity::new([5u8; 32]));
    bytes[31] = 6;
    assert_ne!(one, Identity::new(bytes));
    bytes[31] = 5;
    bytes[0] = 4;
    assert_ne!(one, Identity::new(bytes));
    bytes[0] = 5;
    bytes[16] = 0;
    assert_ne!(one, Identity::new(bytes));
}

#[test]
fn global_pool_reads_back_its_admin() {
    let pool = GlobalPool::new(id(1));
    assert_eq!(pool.super_admin(), id(1));
}

#[test]
fn default_global_pool_has_the_zero_admin() {
    assert_eq!(GlobalPool::default().super_admin(), Identity::default());
    assert_eq!(GlobalPool::default().super_admin().to_bytes(), [0u8; 32]);
}

#[test]
fn authorized_transfer_changes_the_admin() {
    let mut pool = GlobalPool::new(id(1));
    assert_eq!(pool.transfer_authority(true, id(2)), Ok(()));
    assert_eq!(pool.super_admin(), id(2));
}

#[test]
fn unauthorized_transfer_changes_nothing() {
    let mut pool = GlobalPool::new(id(1));
    assert_eq!(pool.transfer_authority(false, id(2)), Err(RaffleError::Unauthorized));
    assert_eq!(pool.super_admin(), id(1));
    assert_eq!(pool, GlobalPool::new(id(1)));
}

#[test]
fn default_raffle_pool_is_all_zero() {
    let mut pool = RafflePool::default();
    let zero = Identity::default();
    assert_eq!(pool.creator(), zero);
    assert_eq!(pool.nft_mint(), zero);
    assert_eq!(pool.count(), 0);
    assert_eq!(pool.winner_count(), 0);
    assert!(!pool.no_repeat());
    assert_eq!(pool.max_entrants(), 0);
    assert_eq!(pool.start_timestamp(), 0);
    assert_eq!(pool.end_timestamp(), 0);
    assert_eq!(pool.ticket_price_booga(), 0);
    assert_eq!(pool.ticket_price_zion(), 0);
    assert_eq!(pool.ticket_price_sol(), 0);
    assert!(!pool.whitelisted());
    assert_eq!(pool.entrant(0), None);
    assert_eq!(pool.winner(0), None);
    assert_eq!(pool.index(0), None);
    for slot in 0..MAX_WINNERS as u64 {
        assert!(!pool.is_claimed(slot));
    }
    assert_eq!(pool.append(id(1)), Err(RaffleError::CapacityExceeded));
    assert_eq!(pool, RafflePool::default());
}

#[test]
fn default_raffle_pool_equals_a_new_one_of_the_blank_configuration() {
    let blank = RafflePool::default();
    assert_eq!(RafflePool::new(blank.config()), Ok(blank));
}
