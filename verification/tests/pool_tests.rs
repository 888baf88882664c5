use reward_pool::errors::PoolError;
use reward_pool::identity::Identity;
use reward_pool::pool::RewardPool;

fn ident(b: u8) -> Identity {
    Identity::new([b; 20])
}

fn initialized_pool(owner: Identity) -> RewardPool {
    let mut reward_pool = RewardPool::new(owner);
    let r = reward_pool.initialize_reward_pool(
        owner,
        1000,
        10,
        b"proof".to_vec(),
        ident(9),
        100,
        0,
    );
    assert!(r.is_ok());
    reward_pool
}

#[test]
fn test_initialize_reward_pool() {
    let owner = ident(1);
    let mut reward_pool = RewardPool::new(owner);
    let initial_funds = 1000u64;
    let reward_rate = 10u64;
    let deadline = 100u64;

    let r = reward_pool.initialize_reward_pool(
        owner,
        initial_funds,
        reward_rate,
        b"proof".to_vec(),
        ident(9),
        deadline,
        0,
    );
    assert!(r.is_ok());

    assert_eq!(reward_pool.total_funds, initial_funds);
    assert_eq!(reward_pool.reward_rate, reward_rate);
    assert_eq!(reward_pool.deadline, deadline);
    assert_eq!(reward_pool.check_wallet_balance(&owner), initial_funds);
}

#[test]
fn test_fund_reward_pool() {
    let owner = ident(1);
    let mut reward_pool = RewardPool::new(owner);
    let initial_funds = 1000u64;
    let reward_rate = 10u64;
    let deadline = 100u64;

    let r = reward_pool.initialize_reward_pool(
        owner,
        initial_funds,
        reward_rate,
        b"proof".to_vec(),
        ident(9),
        deadline,
        0,
    );
    assert!(r.is_ok());

    let additional_funds = 500u64;
    let r = reward_pool.fund_reward_pool(owner, additional_funds);
    assert!(r.is_ok());

    assert_eq!(reward_pool.total_funds, initial_funds + additional_funds);
    assert_eq!(
        reward_pool.check_wallet_balance(&owner),
        initial_funds + additional_funds
    );
}

#[test]
fn test_verify_likes() {
    let reward_pool = RewardPool::new(ident(1));
    let user = Identity::new([0u8; 20]);
    let post_id = b"post123".to_vec();

    let verified_likes = reward_pool.verify_likes(user, &post_id);

    assert_eq!(verified_likes, 100);
}

#[test]
fn test_distribute_rewards() {
    let owner = ident(1);
    let mut reward_pool = RewardPool::new(owner);
    let initial_funds = 1000u64;
    let reward_rate = 10u64;
    let deadline = 100u64;

    let r = reward_pool.initialize_reward_pool(
        owner,
        initial_funds,
        reward_rate,
        b"proof".to_vec(),
        ident(9),
        deadline,
        0,
    );
    assert!(r.is_ok());

    let user_address = Identity::new([1u8; 20]);
    let verified_likes = 50u64;

    let result = reward_pool.distribute_rewards(user_address, verified_likes);

    assert!(result.is_ok());
    assert_eq!(
        reward_pool.total_funds as u128,
        initial_funds as u128 - reward_pool.calculate_reward(verified_likes)
    );
}

#[test]
fn test_double_initialize_fails_with_state_error() {
    let owner = ident(1);
    let mut reward_pool = initialized_pool(owner);
    let second = reward_pool.initialize_reward_pool(
        owner,
        500,
        3,
        b"other".to_vec(),
        ident(8),
        200,
        0,
    );
    assert_eq!(second, Err(PoolError::StateError));
    assert_eq!(reward_pool.total_funds, 1000);
    assert_eq!(reward_pool.reward_rate, 10);
}

#[test]
fn test_initialize_rejects_bad_arguments() {
    let owner = ident(1);

    let mut pool = RewardPool::new(owner);
    let r = pool.initialize_reward_pool(ident(2), 1000, 10, b"p".to_vec(), ident(9), 100, 0);
    assert_eq!(r, Err(PoolError::AuthorizationError));

    let r = pool.initialize_reward_pool(owner, 0, 10, b"p".to_vec(), ident(9), 100, 0);
    assert_eq!(r, Err(PoolError::ValidationError));

    let r = pool.initialize_reward_pool(owner, 1000, 0, b"p".to_vec(), ident(9), 100, 0);
    assert_eq!(r, Err(PoolError::ValidationError));

    let r = pool.initialize_reward_pool(owner, 1000, 10, b"p".to_vec(), ident(9), 100, 100);
    assert_eq!(r, Err(PoolError::StateError));

    assert!(!pool.initialized);
    assert_eq!(pool.total_funds, 0);
}

#[test]
fn test_fund_requires_initialization_and_positive_amount() {
    let owner = ident(1);
    let mut pool = RewardPool::new(owner);
    assert_eq!(pool.fund_reward_pool(owner, 5), Err(PoolError::StateError));

    let mut pool = initialized_pool(owner);
    assert_eq!(pool.fund_reward_pool(owner, 0), Err(PoolError::ValidationError));
    assert_eq!(pool.total_funds, 1000);
}

#[test]
fn test_distribute_rewards_insufficient_funds() {
    let owner = ident(1);
    let mut pool = initialized_pool(owner);
    let result = pool.distribute_rewards(ident(4), 101);
    assert_eq!(result, Err(PoolError::FundsError));
    assert_eq!(pool.total_funds, 1000);
}

#[test]
fn test_distribute_rewards_zero_transfer_rejected() {
    let owner = ident(1);
    let mut pool = initialized_pool(owner);
    let result = pool.distribute_rewards(ident(4), 0);
    assert_eq!(result, Err(PoolError::TransferError));
    assert_eq!(pool.total_funds, 1000);
}

#[test]
fn test_update_settings_non_owner_rejected() {
    let owner = ident(1);
    let mut pool = initialized_pool(owner);
    let result = pool.update_settings(ident(2), 7, 300);
    assert_eq!(result, Err(PoolError::AuthorizationError));
    assert_eq!(pool.reward_rate, 10);
    assert_eq!(pool.deadline, 100);
}

#[test]
fn test_update_settings_owner() {
    let owner = ident(1);
    let mut pool = initialized_pool(owner);
    let result = pool.update_settings(owner, 7, 300);
    assert!(result.is_ok());
    assert_eq!(pool.reward_rate, 7);
    assert_eq!(pool.deadline, 300);

    let result = pool.update_settings(owner, 0, 300);
    assert_eq!(result, Err(PoolError::ValidationError));
    assert_eq!(pool.reward_rate, 7);
}

#[test]
fn test_refund_before_deadline_fails() {
    let owner = ident(1);
    let mut pool = initialized_pool(owner);
    assert_eq!(
        pool.refund_unspent_rewards(owner, 100),
        Err(PoolError::FundsError)
    );
    assert_eq!(
        pool.refund_unspent_rewards(owner, 50),
        Err(PoolError::FundsError)
    );
    assert_eq!(pool.total_funds, 1000);
    assert_eq!(pool.check_wallet_balance(&owner), 1000);
}

#[test]
fn test_refund_twice_fails() {
    let owner = ident(1);
    let mut pool = initialized_pool(owner);
    let first = pool.refund_unspent_rewards(owner, 101);
    assert_eq!(first, Ok(1000));
    assert_eq!(pool.total_funds, 0);
    assert_eq!(pool.check_wallet_balance(&owner), 0);

    let second = pool.refund_unspent_rewards(owner, 101);
    assert_eq!(second, Err(PoolError::FundsError));
}

#[test]
fn test_refund_is_proportional_to_total_deposits() {
    let owner = ident(1);
    let funder = ident(2);
    let mut pool = initialized_pool(owner);
    assert!(pool.fund_reward_pool(funder, 1000).is_ok());
    // 500 of the 2000 escrowed units are paid out as rewards.
    assert!(pool.distribute_rewards(ident(4), 50).is_ok());
    assert_eq!(pool.total_funds, 1500);

    // Each contributor funded half of the 2000 ever deposited, so each gets
    // half of the remaining 1500.
    assert_eq!(pool.refund_unspent_rewards(owner, 101), Ok(750));
    assert_eq!(pool.total_funds, 750);
    assert_eq!(pool.refund_unspent_rewards(funder, 101), Ok(375));
}

#[test]
fn test_refund_requires_initialization() {
    let mut pool = RewardPool::new(ident(1));
    assert_eq!(
        pool.refund_unspent_rewards(ident(1), 500),
        Err(PoolError::StateError)
    );
}
