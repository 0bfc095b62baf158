use predmarket::chain::{
    after_resend, gas_fees, retry_step, NonceCounter, RetryAction, RetryConfig, RetryState,
    GAS_LIMIT, MAX_PRIORITY_FEE_WEI,
};

#[test]
fn nonces_are_handed_out_in_order() {
    let mut c = NonceCounter::new(5);
    assert_eq!(c.get_and_increment_nonce(), 5);
    assert_eq!(c.get_and_increment_nonce(), 6);
    assert_eq!(c.get_and_increment_nonce(), 7);
    assert_eq!(c.next, 8);
}

#[test]
fn nonce_counter_wraps_at_the_top() {
    let mut c = NonceCounter::new(u64::MAX);
    assert_eq!(c.get_and_increment_nonce(), u64::MAX);
    assert_eq!(c.get_and_increment_nonce(), 0);
}

#[test]
fn gas_fee_formula() {
    assert_eq!(GAS_LIMIT, 500_000);
    assert_eq!(gas_fees(1_000), Some((30_000_002_000, MAX_PRIORITY_FEE_WEI)));
    assert_eq!(gas_fees(u128::MAX / 2 + 1), None);
    assert_eq!(gas_fees(u128::MAX / 4), Some((u128::MAX / 4 * 2 + 30_000_000_000, 30_000_000_000)));
}

#[test]
fn retry_config_default() {
    let c = RetryConfig::default();
    assert_eq!((c.max_retries, c.base_delay_ms, c.max_delay_ms), (3, 1000, 30_000));
}

#[test]
fn out_of_retries_is_dropped() {
    let cfg = RetryConfig::default();
    let st = RetryState { retry_count: 3, last_gas_bump_block: None };
    assert_eq!(retry_step(cfg, st, 100, 1_000_000), (RetryAction::Drop, st));
}

#[test]
fn retry_waits_for_the_doubling_delay() {
    let cfg = RetryConfig::default();
    let st = RetryState { retry_count: 2, last_gas_bump_block: Some(10) };
    // Delay is 1000 * 2^2 = 4000 ms.
    assert_eq!(retry_step(cfg, st, 11, 3_999).0, RetryAction::Wait);
    assert_eq!(retry_step(cfg, st, 11, 4_000).0, RetryAction::Resend);
    let capped = RetryConfig { max_retries: 10, base_delay_ms: 1000, max_delay_ms: 30_000 };
    let late = RetryState { retry_count: 6, last_gas_bump_block: None };
    assert_eq!(retry_step(capped, late, 0, 29_999).0, RetryAction::Wait);
    assert_eq!(retry_step(capped, late, 0, 30_000).0, RetryAction::Resend);
}

#[test]
fn gas_bump_every_two_blocks() {
    let cfg = RetryConfig::default();
    let st = RetryState { retry_count: 0, last_gas_bump_block: None };
    assert_eq!(retry_step(cfg, st, 1, 0).1.last_gas_bump_block, None);
    assert_eq!(retry_step(cfg, st, 2, 0).1.last_gas_bump_block, Some(2));
    let st = RetryState { retry_count: 0, last_gas_bump_block: Some(10) };
    assert_eq!(retry_step(cfg, st, 11, 0).1.last_gas_bump_block, Some(10));
    assert_eq!(retry_step(cfg, st, 12, 0).1.last_gas_bump_block, Some(12));
}

#[test]
fn resend_outcomes() {
    let cfg = RetryConfig::default();
    let st = RetryState { retry_count: 1, last_gas_bump_block: Some(4) };
    assert_eq!(after_resend(cfg, st, true), None);
    assert_eq!(
        after_resend(cfg, st, false),
        Some(RetryState { retry_count: 2, last_gas_bump_block: Some(4) })
    );
}

#[test]
fn failing_resends_follow_the_schedule_then_drop() {
    // Every resend fails: resends come at 1 s, 2 s and 4 s after the last
    // attempt, then the transaction is dropped.
    let cfg = RetryConfig::default();
    let mut st = RetryState { retry_count: 0, last_gas_bump_block: None };
    let mut delays = Vec::new();
    let mut resends = 0;
    loop {
        let (a, st2) = retry_step(cfg, st, 0, 0);
        if a == RetryAction::Drop {
            break;
        }
        assert_eq!(a, RetryAction::Wait);
        let mut wait = 0;
        while retry_step(cfg, st2, 0, wait).0 == RetryAction::Wait {
            wait += 500;
        }
        delays.push(wait);
        resends += 1;
        st = after_resend(cfg, st2, false).unwrap();
    }
    assert_eq!(resends, 3);
    assert_eq!(delays, vec![1_000, 2_000, 4_000]);
    assert_eq!(st.retry_count, 3);
}
