use btclib::{min_target, subsidy, HALVING_INTERVAL, INITIAL_REWARD, U256};

#[test]
fn subsidy_before_first_halving_is_the_full_reward() {
    assert_eq!(subsidy(0), 5_000_000_000);
    assert_eq!(subsidy(HALVING_INTERVAL - 1), 5_000_000_000);
    assert_eq!(subsidy(0), INITIAL_REWARD * 100_000_000);
}

#[test]
fn subsidy_halves_at_each_boundary() {
    assert_eq!(subsidy(HALVING_INTERVAL), 2_500_000_000);
    assert_eq!(subsidy(2 * HALVING_INTERVAL - 1), 2_500_000_000);
    assert_eq!(subsidy(2 * HALVING_INTERVAL), 1_250_000_000);
    assert_eq!(subsidy(3 * HALVING_INTERVAL), 625_000_000);
}

#[test]
fn subsidy_truncates_and_reaches_zero() {
    // 5_000_000_000 / 2^32 == 1 with truncating division.
    assert_eq!(subsidy(32 * HALVING_INTERVAL), 1);
    assert_eq!(subsidy(33 * HALVING_INTERVAL), 0);
    assert_eq!(subsidy(u64::MAX), 0);
}

#[test]
fn subsidy_never_increases_with_height() {
    let mut previous = subsidy(0);
    for step in 1..40u64 {
        let current = subsidy(step * HALVING_INTERVAL);
        assert!(current <= previous);
        previous = current;
    }
}

#[test]
fn min_target_holds_the_fixed_difficulty_floor() {
    let target = min_target();
    assert_eq!(
        target,
        U256 {
            w0: 0xFFFF_FFFF_FFFF_FFFF,
            w1: 0xFFFF_FFFF_FFFF_FFFF,
            w2: 0xFFFF_FFFF_FFFF_FFFF,
            w3: 0x0000_FFFF_FFFF_FFFF,
        }
    );
}

#[test]
fn digests_compare_against_targets_numerically() {
    let zero_target = U256 {
        w0: 0,
        w1: 0,
        w2: 0,
        w3: 0,
    };
    assert!(btclib::sha256::Hash::zero().matches_target(zero_target));
    assert!(btclib::sha256::Hash::zero().matches_target(min_target()));
    let nonzero = btclib::sha256::Hash::hash_bytes(&vec![1, 2, 3]);
    assert!(!nonzero.matches_target(zero_target));
}
