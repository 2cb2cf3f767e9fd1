use dob_liquidity::fees::node_fee_bps;
use dob_liquidity::fees::sell_fee_bps;
use dob_liquidity::math::isqrt;

#[test]
fn test_isqrt_values() {
    assert_eq!(isqrt(0), 0);
    assert_eq!(isqrt(1), 1);
    assert_eq!(isqrt(3), 1);
    assert_eq!(isqrt(4), 2);
    assert_eq!(isqrt(99), 9);
    assert_eq!(isqrt(100), 10);
    assert_eq!(isqrt(1_000_0000000 * 1_000_0000000), 1_000_0000000);
    assert_eq!(
        isqrt(1_000_000_000_000_000_000_000_000_000_000_000_000),
        1_000_000_000_000_000_000
    );
}

#[test]
fn test_sell_fee_is_monotone_and_capped() {
    // 3% base plus a tenth of the risk score...
    assert_eq!(sell_fee_bps(0), 300);
    assert_eq!(sell_fee_bps(1000), 400);
    assert_eq!(sell_fee_bps(3500), 650);
    assert_eq!(sell_fee_bps(10000), 1300);

    // ... never decreasing in the risk score ...
    let samples = [0u32, 1, 9, 10, 999, 1000, 5000, 10000, 47_000, 100_000, u32::MAX];
    let mut previous = 0u32;
    for risk in samples {
        let fee = sell_fee_bps(risk);
        assert!(fee >= previous);
        previous = fee;
    }

    // ... and capped at 5000 bps however high the score goes.
    assert_eq!(sell_fee_bps(47_000), 5000);
    assert_eq!(sell_fee_bps(u32::MAX), 5000);
}

#[test]
fn test_node_fee_tiers() {
    assert_eq!(node_fee_bps(0), 500);
    assert_eq!(node_fee_bps(1499), 500);
    assert_eq!(node_fee_bps(1500), 1000);
    assert_eq!(node_fee_bps(2999), 1000);
    assert_eq!(node_fee_bps(3000), 2000);
    assert_eq!(node_fee_bps(4999), 2000);
    assert_eq!(node_fee_bps(5000), 3000);
    assert_eq!(node_fee_bps(10000), 3000);
}
