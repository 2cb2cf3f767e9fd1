use dob_liquidity::oracle::DobOracle;
use dob_liquidity::pool::AmmPool;
use dob_liquidity::pool::Error;
use dob_liquidity::stabilizer::LiquidNodeStabilizer;
use dob_liquidity::token::DobToken;
use dob_liquidity::MAX_AMOUNT;

const USDC_ID: u64 = 1;
const DOB_ID: u64 = 2;
const ORACLE_ID: u64 = 3;
const POOL_ID: u64 = 4;
const ADMIN: u64 = 5;
const OPERATOR: u64 = 6;
const LP1: u64 = 7;
const LP2: u64 = 8;
const BUYER: u64 = 9;
const SELLER: u64 = 10;
const NODE_ID: u64 = 20;

struct World {
    usdc: DobToken,
    dob: DobToken,
    oracle: DobOracle,
    pool: AmmPool,
}

/// A deployed pool: the pool contract is the DOB token's hook, USDC is an
/// admin-minted stable, and the oracle starts at NAV 1.00 / risk 10%.
fn deploy() -> World {
    let usdc = DobToken::initialize(
        USDC_ID,
        ADMIN,
        ADMIN,
        String::from("USD Coin"),
        String::from("USDC"),
        7,
    );
    let dob = DobToken::initialize(
        DOB_ID,
        ADMIN,
        POOL_ID,
        String::from("Dob Solar Farm 2035"),
        String::from("DOB-35"),
        7,
    );
    let oracle = DobOracle::initialize(ORACLE_ID, ADMIN, 10_000_000, 1000);
    let pool = AmmPool::initialize(POOL_ID, DOB_ID, USDC_ID, ORACLE_ID, OPERATOR);
    World { usdc, dob, oracle, pool }
}

#[test]
fn test_amm_pool_with_open_liquidity() {
    let mut w = deploy();
    let mut nodes: Vec<LiquidNodeStabilizer> = Vec::new();

    w.usdc.mint(ADMIN, LP1, 100_000_0000000).unwrap();
    w.usdc.mint(ADMIN, LP2, 50_000_0000000).unwrap();
    w.dob.mint(POOL_ID, LP1, 100_000_0000000).unwrap();
    w.dob.mint(POOL_ID, LP2, 50_000_0000000).unwrap();

    let lp_shares1 = w
        .pool
        .add_liquidity(&mut w.usdc, &mut w.dob, LP1, 100_000_0000000, 100_000_0000000)
        .unwrap();
    assert!(lp_shares1 > 0);

    let (usdc_reserve, dob_reserve) = w.pool.get_reserves();
    assert_eq!(usdc_reserve, 100_000_0000000);
    assert_eq!(dob_reserve, 100_000_0000000);

    let lp_shares2 = w
        .pool
        .add_liquidity(&mut w.usdc, &mut w.dob, LP2, 50_000_0000000, 50_000_0000000)
        .unwrap();
    assert!(lp_shares2 > 0);

    let (usdc_reserve, dob_reserve) = w.pool.get_reserves();
    assert_eq!(usdc_reserve, 150_000_0000000);
    assert_eq!(dob_reserve, 150_000_0000000);

    w.usdc.mint(ADMIN, BUYER, 1_000_0000000).unwrap();
    let dob_received = w
        .pool
        .swap_buy(&w.oracle, &mut w.usdc, &mut w.dob, BUYER, 1_000_0000000)
        .unwrap();
    assert!(dob_received > 0);
    assert_eq!(w.dob.balance(BUYER), dob_received);

    let dob_to_sell = 500_0000000i128;
    w.dob.mint(POOL_ID, SELLER, dob_to_sell).unwrap();
    let usdc_received = w
        .pool
        .swap_sell(&w.oracle, &mut w.usdc, &mut w.dob, &mut nodes, SELLER, dob_to_sell)
        .unwrap();
    assert!(usdc_received > 0);
    assert_eq!(w.usdc.balance(SELLER), usdc_received);

    // Share conservation across all of the above.
    assert_eq!(
        w.pool.get_lp_shares(LP1) + w.pool.get_lp_shares(LP2),
        w.pool.get_total_lp_shares()
    );

    let (usdc_out, dob_out) = w
        .pool
        .remove_liquidity(&mut w.usdc, &mut w.dob, LP1, lp_shares1)
        .unwrap();
    assert!(usdc_out > 0);
    assert!(dob_out > 0);

    assert_eq!(
        w.pool.get_lp_shares(LP1) + w.pool.get_lp_shares(LP2),
        w.pool.get_total_lp_shares()
    );
}

#[test]
fn test_liquid_node_registration() {
    let mut w = deploy();

    w.pool.register_liquid_node(OPERATOR, NODE_ID).unwrap();
    let nodes = w.pool.get_liquid_nodes();
    assert_eq!(nodes.len(), 1);

    w.pool.unregister_liquid_node(OPERATOR, NODE_ID).unwrap();
    let nodes = w.pool.get_liquid_nodes();
    assert_eq!(nodes.len(), 0);
}

#[test]
fn test_registry_is_idempotent() {
    let mut w = deploy();

    w.pool.register_liquid_node(OPERATOR, NODE_ID).unwrap();
    assert_eq!(
        w.pool.register_liquid_node(OPERATOR, NODE_ID),
        Err(Error::AlreadyRegistered)
    );
    assert_eq!(
        w.pool.unregister_liquid_node(OPERATOR, NODE_ID + 1),
        Err(Error::NotRegistered)
    );
    w.pool.unregister_liquid_node(OPERATOR, NODE_ID).unwrap();
    assert_eq!(w.pool.get_liquid_nodes().len(), 0);

    assert_eq!(
        w.pool.register_liquid_node(LP1, NODE_ID),
        Err(Error::Unauthorized)
    );
    assert_eq!(
        w.pool.unregister_liquid_node(LP1, NODE_ID),
        Err(Error::Unauthorized)
    );
}

#[test]
fn test_registry_keeps_order() {
    let mut w = deploy();
    w.pool.register_liquid_node(OPERATOR, 21).unwrap();
    w.pool.register_liquid_node(OPERATOR, 22).unwrap();
    w.pool.register_liquid_node(OPERATOR, 23).unwrap();
    w.pool.unregister_liquid_node(OPERATOR, 22).unwrap();
    assert_eq!(w.pool.get_liquid_nodes(), vec![21, 23]);
}

#[test]
fn test_first_deposit_mints_geometric_mean() {
    let mut w = deploy();
    w.usdc.mint(ADMIN, LP1, 1_000_0000000).unwrap();
    w.dob.mint(POOL_ID, LP1, 1_000_0000000).unwrap();

    let minted = w
        .pool
        .add_liquidity(&mut w.usdc, &mut w.dob, LP1, 1_000_0000000, 1_000_0000000)
        .unwrap();
    assert_eq!(minted, 1_000_0000000);
    assert_eq!(w.pool.get_total_lp_shares(), 1_000_0000000);
    assert_eq!(w.pool.get_lp_shares(LP1), 1_000_0000000);
}

#[test]
fn test_second_deposit_is_proportional() {
    let mut w = deploy();
    w.usdc.mint(ADMIN, LP1, 1000).unwrap();
    w.dob.mint(POOL_ID, LP1, 1000).unwrap();

    // Reserves (100, 100), 100 shares outstanding.
    let first = w
        .pool
        .add_liquidity(&mut w.usdc, &mut w.dob, LP1, 100, 100)
        .unwrap();
    assert_eq!(first, 100);

    // A balanced (50, 50) deposit mints 50 shares.
    let balanced = w
        .pool
        .add_liquidity(&mut w.usdc, &mut w.dob, LP1, 50, 50)
        .unwrap();
    assert_eq!(balanced, 50);

    // A fresh pool back at (100, 100): an unbalanced (50, 25) deposit
    // mints only what its scarcer side supports.
    let mut w2 = deploy();
    w2.usdc.mint(ADMIN, LP1, 1000).unwrap();
    w2.dob.mint(POOL_ID, LP1, 1000).unwrap();
    w2.pool
        .add_liquidity(&mut w2.usdc, &mut w2.dob, LP1, 100, 100)
        .unwrap();
    let unbalanced = w2
        .pool
        .add_liquidity(&mut w2.usdc, &mut w2.dob, LP1, 50, 25)
        .unwrap();
    assert_eq!(unbalanced, 25);
}

#[test]
fn test_largest_first_deposit() {
    let mut w = deploy();
    w.usdc.mint(ADMIN, LP1, MAX_AMOUNT).unwrap();
    w.dob.mint(POOL_ID, LP1, MAX_AMOUNT).unwrap();
    let minted = w
        .pool
        .add_liquidity(&mut w.usdc, &mut w.dob, LP1, MAX_AMOUNT, MAX_AMOUNT)
        .unwrap();
    assert_eq!(minted, MAX_AMOUNT);
}

#[test]
fn test_add_liquidity_errors() {
    let mut w = deploy();
    w.usdc.mint(ADMIN, LP1, 100_000).unwrap();
    w.dob.mint(POOL_ID, LP1, 100_000).unwrap();

    assert_eq!(
        w.pool.add_liquidity(&mut w.usdc, &mut w.dob, LP1, 0, 10),
        Err(Error::InvalidAmount)
    );
    assert_eq!(
        w.pool.add_liquidity(&mut w.usdc, &mut w.dob, LP1, 10, -3),
        Err(Error::InvalidAmount)
    );
    assert_eq!(
        w.pool.add_liquidity(&mut w.usdc, &mut w.dob, LP2, 10, 10),
        Err(Error::TransferFailed)
    );

    // An extremely unbalanced pool: a tiny deposit on the scarce side
    // supports no whole share.
    w.pool
        .add_liquidity(&mut w.usdc, &mut w.dob, LP1, 100, 10_000)
        .unwrap();
    assert_eq!(w.pool.get_total_lp_shares(), 1000);
    assert_eq!(
        w.pool.add_liquidity(&mut w.usdc, &mut w.dob, LP1, 50, 1),
        Err(Error::InvalidLpShares)
    );
}

#[test]
fn test_remove_liquidity_errors_and_no_overpay() {
    let mut w = deploy();
    w.usdc.mint(ADMIN, LP1, 10_000).unwrap();
    w.dob.mint(POOL_ID, LP1, 10_000).unwrap();

    let minted = w
        .pool
        .add_liquidity(&mut w.usdc, &mut w.dob, LP1, 400, 900)
        .unwrap();
    assert_eq!(minted, 600); // isqrt(400 * 900)

    assert_eq!(
        w.pool.remove_liquidity(&mut w.usdc, &mut w.dob, LP1, 0),
        Err(Error::InvalidAmount)
    );
    assert_eq!(
        w.pool.remove_liquidity(&mut w.usdc, &mut w.dob, LP1, 601),
        Err(Error::InvalidLpShares)
    );
    assert_eq!(
        w.pool.remove_liquidity(&mut w.usdc, &mut w.dob, LP2, 1),
        Err(Error::InvalidLpShares)
    );

    // Withdrawing a third of the shares pays out a third of each reserve,
    // truncated toward zero, and never more than the reserves held.
    let (usdc_out, dob_out) = w
        .pool
        .remove_liquidity(&mut w.usdc, &mut w.dob, LP1, 200)
        .unwrap();
    assert_eq!(usdc_out, 133); // 400 * 200 / 600
    assert_eq!(dob_out, 300); // 900 * 200 / 600
    let (usdc_reserve, dob_reserve) = w.pool.get_reserves();
    assert_eq!(usdc_reserve, 267);
    assert_eq!(dob_reserve, 600);
    assert_eq!(w.pool.get_total_lp_shares(), 400);
}

#[test]
fn test_afterswap_hook_buy() {
    let mut w = deploy();

    w.usdc.mint(ADMIN, BUYER, 1_000_0000000).unwrap();
    let initial_operator_balance = w.usdc.balance(OPERATOR);

    let dob_received = w
        .pool
        .swap_buy(&w.oracle, &mut w.usdc, &mut w.dob, BUYER, 1_000_0000000)
        .unwrap();

    assert_eq!(w.dob.balance(BUYER), dob_received);

    let operator_balance_after = w.usdc.balance(OPERATOR);
    assert!(operator_balance_after > initial_operator_balance);

    // 1000 USDC less the 1% flat fee is 990, of which 99% goes to the
    // operator: 980.1 USDC, minted back as 980.1 DOB at NAV 1.00.
    assert_eq!(operator_balance_after, 980_1000000);
    assert_eq!(dob_received, 980_1000000);
    let (total_bought, _total_sold, dex_fee) = w.pool.get_stats();
    assert_eq!(total_bought, 1_000_0000000);
    assert_eq!(dex_fee, 10_0000000);
}

#[test]
fn test_beforeswap_hook_sell() {
    let mut w = deploy();
    let mut nodes: Vec<LiquidNodeStabilizer> = Vec::new();

    w.usdc.mint(ADMIN, LP1, 100_000_0000000).unwrap();
    w.dob.mint(POOL_ID, LP1, 100_000_0000000).unwrap();
    w.pool
        .add_liquidity(&mut w.usdc, &mut w.dob, LP1, 100_000_0000000, 100_000_0000000)
        .unwrap();

    let dob_to_sell = 1_000_0000000i128;
    w.dob.mint(POOL_ID, SELLER, dob_to_sell).unwrap();

    let (usdc_before, dob_before) = w.pool.get_reserves();

    let usdc_received = w
        .pool
        .swap_sell(&w.oracle, &mut w.usdc, &mut w.dob, &mut nodes, SELLER, dob_to_sell)
        .unwrap();

    // Fee: 3% base + 1% from risk = 4%.
    assert!(usdc_received > 0);
    assert_eq!(usdc_received, 960_0000000);

    let (usdc_after, dob_after) = w.pool.get_reserves();
    assert!(usdc_after < usdc_before);
    assert!(dob_after > dob_before);
}

#[test]
fn test_swap_errors() {
    let mut w = deploy();
    let mut nodes: Vec<LiquidNodeStabilizer> = Vec::new();

    assert_eq!(
        w.pool.swap_buy(&w.oracle, &mut w.usdc, &mut w.dob, BUYER, 0),
        Err(Error::InvalidAmount)
    );
    assert_eq!(
        w.pool.swap_buy(&w.oracle, &mut w.usdc, &mut w.dob, BUYER, 100),
        Err(Error::TransferFailed)
    );
    assert_eq!(
        w.pool
            .swap_sell(&w.oracle, &mut w.usdc, &mut w.dob, &mut nodes, SELLER, -1),
        Err(Error::InvalidAmount)
    );
    assert_eq!(
        w.pool
            .swap_sell(&w.oracle, &mut w.usdc, &mut w.dob, &mut nodes, SELLER, 100),
        Err(Error::TransferFailed)
    );

    // A seller with asset, but no pool liquidity and an empty registry.
    w.dob.mint(POOL_ID, SELLER, 1_000_0000000).unwrap();
    assert_eq!(
        w.pool
            .swap_sell(&w.oracle, &mut w.usdc, &mut w.dob, &mut nodes, SELLER, 1_000_0000000),
        Err(Error::NoLiquidityAvailable)
    );
}

#[test]
fn test_quote_swap_sell_splits_fill() {
    let mut w = deploy();
    w.usdc.mint(ADMIN, LP1, 10_000).unwrap();
    w.dob.mint(POOL_ID, LP1, 10_000).unwrap();
    w.pool
        .add_liquidity(&mut w.usdc, &mut w.dob, LP1, 10_000, 10_000)
        .unwrap();

    // Net owed for 5000 DOB at NAV 1.00 and a 4% fee is 4800: fully
    // covered by the 10000 in reserves.
    let quote = w.pool.quote_swap_sell(&w.oracle, 5000);
    assert_eq!(quote.total_fee_bps, 400);
    assert_eq!(quote.usdc_out, 4800);
    assert_eq!(quote.from_pool, 4800);
    assert_eq!(quote.from_liquid_nodes, 0);

    // Net owed for 20000 DOB is 19200: reserves cover 10000, the rest
    // would need external sourcing.
    let quote = w.pool.quote_swap_sell(&w.oracle, 20_000);
    assert_eq!(quote.usdc_out, 19_200);
    assert_eq!(quote.from_pool, 10_000);
    assert_eq!(quote.from_liquid_nodes, 9_200);

    assert_eq!(w.pool.get_addresses(), (DOB_ID, USDC_ID, ORACLE_ID, OPERATOR));
}
