use dob_liquidity::oracle::DobOracle;
use dob_liquidity::pool::blended_fee_bps;
use dob_liquidity::pool::select_best_quote;
use dob_liquidity::pool::AmmPool;
use dob_liquidity::stabilizer::Error;
use dob_liquidity::stabilizer::LiquidNodeStabilizer;
use dob_liquidity::token::DobToken;

const USDC_ID: u64 = 1;
const DOB_ID: u64 = 2;
const ORACLE_ID: u64 = 3;
const POOL_ID: u64 = 4;
const ADMIN: u64 = 5;
const OPERATOR: u64 = 6;
const LP: u64 = 7;
const SELLER: u64 = 8;
const LN_OPERATOR: u64 = 9;
const NODE1: u64 = 21;
const NODE2: u64 = 22;
const NODE3: u64 = 23;

struct World {
    usdc: DobToken,
    dob: DobToken,
    oracle: DobOracle,
    pool: AmmPool,
}

fn deploy() -> World {
    let usdc = DobToken::initialize(
        USDC_ID,
        ADMIN,
        ADMIN,
        String::from("USD Coin"),
        String::from("USDC"),
        7,
    );
    let dob = DobToken::initialize(
        DOB_ID,
        ADMIN,
        POOL_ID,
        String::from("DOB Token"),
        String::from("DOB"),
        7,
    );
    let oracle = DobOracle::initialize(ORACLE_ID, ADMIN, 10_000_000, 1000);
    let pool = AmmPool::initialize(POOL_ID, DOB_ID, USDC_ID, ORACLE_ID, OPERATOR);
    World { usdc, dob, oracle, pool }
}

fn new_node(id: u64) -> LiquidNodeStabilizer {
    LiquidNodeStabilizer::initialize(id, ORACLE_ID, USDC_ID, DOB_ID, LN_OPERATOR, POOL_ID)
}

/// Fund a node's stable buffer straight from freshly minted USDC.
fn fund_node(w: &mut World, node: &LiquidNodeStabilizer, amount: i128) {
    w.usdc.mint(ADMIN, LN_OPERATOR, amount).unwrap();
    node.fund_usdc(&mut w.usdc, LN_OPERATOR, amount).unwrap();
}

#[test]
fn test_dynamic_fee_calculation() {
    let mut w = deploy();
    let node = new_node(NODE1);

    // Risk 10% (1000 bps) -> 5% fee (500 bps)
    w.oracle.update(ADMIN, 10_000_000, 1000).unwrap();
    assert_eq!(node.quote_liquidity_direct(&w.oracle, 1_000_0000000).1, 500);

    // Risk 20% (2000 bps) -> 10% fee (1000 bps)
    w.oracle.update(ADMIN, 10_000_000, 2000).unwrap();
    assert_eq!(node.quote_liquidity_direct(&w.oracle, 1_000_0000000).1, 1000);

    // Risk 35% (3500 bps) -> 20% fee (2000 bps)
    w.oracle.update(ADMIN, 10_000_000, 3500).unwrap();
    assert_eq!(node.quote_liquidity_direct(&w.oracle, 1_000_0000000).1, 2000);

    // Risk 60% (6000 bps) -> 30% fee (3000 bps)
    w.oracle.update(ADMIN, 10_000_000, 6000).unwrap();
    assert_eq!(node.quote_liquidity_direct(&w.oracle, 1_000_0000000).1, 3000);
}

#[test]
fn test_sell_with_liquid_node_fallback() {
    let mut w = deploy();

    // Small pool liquidity, insufficient for a large sell.
    w.usdc.mint(ADMIN, LP, 10_000_0000000).unwrap();
    w.dob.mint(POOL_ID, LP, 10_000_0000000).unwrap();
    w.pool
        .add_liquidity(&mut w.usdc, &mut w.dob, LP, 10_000_0000000, 10_000_0000000)
        .unwrap();

    // Asset the pool happens to hold beyond its reserves, so it can route
    // the buffered amount onward.
    w.dob.mint(POOL_ID, POOL_ID, 100_000_0000000).unwrap();

    // One well-funded source, registered with the pool.
    let node = new_node(NODE1);
    fund_node(&mut w, &node, 100_000_0000000);
    let mut nodes = vec![node];
    w.pool.register_liquid_node(OPERATOR, NODE1).unwrap();
    assert_eq!(w.pool.get_liquid_nodes().len(), 1);

    let dob_to_sell = 100_000_0000000i128;
    w.dob.mint(POOL_ID, SELLER, dob_to_sell).unwrap();

    let quote = w.pool.quote_swap_sell(&w.oracle, dob_to_sell);
    assert!(quote.from_liquid_nodes > 0);

    let node_usdc_before = w.usdc.balance(NODE1);
    let usdc_received = w
        .pool
        .swap_sell(&w.oracle, &mut w.usdc, &mut w.dob, &mut nodes, SELLER, dob_to_sell)
        .unwrap();

    assert!(usdc_received > 0);
    // The winning source over-delivers relative to the pool-only preview,
    // since the routed amount carries a safety buffer.
    assert!(usdc_received >= quote.usdc_out);
    assert_eq!(w.usdc.balance(SELLER), usdc_received);
    assert!(w.usdc.balance(NODE1) < node_usdc_before);

    // The pool's stable reserve was paid out in full.
    let (usdc_reserve, _dob_reserve) = w.pool.get_reserves();
    assert_eq!(usdc_reserve, 0);

    // Draining the pool's stable side makes a withdrawal stable-free but
    // still pays out the asset side.
    let shares = w.pool.get_lp_shares(LP);
    let (usdc_out, dob_out) = w
        .pool
        .remove_liquidity(&mut w.usdc, &mut w.dob, LP, shares)
        .unwrap();
    assert_eq!(usdc_out, 0);
    assert!(dob_out > 0);
}

#[test]
fn test_multiple_liquid_nodes_competition() {
    let mut w = deploy();

    let node1 = new_node(NODE1);
    let node2 = new_node(NODE2);
    let node3 = new_node(NODE3);
    fund_node(&mut w, &node1, 150_000_0000000);
    fund_node(&mut w, &node2, 150_000_0000000);
    fund_node(&mut w, &node3, 150_000_0000000);
    let mut nodes = vec![node1, node2, node3];

    w.pool.register_liquid_node(OPERATOR, NODE1).unwrap();
    w.pool.register_liquid_node(OPERATOR, NODE2).unwrap();
    w.pool.register_liquid_node(OPERATOR, NODE3).unwrap();
    assert_eq!(w.pool.get_liquid_nodes().len(), 3);

    // The pool holds asset to route but no stable reserves at all.
    w.dob.mint(POOL_ID, POOL_ID, 150_000_0000000).unwrap();

    let dob_to_sell = 100_000_0000000i128;
    w.dob.mint(POOL_ID, SELLER, dob_to_sell).unwrap();

    let usdc_received = w
        .pool
        .swap_sell(&w.oracle, &mut w.usdc, &mut w.dob, &mut nodes, SELLER, dob_to_sell)
        .unwrap();
    assert!(usdc_received > 0);

    // All sources quote the same fee, so the first registered wins the tie
    // and the others are left untouched.
    assert!(w.usdc.balance(NODE1) < 150_000_0000000);
    assert_eq!(w.usdc.balance(NODE2), 150_000_0000000);
    assert_eq!(w.usdc.balance(NODE3), 150_000_0000000);
}

#[test]
fn test_sell_fills_from_pool_when_sufficient() {
    let mut w = deploy();

    w.usdc.mint(ADMIN, LP, 100_000_0000000).unwrap();
    w.dob.mint(POOL_ID, LP, 100_000_0000000).unwrap();
    w.pool
        .add_liquidity(&mut w.usdc, &mut w.dob, LP, 100_000_0000000, 100_000_0000000)
        .unwrap();

    let node = new_node(NODE1);
    fund_node(&mut w, &node, 50_000_0000000);
    let mut nodes = vec![node];
    w.pool.register_liquid_node(OPERATOR, NODE1).unwrap();

    let dob_to_sell = 1_000_0000000i128;
    w.dob.mint(POOL_ID, SELLER, dob_to_sell).unwrap();

    let (usdc_before, dob_before) = w.pool.get_reserves();
    let usdc_received = w
        .pool
        .swap_sell(&w.oracle, &mut w.usdc, &mut w.dob, &mut nodes, SELLER, dob_to_sell)
        .unwrap();

    // Net owed at a 4% fee; filled entirely from reserves, which drop by
    // exactly that amount, and the registered source is never touched.
    assert_eq!(usdc_received, 960_0000000);
    let (usdc_after, dob_after) = w.pool.get_reserves();
    assert_eq!(usdc_after, usdc_before - 960_0000000);
    assert_eq!(dob_after, dob_before + dob_to_sell);
    assert_eq!(w.usdc.balance(NODE1), 50_000_0000000);
    assert_eq!(nodes[0].total_fees_earned(), 0);
}

#[test]
fn test_sell_routes_externally_when_pool_empty() {
    let mut w = deploy();

    // No stable reserve at all; the pool holds routable asset.
    w.dob.mint(POOL_ID, POOL_ID, 150_000_0000000).unwrap();

    let node = new_node(NODE1);
    fund_node(&mut w, &node, 150_000_0000000);
    let mut nodes = vec![node];
    w.pool.register_liquid_node(OPERATOR, NODE1).unwrap();

    let dob_to_sell = 100_000_0000000i128;
    w.dob.mint(POOL_ID, SELLER, dob_to_sell).unwrap();

    let node_usdc_before = w.usdc.balance(NODE1);
    let usdc_received = w
        .pool
        .swap_sell(&w.oracle, &mut w.usdc, &mut w.dob, &mut nodes, SELLER, dob_to_sell)
        .unwrap();

    assert!(usdc_received > 0);
    // Nothing came from the pool: its stable reserve stays zero and the
    // whole payout was disbursed from the source's buffer.
    let (usdc_reserve, _) = w.pool.get_reserves();
    assert_eq!(usdc_reserve, 0);
    assert_eq!(w.usdc.balance(NODE1), node_usdc_before - usdc_received);
    assert_eq!(w.usdc.balance(SELLER), usdc_received);
}

#[test]
fn test_best_quote_selection() {
    // Three sources quoting fees of 30%, 10% and 20%, all with sufficient
    // balance: the 10%-fee source wins.
    let quotes: Vec<Option<(i128, u32)>> = vec![
        Some((500, 3000)),
        Some((500, 1000)),
        Some((500, 2000)),
    ];
    assert_eq!(select_best_quote(&quotes, 400), Some(1));

    // The cheapest source cannot cover the shortage, so the next-best
    // feasible fee wins.
    let quotes: Vec<Option<(i128, u32)>> = vec![
        Some((300, 1000)),
        Some((500, 3000)),
        Some((500, 2000)),
    ];
    assert_eq!(select_best_quote(&quotes, 400), Some(2));

    // Ties break toward the earlier registration; declined quotes are
    // skipped; no feasible quote means no winner.
    let quotes: Vec<Option<(i128, u32)>> = vec![
        None,
        Some((500, 2000)),
        Some((500, 2000)),
    ];
    assert_eq!(select_best_quote(&quotes, 400), Some(1));
    let quotes: Vec<Option<(i128, u32)>> = vec![None, Some((300, 500))];
    assert_eq!(select_best_quote(&quotes, 400), None);
}

#[test]
fn test_blended_fee() {
    // Weighted by contribution: (400 * 100 + 500 * 200) / 300.
    assert_eq!(blended_fee_bps(400, 100, 500, 200), 466);
    // Without a pool contribution the external fee stands alone.
    assert_eq!(blended_fee_bps(400, 0, 500, 200), 500);
}

#[test]
fn test_stabilizer_direct_provision_and_fees() {
    let mut w = deploy();
    let mut node = new_node(NODE1);
    fund_node(&mut w, &node, 10_000);

    w.dob.mint(POOL_ID, SELLER, 1000).unwrap();

    // 1000 DOB at NAV 1.00 and risk 10%: a 5% fee tier pays 950.
    let (payout, fee) = node.quote_liquidity_direct(&w.oracle, 1000);
    assert_eq!(fee, 500);
    assert_eq!(payout, 950);

    let provided = node
        .provide_liquidity_direct(&w.oracle, &mut w.usdc, &mut w.dob, SELLER, 1000)
        .unwrap();
    assert_eq!(provided, 950);
    assert_eq!(w.usdc.balance(SELLER), 950);
    assert_eq!(w.dob.balance(NODE1), 1000);
    assert_eq!(node.total_fees_earned(), 50);

    // Only the operator may withdraw the accrued margin.
    assert_eq!(node.withdraw_fees(SELLER, &mut w.usdc), Err(Error::Unauthorized));
    let withdrawn = node.withdraw_fees(LN_OPERATOR, &mut w.usdc).unwrap();
    assert_eq!(withdrawn, 50);
    assert_eq!(node.total_fees_earned(), 0);
    assert_eq!(w.usdc.balance(LN_OPERATOR), 50);
}

#[test]
fn test_stabilizer_quote_errors() {
    let mut w = deploy();
    let mut node = new_node(NODE1);
    fund_node(&mut w, &node, 500);

    assert_eq!(
        node.request_quote(&w.oracle, &w.usdc, 0),
        Err(Error::InvalidAmount)
    );
    // A payout of 950 exceeds the 500 in the buffer.
    assert_eq!(
        node.request_quote(&w.oracle, &w.usdc, 1000),
        Err(Error::InsufficientBalance)
    );
    // 500 DOB pays 475, which the buffer covers.
    assert_eq!(node.request_quote(&w.oracle, &w.usdc, 500), Ok((475, 500)));

    assert_eq!(
        node.execute_liquidity(SELLER, &w.oracle, &mut w.usdc, SELLER, 500),
        Err(Error::Unauthorized)
    );
    assert_eq!(
        node.fund_usdc(&mut w.usdc, LN_OPERATOR, 0),
        Err(Error::InvalidAmount)
    );
    assert_eq!(
        node.fund_dob(&mut w.dob, LN_OPERATOR, 25),
        Err(Error::InsufficientBalance)
    );
    assert_eq!(
        node.get_addresses(),
        (ORACLE_ID, USDC_ID, DOB_ID, LN_OPERATOR, POOL_ID)
    );
    assert_eq!(node.get_balances(&w.usdc, &w.dob), (500, 0));
}

#[test]
fn test_register_with_pool() {
    let mut w = deploy();
    // The source's operator must also be the pool's operator for a
    // self-registration to be accepted.
    let mut node = LiquidNodeStabilizer::initialize(NODE1, ORACLE_ID, USDC_ID, DOB_ID, OPERATOR, 0);
    assert_eq!(
        node.register_with_pool(SELLER, &mut w.pool),
        Err(Error::Unauthorized)
    );
    node.register_with_pool(OPERATOR, &mut w.pool).unwrap();
    assert_eq!(w.pool.get_liquid_nodes(), vec![NODE1]);
    assert_eq!(node.get_addresses().4, POOL_ID);
}
