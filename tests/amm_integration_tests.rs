use bonding_curve_system::amm_integration::{
    AMMIntegration, Holder, LPDistributionStrategy, LpAllocation, DAO_BLOCK, DAO_TX, OYL_FACTORY_BLOCK,
    OYL_FACTORY_TX,
};
use bonding_curve_system::{AlkaneId, AlkaneTransfer, BaseToken, BondingCurve, CurveError, CurveParams};

fn graduation_ready_curve() -> BondingCurve {
    let mut curve = BondingCurve::new(AlkaneId::new(2, 1));
    curve
        .initialize(1, 0, 1, 1_000_000, 150, 100_000_000, 0, 1_000_000_000, 0, AlkaneId::new(1, 1000), 0)
        .unwrap();
    curve
}

fn payment(value: u128) -> Vec<AlkaneTransfer> {
    vec![AlkaneTransfer { id: BaseToken::BUSD.alkane_id(), value }]
}

#[test]
fn test_pool_ratio_calculation() {
    let params = CurveParams::default();
    let token_supply = 1_000_000_000;
    let base_reserves = 10_000_000_000;

    let (token_liquidity, base_liquidity) =
        AMMIntegration::calculate_pool_ratios(token_supply, base_reserves, &params);

    // At this supply the default curve's price sits at the cap, so the reserves buy
    // less than one token at the spot price.
    assert_eq!(token_liquidity, 0);
    assert!(base_liquidity > 0);
    assert!(token_liquidity <= token_supply);
    assert!(base_liquidity <= base_reserves);
}

#[test]
fn test_liquidity_sufficiency() {
    let params = CurveParams::default();

    assert!(!AMMIntegration::check_liquidity_sufficiency(1000, 1000, &params));
    assert!(AMMIntegration::check_liquidity_sufficiency(
        1_000_000_000,
        10_000_000_000,
        &params
    ));
}

#[test]
fn test_emergency_graduation() {
    let current_block = 100_000;
    let launch_block = 1000;
    let token_supply = 2_000_000;
    let base_reserves = 200_000_000;

    assert!(AMMIntegration::check_emergency_graduation(
        current_block,
        launch_block,
        token_supply,
        base_reserves
    ));
    assert!(!AMMIntegration::check_emergency_graduation(
        5000,
        launch_block,
        token_supply,
        base_reserves
    ));
}

#[test]
fn test_graduation_trigger() {
    // A purchase whose payment reaches half the threshold graduates the curve.
    let mut curve = graduation_ready_curve();
    let receipt = curve.buy_tokens(&payment(50_000_000), 1, 10, &vec![]).unwrap();
    assert!(receipt.graduated_pool.is_some());
    assert!(curve.is_graduated());
    assert_eq!(curve.amm_pool(), receipt.graduated_pool);
}

#[test]
fn test_pool_creation() {
    let myself = AlkaneId::new(2, 1);
    let created = AMMIntegration::create_oyl_pool_atomic(myself, BaseToken::BUSD, 400, 900).unwrap();
    let (pool, lp) = (created.pool_address, created.lp_tokens);
    assert_eq!(
        created.deposits,
        vec![
            AlkaneTransfer { id: myself, value: 400 },
            AlkaneTransfer { id: BaseToken::BUSD.alkane_id(), value: 900 },
        ]
    );
    let factory = AlkaneId::new(OYL_FACTORY_BLOCK, OYL_FACTORY_TX);
    assert_eq!(
        pool,
        AMMIntegration::generate_pool_address(&factory, &myself, &BaseToken::BUSD.alkane_id())
    );
    assert!(AMMIntegration::verify_pool_exists(&pool));
    assert_eq!(lp, 600);
}

#[test]
fn test_liquidity_migration() {
    // All reserves seed the pool; the token side matches them at the spot price.
    let params = CurveParams {
        base_price: 1_000_000,
        growth_rate: 150,
        graduation_threshold: 100_000_000,
        base_token: BaseToken::BUSD,
        max_supply: 1_000_000_000,
    };
    let (token_liquidity, base_liquidity) =
        AMMIntegration::calculate_pool_ratios(0, 300_000, &params);
    assert_eq!(base_liquidity, 300_000);
    assert_eq!(token_liquidity, 300_000_000);

    let (capped, _) = AMMIntegration::calculate_pool_ratios(0, 1_000_000_000, &params);
    assert_eq!(capped, 500_000_000);

    // The cap is half the maximum supply even where twice that would not fit.
    let huge = CurveParams { base_price: 1, max_supply: u128::MAX, ..params };
    let (token_side, _) = AMMIntegration::calculate_pool_ratios(0, u128::MAX, &huge);
    assert_eq!(token_side, u128::MAX / 2);
}

#[test]
fn test_lp_token_distribution() {
    let creator = AlkaneId::new(1, 1000);
    let holders = vec![
        Holder { id: AlkaneId::new(7, 1), balance: 5 },
        Holder { id: AlkaneId::new(7, 2), balance: 5 },
        Holder { id: AlkaneId::new(7, 3), balance: 5 },
    ];

    let burn_all = AMMIntegration::distribute_lp_tokens(1000, LPDistributionStrategy::BurnAll, creator, &holders);
    assert_eq!(burn_all.burned, 1000);
    assert!(burn_all.allocations.is_empty());

    let community = AMMIntegration::distribute_lp_tokens(
        1000,
        LPDistributionStrategy::CommunityRewards,
        creator,
        &holders,
    );
    // 800 burned, 200 shared by three equal holders: 66 each, 2 left over and burned.
    assert_eq!(community.allocations.len(), 3);
    for (i, a) in community.allocations.iter().enumerate() {
        assert_eq!(*a, LpAllocation { recipient: holders[i].id, amount: 66 });
    }
    assert_eq!(community.burned, 802);

    // Unequal holdings share in proportion: 50%, 30% and 20% of 200.
    let weighted = vec![
        Holder { id: AlkaneId::new(7, 1), balance: 500 },
        Holder { id: AlkaneId::new(7, 2), balance: 300 },
        Holder { id: AlkaneId::new(7, 3), balance: 200 },
    ];
    let community = AMMIntegration::distribute_lp_tokens(
        1000,
        LPDistributionStrategy::CommunityRewards,
        creator,
        &weighted,
    );
    let amounts: Vec<u128> = community.allocations.iter().map(|a| a.amount).collect();
    assert_eq!(amounts, vec![100, 60, 40]);
    assert_eq!(community.burned, 800);

    let creator_share = AMMIntegration::distribute_lp_tokens(
        1000,
        LPDistributionStrategy::CreatorAllocation,
        creator,
        &holders,
    );
    assert_eq!(creator_share.burned, 900);
    assert_eq!(creator_share.allocations, vec![LpAllocation { recipient: creator, amount: 100 }]);

    let dao = AMMIntegration::distribute_lp_tokens(1000, LPDistributionStrategy::DAOGovernance, creator, &holders);
    assert_eq!(dao.burned, 800);
    assert_eq!(
        dao.allocations,
        vec![LpAllocation { recipient: AlkaneId::new(DAO_BLOCK, DAO_TX), amount: 200 }]
    );
}

#[test]
fn community_rewards_without_holders_burns_everything() {
    let d = AMMIntegration::distribute_lp_tokens(
        999,
        LPDistributionStrategy::CommunityRewards,
        AlkaneId::new(1, 1),
        &vec![],
    );
    assert_eq!(d.burned, 999);
    assert!(d.allocations.is_empty());
}

#[test]
fn community_rewards_with_unusable_balances_burn_everything() {
    let zero = vec![Holder { id: AlkaneId::new(7, 1), balance: 0 }];
    let d = AMMIntegration::distribute_lp_tokens(500, LPDistributionStrategy::CommunityRewards, AlkaneId::new(1, 1), &zero);
    assert_eq!(d.burned, 500);
    assert!(d.allocations.is_empty());

    let overflowing = vec![
        Holder { id: AlkaneId::new(7, 1), balance: u128::MAX },
        Holder { id: AlkaneId::new(7, 2), balance: 1 },
    ];
    let d = AMMIntegration::distribute_lp_tokens(
        500,
        LPDistributionStrategy::CommunityRewards,
        AlkaneId::new(1, 1),
        &overflowing,
    );
    assert_eq!(d.burned, 500);
    assert!(d.allocations.is_empty());
}

#[test]
fn community_share_is_exact_for_large_balances() {
    let holders = vec![
        Holder { id: AlkaneId::new(7, 1), balance: u128::MAX / 2 },
        Holder { id: AlkaneId::new(7, 2), balance: u128::MAX / 2 },
    ];
    let d = AMMIntegration::distribute_lp_tokens(
        u128::MAX,
        LPDistributionStrategy::CommunityRewards,
        AlkaneId::new(1, 1),
        &holders,
    );
    let share = u128::MAX - (u128::MAX / 100 * 80 + (u128::MAX % 100) * 80 / 100);
    assert_eq!(d.allocations[0].amount, share / 2);
    assert_eq!(d.allocations[1].amount, share / 2);
    assert_eq!(d.burned, u128::MAX - 2 * (share / 2));
}

#[test]
fn lp_tokens_are_an_integer_square_root() {
    assert_eq!(AMMIntegration::calculate_lp_tokens(0, 5), 0);
    assert_eq!(AMMIntegration::calculate_lp_tokens(3, 3), 3);
    assert_eq!(AMMIntegration::calculate_lp_tokens(2, 4), 2);
    assert_eq!(AMMIntegration::calculate_lp_tokens(10, 10_000_000), 10_000);
    assert_eq!(AMMIntegration::calculate_lp_tokens(u128::MAX, u128::MAX), u128::MAX);
    let half = 1u128 << 64;
    assert_eq!(AMMIntegration::calculate_lp_tokens(half, half), half);
    assert_eq!(AMMIntegration::calculate_lp_tokens(half, half - 1), half - 1);
}

#[test]
fn strategy_codes() {
    assert_eq!(LPDistributionStrategy::from_code(0), LPDistributionStrategy::BurnAll);
    assert_eq!(LPDistributionStrategy::from_code(1), LPDistributionStrategy::CommunityRewards);
    assert_eq!(LPDistributionStrategy::from_code(2), LPDistributionStrategy::CreatorAllocation);
    assert_eq!(LPDistributionStrategy::from_code(3), LPDistributionStrategy::DAOGovernance);
    assert_eq!(LPDistributionStrategy::from_code(99), LPDistributionStrategy::BurnAll);
}

#[test]
fn pool_address_is_derived_from_both_legs() {
    let factory = AlkaneId::new(4, 65522);
    let a = AlkaneId::new(2, 1);
    let b = AlkaneId::new(2, 56801);
    // The packed sum is 8 << 64 | 122324: its high word is 8, and the whole of it,
    // 147573952589676535252, ends in 535252.
    assert_eq!(AMMIntegration::generate_pool_address(&factory, &a, &b), AlkaneId::new(8, 535252));
    assert!(!AMMIntegration::verify_pool_exists(&AlkaneId::new(0, 5)));
    assert!(!AMMIntegration::verify_pool_exists(&AlkaneId::new(5, 0)));
}

#[test]
fn graduation_refused_when_ineligible() {
    let mut curve = graduation_ready_curve();
    assert_eq!(curve.graduate(10, &vec![]), Err(CurveError::GraduationCriteriaNotMet));
    assert!(!curve.is_graduated());
}
