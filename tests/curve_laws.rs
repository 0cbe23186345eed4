use bonding_curve_system::amm_integration::LPDistributionStrategy;
use bonding_curve_system::bonding_curve::CurveCalculator;
use bonding_curve_system::token::{BondingCurveMessage, CallContext, CurveResponse};
use bonding_curve_system::{AlkaneId, AlkaneTransfer, BaseToken, BondingCurve, CurveError, CurveParams};

fn scenario_a() -> CurveParams {
    CurveParams {
        base_price: 1_000_000,
        growth_rate: 150,
        graduation_threshold: 10_000_000_000,
        base_token: BaseToken::BUSD,
        max_supply: 1_000_000_000,
    }
}

fn busd(value: u128) -> Vec<AlkaneTransfer> {
    vec![AlkaneTransfer { id: BaseToken::BUSD.alkane_id(), value }]
}

fn curve_with(threshold: u128, strategy: u128) -> BondingCurve {
    let mut curve = BondingCurve::new(AlkaneId::new(2, 1));
    curve
        .initialize(1, 0, 1, 1_000_000, 150, threshold, 0, 1_000_000_000, strategy, AlkaneId::new(1, 1000), 0)
        .unwrap();
    curve
}

#[test]
fn price_is_monotonic_on_samples() {
    let params = scenario_a();
    let mut last = 0u128;
    for s in 0..2000u128 {
        let p = CurveCalculator::price_at_supply(s, &params).unwrap();
        assert!(p >= last);
        last = p;
    }
}

#[test]
fn sell_is_ninety_nine_percent_of_buy() {
    let params = scenario_a();
    for (s, q) in [(0u128, 1u128), (0, 100), (500, 37), (10_000, 250)] {
        let buy = CurveCalculator::calculate_buy_price(s, q, &params).unwrap();
        let sell = CurveCalculator::calculate_sell_price(s + q, q, &params).unwrap();
        assert!(100 * sell <= 99 * buy);
        assert!(99 * buy <= 100 * sell + 99 * q);
        assert!(sell < buy);
    }
}

#[test]
fn buy_past_max_supply_fails() {
    let params = scenario_a();
    assert_eq!(
        CurveCalculator::calculate_buy_price(999_999_999, 2, &params),
        Err(CurveError::ExceedsMaxSupply)
    );
    assert!(CurveCalculator::calculate_buy_price(999_999_999, 1, &params).is_ok());
}

#[test]
fn quantity_for_payment_is_the_largest_affordable() {
    let curve = curve_with(10_000_000_000, 0);
    let params = scenario_a();
    for payment in [2_000_000u128, 5_000_000, 123_456_789] {
        let q = curve.calculate_tokens_for_base_amount(payment, &params).unwrap();
        let cost = CurveCalculator::calculate_buy_price(0, q, &params).unwrap();
        assert!(cost <= payment);
        let next = CurveCalculator::calculate_buy_price(0, q + 1, &params).unwrap();
        assert!(next > payment);
    }
    assert_eq!(
        curve.calculate_tokens_for_base_amount(999_999, &params),
        Err(CurveError::InsufficientPayment)
    );
}

#[test]
fn graduated_curve_refuses_trading() {
    let mut curve = curve_with(100_000_000, 0);
    let receipt = curve.buy_tokens(&busd(50_000_000), 1, 10, &vec![]).unwrap();
    assert!(receipt.graduated_pool.is_some());
    let supply = curve.current_supply();
    let reserves = curve.get_base_reserves();

    assert!(matches!(curve.buy_tokens(&busd(1_000_000), 0, 11, &vec![]), Err(CurveError::AlreadyGraduated)));
    assert_eq!(curve.sell_tokens(1, 0), Err(CurveError::AlreadyGraduated));
    assert_eq!(curve.graduate(12, &vec![]), Err(CurveError::AlreadyGraduated));
    assert_eq!(curve.graduate(13, &vec![]), Err(CurveError::AlreadyGraduated));
    assert!(curve.is_graduated());
    assert_eq!(curve.current_supply(), supply);
    assert_eq!(curve.get_base_reserves(), reserves);
}

#[test]
fn scenario_first_token_price() {
    let params = scenario_a();
    let cost = CurveCalculator::calculate_buy_price(0, 1, &params).unwrap();
    assert!(cost >= 1_000_000);
    assert!(cost < 2_000_000);
}

#[test]
fn scenario_convexity() {
    let params = scenario_a();
    let big = CurveCalculator::calculate_buy_price(0, 1000, &params).unwrap();
    let small = CurveCalculator::calculate_buy_price(0, 10, &params).unwrap();
    assert!(big > 100 * small);
}

#[test]
fn scenario_sell_whole_supply() {
    let mut curve = curve_with(10_000_000_000, 0);
    curve.buy_tokens(&busd(123_456_789), 1, 1, &vec![]).unwrap();
    let supply = curve.current_supply();
    assert!(supply > 0);
    assert_eq!(curve.get_sell_quote(supply + 1), Err(CurveError::InsufficientSupply));
    assert_eq!(curve.sell_tokens(supply + 1, 0), Err(CurveError::InsufficientSupply));
    let payout = curve.sell_tokens(supply, 0).unwrap();
    assert_eq!(payout.id, BaseToken::BUSD.alkane_id());
    assert_eq!(curve.current_supply(), 0);
    assert_eq!(curve.get_base_reserves(), 123_456_789 - payout.value);
}

#[test]
fn scenario_half_threshold_reserves_graduate() {
    let params = scenario_a();
    for supply in [0u128, 1, 1000, 999_999_999] {
        assert!(CurveCalculator::check_graduation_criteria(
            supply,
            params.graduation_threshold / 2,
            &params
        ));
    }
}

#[test]
fn scenario_burn_all_graduation() {
    let mut curve = curve_with(100_000_000, 0);
    curve.buy_tokens(&busd(50_000_000), 1, 10, &vec![]).unwrap();
    let record = curve.graduation.as_ref().unwrap();
    assert_eq!(record.strategy, LPDistributionStrategy::BurnAll);
    assert!(record.lp_tokens_total > 0);
    assert_eq!(record.distribution.burned, record.lp_tokens_total);
    assert!(record.distribution.allocations.is_empty());
}

#[test]
fn slippage_and_missing_payment() {
    let mut curve = curve_with(10_000_000_000, 0);
    assert!(matches!(
        curve.buy_tokens(&busd(5_000_000), 1_000_000, 1, &vec![]),
        Err(CurveError::SlippageExceeded)
    ));
    let frbtc = vec![AlkaneTransfer { id: BaseToken::FrBtc.alkane_id(), value: 5_000_000 }];
    assert!(matches!(curve.buy_tokens(&frbtc, 1, 1, &vec![]), Err(CurveError::InsufficientPayment)));
    assert_eq!(curve.current_supply(), 0);

    curve.buy_tokens(&busd(5_000_000), 1, 1, &vec![]).unwrap();
    let supply = curve.current_supply();
    assert_eq!(curve.sell_tokens(supply, u128::MAX), Err(CurveError::SlippageExceeded));
}

#[test]
fn sell_cannot_exceed_reserves() {
    let mut curve = curve_with(10_000_000_000, 0);
    curve.buy_tokens(&busd(5_000_000), 1, 1, &vec![]).unwrap();
    // Reserves drained by hand: the payout no longer fits.
    curve.ledger.base_reserves = 1;
    assert_eq!(curve.sell_tokens(1, 0), Err(CurveError::InsufficientReserves));
}

#[test]
fn initialize_only_once() {
    let mut curve = curve_with(10_000_000_000, 2);
    assert_eq!(
        curve.initialize(1, 0, 1, 1, 1, 1, 0, 1, 0, AlkaneId::new(1, 1), 0),
        Err(CurveError::AlreadyInitialized)
    );
    assert_eq!(curve.lp_strategy, LPDistributionStrategy::CreatorAllocation);
    assert_eq!(curve.get_name(), "\u{1}");
}

#[test]
fn curve_requests_are_dispatched() {
    let mut curve = BondingCurve::new(AlkaneId::new(2, 1));
    let context = CallContext {
        caller: AlkaneId::new(1, 1000),
        incoming: busd(5_000_000),
        current_block: 1,
        top_holders: vec![],
    };
    let init = BondingCurveMessage::Initialize {
        name_part1: 0x4e49_4f43,
        name_part2: 0,
        symbol: 0x43,
        base_price: 1_000_000,
        growth_rate: 150,
        graduation_threshold: 10_000_000_000,
        base_token_type: 0,
        max_supply: 1_000_000_000,
        lp_distribution_strategy: 0,
    };
    assert!(matches!(curve.handle_message(init, &context), Ok(CurveResponse::Initialized)));
    assert!(matches!(
        curve.handle_message(BondingCurveMessage::GetBuyQuote { token_amount: 10 }, &context),
        Ok(CurveResponse::Quote(10_075_000))
    ));
    assert!(matches!(
        curve.handle_message(BondingCurveMessage::BuyTokens { min_tokens_out: 1 }, &context),
        Ok(CurveResponse::Bought(_))
    ));
    assert!(matches!(
        curve.handle_message(BondingCurveMessage::IsGraduated, &context),
        Ok(CurveResponse::Flag(false))
    ));
    assert!(matches!(
        curve.handle_message(BondingCurveMessage::GetAmmPoolAddress, &context),
        Ok(CurveResponse::Amount(0))
    ));
    match curve.handle_message(BondingCurveMessage::GetName, &context) {
        Ok(CurveResponse::Text(name)) => assert_eq!(name, "COIN"),
        _ => panic!("expected the name"),
    }
    match curve.handle_message(BondingCurveMessage::GetCurveState, &context) {
        Ok(CurveResponse::State(state)) => {
            assert_eq!(state.current_supply, curve.current_supply());
            assert_eq!(state.base_reserves, 5_000_000);
            assert_eq!(state.token_symbol, "C");
        }
        _ => panic!("expected the state"),
    }
}
