use bonding_curve_system::constants::FACTORY_DEPLOYMENT_FEE;
use bonding_curve_system::factory::{FactoryMessage, FactoryResponse};
use bonding_curve_system::{
    trim, AlkaneId, AlkaneTransfer, BaseToken, BondingCurveFactory, BondingCurveSystem, CurveError,
    Factory, TokenLaunchParams,
};

fn string_to_u128(s: &str) -> u128 {
    let mut bytes = [0u8; 16];
    let s_bytes = s.as_bytes();
    let len = std::cmp::min(s_bytes.len(), 16);
    bytes[..len].copy_from_slice(&s_bytes[..len]);
    u128::from_le_bytes(bytes)
}

fn test_creator() -> AlkaneId {
    AlkaneId::new(1, 1000)
}

fn create_test_token_params() -> TokenLaunchParams {
    TokenLaunchParams {
        name_part1: string_to_u128("TEST"),
        name_part2: string_to_u128("COIN"),
        symbol: string_to_u128("TEST"),
        image_data: vec![0u8; 100],
        base_price: Some(4_000_000),
        growth_rate: Some(150),
        graduation_threshold: Some(6_900_000_000),
        max_supply: Some(1_000_000_000),
        base_token: BaseToken::BUSD,
        lp_distribution_strategy: 0,
    }
}

fn fee_payment(token: BaseToken, value: u128) -> AlkaneTransfer {
    AlkaneTransfer { id: token.alkane_id(), value }
}

#[test]
fn test_create_token_with_busd() {
    let mut factory = BondingCurveFactory::new();
    let incoming = vec![fee_payment(BaseToken::BUSD, FACTORY_DEPLOYMENT_FEE)];

    let result = factory.create_token(test_creator(), &incoming, create_test_token_params(), 0, 0);
    assert!(result.is_ok());
    let token_id = result.unwrap();

    assert_eq!(factory.get_token_count(), 1);

    let token_info = factory.get_token_info(&token_id).unwrap();
    assert_eq!(token_info.name, "TESTCOIN");
    assert_eq!(token_info.symbol, "TEST");
    assert_eq!(token_info.creator, test_creator());
    assert!(!token_info.is_graduated);
}

#[test]
fn test_create_token_with_frbtc() {
    let mut factory = BondingCurveFactory::new();
    let incoming = vec![fee_payment(BaseToken::FrBtc, FACTORY_DEPLOYMENT_FEE)];

    let mut params = create_test_token_params();
    params.base_token = BaseToken::FrBtc;

    let result = factory.create_token(test_creator(), &incoming, params, 0, 0);
    assert!(result.is_ok());

    let token_info = factory.get_token_info(&result.unwrap()).unwrap();
    assert_eq!(token_info.base_token, BaseToken::FrBtc);
}

#[test]
fn test_create_token_insufficient_fee() {
    let mut factory = BondingCurveFactory::new();
    let incoming = vec![fee_payment(BaseToken::BUSD, FACTORY_DEPLOYMENT_FEE / 2)];

    let result = factory.create_token(test_creator(), &incoming, create_test_token_params(), 0, 0);
    assert!(result.is_err());
    assert!(result.unwrap_err().message().contains("Insufficient factory fee"));
}

#[test]
fn test_create_token_with_custom_parameters() {
    let mut factory = BondingCurveFactory::new();
    let incoming = vec![fee_payment(BaseToken::BUSD, FACTORY_DEPLOYMENT_FEE)];

    let mut params = create_test_token_params();
    params.base_price = Some(10_000_000);
    params.growth_rate = Some(300);
    params.graduation_threshold = Some(10_000_000_000);
    params.max_supply = Some(500_000_000);
    params.lp_distribution_strategy = 1;

    let result = factory.create_token(test_creator(), &incoming, params, 0, 0);
    assert!(result.is_ok());

    let deployed = &factory.deployments[0];
    assert_eq!(deployed.params.base_price, 10_000_000);
    assert_eq!(deployed.params.growth_rate, 300);
    assert_eq!(deployed.params.graduation_threshold, 10_000_000_000);
    assert_eq!(deployed.params.max_supply, 500_000_000);
    assert_eq!(deployed.lp_distribution_strategy, 1);
}

#[test]
fn test_create_multiple_tokens() {
    let mut factory = BondingCurveFactory::new();
    let mut incoming = Vec::new();

    for i in 0..3 {
        incoming.push(fee_payment(BaseToken::BUSD, FACTORY_DEPLOYMENT_FEE));

        let mut params = create_test_token_params();
        params.name_part1 = string_to_u128(&format!("TOKEN{}", i));
        params.symbol = string_to_u128(&format!("TK{}", i));

        let result = factory.create_token(test_creator(), &incoming, params, 0, 0);
        assert!(result.is_ok());
    }

    assert_eq!(factory.get_token_count(), 3);

    let token_list = factory.get_token_list(0, 2);
    assert_eq!(token_list.len(), 2);

    let next_page = factory.get_token_list(2, 2);
    assert_eq!(next_page.len(), 1);
}

#[test]
fn test_invalid_token_parameters() {
    let mut factory = BondingCurveFactory::new();
    let incoming = vec![fee_payment(BaseToken::BUSD, FACTORY_DEPLOYMENT_FEE)];

    let mut params = create_test_token_params();
    params.name_part1 = 0;
    params.name_part2 = 0;
    let result = factory.create_token(test_creator(), &incoming, params, 0, 0);
    assert!(result.is_err());
    assert!(result.unwrap_err().message().contains("name cannot be empty"));

    let mut params = create_test_token_params();
    params.symbol = 0;
    let result = factory.create_token(test_creator(), &incoming, params, 0, 0);
    assert!(result.is_err());
    assert!(result.unwrap_err().message().contains("symbol cannot be empty"));

    let mut params = create_test_token_params();
    params.base_price = Some(500);
    let result = factory.create_token(test_creator(), &incoming, params, 0, 0);
    assert!(result.is_err());

    let mut params = create_test_token_params();
    params.growth_rate = Some(2000);
    let result = factory.create_token(test_creator(), &incoming, params, 0, 0);
    assert!(result.is_err());
}

#[test]
fn test_creator_token_tracking() {
    let mut factory = BondingCurveFactory::new();
    let creator = test_creator();
    let mut incoming = Vec::new();

    for i in 0..2 {
        incoming.push(fee_payment(BaseToken::BUSD, FACTORY_DEPLOYMENT_FEE));

        let mut params = create_test_token_params();
        params.name_part1 = string_to_u128(&format!("CREATOR{}", i));

        factory.create_token(creator, &incoming, params, 0, 0).unwrap();
    }

    let creator_tokens = factory.get_creator_tokens(&creator);
    assert_eq!(creator_tokens.len(), 2);
}

#[test]
fn test_token_id_generation() {
    let token_id_1 = BondingCurveFactory::generate_token_id(1);
    let token_id_2 = BondingCurveFactory::generate_token_id(2);

    assert_ne!(token_id_1, token_id_2);
    assert_eq!(token_id_1.tx, 1);
    assert_eq!(token_id_2.tx, 2);
}

#[test]
fn test_fee_collection() {
    let mut factory = BondingCurveFactory::new();
    let mut incoming = Vec::new();

    for base_token in [BaseToken::BUSD, BaseToken::FrBtc] {
        incoming.push(fee_payment(base_token, FACTORY_DEPLOYMENT_FEE));

        let mut params = create_test_token_params();
        params.base_token = base_token;

        factory.create_token(test_creator(), &incoming, params, 0, 0).unwrap();
    }

    assert_eq!(factory.collected_fees(BaseToken::BUSD), FACTORY_DEPLOYMENT_FEE);
    assert_eq!(factory.collected_fees(BaseToken::FrBtc), FACTORY_DEPLOYMENT_FEE);
}

#[test]
fn factory_fee_defaults_and_can_be_set() {
    let mut factory = BondingCurveFactory::new();
    assert_eq!(factory.get_factory_fee(), FACTORY_DEPLOYMENT_FEE);
    factory.set_factory_fee(42);
    assert_eq!(factory.get_factory_fee(), 42);
    factory.set_factory_fee(0);
    assert_eq!(factory.get_factory_fee(), FACTORY_DEPLOYMENT_FEE);
}

#[test]
fn launch_defaults_fill_in_curve_params() {
    let mut params = create_test_token_params();
    params.base_price = None;
    params.growth_rate = None;
    params.graduation_threshold = None;
    params.max_supply = None;
    let curve = BondingCurveFactory::params_to_curve_params(&params);
    assert_eq!(curve.base_price, 4_000_000);
    assert_eq!(curve.growth_rate, 150);
    assert_eq!(curve.graduation_threshold, 6_900_000_000);
    assert_eq!(curve.max_supply, 1_000_000_000);
    assert_eq!(BondingCurveFactory::validate_launch_params(&params), Ok(()));

    let defaults = TokenLaunchParams::default();
    assert_eq!(defaults.base_price, Some(4_000_000));
    assert_eq!(
        BondingCurveFactory::validate_launch_params(&defaults),
        Err(CurveError::EmptyTokenName)
    );
}

#[test]
fn launch_bounds_are_inclusive() {
    let mut params = create_test_token_params();
    params.base_price = Some(1_000);
    params.growth_rate = Some(1000);
    params.max_supply = Some(100_000_000_000);
    assert_eq!(BondingCurveFactory::validate_launch_params(&params), Ok(()));
    params.max_supply = Some(100_000_000_001);
    assert_eq!(
        BondingCurveFactory::validate_launch_params(&params),
        Err(CurveError::InvalidParameters)
    );
}

#[test]
fn graduation_status_is_recorded() {
    let mut factory = BondingCurveFactory::new();
    let incoming = vec![fee_payment(BaseToken::BUSD, FACTORY_DEPLOYMENT_FEE)];
    let id = factory.create_token(test_creator(), &incoming, create_test_token_params(), 5, 6).unwrap();
    let pool = AlkaneId::new(8, 9);
    assert_eq!(factory.update_graduation_status(&id, pool), Ok(()));
    let info = factory.get_token_info(&id).unwrap();
    assert!(info.is_graduated);
    assert_eq!(info.amm_pool(), Some(pool));
    assert_eq!(info.launch_block, 5);
    assert_eq!(
        factory.update_graduation_status(&AlkaneId::new(0, 9), pool),
        Err(CurveError::TokenNotFound)
    );
}

#[test]
fn factory_requests_are_dispatched() {
    let mut system = BondingCurveSystem::new();
    assert!(system.is_factory());
    let factory: &mut Factory = &mut system.factory;
    let incoming = vec![fee_payment(BaseToken::BUSD, FACTORY_DEPLOYMENT_FEE)];
    let created = factory
        .handle_factory_message(
            FactoryMessage::CreateToken { params: create_test_token_params() },
            test_creator(),
            &incoming,
            0,
            0,
        )
        .unwrap();
    assert!(matches!(created, FactoryResponse::Created(id) if id.tx == 1));
    let stats = factory
        .handle_factory_message(FactoryMessage::GetFactoryStats, test_creator(), &vec![], 0, 0)
        .unwrap();
    assert!(matches!(
        stats,
        FactoryResponse::Stats { total_tokens: 1, factory_fee: FACTORY_DEPLOYMENT_FEE }
    ));
    let missing = factory.handle_factory_message(
        FactoryMessage::GetTokenInfo { token_block: 0, token_tx: 7 },
        test_creator(),
        &vec![],
        0,
        0,
    );
    assert!(matches!(missing, Err(CurveError::TokenNotFound)));
}

#[test]
fn trim_drops_zero_bytes() {
    assert_eq!(trim(string_to_u128("TEST")), "TEST");
    assert_eq!(trim(0), "");
    assert_eq!(trim(0x41_00_42), "BA");
}
