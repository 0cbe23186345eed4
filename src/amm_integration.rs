//! Graduation of a curve to an AMM pool: pool seeding, LP token minting and the
//! distribution of LP tokens.
use crate::bonding_curve::{
    graduation_spec, percent_of, price_spec, CurveCalculator, ReserveLedger,
};
use crate::constants::{
    EMERGENCY_GRADUATION_BLOCKS, EMERGENCY_MIN_RESERVES, EMERGENCY_MIN_SUPPLY,
    MIN_LIQUIDITY_FOR_GRADUATION,
};
use crate::wide::{is_isqrt, isqrt_of_product, mul_div};
use vstd::arithmetic::div_mod::lemma_fundamental_div_mod;
use crate::{base_token_id, AlkaneId, AlkaneTransfer, BaseToken, CurveError, CurveParams};
use vstd::prelude::*;

verus! {

/// Block of the AMM factory proxy that receives graduated curves.
pub const OYL_FACTORY_BLOCK: u128 = 4;

/// Transaction index of the AMM factory proxy.
pub const OYL_FACTORY_TX: u128 = 65522;

/// Block of the address that receives the governance share of LP tokens.
pub const DAO_BLOCK: u128 = 100;

/// Transaction index of the governance address.
pub const DAO_TX: u128 = 1;

/// Token decimals used to convert base liquidity into a token amount at the spot price.
pub const TOKEN_DECIMALS_FACTOR: u128 = 1_000_000_000;

/// How the LP tokens minted at graduation are split between burning and recipients.
#[derive(Clone, Copy, Debug, PartialEq, Eq, Structural)]
pub enum LPDistributionStrategy {
    /// Burn every LP token: the liquidity is locked for good.
    BurnAll,
    /// Burn 80%, share 20% among the top holders in proportion to their holdings.
    CommunityRewards,
    /// Burn 90%, give 10% to the curve's creator.
    CreatorAllocation,
    /// Burn 80%, send 20% to the DAO.
    DAOGovernance,
}

pub open spec fn strategy_of_code(code: u8) -> LPDistributionStrategy {
    if code == 1 {
        LPDistributionStrategy::CommunityRewards
    } else if code == 2 {
        LPDistributionStrategy::CreatorAllocation
    } else if code == 3 {
        LPDistributionStrategy::DAOGovernance
    } else {
        LPDistributionStrategy::BurnAll
    }
}

impl LPDistributionStrategy {
    /// The strategy stored under `code`; unknown codes burn everything.
    pub fn from_code(code: u8) -> (r: LPDistributionStrategy)
        ensures
            r == strategy_of_code(code),
    {
        match code {
            1 => LPDistributionStrategy::CommunityRewards,
            2 => LPDistributionStrategy::CreatorAllocation,
            3 => LPDistributionStrategy::DAOGovernance,
            _ => LPDistributionStrategy::BurnAll,
        }
    }

    /// The percentage of LP tokens that the strategy burns.
    pub open spec fn burn_percent(self) -> int {
        match self {
            LPDistributionStrategy::BurnAll => 100,
            LPDistributionStrategy::CommunityRewards => 80,
            LPDistributionStrategy::CreatorAllocation => 90,
            LPDistributionStrategy::DAOGovernance => 80,
        }
    }
}

/// A holder of the curve's token, with the balance it holds.
#[derive(Clone, Copy, Debug, PartialEq, Eq, Structural)]
pub struct Holder {
    pub id: AlkaneId,
    pub balance: u128,
}

/// The sum of the holders' balances.
pub open spec fn balance_total(h: Seq<Holder>) -> int
    decreases h.len(),
{
    if h.len() == 0 {
        0
    } else {
        balance_total(h.drop_last()) + h.last().balance
    }
}

/// A prefix of the holders never holds more than all of them.
proof fn lemma_prefix_balance(h: Seq<Holder>, j: int)
    requires
        0 <= j <= h.len(),
    ensures
        0 <= balance_total(h.take(j)) <= balance_total(h),
    decreases h.len() - j,
{
    if j < h.len() {
        assert(h.take(j + 1).drop_last() =~= h.take(j));
        lemma_prefix_balance(h, j + 1);
    } else {
        assert(h.take(j) =~= h);
    }
    lemma_balance_nonnegative(h.take(j));
}

proof fn lemma_balance_nonnegative(h: Seq<Holder>)
    ensures
        balance_total(h) >= 0,
    decreases h.len(),
{
    if h.len() > 0 {
        lemma_balance_nonnegative(h.drop_last());
    }
}

/// LP tokens handed to one recipient.
#[derive(Clone, Copy, Debug, PartialEq, Eq, Structural)]
pub struct LpAllocation {
    pub recipient: AlkaneId,
    pub amount: u128,
}

/// The outcome of a distribution: what is burned and who receives the rest.
pub struct LpDistribution {
    pub burned: u128,
    pub allocations: Vec<LpAllocation>,
}

pub open spec fn allocated_total(s: Seq<LpAllocation>) -> int
    decreases s.len(),
{
    if s.len() == 0 {
        0
    } else {
        allocated_total(s.drop_last()) + s.last().amount
    }
}

/// The pool seed: `(token_liquidity, base_liquidity)`. All reserves are used; the token
/// side matches them at the spot price, but never more than half the maximum supply.
pub open spec fn pool_seed_spec(supply: int, reserves: int, params: CurveParams) -> (int, int) {
    let at_price = saturate(reserves * 1_000_000_000) / price_spec(params, supply);
    let half_supply = params.max_supply * 50 / 100;
    (if at_price < half_supply { at_price } else { half_supply }, reserves)
}

/// `x` clamped to what a `u128` holds.
pub open spec fn saturate(x: int) -> int {
    if x > u128::MAX {
        u128::MAX as int
    } else {
        x
    }
}

/// The packed form `block << 64 | tx` of an identity, within 128 bits.
pub open spec fn id_hash(id: AlkaneId) -> u128 {
    (id.block << 64u128) | id.tx
}

/// The pool address derived from the factory and both pool legs.
pub open spec fn pool_address_spec(factory: AlkaneId, a: AlkaneId, b: AlkaneId) -> AlkaneId {
    let combined = id_hash(factory).wrapping_add(id_hash(a)).wrapping_add(id_hash(b));
    AlkaneId { block: (combined >> 64u128) % 1000000, tx: combined % 1000000 }
}

/// `d` splits `total` LP tokens as `strategy` prescribes: the strategy's share is burned,
/// the rest goes to its recipients, and whatever cannot be handed out is burned too.
pub open spec fn distribution_spec(
    d: LpDistribution,
    total: int,
    strategy: LPDistributionStrategy,
    creator: AlkaneId,
    holders: Seq<Holder>,
) -> bool {
    let burn = total * strategy.burn_percent() / 100;
    let rest = total - burn;
    &&& d.burned + allocated_total(d.allocations@) == total
    &&& match strategy {
        LPDistributionStrategy::BurnAll => d.burned == total && d.allocations@.len() == 0,
        LPDistributionStrategy::CreatorAllocation => d.burned == burn && d.allocations@ == seq![
            LpAllocation { recipient: creator, amount: rest as u128 },
        ],
        LPDistributionStrategy::DAOGovernance => d.burned == burn && d.allocations@ == seq![
            LpAllocation { recipient: AlkaneId { block: DAO_BLOCK, tx: DAO_TX }, amount: rest as u128 },
        ],
        LPDistributionStrategy::CommunityRewards => {
            let weight = balance_total(holders);
            if holders.len() == 0 || weight == 0 || weight > u128::MAX {
                d.burned == total && d.allocations@.len() == 0
            } else {
                &&& d.allocations@.len() == holders.len()
                &&& forall|i: int|
                    0 <= i < holders.len() ==> #[trigger] d.allocations@[i] == (LpAllocation {
                        recipient: holders[i].id,
                        amount: (rest * holders[i].balance / weight) as u128,
                    })
            }
        },
    }
}

/// Whether a stalled curve may graduate by the emergency path.
pub open spec fn emergency_spec(current_block: int, launch_block: int, supply: int, reserves: int) -> bool {
    current_block >= launch_block + EMERGENCY_GRADUATION_BLOCKS && supply > EMERGENCY_MIN_SUPPLY
        && reserves > EMERGENCY_MIN_RESERVES
}

/// The two legs that seed the pool: the curve's own token and the base token.
pub open spec fn pool_deposits_spec(
    myself: AlkaneId,
    base_token: BaseToken,
    token_liquidity: u128,
    base_liquidity: u128,
) -> Seq<AlkaneTransfer> {
    seq![
        AlkaneTransfer { id: myself, value: token_liquidity },
        AlkaneTransfer { id: base_token_id(base_token), value: base_liquidity },
    ]
}

/// A pool just created and seeded.
pub struct PoolCreation {
    pub pool_address: AlkaneId,
    pub lp_tokens: u128,
    /// The transfers into the pool.
    pub deposits: Vec<AlkaneTransfer>,
}

/// What a successful graduation produced.
pub struct GraduationRecord {
    pub pool_address: AlkaneId,
    /// The transfers that seeded the pool.
    pub pool_deposits: Vec<AlkaneTransfer>,
    pub token_liquidity: u128,
    pub base_liquidity: u128,
    pub lp_tokens_total: u128,
    pub strategy: LPDistributionStrategy,
    pub distribution: LpDistribution,
    pub graduation_block: u64,
}

/// The identity of the AMM factory proxy.
pub open spec fn factory_proxy() -> AlkaneId {
    AlkaneId { block: OYL_FACTORY_BLOCK, tx: OYL_FACTORY_TX }
}

/// AMM integration: pool seeding, LP minting and graduation checks.
pub struct AMMIntegration;

impl AMMIntegration {
    /// Token and base liquidity for the new pool, preserving the curve's spot price.
    pub fn calculate_pool_ratios(
        token_supply: u128,
        base_reserves: u128,
        params: &CurveParams,
    ) -> (r: (u128, u128))
        requires
            params.base_price > 0,
        ensures
            r.0 == pool_seed_spec(token_supply as int, base_reserves as int, *params).0,
            r.1 == pool_seed_spec(token_supply as int, base_reserves as int, *params).1,
            r.0 <= params.max_supply / 2,
    {
        let base_liquidity = base_reserves;
        let current_price = CurveCalculator::price(token_supply, params);
        proof {
            CurveCalculator::lemma_price_positive(*params, token_supply as int);
        }
        let scaled = match base_liquidity.checked_mul(TOKEN_DECIMALS_FACTOR) {
            Some(v) => v,
            None => u128::MAX,
        };
        let token_liquidity = scaled / current_price;
        let max_token_liquidity = percent_of(params.max_supply, 50);
        let final_token_liquidity = if token_liquidity < max_token_liquidity {
            token_liquidity
        } else {
            max_token_liquidity
        };
        (final_token_liquidity, base_liquidity)
    }

    /// Whether the pool seed fits what the curve holds and the reserves reach the
    /// minimum liquidity for graduation.
    pub fn check_liquidity_sufficiency(
        token_supply: u128,
        base_reserves: u128,
        params: &CurveParams,
    ) -> (r: bool)
        requires
            params.base_price > 0,
        ensures
            r == ({
                let seed = pool_seed_spec(token_supply as int, base_reserves as int, *params);
                seed.0 <= token_supply && seed.1 <= base_reserves && seed.1
                    >= MIN_LIQUIDITY_FOR_GRADUATION
            }),
    {
        let (token_needed, base_needed) = Self::calculate_pool_ratios(
            token_supply,
            base_reserves,
            params,
        );
        token_needed <= token_supply && base_needed <= base_reserves && base_needed
            >= MIN_LIQUIDITY_FOR_GRADUATION
    }

    /// The escape hatch for stalled curves: long enough since launch, and supply and
    /// reserves above floors far below those of normal graduation.
    pub fn check_emergency_graduation(
        current_block: u64,
        launch_block: u64,
        token_supply: u128,
        base_reserves: u128,
    ) -> (r: bool)
        ensures
            r == (current_block >= launch_block + EMERGENCY_GRADUATION_BLOCKS && token_supply
                > EMERGENCY_MIN_SUPPLY && base_reserves > EMERGENCY_MIN_RESERVES),
    {
        if current_block < launch_block {
            return false;
        }
        let elapsed = current_block - launch_block;
        elapsed >= EMERGENCY_GRADUATION_BLOCKS && token_supply > EMERGENCY_MIN_SUPPLY
            && base_reserves > EMERGENCY_MIN_RESERVES
    }

    /// Deterministic pool address from the factory and the two tokens of the pool.
    pub fn generate_pool_address(factory: &AlkaneId, token_a: &AlkaneId, token_b: &AlkaneId) -> (r:
        AlkaneId)
        ensures
            r == pool_address_spec(*factory, *token_a, *token_b),
    {
        let factory_hash = (factory.block << 64u128) | factory.tx;
        let token_a_hash = (token_a.block << 64u128) | token_a.tx;
        let token_b_hash = (token_b.block << 64u128) | token_b.tx;
        let combined = factory_hash.wrapping_add(token_a_hash).wrapping_add(token_b_hash);
        AlkaneId { block: (combined >> 64u128) % 1000000, tx: combined % 1000000 }
    }

    /// A pool handle is valid when both parts of its identity are non-zero.
    pub fn verify_pool_exists(pool_address: &AlkaneId) -> (r: bool)
        ensures
            r == (pool_address.block > 0 && pool_address.tx > 0),
    {
        pool_address.block > 0 && pool_address.tx > 0
    }

    /// LP tokens minted for a constant-product pool: the integer square root of the
    /// product of both legs.
    pub fn calculate_lp_tokens(token_amount: u128, base_amount: u128) -> (r: u128)
        ensures
            is_isqrt(r as int, token_amount * base_amount),
    {
        isqrt_of_product(token_amount, base_amount)
    }

    /// Splits the LP tokens minted at graduation between burning and recipients.
    pub fn distribute_lp_tokens(
        total_lp_tokens: u128,
        strategy: LPDistributionStrategy,
        creator: AlkaneId,
        top_holders: &Vec<Holder>,
    ) -> (r: LpDistribution)
        ensures
            distribution_spec(r, total_lp_tokens as int, strategy, creator, top_holders@),
    {
        match strategy {
            LPDistributionStrategy::BurnAll => {
                let allocations: Vec<LpAllocation> = Vec::new();
                assert(allocated_total(allocations@) == 0);
                LpDistribution { burned: total_lp_tokens, allocations }
            },
            LPDistributionStrategy::CreatorAllocation => {
                let burn_amount = percent_of(total_lp_tokens, 90);
                let mut allocations = Vec::new();
                allocations.push(
                    LpAllocation { recipient: creator, amount: total_lp_tokens - burn_amount },
                );
                proof {
                    assert(allocations@ =~= seq![LpAllocation { recipient: creator, amount: (total_lp_tokens - burn_amount) as u128 }]);
                    assert(allocations@.drop_last() =~= Seq::<LpAllocation>::empty());
                    assert(allocated_total(allocations@.drop_last()) == 0);
                }
                LpDistribution { burned: burn_amount, allocations }
            },
            LPDistributionStrategy::DAOGovernance => {
                let burn_amount = percent_of(total_lp_tokens, 80);
                let mut allocations = Vec::new();
                allocations.push(
                    LpAllocation {
                        recipient: AlkaneId::new(DAO_BLOCK, DAO_TX),
                        amount: total_lp_tokens - burn_amount,
                    },
                );
                proof {
                    assert(allocations@.drop_last() =~= Seq::<LpAllocation>::empty());
                    assert(allocated_total(allocations@.drop_last()) == 0);
                }
                LpDistribution { burned: burn_amount, allocations }
            },
            LPDistributionStrategy::CommunityRewards => {
                let burn_amount = percent_of(total_lp_tokens, 80);
                let share = total_lp_tokens - burn_amount;
                let n = top_holders.len();
                let mut weight: u128 = 0;
                let mut i: usize = 0;
                let mut overflow = false;
                while i < n
                    invariant
                        n == top_holders@.len(),
                        0 <= i <= n,
                        !overflow ==> weight == balance_total(top_holders@.take(i as int)),
                        overflow ==> balance_total(top_holders@) > u128::MAX,
                    decreases n - i,
                {
                    proof {
                        assert(top_holders@.take(i + 1).drop_last() =~= top_holders@.take(i as int));
                        lemma_prefix_balance(top_holders@, i + 1);
                    }
                    if !overflow {
                        match weight.checked_add(top_holders[i].balance) {
                            Some(w) => weight = w,
                            None => overflow = true,
                        }
                    }
                    i = i + 1;
                }
                proof {
                    assert(top_holders@.take(n as int) =~= top_holders@);
                }
                if n == 0 || overflow || weight == 0 {
                    let allocations: Vec<LpAllocation> = Vec::new();
                    assert(allocated_total(allocations@) == 0);
                    return LpDistribution { burned: total_lp_tokens, allocations };
                }
                let mut allocations: Vec<LpAllocation> = Vec::new();
                let mut given: u128 = 0;
                let mut i: usize = 0;
                while i < n
                    invariant
                        n == top_holders@.len(),
                        0 <= i <= n,
                        weight == balance_total(top_holders@),
                        weight > 0,
                        share <= total_lp_tokens,
                        allocations@.len() == i,
                        forall|j: int|
                            0 <= j < i ==> #[trigger] allocations@[j] == (LpAllocation {
                                recipient: top_holders@[j].id,
                                amount: (share * top_holders@[j].balance / (weight as int)) as u128,
                            }),
                        given == allocated_total(allocations@),
                        given * weight <= share * balance_total(top_holders@.take(i as int)),
                    decreases n - i,
                {
                    let h = top_holders[i];
                    let ghost before = allocations@;
                    let ghost prefix = balance_total(top_holders@.take(i as int));
                    proof {
                        assert(top_holders@.take(i + 1).drop_last() =~= top_holders@.take(i as int));
                        lemma_prefix_balance(top_holders@, i + 1);
                        lemma_prefix_balance(top_holders@, i as int);
                        assert(share * h.balance / (weight as int) <= share) by (nonlinear_arith)
                            requires
                                h.balance <= weight,
                                weight > 0,
                                share >= 0,
                        ;
                    }
                    let amount = mul_div(share, h.balance, weight);
                    proof {
                        lemma_fundamental_div_mod(share * h.balance, weight as int);
                        assert(amount * weight <= share * h.balance) by (nonlinear_arith)
                            requires
                                amount == share * h.balance / (weight as int),
                                share * h.balance == weight * (share * h.balance / (weight as int))
                                    + (share * h.balance) % (weight as int),
                                (share * h.balance) % (weight as int) >= 0,
                        ;
                        assert((given + amount) * weight <= share * (prefix + h.balance)) by (nonlinear_arith)
                            requires
                                given * weight <= share * prefix,
                                amount * weight <= share * h.balance,
                        ;
                        assert((given + amount) * weight <= share * weight) by (nonlinear_arith)
                            requires
                                (given + amount) * weight <= share * (prefix + h.balance),
                                prefix + h.balance <= weight,
                                share >= 0,
                        ;
                        assert(given + amount <= share) by (nonlinear_arith)
                            requires
                                (given + amount) * weight <= share * weight,
                                weight > 0,
                        ;
                    }
                    allocations.push(LpAllocation { recipient: h.id, amount });
                    proof {
                        assert(allocations@.drop_last() =~= before);
                    }
                    given = given + amount;
                    i = i + 1;
                }
                proof {
                    assert(top_holders@.take(n as int) =~= top_holders@);
                    assert(given <= share) by (nonlinear_arith)
                        requires
                            given * weight <= share * weight,
                            weight > 0,
                    ;
                }
                LpDistribution { burned: total_lp_tokens - given, allocations }
            },
        }
    }
    /// Migrates the curve to an AMM pool, all or nothing.
    ///
    /// Refused when the curve already graduated, or when neither the graduation
    /// criteria nor the emergency path hold. Otherwise the pool is seeded with all
    /// reserves and the matching token amount, its address checked, LP tokens minted
    /// and distributed, and the ledger flipped to graduated. On any error the ledger
    /// is left as it was.
    pub fn graduate_to_amm(
        ledger: &mut ReserveLedger,
        params: &CurveParams,
        myself: AlkaneId,
        creator: AlkaneId,
        strategy: LPDistributionStrategy,
        top_holders: &Vec<Holder>,
        current_block: u64,
        launch_block: u64,
    ) -> (r: Result<GraduationRecord, CurveError>)
        requires
            params.base_price > 0,
        ensures
            old(ledger).graduated ==> r == Err::<GraduationRecord, CurveError>(
                CurveError::AlreadyGraduated,
            ),
            r is Err ==> *final(ledger) == *old(ledger),
            !old(ledger).graduated ==> ({
                let eligible = graduation_spec(
                    *params,
                    old(ledger).current_supply as int,
                    old(ledger).base_reserves as int,
                ) || emergency_spec(
                    current_block as int,
                    launch_block as int,
                    old(ledger).current_supply as int,
                    old(ledger).base_reserves as int,
                );
                let pool = pool_address_spec(
                    factory_proxy(),
                    myself,
                    base_token_id(params.base_token),
                );
                let seed = pool_seed_spec(
                    old(ledger).current_supply as int,
                    old(ledger).base_reserves as int,
                    *params,
                );
                &&& !eligible ==> r == Err::<GraduationRecord, CurveError>(
                    CurveError::GraduationCriteriaNotMet,
                )
                &&& eligible && !(pool.block > 0 && pool.tx > 0) ==> r == Err::<
                    GraduationRecord,
                    CurveError,
                >(CurveError::PoolCreationFailed)
                &&& eligible && pool.block > 0 && pool.tx > 0 ==> r is Ok
            }),
            r matches Ok(rec) ==> {
                &&& rec.pool_address == pool_address_spec(
                    factory_proxy(),
                    myself,
                    base_token_id(params.base_token),
                )
                &&& rec.token_liquidity == pool_seed_spec(
                    old(ledger).current_supply as int,
                    old(ledger).base_reserves as int,
                    *params,
                ).0
                &&& rec.base_liquidity == old(ledger).base_reserves
                &&& rec.pool_deposits@ == pool_deposits_spec(
                    myself,
                    params.base_token,
                    rec.token_liquidity,
                    rec.base_liquidity,
                )
                &&& is_isqrt(
                    rec.lp_tokens_total as int,
                    rec.token_liquidity * rec.base_liquidity,
                )
                &&& rec.strategy == strategy
                &&& distribution_spec(
                    rec.distribution,
                    rec.lp_tokens_total as int,
                    strategy,
                    creator,
                    top_holders@,
                )
                &&& rec.graduation_block == current_block
                &&& *final(ledger) == (ReserveLedger {
                    graduated: true,
                    graduation_block: Some(current_block),
                    ..*old(ledger)
                })
            },
    {
        if CurveCalculator::is_graduated(ledger) {
            return Err(CurveError::AlreadyGraduated);
        }
        let token_supply = ledger.current_supply;
        let base_reserves = ledger.base_reserves;
        if !CurveCalculator::check_graduation_criteria(token_supply, base_reserves, params)
            && !Self::check_emergency_graduation(
            current_block,
            launch_block,
            token_supply,
            base_reserves,
        ) {
            return Err(CurveError::GraduationCriteriaNotMet);
        }
        let (token_liquidity, base_liquidity) = Self::calculate_pool_ratios(
            token_supply,
            base_reserves,
            params,
        );
        let created = match Self::create_oyl_pool_atomic(
            myself,
            params.base_token,
            token_liquidity,
            base_liquidity,
        ) {
            Ok(created) => created,
            Err(e) => return Err(e),
        };
        let pool_address = created.pool_address;
        let lp_tokens_total = created.lp_tokens;
        let distribution = Self::distribute_lp_tokens(
            lp_tokens_total,
            strategy,
            creator,
            top_holders,
        );
        CurveCalculator::set_graduated(ledger);
        ledger.graduation_block = Some(current_block);
        Ok(
            GraduationRecord {
                pool_address,
                pool_deposits: created.deposits,
                token_liquidity,
                base_liquidity,
                lp_tokens_total,
                strategy,
                distribution,
                graduation_block: current_block,
            },
        )
    }
    /// Creates the pool through the AMM factory and seeds it with both legs at once:
    /// the pool address is derived from the factory and the two tokens, refused unless
    /// valid; then `token_liquidity` of the curve's own token and `base_liquidity` of the
    /// base token go to the pool, which mints `isqrt(token_liquidity * base_liquidity)`
    /// LP tokens.
    pub fn create_oyl_pool_atomic(
        myself: AlkaneId,
        base_token: BaseToken,
        token_liquidity: u128,
        base_liquidity: u128,
    ) -> (r: Result<PoolCreation, CurveError>)
        ensures
            ({
                let pool = pool_address_spec(factory_proxy(), myself, base_token_id(base_token));
                &&& !(pool.block > 0 && pool.tx > 0) ==> r == Err::<PoolCreation, CurveError>(
                    CurveError::PoolCreationFailed,
                )
                &&& pool.block > 0 && pool.tx > 0 ==> (r matches Ok(created) && created.pool_address
                    == pool && is_isqrt(created.lp_tokens as int, token_liquidity * base_liquidity)
                    && created.deposits@ == pool_deposits_spec(
                    myself,
                    base_token,
                    token_liquidity,
                    base_liquidity,
                ))
            }),
    {
        let factory = AlkaneId::new(OYL_FACTORY_BLOCK, OYL_FACTORY_TX);
        let pool_address = Self::generate_pool_address(&factory, &myself, &base_token.alkane_id());
        if !Self::verify_pool_exists(&pool_address) {
            return Err(CurveError::PoolCreationFailed);
        }
        let mut deposits: Vec<AlkaneTransfer> = Vec::new();
        deposits.push(AlkaneTransfer { id: myself, value: token_liquidity });
        deposits.push(AlkaneTransfer { id: base_token.alkane_id(), value: base_liquidity });
        let lp_tokens = Self::calculate_lp_tokens(token_liquidity, base_liquidity);
        proof {
            assert(deposits@ =~= pool_deposits_spec(myself, base_token, token_liquidity, base_liquidity));
        }
        Ok(PoolCreation { pool_address, lp_tokens, deposits })
    }
}

} // verus!
