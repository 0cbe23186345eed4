//! The bonding-curve token: one curve's parameters, ledger and lifecycle.
use crate::amm_integration::{AMMIntegration, GraduationRecord, Holder, LPDistributionStrategy};
use crate::amm_integration::{
    distribution_spec, emergency_spec, factory_proxy, pool_address_spec, pool_seed_spec,
};
use crate::bonding_curve::{
    buy_spec, graduation_spec, price_spec, sell_spec, CurveCalculator, ReserveLedger, PRICE_CAP,
};
use crate::{
    ascii_chars, base_token_id, is_ascii, lossy_utf8, trim_spec, AlkaneId, AlkaneTransfer, BaseToken, CurveError,
    CurveParams, TokenName,
};
use vstd::prelude::*;

verus! {

/// Whether buying `q` tokens at supply `s` costs at most `payment`.
pub open spec fn affordable(params: CurveParams, s: int, q: int, payment: int) -> bool {
    buy_spec(params, s, q) matches Ok(c) && c <= payment
}

/// The value of the first transfer of `token` in `incoming`, if any.
pub open spec fn base_payment(incoming: Seq<AlkaneTransfer>, token: AlkaneId) -> Option<u128>
    decreases incoming.len(),
{
    if incoming.len() == 0 {
        None
    } else if incoming[0].id == token {
        Some(incoming[0].value)
    } else {
        base_payment(incoming.drop_first(), token)
    }
}

/// Scanning from `i` finds what scanning from the start finds, when nothing before
/// `i` matched.
proof fn lemma_base_payment_skip(incoming: Seq<AlkaneTransfer>, token: AlkaneId, i: int)
    requires
        0 <= i <= incoming.len(),
        forall|j: int| 0 <= j < i ==> incoming[j].id != token,
    ensures
        base_payment(incoming, token) == base_payment(incoming.subrange(i, incoming.len() as int), token),
    decreases i,
{
    if i > 0 {
        lemma_base_payment_skip(incoming.drop_first(), token, i - 1);
        assert(incoming.drop_first().subrange(i - 1, incoming.len() - 1) =~= incoming.subrange(
            i,
            incoming.len() as int,
        ));
    } else {
        assert(incoming.subrange(0, incoming.len() as int) =~= incoming);
    }
}

/// On a curve whose prices never fall, a quantity too dear for `payment` stays too
/// dear as it grows.
pub proof fn lemma_unaffordable_grows(params: CurveParams, s: nat, q1: nat, q2: nat, payment: int)
    requires
        params.base_price <= PRICE_CAP,
        params.growth_rate <= 1250,
        1 <= q1 <= q2,
        !affordable(params, s as int, q1 as int, payment),
    ensures
        !affordable(params, s as int, q2 as int, payment),
{
    if s + q2 <= params.max_supply {
        CurveCalculator::lemma_price_monotonic(params, s + q1, s + q2);
        let sum1 = price_spec(params, s as int) + price_spec(params, s + q1 as int);
        let sum2 = price_spec(params, s as int) + price_spec(params, s + q2 as int);
        assert(sum1 <= sum2);
        if sum2 <= u128::MAX {
            let a1 = sum1 / 2;
            let a2 = sum2 / 2;
            assert(a1 <= a2);
            crate::bonding_curve::CurveCalculator::lemma_price_nonnegative(params, s as int);
            crate::bonding_curve::CurveCalculator::lemma_price_nonnegative(params, s + q1 as int);
            assert(a1 * q1 <= a2 * q2) by (nonlinear_arith)
                requires
                    0 <= a1 <= a2,
                    0 <= q1 <= q2,
            ;
        }
    }
}

/// What `initialize` promises, from the curve before the call to the curve after it.
pub open spec fn initialize_post(
    before: BondingCurve,
    after: BondingCurve,
    name_part1: u128,
    name_part2: u128,
    symbol: u128,
    base_price: u128,
    growth_rate: u128,
    graduation_threshold: u128,
    base_token_type: u128,
    max_supply: u128,
    lp_distribution_strategy: u128,
    creator: AlkaneId,
    launch_block: u64,
    r: Result<(), CurveError>,
) -> bool {
    &&& (before.initialized ==> r == Err::<(), CurveError>(CurveError::AlreadyInitialized))
    &&& (!before.initialized ==> (r == Err::<(), CurveError>(CurveError::InvalidParameters)
        <==> (base_token_type > 1 || lp_distribution_strategy > 3 || base_price == 0
        || growth_rate == 0 || max_supply == 0 || max_supply
        < before.ledger.current_supply)))
    &&& (!before.initialized && !(base_token_type > 1 || lp_distribution_strategy > 3
        || base_price == 0 || growth_rate == 0 || max_supply == 0 || max_supply
        < before.ledger.current_supply) ==> r is Ok)
    &&& (r is Err ==> after == before)
    &&& (r is Ok ==> {
        &&& after.initialized
        &&& after.params == (CurveParams {
            base_price,
            growth_rate,
            graduation_threshold,
            base_token: if base_token_type == 0 {
                BaseToken::BUSD
            } else {
                BaseToken::FrBtc
            },
            max_supply,
        })
        &&& after.name == TokenName { part1: name_part1, part2: name_part2 }
        &&& after.symbol == symbol
        &&& after.lp_strategy == crate::amm_integration::strategy_of_code(
            lp_distribution_strategy as u8,
        )
        &&& after.ledger.base_reserves == 0
        &&& after.ledger.token_reserves == 0
        &&& after.ledger.current_supply == before.ledger.current_supply
        &&& after.ledger.graduated == before.ledger.graduated
        &&& after.creator == creator
        &&& after.launch_block == launch_block
        &&& after.myself == before.myself
    })
}

/// What `buy_tokens` promises, from the curve before the call to the curve after it.
pub open spec fn buy_tokens_post(
    before: BondingCurve,
    after: BondingCurve,
    incoming: Seq<AlkaneTransfer>,
    min_tokens_out: u128,
    current_block: u64,
    top_holders: Seq<Holder>,
    r: Result<BuyReceipt, CurveError>,
) -> bool {
    &&& (before.ledger.graduated ==> r == Err::<BuyReceipt, CurveError>(
        CurveError::AlreadyGraduated,
    ))
    &&& (r is Err ==> after == before)
    &&& (!before.ledger.graduated ==> ({
        let s = before.ledger.current_supply as int;
        let room = before.params.max_supply - s;
        let payment = base_payment(incoming, base_token_id(before.params.base_token));
        &&& payment is None ==> r == Err::<BuyReceipt, CurveError>(CurveError::InsufficientPayment)
        &&& r == Err::<BuyReceipt, CurveError>(CurveError::InsufficientPayment) ==> payment is None || !(room
            >= 1 && affordable(before.params, s, 1, payment->Some_0 as int))
        &&& r == Err::<BuyReceipt, CurveError>(CurveError::ArithmeticOverflow) ==> payment is Some
            && before.ledger.base_reserves + payment->Some_0 > u128::MAX
        &&& (payment matches Some(p) && room >= 1 && affordable(
            before.params,
            s,
            1,
            p as int,
        ) && min_tokens_out <= 1 && before.ledger.base_reserves + p <= u128::MAX)
            ==> r is Ok
        &&& before.params.base_price <= PRICE_CAP && before.params.growth_rate <= 1250
            ==> {
            &&& r == Err::<BuyReceipt, CurveError>(CurveError::SlippageExceeded) ==> (
            payment matches Some(p) && forall|q2: nat|
                q2 >= min_tokens_out ==> !#[trigger] affordable(
                    before.params,
                    s,
                    q2 as int,
                    p as int,
                ))
            &&& (payment matches Some(p) && before.ledger.base_reserves + p <= u128::MAX
                && exists|q2: nat|
                q2 >= 1 && q2 >= min_tokens_out && #[trigger] affordable(
                    before.params,
                    s,
                    q2 as int,
                    p as int,
                )) ==> r is Ok
        }
        &&& r is Err ==> (r->Err_0 == CurveError::InsufficientPayment || r->Err_0
            == CurveError::SlippageExceeded || r->Err_0 == CurveError::ArithmeticOverflow)
        &&& (payment matches Some(p) && room >= 1 && affordable(
            before.params,
            s,
            1,
            p as int,
        )) ==> r != Err::<BuyReceipt, CurveError>(CurveError::InsufficientPayment)
        &&& r == Err::<BuyReceipt, CurveError>(CurveError::SlippageExceeded) ==> (
        payment matches Some(p) && exists|q: nat|
            1 <= q < min_tokens_out && #[trigger] affordable(
                before.params,
                s,
                q as int,
                p as int,
            ) && !affordable(before.params, s, q + 1 as int, p as int))
        &&& r matches Ok(receipt) ==> {
            let q = receipt.minted.value;
            let p = payment->Some_0;
            let pool = pool_address_spec(
                factory_proxy(),
                before.myself,
                base_token_id(before.params.base_token),
            );
            &&& receipt.graduated_pool == if graduation_spec(
                before.params,
                s + q,
                before.ledger.base_reserves + p,
            ) && pool.block > 0 && pool.tx > 0 {
                Some(pool)
            } else {
                None::<AlkaneId>
            }
            &&& payment is Some
            &&& receipt.minted.id == before.myself
            &&& q >= min_tokens_out
            &&& 1 <= q <= room
            &&& affordable(before.params, s, q as int, p as int)
            &&& !affordable(before.params, s, q + 1, p as int)
            &&& after.ledger.current_supply == s + q
            &&& after.ledger.base_reserves == before.ledger.base_reserves + p
            &&& after.ledger.graduated == receipt.graduated_pool.is_some()
            &&& after.params == before.params
        }
    }))
}

/// What `sell_tokens` promises, from the curve before the call to the curve after it.
pub open spec fn sell_tokens_post(
    before: BondingCurve,
    after: BondingCurve,
    token_amount: u128,
    min_base_out: u128,
    r: Result<AlkaneTransfer, CurveError>,
) -> bool {
    &&& (before.ledger.graduated ==> r == Err::<AlkaneTransfer, CurveError>(
        CurveError::AlreadyGraduated,
    ))
    &&& (r is Err ==> after == before)
    &&& (!before.ledger.graduated ==> match sell_spec(
        before.params,
        before.ledger.current_supply as int,
        token_amount as int,
    ) {
        Err(e) => r == Err::<AlkaneTransfer, CurveError>(e),
        Ok(payout) => if payout < min_base_out {
            r == Err::<AlkaneTransfer, CurveError>(CurveError::SlippageExceeded)
        } else if payout > before.ledger.base_reserves {
            r == Err::<AlkaneTransfer, CurveError>(CurveError::InsufficientReserves)
        } else {
            &&& r == Ok::<AlkaneTransfer, CurveError>(
                AlkaneTransfer {
                    id: base_token_id(before.params.base_token),
                    value: payout,
                },
            )
            &&& after.ledger == (ReserveLedger {
                current_supply: (before.ledger.current_supply - token_amount) as u128,
                base_reserves: (before.ledger.base_reserves - payout) as u128,
                ..before.ledger
            })
            &&& after.params == before.params
            &&& after.graduation == before.graduation
        },
    })
}

/// What `graduate` promises, from the curve before the call to the curve after it.
pub open spec fn graduate_post(
    before: BondingCurve,
    after: BondingCurve,
    current_block: u64,
    top_holders: Seq<Holder>,
    r: Result<AlkaneId, CurveError>,
) -> bool {
    &&& (before.ledger.graduated ==> r == Err::<AlkaneId, CurveError>(
        CurveError::AlreadyGraduated,
    ))
    &&& (r is Err ==> after == before)
    &&& (!before.ledger.graduated ==> ({
        let eligible = graduation_spec(
            before.params,
            before.ledger.current_supply as int,
            before.ledger.base_reserves as int,
        ) || emergency_spec(
            current_block as int,
            before.launch_block as int,
            before.ledger.current_supply as int,
            before.ledger.base_reserves as int,
        );
        let pool = pool_address_spec(
            factory_proxy(),
            before.myself,
            base_token_id(before.params.base_token),
        );
        &&& !eligible ==> r == Err::<AlkaneId, CurveError>(
            CurveError::GraduationCriteriaNotMet,
        )
        &&& eligible && !(pool.block > 0 && pool.tx > 0) ==> r == Err::<
            AlkaneId,
            CurveError,
        >(CurveError::PoolCreationFailed)
        &&& eligible && pool.block > 0 && pool.tx > 0 ==> r == Ok::<AlkaneId, CurveError>(
            pool,
        )
    }))
    &&& (r is Ok ==> {
        &&& after.ledger == (ReserveLedger {
            graduated: true,
            graduation_block: Some(current_block),
            ..before.ledger
        })
        &&& after.graduation matches Some(rec) && rec.pool_address == r->Ok_0
        &&& after.params == before.params
    })
}

/// What a purchase handed out.
pub struct BuyReceipt {
    /// The newly minted tokens, sent to the buyer.
    pub minted: AlkaneTransfer,
    /// The pool the curve graduated to, when the purchase triggered graduation.
    pub graduated_pool: Option<AlkaneId>,
}

/// A snapshot of a curve for readers.
pub struct CurveState {
    pub current_supply: u128,
    pub base_reserves: u128,
    pub is_graduated: bool,
    pub amm_pool: Option<AlkaneId>,
    pub token_name: String,
    pub token_symbol: String,
    pub total_supply: u128,
}

/// A pool identity packed as `block << 64 | tx`, or 0 when there is none.
pub open spec fn packed_pool(pool: Option<AlkaneId>) -> u128 {
    match pool {
        Some(id) => (id.block << 64u128) | id.tx,
        None => 0,
    }
}

/// A request to a curve, with its arguments decoded.
pub enum BondingCurveMessage {
    Initialize {
        name_part1: u128,
        name_part2: u128,
        symbol: u128,
        base_price: u128,
        growth_rate: u128,
        graduation_threshold: u128,
        /// 0 for BUSD, 1 for frBTC.
        base_token_type: u128,
        max_supply: u128,
        lp_distribution_strategy: u128,
    },
    BuyTokens { min_tokens_out: u128 },
    SellTokens { token_amount: u128, min_base_out: u128 },
    GetBuyQuote { token_amount: u128 },
    GetSellQuote { token_amount: u128 },
    Graduate,
    GetCurveState,
    GetName,
    GetSymbol,
    GetTotalSupply,
    GetBaseReserves,
    GetAmmPoolAddress,
    IsGraduated,
    GetData,
}

/// What the host hands a curve with each request.
pub struct CallContext {
    /// Who sent the request.
    pub caller: AlkaneId,
    /// Tokens attached to the request.
    pub incoming: Vec<AlkaneTransfer>,
    pub current_block: u64,
    /// The largest holders, who share the community part of the LP tokens.
    pub top_holders: Vec<Holder>,
}

/// The answer to a request.
pub enum CurveResponse {
    Initialized,
    Bought(BuyReceipt),
    Sold(AlkaneTransfer),
    Quote(u128),
    Graduated(AlkaneId),
    State(CurveState),
    Text(String),
    Amount(u128),
    Flag(bool),
    Data(Vec<u8>),
}

/// A bonding-curve token contract.
pub struct BondingCurve {
    pub params: CurveParams,
    pub ledger: ReserveLedger,
    pub initialized: bool,
    pub name: TokenName,
    pub symbol: u128,
    pub lp_strategy: LPDistributionStrategy,
    /// This contract's own identity: the token it issues.
    pub myself: AlkaneId,
    pub creator: AlkaneId,
    pub launch_block: u64,
    pub graduation: Option<GraduationRecord>,
    /// Opaque token data, such as an image, supplied at deployment.
    pub data: Vec<u8>,
}

impl BondingCurve {
    /// The invariant of a curve: valid parameters, supply within the maximum, and a
    /// graduation record exactly when the ledger says graduated.
    pub open spec fn wf(&self) -> bool {
        &&& self.params.valid()
        &&& self.ledger.current_supply <= self.params.max_supply
        &&& self.ledger.graduated == self.graduation.is_some()
    }

    /// A fresh, uninitialized curve with default parameters.
    pub fn new(myself: AlkaneId) -> (r: BondingCurve)
        ensures
            r.wf(),
            !r.initialized,
            r.myself == myself,
            r.ledger.current_supply == 0,
            r.ledger.base_reserves == 0,
            !r.ledger.graduated,
    {
        BondingCurve {
            params: CurveParams::default(),
            ledger: ReserveLedger::new(),
            initialized: false,
            name: TokenName::new(0, 0),
            symbol: 0,
            lp_strategy: LPDistributionStrategy::BurnAll,
            myself,
            creator: myself,
            launch_block: 0,
            graduation: None,
            data: Vec::new(),
        }
    }

    /// Tokens currently in circulation.
    pub fn current_supply(&self) -> (r: u128)
        ensures
            r == self.ledger.current_supply,
    {
        self.ledger.current_supply
    }

    /// One-time setup of the curve. Refused when already initialized, and for an
    /// unknown base token or strategy code, a zero price, growth or maximum supply, or a
    /// maximum below the tokens already issued.
    pub fn initialize(
        &mut self,
        name_part1: u128,
        name_part2: u128,
        symbol: u128,
        base_price: u128,
        growth_rate: u128,
        graduation_threshold: u128,
        base_token_type: u128,
        max_supply: u128,
        lp_distribution_strategy: u128,
        creator: AlkaneId,
        launch_block: u64,
    ) -> (r: Result<(), CurveError>)
        requires
            old(self).wf(),
        ensures
            final(self).wf(),
            initialize_post(
                *old(self),
                *final(self),
                name_part1,
                name_part2,
                symbol,
                base_price,
                growth_rate,
                graduation_threshold,
                base_token_type,
                max_supply,
                lp_distribution_strategy,
                creator,
                launch_block,
                r,
            ),
    {
        if self.initialized {
            return Err(CurveError::AlreadyInitialized);
        }
        let base_token = match base_token_type {
            0 => BaseToken::BUSD,
            1 => BaseToken::FrBtc,
            _ => return Err(CurveError::InvalidParameters),
        };
        if lp_distribution_strategy > 3 {
            return Err(CurveError::InvalidParameters);
        }
        if base_price == 0 || growth_rate == 0 || max_supply == 0 || max_supply
            < self.ledger.current_supply {
            return Err(CurveError::InvalidParameters);
        }
        self.params = CurveParams {
            base_price,
            growth_rate,
            graduation_threshold,
            base_token,
            max_supply,
        };
        self.name = TokenName::new(name_part1, name_part2);
        self.symbol = symbol;
        self.lp_strategy = LPDistributionStrategy::from_code(lp_distribution_strategy as u8);
        CurveCalculator::set_base_reserves(&mut self.ledger, 0);
        CurveCalculator::set_token_reserves(&mut self.ledger, 0);
        self.creator = creator;
        self.launch_block = launch_block;
        self.initialized = true;
        Ok(())
    }

    /// The largest quantity whose cost `base_amount` covers, found by binary search
    /// over `[0, max_supply - current_supply]` with the buy price as oracle. A quantity
    /// whose cost overflows counts as unaffordable.
    pub fn calculate_tokens_for_base_amount(&self, base_amount: u128, params: &CurveParams) -> (r:
        Result<u128, CurveError>)
        ensures
            ({
                let s = self.ledger.current_supply as int;
                let room = if params.max_supply >= s {
                    params.max_supply - s
                } else {
                    0
                };
                &&& r is Ok || r == Err::<u128, CurveError>(CurveError::InsufficientPayment)
                &&& room >= 1 && affordable(*params, s, 1, base_amount as int) ==> r is Ok
                &&& r == Err::<u128, CurveError>(CurveError::InsufficientPayment) ==> !(room >= 1
                    && affordable(*params, s, 1, base_amount as int))
                &&& r matches Ok(q) ==> {
                    &&& 1 <= q <= room
                    &&& affordable(*params, s, q as int, base_amount as int)
                    &&& !affordable(*params, s, q + 1, base_amount as int)
                }
                &&& params.base_price <= PRICE_CAP && params.growth_rate <= 1250 ==> {
                    &&& r matches Ok(q) ==> forall|q2: nat|
                        q < q2 ==> !#[trigger] affordable(*params, s, q2 as int, base_amount as int)
                    &&& r is Err ==> forall|q2: nat|
                        1 <= q2 ==> !#[trigger] affordable(*params, s, q2 as int, base_amount as int)
                }
            }),
    {
        let current_supply = self.current_supply();
        let room = if params.max_supply >= current_supply {
            params.max_supply - current_supply
        } else {
            0
        };
        let mut low: u128 = 0;
        let mut high: u128 = room;
        let ghost s = current_supply as int;
        assert(affordable(*params, s, 0, base_amount as int));
        while low < high
            invariant
                s == current_supply as int,
                low <= high <= room,
                affordable(*params, s, low as int, base_amount as int),
                high == room || !affordable(*params, s, high + 1, base_amount as int),
                room >= 1 && affordable(*params, s, 1, base_amount as int) ==> low >= 1 || high
                    >= 1,
            decreases high - low,
        {
            let mid = low + (high - low) / 2 + (high - low) % 2;
            let affordable_mid = match CurveCalculator::calculate_buy_price(
                current_supply,
                mid,
                params,
            ) {
                Ok(cost) => cost <= base_amount,
                Err(_) => false,
            };
            if affordable_mid {
                low = mid;
            } else {
                high = mid - 1;
            }
        }
        proof {
            if params.base_price <= PRICE_CAP && params.growth_rate <= 1250 {
                if low >= 1 {
                    assert forall|q2: nat| low < q2 implies !affordable(
                        *params,
                        s,
                        q2 as int,
                        base_amount as int,
                    ) by {
                        lemma_unaffordable_grows(
                            *params,
                            s as nat,
                            (low + 1) as nat,
                            q2,
                            base_amount as int,
                        );
                    }
                } else {
                    assert forall|q2: nat| 1 <= q2 implies !affordable(
                        *params,
                        s,
                        q2 as int,
                        base_amount as int,
                    ) by {
                        if room >= 1 {
                            lemma_unaffordable_grows(*params, s as nat, 1, q2, base_amount as int);
                        }
                    }
                }
            }
        }
        if low == 0 {
            return Err(CurveError::InsufficientPayment);
        }
        Ok(low)
    }

    /// Cost of buying `token_amount` tokens at the current supply.
    pub fn get_buy_quote(&self, token_amount: u128) -> (r: Result<u128, CurveError>)
        ensures
            r == buy_spec(self.params, self.ledger.current_supply as int, token_amount as int),
    {
        CurveCalculator::calculate_buy_price(self.current_supply(), token_amount, &self.params)
    }

    /// Payout for selling `token_amount` tokens at the current supply.
    pub fn get_sell_quote(&self, token_amount: u128) -> (r: Result<u128, CurveError>)
        ensures
            r == sell_spec(self.params, self.ledger.current_supply as int, token_amount as int),
    {
        CurveCalculator::calculate_sell_price(self.current_supply(), token_amount, &self.params)
    }
    /// The value of the first incoming transfer of `token`.
    pub(crate) fn find_payment(incoming: &Vec<AlkaneTransfer>, token: AlkaneId) -> (r: Option<u128>)
        ensures
            r == base_payment(incoming@, token),
    {
        let mut i: usize = 0;
        while i < incoming.len()
            invariant
                0 <= i <= incoming@.len(),
                forall|j: int| 0 <= j < i ==> incoming@[j].id != token,
            decreases incoming@.len() - i,
        {
            if incoming[i].id == token {
                proof {
                    lemma_base_payment_skip(incoming@, token, i as int);
                }
                return Some(incoming[i].value);
            }
            i = i + 1;
        }
        proof {
            lemma_base_payment_skip(incoming@, token, i as int);
        }
        None
    }

    /// Graduates through the AMM coordinator and keeps the record.
    fn run_graduation(&mut self, current_block: u64, top_holders: &Vec<Holder>) -> (r: Result<
        AlkaneId,
        CurveError,
    >)
        requires
            old(self).wf(),
        ensures
            final(self).wf(),
            old(self).ledger.graduated ==> r == Err::<AlkaneId, CurveError>(
                CurveError::AlreadyGraduated,
            ),
            r is Err ==> *final(self) == *old(self),
            !old(self).ledger.graduated ==> ({
                let eligible = graduation_spec(
                    old(self).params,
                    old(self).ledger.current_supply as int,
                    old(self).ledger.base_reserves as int,
                ) || emergency_spec(
                    current_block as int,
                    old(self).launch_block as int,
                    old(self).ledger.current_supply as int,
                    old(self).ledger.base_reserves as int,
                );
                let pool = pool_address_spec(
                    factory_proxy(),
                    old(self).myself,
                    base_token_id(old(self).params.base_token),
                );
                &&& !eligible ==> r == Err::<AlkaneId, CurveError>(
                    CurveError::GraduationCriteriaNotMet,
                )
                &&& eligible && !(pool.block > 0 && pool.tx > 0) ==> r == Err::<
                    AlkaneId,
                    CurveError,
                >(CurveError::PoolCreationFailed)
                &&& eligible && pool.block > 0 && pool.tx > 0 ==> r == Ok::<AlkaneId, CurveError>(
                    pool,
                )
            }),
            r is Ok ==> {
                &&& final(self).ledger == (ReserveLedger {
                    graduated: true,
                    graduation_block: Some(current_block),
                    ..old(self).ledger
                })
                &&& final(self).graduation matches Some(rec) && rec.pool_address == r->Ok_0
                    && rec.token_liquidity == pool_seed_spec(
                    old(self).ledger.current_supply as int,
                    old(self).ledger.base_reserves as int,
                    old(self).params,
                ).0 && rec.base_liquidity == old(self).ledger.base_reserves && distribution_spec(
                    rec.distribution,
                    rec.lp_tokens_total as int,
                    old(self).lp_strategy,
                    old(self).creator,
                    top_holders@,
                )
                &&& final(self).params == old(self).params
                &&& final(self).myself == old(self).myself
                &&& final(self).initialized == old(self).initialized
                &&& final(self).launch_block == old(self).launch_block
            },
    {
        match AMMIntegration::graduate_to_amm(
            &mut self.ledger,
            &self.params,
            self.myself,
            self.creator,
            self.lp_strategy,
            top_holders,
            current_block,
            self.launch_block,
        ) {
            Ok(record) => {
                let pool = record.pool_address;
                self.graduation = Some(record);
                Ok(pool)
            },
            Err(e) => Err(e),
        }
    }

    /// Manual graduation to the AMM pool; returns the pool's address. Refused once
    /// graduated, so a second call changes nothing.
    pub fn graduate(&mut self, current_block: u64, top_holders: &Vec<Holder>) -> (r: Result<
        AlkaneId,
        CurveError,
    >)
        requires
            old(self).wf(),
        ensures
            final(self).wf(),
            graduate_post(*old(self), *final(self), current_block, top_holders@, r),
    {
        self.run_graduation(current_block, top_holders)
    }

    /// Buys with the first incoming transfer of the base token: mints the largest
    /// quantity it covers, adds the payment to the reserves, and graduates the curve
    /// if the purchase made it eligible.
    pub fn buy_tokens(
        &mut self,
        incoming: &Vec<AlkaneTransfer>,
        min_tokens_out: u128,
        current_block: u64,
        top_holders: &Vec<Holder>,
    ) -> (r: Result<BuyReceipt, CurveError>)
        requires
            old(self).wf(),
        ensures
            final(self).wf(),
            buy_tokens_post(
                *old(self),
                *final(self),
                incoming@,
                min_tokens_out,
                current_block,
                top_holders@,
                r,
            ),
    {
        if CurveCalculator::is_graduated(&self.ledger) {
            return Err(CurveError::AlreadyGraduated);
        }
        let params = self.params;
        let current_supply = self.current_supply();
        let base_amount = match Self::find_payment(incoming, params.base_token.alkane_id()) {
            Some(v) => v,
            None => return Err(CurveError::InsufficientPayment),
        };
        let tokens_to_mint = match self.calculate_tokens_for_base_amount(base_amount, &params) {
            Ok(q) => q,
            Err(e) => {
                proof {
                    if params.base_price <= PRICE_CAP && params.growth_rate <= 1250 {
                        if exists|q2: nat|
                            q2 >= 1 && q2 >= min_tokens_out && #[trigger] affordable(
                                params,
                                current_supply as int,
                                q2 as int,
                                base_amount as int,
                            ) {
                            let q2 = choose|q2: nat|
                                q2 >= 1 && q2 >= min_tokens_out && #[trigger] affordable(
                                    params,
                                    current_supply as int,
                                    q2 as int,
                                    base_amount as int,
                                );
                            assert(!affordable(
                                params,
                                current_supply as int,
                                q2 as int,
                                base_amount as int,
                            ));
                        }
                    }
                }
                return Err(e);
            },
        };
        if tokens_to_mint < min_tokens_out {
            proof {
                assert(affordable(params, current_supply as int, tokens_to_mint as int, base_amount as int));
                assert(1 <= tokens_to_mint < min_tokens_out);
                if params.base_price <= PRICE_CAP && params.growth_rate <= 1250 {
                    assert forall|q2: nat| q2 >= min_tokens_out implies !#[trigger] affordable(
                        params,
                        current_supply as int,
                        q2 as int,
                        base_amount as int,
                    ) by {
                        assert(tokens_to_mint < q2);
                    }
                    if exists|q2: nat|
                        q2 >= 1 && q2 >= min_tokens_out && #[trigger] affordable(
                            params,
                            current_supply as int,
                            q2 as int,
                            base_amount as int,
                        ) {
                        let q2 = choose|q2: nat|
                            q2 >= 1 && q2 >= min_tokens_out && #[trigger] affordable(
                                params,
                                current_supply as int,
                                q2 as int,
                                base_amount as int,
                            );
                        assert(tokens_to_mint < q2);
                    }
                }
            }
            return Err(CurveError::SlippageExceeded);
        }
        let current_reserves = CurveCalculator::get_base_reserves(&self.ledger);
        let new_reserves = match current_reserves.checked_add(base_amount) {
            Some(v) => v,
            None => return Err(CurveError::ArithmeticOverflow),
        };
        let new_supply = current_supply + tokens_to_mint;
        self.ledger.current_supply = new_supply;
        CurveCalculator::set_base_reserves(&mut self.ledger, new_reserves);
        let minted = AlkaneTransfer { id: self.myself, value: tokens_to_mint };
        let mut graduated_pool = None;
        if CurveCalculator::check_graduation_criteria(new_supply, new_reserves, &params) {
            if let Ok(pool) = self.run_graduation(current_block, top_holders) {
                graduated_pool = Some(pool);
            }
        }
        Ok(BuyReceipt { minted, graduated_pool })
    }

    /// Sells `token_amount` tokens back to the curve for base tokens, burning them and
    /// paying out of the reserves.
    pub fn sell_tokens(&mut self, token_amount: u128, min_base_out: u128) -> (r: Result<
        AlkaneTransfer,
        CurveError,
    >)
        requires
            old(self).wf(),
        ensures
            final(self).wf(),
            sell_tokens_post(*old(self), *final(self), token_amount, min_base_out, r),
    {
        if CurveCalculator::is_graduated(&self.ledger) {
            return Err(CurveError::AlreadyGraduated);
        }
        let current_supply = self.current_supply();
        let base_payout = match CurveCalculator::calculate_sell_price(
            current_supply,
            token_amount,
            &self.params,
        ) {
            Ok(v) => v,
            Err(e) => return Err(e),
        };
        if base_payout < min_base_out {
            return Err(CurveError::SlippageExceeded);
        }
        let current_reserves = CurveCalculator::get_base_reserves(&self.ledger);
        if base_payout > current_reserves {
            return Err(CurveError::InsufficientReserves);
        }
        self.ledger.current_supply = current_supply - token_amount;
        CurveCalculator::set_base_reserves(&mut self.ledger, current_reserves - base_payout);
        Ok(AlkaneTransfer { id: self.params.base_token.alkane_id(), value: base_payout })
    }
    /// The pool the curve graduated to, if it did.
    pub open spec fn pool_spec(&self) -> Option<AlkaneId> {
        match self.graduation {
            Some(rec) => Some(rec.pool_address),
            None => None,
        }
    }

    pub fn amm_pool(&self) -> (r: Option<AlkaneId>)
        ensures
            r == self.pool_spec(),
    {
        match &self.graduation {
            Some(rec) => Some(rec.pool_address),
            None => None,
        }
    }

    /// The pool address packed into one word, 0 before graduation.
    pub fn get_amm_pool_address(&self) -> (r: u128)
        ensures
            r == packed_pool(self.pool_spec()),
    {
        match self.amm_pool() {
            Some(pool) => (pool.block << 64u128) | pool.tx,
            None => 0,
        }
    }

    pub fn is_graduated(&self) -> (r: bool)
        ensures
            r == self.ledger.graduated,
    {
        CurveCalculator::is_graduated(&self.ledger)
    }

    pub fn get_total_supply(&self) -> (r: u128)
        ensures
            r == self.ledger.current_supply,
    {
        self.current_supply()
    }

    pub fn get_base_reserves(&self) -> (r: u128)
        ensures
            r == self.ledger.base_reserves,
    {
        CurveCalculator::get_base_reserves(&self.ledger)
    }

    /// The token's name as text.
    pub fn get_name(&self) -> (r: String)
        ensures
            r@ == lossy_utf8(trim_spec(self.name.part1) + trim_spec(self.name.part2)),
            is_ascii(trim_spec(self.name.part1) + trim_spec(self.name.part2)) ==> r@
                == ascii_chars(trim_spec(self.name.part1) + trim_spec(self.name.part2)),
    {
        self.name.to_name_string()
    }

    /// The token's symbol as text.
    pub fn get_symbol(&self) -> (r: String)
        ensures
            r@ == lossy_utf8(trim_spec(self.symbol)),
            is_ascii(trim_spec(self.symbol)) ==> r@ == ascii_chars(trim_spec(self.symbol)),
    {
        crate::trim(self.symbol)
    }

    /// Supply, reserves, graduation flag, pool and metadata in one record.
    pub fn get_curve_state(&self) -> (r: CurveState)
        ensures
            r.current_supply == self.ledger.current_supply,
            r.total_supply == self.ledger.current_supply,
            r.base_reserves == self.ledger.base_reserves,
            r.is_graduated == self.ledger.graduated,
            r.amm_pool == self.pool_spec(),
            r.token_name@ == lossy_utf8(trim_spec(self.name.part1) + trim_spec(self.name.part2)),
            r.token_symbol@ == lossy_utf8(trim_spec(self.symbol)),
            is_ascii(trim_spec(self.name.part1) + trim_spec(self.name.part2)) ==> r.token_name@
                == ascii_chars(trim_spec(self.name.part1) + trim_spec(self.name.part2)),
            is_ascii(trim_spec(self.symbol)) ==> r.token_symbol@ == ascii_chars(
                trim_spec(self.symbol),
            ),
    {
        CurveState {
            current_supply: self.current_supply(),
            base_reserves: self.get_base_reserves(),
            is_graduated: self.is_graduated(),
            amm_pool: self.amm_pool(),
            token_name: self.get_name(),
            token_symbol: self.get_symbol(),
            total_supply: self.get_total_supply(),
        }
    }
    /// Stores the token's opaque data.
    pub fn set_data(&mut self, data: Vec<u8>)
        ensures
            final(self).data@ == data@,
            final(self).params == old(self).params,
            final(self).ledger == old(self).ledger,
            final(self).graduation == old(self).graduation,
    {
        self.data = data;
    }

    /// A copy of the token's opaque data.
    pub fn get_data(&self) -> (r: Vec<u8>)
        ensures
            r@ == self.data@,
    {
        let mut out: Vec<u8> = Vec::new();
        let mut i: usize = 0;
        while i < self.data.len()
            invariant
                0 <= i <= self.data@.len(),
                out@ == self.data@.take(i as int),
            decreases self.data@.len() - i,
        {
            proof {
                assert(self.data@.take(i as int + 1) =~= self.data@.take(i as int).push(self.data@[i as int]));
            }
            out.push(self.data[i]);
            i = i + 1;
        }
        proof {
            assert(self.data@.take(i as int) =~= self.data@);
        }
        out
    }

    /// Runs one request. Reads leave the curve as it was; a refused request changes
    /// nothing; once graduated, trading and graduating are refused.
    pub fn handle_message(&mut self, message: BondingCurveMessage, context: &CallContext) -> (r:
        Result<CurveResponse, CurveError>)
        requires
            old(self).wf(),
        ensures
            final(self).wf(),
            r is Err ==> *final(self) == *old(self),
            old(self).ledger.graduated ==> final(self).ledger.graduated,
            old(self).ledger.graduated && (message is BuyTokens || message is SellTokens
                || message is Graduate) ==> r == Err::<CurveResponse, CurveError>(
                CurveError::AlreadyGraduated,
            ),
            !(message is Initialize || message is BuyTokens || message is SellTokens
                || message is Graduate) ==> *final(self) == *old(self),
            message matches BondingCurveMessage::GetBuyQuote { token_amount } ==> match buy_spec(
                old(self).params,
                old(self).ledger.current_supply as int,
                token_amount as int,
            ) {
                Ok(cost) => r matches Ok(CurveResponse::Quote(v)) && v == cost,
                Err(e) => r == Err::<CurveResponse, CurveError>(e),
            },
            message matches BondingCurveMessage::GetSellQuote { token_amount } ==> match sell_spec(
                old(self).params,
                old(self).ledger.current_supply as int,
                token_amount as int,
            ) {
                Ok(payout) => r matches Ok(CurveResponse::Quote(v)) && v == payout,
                Err(e) => r == Err::<CurveResponse, CurveError>(e),
            },
            message is GetTotalSupply ==> (r matches Ok(CurveResponse::Amount(v)) && v
                == old(self).ledger.current_supply),
            message is GetBaseReserves ==> (r matches Ok(CurveResponse::Amount(v)) && v
                == old(self).ledger.base_reserves),
            message is GetAmmPoolAddress ==> (r matches Ok(CurveResponse::Amount(v)) && v
                == packed_pool(old(self).pool_spec())),
            message is IsGraduated ==> (r matches Ok(CurveResponse::Flag(v)) && v
                == old(self).ledger.graduated),
            message is GetData ==> (r matches Ok(CurveResponse::Data(v)) && v@ == old(self).data@),
            message matches BondingCurveMessage::Initialize {
                name_part1,
                name_part2,
                symbol,
                base_price,
                growth_rate,
                graduation_threshold,
                base_token_type,
                max_supply,
                lp_distribution_strategy,
            } ==> ({
                let outcome = match r {
                    Ok(_) => Ok(()),
                    Err(e) => Err(e),
                };
                &&& (r is Ok ==> r matches Ok(CurveResponse::Initialized))
                &&& initialize_post(
                    *old(self),
                    *final(self),
                    name_part1,
                    name_part2,
                    symbol,
                    base_price,
                    growth_rate,
                    graduation_threshold,
                    base_token_type,
                    max_supply,
                    lp_distribution_strategy,
                    context.caller,
                    context.current_block,
                    outcome,
                )
            }),
            message matches BondingCurveMessage::BuyTokens { min_tokens_out } ==> match r {
                Ok(CurveResponse::Bought(receipt)) => buy_tokens_post(
                    *old(self),
                    *final(self),
                    context.incoming@,
                    min_tokens_out,
                    context.current_block,
                    context.top_holders@,
                    Ok(receipt),
                ),
                Err(e) => buy_tokens_post(
                    *old(self),
                    *final(self),
                    context.incoming@,
                    min_tokens_out,
                    context.current_block,
                    context.top_holders@,
                    Err(e),
                ),
                _ => false,
            },
            message matches BondingCurveMessage::SellTokens { token_amount, min_base_out } ==> match r {
                Ok(CurveResponse::Sold(payout)) => sell_tokens_post(
                    *old(self),
                    *final(self),
                    token_amount,
                    min_base_out,
                    Ok(payout),
                ),
                Err(e) => sell_tokens_post(*old(self), *final(self), token_amount, min_base_out, Err(e)),
                _ => false,
            },
            message is Graduate ==> match r {
                Ok(CurveResponse::Graduated(pool)) => graduate_post(
                    *old(self),
                    *final(self),
                    context.current_block,
                    context.top_holders@,
                    Ok(pool),
                ),
                Err(e) => graduate_post(
                    *old(self),
                    *final(self),
                    context.current_block,
                    context.top_holders@,
                    Err(e),
                ),
                _ => false,
            },
    {
        match message {
            BondingCurveMessage::Initialize {
                name_part1,
                name_part2,
                symbol,
                base_price,
                growth_rate,
                graduation_threshold,
                base_token_type,
                max_supply,
                lp_distribution_strategy,
            } => match self.initialize(
                name_part1,
                name_part2,
                symbol,
                base_price,
                growth_rate,
                graduation_threshold,
                base_token_type,
                max_supply,
                lp_distribution_strategy,
                context.caller,
                context.current_block,
            ) {
                Ok(()) => Ok(CurveResponse::Initialized),
                Err(e) => Err(e),
            },
            BondingCurveMessage::BuyTokens { min_tokens_out } => match self.buy_tokens(
                &context.incoming,
                min_tokens_out,
                context.current_block,
                &context.top_holders,
            ) {
                Ok(receipt) => Ok(CurveResponse::Bought(receipt)),
                Err(e) => Err(e),
            },
            BondingCurveMessage::SellTokens { token_amount, min_base_out } => match self.sell_tokens(
                token_amount,
                min_base_out,
            ) {
                Ok(payout) => Ok(CurveResponse::Sold(payout)),
                Err(e) => Err(e),
            },
            BondingCurveMessage::GetBuyQuote { token_amount } => match self.get_buy_quote(
                token_amount,
            ) {
                Ok(cost) => Ok(CurveResponse::Quote(cost)),
                Err(e) => Err(e),
            },
            BondingCurveMessage::GetSellQuote { token_amount } => match self.get_sell_quote(
                token_amount,
            ) {
                Ok(payout) => Ok(CurveResponse::Quote(payout)),
                Err(e) => Err(e),
            },
            BondingCurveMessage::Graduate => match self.graduate(
                context.current_block,
                &context.top_holders,
            ) {
                Ok(pool) => Ok(CurveResponse::Graduated(pool)),
                Err(e) => Err(e),
            },
            BondingCurveMessage::GetCurveState => Ok(CurveResponse::State(self.get_curve_state())),
            BondingCurveMessage::GetName => Ok(CurveResponse::Text(self.get_name())),
            BondingCurveMessage::GetSymbol => Ok(CurveResponse::Text(self.get_symbol())),
            BondingCurveMessage::GetTotalSupply => Ok(CurveResponse::Amount(self.get_total_supply())),
            BondingCurveMessage::GetBaseReserves => Ok(
                CurveResponse::Amount(self.get_base_reserves()),
            ),
            BondingCurveMessage::GetAmmPoolAddress => Ok(
                CurveResponse::Amount(self.get_amm_pool_address()),
            ),
            BondingCurveMessage::IsGraduated => Ok(CurveResponse::Flag(self.is_graduated())),
            BondingCurveMessage::GetData => Ok(CurveResponse::Data(self.get_data())),
        }
    }
}

} // verus!
