//! The curve pricing engine and the reserve ledger.
use crate::{CurveError, CurveParams};
use vstd::arithmetic::div_mod::{
    lemma_div_is_ordered, lemma_fundamental_div_mod, lemma_hoist_over_denominator,
};
use vstd::arithmetic::mul::lemma_mul_inequality;
use vstd::prelude::*;

verus! {

/// Denominator of growth rates: rates are in basis points.
pub const GROWTH_DENOMINATOR: u128 = 10000;

/// The ceiling of every price on the curve.
pub const PRICE_CAP: u128 = 340282366920938463463374607431768211;

/// One growth step: `r` raised by `rate` basis points, rounded down, clamped at the cap.
pub open spec fn grow_spec(r: int, rate: int) -> int {
    let v = r + r * rate / 10000;
    if v > PRICE_CAP {
        PRICE_CAP as int
    } else {
        v
    }
}

/// `r` carried through `exp` supply levels: the units below the last multiple of ten
/// each apply a tenth of the growth rate, then every ten units apply the full rate.
pub open spec fn power_spec(r: int, growth: int, exp: nat) -> int
    decreases exp,
{
    if exp == 0 {
        r
    } else if exp % 10 == 0 {
        power_spec(grow_spec(r, growth), growth, (exp - 10) as nat)
    } else {
        power_spec(grow_spec(r, growth / 10), growth, (exp - 1) as nat)
    }
}

/// The marginal price of the token when `supply` tokens are outstanding.
pub open spec fn price_spec(params: CurveParams, supply: int) -> int {
    power_spec(params.base_price as int, params.growth_rate as int, supply as nat)
}

/// Cost of buying `q` tokens at supply `s`: the trapezoid under the price curve.
pub open spec fn buy_spec(params: CurveParams, s: int, q: int) -> Result<u128, CurveError> {
    if q == 0 {
        Ok(0)
    } else if s + q > params.max_supply {
        Err(CurveError::ExceedsMaxSupply)
    } else {
        let sum = price_spec(params, s) + price_spec(params, s + q as int);
        if sum > u128::MAX {
            Err(CurveError::ArithmeticOverflow)
        } else if (sum / 2) * q > u128::MAX {
            Err(CurveError::ArithmeticOverflow)
        } else {
            Ok(((sum / 2) * q) as u128)
        }
    }
}

/// Payout for selling `q` tokens at supply `s`: the trapezoid over `[s - q, s]`,
/// with the average price discounted by one percent.
pub open spec fn sell_spec(params: CurveParams, s: int, q: int) -> Result<u128, CurveError> {
    if q == 0 {
        Ok(0)
    } else if q > s {
        Err(CurveError::InsufficientSupply)
    } else {
        let sum = price_spec(params, s - q) + price_spec(params, s);
        if sum > u128::MAX {
            Err(CurveError::ArithmeticOverflow)
        } else if ((sum / 2) * 99 / 100) * q > u128::MAX {
            Err(CurveError::ArithmeticOverflow)
        } else {
            Ok((((sum / 2) * 99 / 100) * q) as u128)
        }
    }
}

/// Whether a curve at `supply` with `reserves` has earned graduation: its market cap
/// reached the threshold, or its reserves reached half of it.
pub open spec fn graduation_spec(params: CurveParams, supply: int, reserves: int) -> bool {
    supply * price_spec(params, supply) >= params.graduation_threshold
        || reserves >= params.graduation_threshold / 2
}

/// `x * a / d` split so that no intermediate exceeds `x * a`.
proof fn lemma_mul_div_split(x: int, a: int, d: int)
    requires
        x >= 0,
        a >= 0,
        d > 0,
    ensures
        x * a / d == (x / d) * a + ((x % d) * a) / d,
{
    lemma_fundamental_div_mod(x, d);
    let q = x / d;
    let m = x % d;
    assert(x * a == (m * a) + (q * a) * d) by (nonlinear_arith)
        requires
            x == d * q + m,
    ;
    lemma_hoist_over_denominator(m * a, q * a, d as nat);
}

/// Once a value sits at the cap, no number of steps moves it.
proof fn lemma_cap_absorbs(growth: int, exp: nat)
    requires
        growth >= 0,
    ensures
        power_spec(PRICE_CAP as int, growth, exp) == PRICE_CAP as int,
    decreases exp,
{
    let c = PRICE_CAP as int;
    assert(c * growth / 10000 >= 0) by (nonlinear_arith)
        requires
            growth >= 0,
            c >= 0,
    ;
    assert(c * (growth / 10) / 10000 >= 0) by (nonlinear_arith)
        requires
            growth / 10 >= 0,
            c >= 0,
    ;
    if exp > 0 {
        if exp % 10 == 0 {
            lemma_cap_absorbs(growth, (exp - 10) as nat);
        } else {
            lemma_cap_absorbs(growth, (exp - 1) as nat);
        }
    }
}

/// `total * percent / 100`, rounded down, computed without overflow.
pub(crate) fn percent_of(total: u128, percent: u128) -> (r: u128)
    requires
        percent <= 100,
    ensures
        r == total * percent / 100,
        r <= total,
{
    proof {
        lemma_mul_div_split(total as int, percent as int, 100);
        assert((total as int / 100) * percent <= total as int / 100 * 100) by (nonlinear_arith)
            requires
                percent <= 100,
                total as int / 100 >= 0,
        ;
        assert((total as int % 100) * percent / 100 <= 99) by (nonlinear_arith)
            requires
                percent <= 100,
                0 <= total as int % 100 < 100,
        ;
        assert(total * percent / 100 <= total) by (nonlinear_arith)
            requires
                percent <= 100,
                total >= 0,
        ;
    }
    (total / 100) * percent + (total % 100) * percent / 100
}

/// Bonding curve pricing.
pub struct CurveCalculator;

/// A growth path starts at `r` and stays between `r` and the cap.
proof fn lemma_power_bounds(r: int, growth: int, exp: nat)
    requires
        r >= 0,
        growth >= 0,
    ensures
        power_spec(r, growth, exp) >= if r < PRICE_CAP { r } else { PRICE_CAP as int },
        power_spec(r, growth, exp) <= if r < PRICE_CAP { PRICE_CAP as int } else { r },
    decreases exp,
{
    assert(r * growth / 10000 >= 0) by (nonlinear_arith)
        requires
            growth >= 0,
            r >= 0,
    ;
    assert(r * (growth / 10) / 10000 >= 0) by (nonlinear_arith)
        requires
            growth / 10 >= 0,
            r >= 0,
    ;
    if exp > 0 {
        if exp % 10 == 0 {
            lemma_power_bounds(grow_spec(r, growth), growth, (exp - 10) as nat);
        } else {
            lemma_power_bounds(grow_spec(r, growth / 10), growth, (exp - 1) as nat);
        }
    }
}

impl CurveCalculator {
    /// No price on the curve is negative.
    pub proof fn lemma_price_nonnegative(params: CurveParams, supply: int)
        ensures
            price_spec(params, supply) >= 0,
    {
        lemma_power_bounds(params.base_price as int, params.growth_rate as int, supply as nat);
    }

    /// With a positive base price every price on the curve is positive.
    pub proof fn lemma_price_positive(params: CurveParams, supply: int)
        requires
            params.base_price > 0,
        ensures
            price_spec(params, supply) > 0,
    {
        lemma_power_bounds(params.base_price as int, params.growth_rate as int, supply as nat);
    }
}


/// The curve's persistent accounting: supply, reserves and the graduation flag.
pub struct ReserveLedger {
    pub current_supply: u128,
    pub base_reserves: u128,
    /// Virtual token reserves, kept for AMM calculations.
    pub token_reserves: u128,
    pub graduated: bool,
    pub graduation_block: Option<u64>,
}

impl ReserveLedger {
    /// A ledger with nothing issued and nothing held.
    pub fn new() -> (r: ReserveLedger)
        ensures
            r.current_supply == 0,
            r.base_reserves == 0,
            r.token_reserves == 0,
            !r.graduated,
            r.graduation_block.is_none(),
    {
        ReserveLedger {
            current_supply: 0,
            base_reserves: 0,
            token_reserves: 0,
            graduated: false,
            graduation_block: None,
        }
    }
}

impl CurveCalculator {
    /// `r` raised by `rate` basis points, rounded down and clamped at the cap, computed
    /// without overflow for every `r` and `rate`.
    fn grow(r: u128, rate: u128) -> (res: u128)
        ensures
            res == grow_spec(r as int, rate as int),
    {
        let rq = rate / GROWTH_DENOMINATOR;
        let rm = rate % GROWTH_DENOMINATOR;
        let q = r / GROWTH_DENOMINATOR;
        let m = r % GROWTH_DENOMINATOR;
        proof {
            lemma_mul_div_split(rate as int, r as int, 10000);
            lemma_mul_div_split(r as int, rm as int, 10000);
            assert(rate as int * r == r * rate as int) by (nonlinear_arith);
            assert(rq as int * r == r * rq as int) by (nonlinear_arith);
            assert((rm as int * r) / 10000 >= 0) by (nonlinear_arith)
                requires
                    rm >= 0,
                    r >= 0,
            ;
            assert(rm as int * r == r * rm as int) by (nonlinear_arith);
            assert(q * rm <= 34028236692093846346337460743176821 * 9999) by (nonlinear_arith)
                requires
                    q <= 34028236692093846346337460743176821,
                    rm <= 9999,
            ;
            assert(m * rm / 10000 <= 9999) by (nonlinear_arith)
                requires
                    m <= 9999,
                    rm <= 9999,
            ;
        }
        let p2 = q * rm + m * rm / GROWTH_DENOMINATOR;
        match r.checked_mul(rq) {
            None => PRICE_CAP,
            Some(p1) => match r.checked_add(p1) {
                None => PRICE_CAP,
                Some(t) => match t.checked_add(p2) {
                    None => PRICE_CAP,
                    Some(v) => if v > PRICE_CAP {
                        PRICE_CAP
                    } else {
                        v
                    },
                },
            },
        }
    }

    /// Approximates `base * (1 + growth / 10000) ^ exponent` by repeated growth steps:
    /// whole tens of units apply the full rate, the remaining units a tenth of it.
    fn power_approximation(base: u128, growth: u128, exponent: u128) -> (r: u128)
        ensures
            r == power_spec(base as int, growth as int, exponent as nat),
    {
        if exponent == 0 {
            return base;
        }
        let mut result = base;
        let mut exp = exponent;
        while exp > 0
            invariant
                power_spec(result as int, growth as int, exp as nat) == power_spec(
                    base as int,
                    growth as int,
                    exponent as nat,
                ),
            decreases exp,
        {
            if exp % 10 == 0 {
                result = Self::grow(result, growth);
                exp = exp - 10;
            } else {
                result = Self::grow(result, growth / 10);
                exp = exp - 1;
            }
            if result >= PRICE_CAP {
                proof {
                    lemma_cap_absorbs(growth as int, exp as nat);
                }
                return PRICE_CAP;
            }
        }
        result
    }

    /// The marginal price at a supply level. It never fails: prices stop at the cap.
    pub fn price_at_supply(supply: u128, params: &CurveParams) -> (r: Result<u128, CurveError>)
        ensures
            r == Ok::<u128, CurveError>(price_spec(*params, supply as int) as u128),
            supply == 0 ==> r == Ok::<u128, CurveError>(params.base_price),
    {
        if supply == 0 {
            return Ok(params.base_price);
        }
        let price = Self::power_approximation(params.base_price, params.growth_rate, supply);
        Ok(price)
    }

    /// The price without the `Result` around it.
    pub(crate) fn price(supply: u128, params: &CurveParams) -> (r: u128)
        ensures
            r == price_spec(*params, supply as int),
    {
        Self::power_approximation(params.base_price, params.growth_rate, supply)
    }
}


impl CurveCalculator {
    /// Cost of buying `tokens_to_buy` tokens at `current_supply`: the average of the
    /// prices at both ends of the window, times the quantity.
    pub fn calculate_buy_price(
        current_supply: u128,
        tokens_to_buy: u128,
        params: &CurveParams,
    ) -> (r: Result<u128, CurveError>)
        ensures
            r == buy_spec(*params, current_supply as int, tokens_to_buy as int),
            tokens_to_buy > 0 && current_supply + tokens_to_buy > params.max_supply ==> r == Err::<
                u128,
                CurveError,
            >(CurveError::ExceedsMaxSupply),
    {
        if tokens_to_buy == 0 {
            return Ok(0);
        }
        let new_supply = match current_supply.checked_add(tokens_to_buy) {
            Some(n) => n,
            None => return Err(CurveError::ExceedsMaxSupply),
        };
        if new_supply > params.max_supply {
            return Err(CurveError::ExceedsMaxSupply);
        }
        let start_price = Self::price(current_supply, params);
        let end_price = Self::price(new_supply, params);
        let sum = match start_price.checked_add(end_price) {
            Some(v) => v,
            None => return Err(CurveError::ArithmeticOverflow),
        };
        let average_price = sum / 2;
        match average_price.checked_mul(tokens_to_buy) {
            Some(total_cost) => Ok(total_cost),
            None => Err(CurveError::ArithmeticOverflow),
        }
    }

    /// Payout for selling `tokens_to_sell` tokens at `current_supply`: the average price
    /// over the window, less one percent, times the quantity.
    pub fn calculate_sell_price(
        current_supply: u128,
        tokens_to_sell: u128,
        params: &CurveParams,
    ) -> (r: Result<u128, CurveError>)
        ensures
            r == sell_spec(*params, current_supply as int, tokens_to_sell as int),
            tokens_to_sell > current_supply ==> r == Err::<u128, CurveError>(
                CurveError::InsufficientSupply,
            ),
    {
        if tokens_to_sell == 0 {
            return Ok(0);
        }
        if tokens_to_sell > current_supply {
            return Err(CurveError::InsufficientSupply);
        }
        let new_supply = current_supply - tokens_to_sell;
        let start_price = Self::price(new_supply, params);
        let end_price = Self::price(current_supply, params);
        let sum = match start_price.checked_add(end_price) {
            Some(v) => v,
            None => return Err(CurveError::ArithmeticOverflow),
        };
        let average_price = sum / 2;
        let discounted_price = percent_of(average_price, 99);
        match discounted_price.checked_mul(tokens_to_sell) {
            Some(total_payout) => Ok(total_payout),
            None => Err(CurveError::ArithmeticOverflow),
        }
    }

    /// Whether the curve has earned graduation: market cap `supply * price` at the
    /// threshold, or reserves at half of it.
    pub fn check_graduation_criteria(
        current_supply: u128,
        base_reserves: u128,
        params: &CurveParams,
    ) -> (r: bool)
        ensures
            r == graduation_spec(*params, current_supply as int, base_reserves as int),
    {
        let current_price = Self::price(current_supply, params);
        let market_cap = match current_supply.checked_mul(current_price) {
            Some(v) => v,
            None => u128::MAX,
        };
        if market_cap >= params.graduation_threshold {
            return true;
        }
        let min_reserves = params.graduation_threshold / 2;
        base_reserves >= min_reserves
    }

    pub fn get_base_reserves(ledger: &ReserveLedger) -> (r: u128)
        ensures
            r == ledger.base_reserves,
    {
        ledger.base_reserves
    }

    pub fn set_base_reserves(ledger: &mut ReserveLedger, amount: u128)
        ensures
            *final(ledger) == (ReserveLedger { base_reserves: amount, ..*old(ledger) }),
    {
        ledger.base_reserves = amount;
    }

    pub fn get_token_reserves(ledger: &ReserveLedger) -> (r: u128)
        ensures
            r == ledger.token_reserves,
    {
        ledger.token_reserves
    }

    pub fn set_token_reserves(ledger: &mut ReserveLedger, amount: u128)
        ensures
            *final(ledger) == (ReserveLedger { token_reserves: amount, ..*old(ledger) }),
    {
        ledger.token_reserves = amount;
    }

    pub fn is_graduated(ledger: &ReserveLedger) -> (r: bool)
        ensures
            r == ledger.graduated,
    {
        ledger.graduated
    }

    /// Marks the curve as graduated. The flag is never cleared.
    pub fn set_graduated(ledger: &mut ReserveLedger)
        ensures
            *final(ledger) == (ReserveLedger { graduated: true, ..*old(ledger) }),
    {
        ledger.graduated = true;
    }
}

/// `j` steps at `rate`, applied one after the other to `r`.
pub open spec fn frac_iter(r: int, rate: int, j: nat) -> int
    decreases j,
{
    if j == 0 {
        r
    } else {
        frac_iter(grow_spec(r, rate), rate, (j - 1) as nat)
    }
}

/// A growth step keeps order.
proof fn lemma_grow_monotone(r1: int, r2: int, rate: int)
    requires
        0 <= r1 <= r2,
        rate >= 0,
    ensures
        grow_spec(r1, rate) <= grow_spec(r2, rate),
{
    lemma_mul_inequality(r1, r2, rate);
    lemma_div_is_ordered(r1 * rate, r2 * rate, 10000);
}

/// A growth step never lowers a value below the cap, and never exceeds the cap.
proof fn lemma_grow_expands(r: int, rate: int)
    requires
        0 <= r,
        rate >= 0,
    ensures
        r <= PRICE_CAP ==> r <= grow_spec(r, rate),
        0 <= grow_spec(r, rate) <= PRICE_CAP,
{
    assert(r * rate / 10000 >= 0) by (nonlinear_arith)
        requires
            r >= 0,
            rate >= 0,
    ;
}

/// Repeated steps keep order.
proof fn lemma_frac_iter_monotone(r1: int, r2: int, rate: int, j: nat)
    requires
        0 <= r1 <= r2,
        rate >= 0,
    ensures
        frac_iter(r1, rate, j) <= frac_iter(r2, rate, j),
    decreases j,
{
    if j > 0 {
        lemma_grow_monotone(r1, r2, rate);
        lemma_grow_expands(r1, rate);
        lemma_frac_iter_monotone(grow_spec(r1, rate), grow_spec(r2, rate), rate, (j - 1) as nat);
    }
}

/// Repeated steps stay within `[0, PRICE_CAP]` once one was taken.
proof fn lemma_frac_iter_range(r: int, rate: int, j: nat)
    requires
        0 <= r,
        rate >= 0,
    ensures
        0 <= frac_iter(r, rate, j),
        j > 0 ==> frac_iter(r, rate, j) <= PRICE_CAP,
    decreases j,
{
    if j > 0 {
        lemma_grow_expands(r, rate);
        lemma_frac_iter_range(grow_spec(r, rate), rate, (j - 1) as nat);
    }
}

/// A growth path keeps order in its starting value.
proof fn lemma_power_monotone(r1: int, r2: int, growth: int, exp: nat)
    requires
        0 <= r1 <= r2,
        growth >= 0,
    ensures
        power_spec(r1, growth, exp) <= power_spec(r2, growth, exp),
    decreases exp,
{
    if exp > 0 {
        let rate = if exp % 10 == 0 {
            growth
        } else {
            growth / 10
        };
        lemma_grow_monotone(r1, r2, rate);
        lemma_grow_expands(r1, rate);
        if exp % 10 == 0 {
            lemma_power_monotone(grow_spec(r1, rate), grow_spec(r2, rate), growth, (exp - 10) as nat);
        } else {
            lemma_power_monotone(grow_spec(r1, rate), grow_spec(r2, rate), growth, (exp - 1) as nat);
        }
    }
}

/// The units of a supply below its last multiple of ten are the first steps taken.
proof fn lemma_power_unfold(r: int, growth: int, k: nat, j: nat)
    requires
        j <= 9,
    ensures
        power_spec(r, growth, 10 * k + j) == power_spec(frac_iter(r, growth / 10, j), growth, 10 * k),
    decreases j,
{
    if j > 0 {
        assert((10 * k + j) % 10 == j as int);
        lemma_power_unfold(grow_spec(r, growth / 10), growth, k, (j - 1) as nat);
    }
}

/// One step at rate `h` keeps the bound `9D y <= x (9D + 10 i h)` with `i` one higher.
proof fn lemma_frac_step_bound(x: int, y: int, h: int, i: int)
    requires
        x >= 0,
        y >= 0,
        0 <= h <= 125,
        0 <= i <= 8,
        90000 * y <= x * (90000 + 10 * i * h),
    ensures
        90000 * grow_spec(y, h) <= x * (90000 + 10 * (i + 1) * h),
{
    let d = 10000int;
    let k = 90000 + 10 * i * h;
    let t = y * h / d;
    assert(t * d <= y * h) by (nonlinear_arith)
        requires
            t == y * h / d,
            d == 10000,
            y * h >= 0,
    ;
    assert(t >= 0) by (nonlinear_arith)
        requires
            t == y * h / d,
            d == 10000,
            y >= 0,
            h >= 0,
    ;
    let g = grow_spec(y, h);
    assert(g <= y + t);
    assert(g * d <= y * (d + h)) by (nonlinear_arith)
        requires
            g <= y + t,
            t * d <= y * h,
            d == 10000,
    ;
    assert(k * (d + h) <= (k + 10 * h) * d) by (nonlinear_arith)
        requires
            k == 90000 + 10 * i * h,
            d == 10000,
            0 <= h <= 125,
            0 <= i <= 8,
    ;
    assert(90000 * g * d <= x * (k + 10 * h) * d) by (nonlinear_arith)
        requires
            g * d <= y * (d + h),
            90000 * y <= x * k,
            k * (d + h) <= (k + 10 * h) * d,
            d == 10000,
            x >= 0,
            y >= 0,
            h >= 0,
    ;
    assert(90000 * g <= x * (k + 10 * h)) by (nonlinear_arith)
        requires
            90000 * g * d <= x * (k + 10 * h) * d,
            d == 10000,
    ;
    assert(k + 10 * h == 90000 + 10 * (i + 1) * h) by (nonlinear_arith)
        requires
            k == 90000 + 10 * i * h,
    ;
}

/// `j` steps at rate `h` stay under `x (9D + 10 (i + j) h) / 9D`.
proof fn lemma_frac_iter_bound(x: int, y: int, h: int, i: nat, j: nat)
    requires
        x >= 0,
        y >= 0,
        0 <= h <= 125,
        i + j <= 9,
        90000 * y <= x * (90000 + 10 * i * h),
    ensures
        90000 * frac_iter(y, h, j) <= x * (90000 + 10 * (i + j) * h),
    decreases j,
{
    if j > 0 {
        lemma_frac_step_bound(x, y, h, i as int);
        lemma_grow_expands(y, h);
        lemma_frac_iter_bound(x, grow_spec(y, h), h, i + 1, (j - 1) as nat);
    }
}

/// Nine steps at a tenth of the rate never beat one step at the full rate.
proof fn lemma_nine_tenths_below_full(x: int, growth: int)
    requires
        0 <= x,
        0 <= growth <= 1250,
    ensures
        frac_iter(x, growth / 10, 9) <= grow_spec(x, growth),
{
    let h = growth / 10;
    let d = 10000int;
    assert(90000 * x <= x * (90000 + 10 * 0 * h)) by (nonlinear_arith)
        requires
            x >= 0,
    ;
    lemma_frac_iter_bound(x, x, h, 0, 9);
    lemma_frac_iter_range(x, h, 9);
    let f = frac_iter(x, h, 9);
    let t = x * growth / d;
    assert(f * d <= x * (d + growth)) by (nonlinear_arith)
        requires
            90000 * f <= x * (90000 + 10 * 9 * h),
            10 * h <= growth,
            x >= 0,
            d == 10000,
    ;
    assert(x * (d + growth) == x * d + x * growth) by (nonlinear_arith);
    assert(f <= x + t) by (nonlinear_arith)
        requires
            f * d <= x * d + x * growth,
            t == x * growth / d,
            d == 10000,
            x >= 0,
            growth >= 0,
    ;
}

impl CurveCalculator {
    /// Raising the supply by one never lowers the price.
    proof fn lemma_price_step(params: CurveParams, s: nat)
        requires
            params.base_price <= PRICE_CAP,
            params.growth_rate <= 1250,
        ensures
            price_spec(params, s as int) <= price_spec(params, s + 1 as int),
    {
        let b = params.base_price as int;
        let g = params.growth_rate as int;
        let h = g / 10;
        let k = s / 10;
        let m = s % 10;
        assert(s == 10 * k + m);
        lemma_power_unfold(b, g, k, m);
        if m < 9 {
            assert(s + 1 == 10 * k + (m + 1));
            lemma_power_unfold(b, g, k, (m + 1) as nat);
            lemma_grow_expands(b, h);
            lemma_frac_iter_monotone(b, grow_spec(b, h), h, m);
            lemma_frac_iter_range(b, h, m);
            lemma_power_monotone(
                frac_iter(b, h, m),
                frac_iter(b, h, (m + 1) as nat),
                g,
                10 * k,
            );
        } else {
            assert(s + 1 == 10 * (k + 1));
            assert((10 * (k + 1)) % 10 == 0);
            assert(power_spec(b, g, 10 * (k + 1)) == power_spec(grow_spec(b, g), g, 10 * k));
            lemma_nine_tenths_below_full(b, g);
            lemma_frac_iter_range(b, h, 9);
            lemma_power_monotone(frac_iter(b, h, 9), grow_spec(b, g), g, 10 * k);
        }
    }

    /// Monotonicity: the price never falls as supply grows, for every curve whose base
    /// price is within the cap and whose growth rate is at most 1250 basis points
    /// (the factory admits at most 1000).
    pub proof fn lemma_price_monotonic(params: CurveParams, s1: nat, s2: nat)
        requires
            params.base_price <= PRICE_CAP,
            params.growth_rate <= 1250,
            s1 <= s2,
        ensures
            price_spec(params, s1 as int) <= price_spec(params, s2 as int),
        decreases s2 - s1,
    {
        if s1 < s2 {
            Self::lemma_price_step(params, s1);
            Self::lemma_price_monotonic(params, s1 + 1, s2);
        }
    }
}

impl CurveCalculator {
    /// Buy/sell spread: over the same supply window `[s, s + q]`, the sell payout is 99%
    /// of the buy cost up to rounding: `100 * sell <= 99 * buy <= 100 * sell + 99 * q`.
    /// So a round trip always loses when the buy costs anything.
    pub proof fn lemma_sell_spread(params: CurveParams, s: nat, q: nat)
        requires
            buy_spec(params, s as int, q as int) is Ok,
        ensures
            sell_spec(params, s + q as int, q as int) is Ok,
            ({
                let buy = buy_spec(params, s as int, q as int)->Ok_0 as int;
                let sell = sell_spec(params, s + q as int, q as int)->Ok_0 as int;
                &&& 100 * sell <= 99 * buy
                &&& 99 * buy <= 100 * sell + 99 * q
                &&& buy > 0 ==> sell < buy
            }),
    {
        if q > 0 {
            let b = params.base_price as int;
            let g = params.growth_rate as int;
            lemma_power_bounds(b, g, s);
            lemma_power_bounds(b, g, s + q);
            assert((s + q) - q == s);
            let sum = price_spec(params, s as int) + price_spec(params, s + q as int);
            let a = sum / 2;
            let dsc = a * 99 / 100;
            assert(dsc <= a) by (nonlinear_arith)
                requires
                    dsc == a * 99 / 100,
                    a >= 0,
            ;
            assert(dsc * q <= a * q) by (nonlinear_arith)
                requires
                    dsc <= a,
                    q >= 0,
            ;
            assert(100 * dsc <= 99 * a && 99 * a <= 100 * dsc + 99) by (nonlinear_arith)
                requires
                    dsc == a * 99 / 100,
                    a >= 0,
            ;
            assert(100 * (dsc * q) <= 99 * (a * q) && 99 * (a * q) <= 100 * (dsc * q) + 99 * q)
                by (nonlinear_arith)
                requires
                    100 * dsc <= 99 * a,
                    99 * a <= 100 * dsc + 99,
                    q >= 0,
            ;
        }
    }

    /// Selling the whole supply is accepted whenever the sum of the end prices and the
    /// payout fit in 128 bits (the additions and products are overflow-checked); selling
    /// one token more is refused.
    pub proof fn lemma_sell_whole_supply(params: CurveParams, s: nat)
        requires
            s > 0,
            price_spec(params, 0) + price_spec(params, s as int) <= u128::MAX,
            ((price_spec(params, 0) + price_spec(params, s as int)) / 2 * 99 / 100) * s
                <= u128::MAX,
        ensures
            sell_spec(params, s as int, s as int) is Ok,
            sell_spec(params, s as int, s + 1 as int) == Err::<u128, CurveError>(
                CurveError::InsufficientSupply,
            ),
    {
        assert(s - s == 0);
    }

    /// Reserves of half the threshold make any curve eligible for graduation, whatever
    /// its supply.
    pub proof fn lemma_half_threshold_graduates(params: CurveParams, supply: nat)
        ensures
            graduation_spec(params, supply as int, (params.graduation_threshold / 2) as int),
    {
    }
}

} // verus!
