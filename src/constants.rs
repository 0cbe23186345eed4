use vstd::prelude::*;

verus! {

// Token identification
pub const ALKANE_FACTORY_OWNED_TOKEN_ID: u128 = 0x0fff;

pub const ALKANE_FACTORY_FREE_MINT_ID: u128 = 0x0ffe;

// Security limits
/// Largest slippage a caller may accept, in basis points (5%).
pub const MAX_SLIPPAGE_BPS: u128 = 500;

/// Minimum liquidity, in base-token satoshis, for a healthy graduation.
pub const MIN_LIQUIDITY_FOR_GRADUATION: u128 = 3_500_000_000;

pub const MIN_HOLDERS_FOR_GRADUATION: u32 = 100;

/// Time lock, in seconds (24 hours).
pub const TIME_LOCK_DURATION: u64 = 86400;

// Trading limits
pub const MIN_BUY_AMOUNT: u128 = 10_000;

/// Largest share of the remaining supply one purchase may take, in basis points.
pub const MAX_BUY_PERCENTAGE: u128 = 1000;

/// Largest share of the circulating supply one sale may return, in basis points.
pub const MAX_SELL_PERCENTAGE: u128 = 2000;

// Fees
pub const TRADING_FEE_BPS: u128 = 50;

pub const GRADUATION_FEE_BPS: u128 = 200;

/// Fee charged for deploying a new curve through the factory.
pub const FACTORY_DEPLOYMENT_FEE: u128 = 100_000_000;

// Economic defaults
pub const DEFAULT_BASE_PRICE: u128 = 4_000_000;

pub const DEFAULT_GROWTH_RATE: u128 = 150;

pub const DEFAULT_GRADUATION_THRESHOLD: u128 = 6_900_000_000;

pub const DEFAULT_MAX_SUPPLY: u128 = 1_000_000_000;

// Pool seeding
/// Share of the token supply that may seed the pool, in basis points.
pub const AMM_INITIAL_LIQUIDITY_RATIO: u128 = 5000;

/// Share of LP tokens burned by default, in basis points.
pub const LP_BURN_PERCENTAGE: u128 = 8000;

// Emergency graduation
/// Blocks that must pass since launch before a stalled curve may graduate (about 30 days).
pub const EMERGENCY_GRADUATION_BLOCKS: u64 = 4320;

/// Supply that a stalled curve must exceed to graduate by the emergency path.
pub const EMERGENCY_MIN_SUPPLY: u128 = 1_000_000;

/// Reserves that a stalled curve must exceed to graduate by the emergency path.
pub const EMERGENCY_MIN_RESERVES: u128 = 100_000_000;

} // verus!
