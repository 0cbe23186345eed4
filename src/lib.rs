//! Bonding-curve token issuance: exponential pricing, reserve accounting,
//! graduation to an AMM pool and LP token distribution.
use vstd::prelude::*;

pub mod amm_integration;
pub mod bonding_curve;
pub mod constants;
pub mod factory;
pub mod token;
pub mod wide;

pub use amm_integration::{AMMIntegration, LPDistributionStrategy};
pub use bonding_curve::{CurveCalculator, ReserveLedger};
pub use factory::{BondingCurveFactory, BondingCurveSystem, Factory, TokenInfo, TokenLaunchParams};
pub use token::BondingCurve;

verus! {

/// BUSD (block 2, tx 56801) packed as `block << 64 | tx`.
pub const BUSD_ALKANE_ID: u128 = 0x2_0000_0000_0000_0000 + 56801;

/// frBTC (block 32, tx 0) packed as `block << 64 | tx`.
pub const FRBTC_ALKANE_ID: u128 = 0x20_0000_0000_0000_0000;

/// Identifier of the factory contract.
pub const BONDING_CURVE_FACTORY_ID: u128 = 0x0bcd;

/// Identity of a contract or token on the host chain.
#[derive(Clone, Copy, Debug, PartialEq, Eq, Structural, Hash)]
pub struct AlkaneId {
    pub block: u128,
    pub tx: u128,
}

impl AlkaneId {
    pub fn new(block: u128, tx: u128) -> (r: AlkaneId)
        ensures
            r.block == block,
            r.tx == tx,
    {
        AlkaneId { block, tx }
    }
}

/// An amount of one token moving between parties.
#[derive(Clone, Copy, Debug, PartialEq, Eq, Structural)]
pub struct AlkaneTransfer {
    pub id: AlkaneId,
    pub value: u128,
}

/// The reserve currency a curve is priced in.
#[derive(Clone, Copy, Debug, PartialEq, Eq, Structural, Hash)]
pub enum BaseToken {
    BUSD,
    FrBtc,
}

pub open spec fn base_token_id(t: BaseToken) -> AlkaneId {
    match t {
        BaseToken::BUSD => AlkaneId { block: 2, tx: 56801 },
        BaseToken::FrBtc => AlkaneId { block: 32, tx: 0 },
    }
}

impl BaseToken {
    pub fn alkane_id(&self) -> (r: AlkaneId)
        ensures
            r == base_token_id(*self),
    {
        match self {
            BaseToken::BUSD => AlkaneId::new(2, 56801),
            BaseToken::FrBtc => AlkaneId::new(32, 0),
        }
    }
}

/// Parameters of one exponential bonding curve.
#[derive(Clone, Copy, Debug, PartialEq, Eq, Structural)]
pub struct CurveParams {
    /// Price of the first token, in base-token satoshis.
    pub base_price: u128,
    /// Price growth per token, in basis points.
    pub growth_rate: u128,
    /// Market cap at which the curve graduates.
    pub graduation_threshold: u128,
    pub base_token: BaseToken,
    pub max_supply: u128,
}

impl CurveParams {
    /// The invariant of parameters that a curve was initialized with.
    pub open spec fn valid(&self) -> bool {
        &&& self.base_price > 0
        &&& self.growth_rate > 0
        &&& self.max_supply > 0
    }
}

impl Default for CurveParams {
    fn default() -> (r: CurveParams)
        ensures
            r.base_price == 1_000_000,
            r.growth_rate == 1500,
            r.graduation_threshold == 10_000_000_000_000,
            r.base_token == BaseToken::BUSD,
            r.max_supply == 1_000_000_000_000_000,
    {
        CurveParams {
            base_price: 1_000_000,
            growth_rate: 1500,
            graduation_threshold: 10_000_000_000_000,
            base_token: BaseToken::BUSD,
            max_supply: 1_000_000_000_000_000,
        }
    }
}

/// The text of each error.
pub open spec fn message_spec(e: CurveError) -> Seq<char> {
    match e {
        CurveError::ExceedsMaxSupply => "Purchase would exceed maximum supply"@,
        CurveError::InsufficientSupply => "Cannot sell more tokens than current supply"@,
        CurveError::InsufficientPayment => "Insufficient base amount to buy any tokens"@,
        CurveError::SlippageExceeded => "Slippage exceeded"@,
        CurveError::AlreadyGraduated => "Bonding curve has already graduated"@,
        CurveError::AlreadyInitialized => "Bonding curve is already initialized"@,
        CurveError::GraduationCriteriaNotMet => "Graduation criteria not met"@,
        CurveError::ArithmeticOverflow => "Arithmetic overflow"@,
        CurveError::PoolCreationFailed => "Pool creation failed - pool does not exist"@,
        CurveError::InsufficientReserves => "Insufficient reserves for sell"@,
        CurveError::InvalidParameters => "Invalid parameters"@,
        CurveError::EmptyTokenName => "Token name cannot be empty"@,
        CurveError::EmptyTokenSymbol => "Token symbol cannot be empty"@,
        CurveError::InsufficientFee => "Insufficient factory fee"@,
        CurveError::TokenNotFound => "Token not found"@,
    }
}

/// Why an operation on a curve was refused.
#[derive(Clone, Copy, Debug, PartialEq, Eq, Structural)]
pub enum CurveError {
    ExceedsMaxSupply,
    InsufficientSupply,
    InsufficientPayment,
    SlippageExceeded,
    AlreadyGraduated,
    AlreadyInitialized,
    GraduationCriteriaNotMet,
    ArithmeticOverflow,
    PoolCreationFailed,
    InsufficientReserves,
    InvalidParameters,
    EmptyTokenName,
    EmptyTokenSymbol,
    InsufficientFee,
    TokenNotFound,
}

impl CurveError {
    /// A human-readable description of the error.
    pub fn message(&self) -> (r: &'static str)
        ensures
            r@ == message_spec(*self),
    {
        match self {
            CurveError::ExceedsMaxSupply => {
                proof {
                    reveal_strlit("Purchase would exceed maximum supply");
                }
                "Purchase would exceed maximum supply"
            },
            CurveError::InsufficientSupply => {
                proof {
                    reveal_strlit("Cannot sell more tokens than current supply");
                }
                "Cannot sell more tokens than current supply"
            },
            CurveError::InsufficientPayment => {
                proof {
                    reveal_strlit("Insufficient base amount to buy any tokens");
                }
                "Insufficient base amount to buy any tokens"
            },
            CurveError::SlippageExceeded => {
                proof {
                    reveal_strlit("Slippage exceeded");
                }
                "Slippage exceeded"
            },
            CurveError::AlreadyGraduated => {
                proof {
                    reveal_strlit("Bonding curve has already graduated");
                }
                "Bonding curve has already graduated"
            },
            CurveError::AlreadyInitialized => {
                proof {
                    reveal_strlit("Bonding curve is already initialized");
                }
                "Bonding curve is already initialized"
            },
            CurveError::GraduationCriteriaNotMet => {
                proof {
                    reveal_strlit("Graduation criteria not met");
                }
                "Graduation criteria not met"
            },
            CurveError::ArithmeticOverflow => {
                proof {
                    reveal_strlit("Arithmetic overflow");
                }
                "Arithmetic overflow"
            },
            CurveError::PoolCreationFailed => {
                proof {
                    reveal_strlit("Pool creation failed - pool does not exist");
                }
                "Pool creation failed - pool does not exist"
            },
            CurveError::InsufficientReserves => {
                proof {
                    reveal_strlit("Insufficient reserves for sell");
                }
                "Insufficient reserves for sell"
            },
            CurveError::InvalidParameters => {
                proof {
                    reveal_strlit("Invalid parameters");
                }
                "Invalid parameters"
            },
            CurveError::EmptyTokenName => {
                proof {
                    reveal_strlit("Token name cannot be empty");
                }
                "Token name cannot be empty"
            },
            CurveError::EmptyTokenSymbol => {
                proof {
                    reveal_strlit("Token symbol cannot be empty");
                }
                "Token symbol cannot be empty"
            },
            CurveError::InsufficientFee => {
                proof {
                    reveal_strlit("Insufficient factory fee");
                }
                "Insufficient factory fee"
            },
            CurveError::TokenNotFound => {
                proof {
                    reveal_strlit("Token not found");
                }
                "Token not found"
            },
        }
    }
}

/// The `n` low bytes of `v`, least significant first.
pub open spec fn le_bytes(v: nat, n: nat) -> Seq<u8>
    decreases n,
{
    if n == 0 {
        Seq::empty()
    } else {
        seq![(v % 256) as u8] + le_bytes(v / 256, (n - 1) as nat)
    }
}

/// `s` with its zero bytes removed.
pub open spec fn strip_zeros(s: Seq<u8>) -> Seq<u8>
    decreases s.len(),
{
    if s.len() == 0 {
        s
    } else if s[0] == 0 {
        strip_zeros(s.drop_first())
    } else {
        seq![s[0]] + strip_zeros(s.drop_first())
    }
}

/// The characters of a byte string in which every byte is ASCII.
pub open spec fn ascii_chars(b: Seq<u8>) -> Seq<char> {
    b.map_values(|x: u8| x as char)
}

pub open spec fn is_ascii(b: Seq<u8>) -> bool {
    forall|i: int| 0 <= i < b.len() ==> #[trigger] b[i] < 128
}

/// The text that the non-zero bytes of `v` spell.
pub open spec fn trim_spec(v: u128) -> Seq<u8> {
    strip_zeros(le_bytes(v as nat, 16))
}

/// The text that `String::from_utf8_lossy` decodes from `bytes`.
pub uninterp spec fn lossy_utf8(bytes: Seq<u8>) -> Seq<char>;

/// Relies on `String::from_utf8_lossy`: the text depends on the bytes alone, and ASCII
/// is kept character for character.
#[verifier::external_body]
fn string_from_bytes(bytes: &Vec<u8>) -> (r: String)
    ensures
        r@ == lossy_utf8(bytes@),
        is_ascii(bytes@) ==> r@ == ascii_chars(bytes@),
{
    String::from_utf8_lossy(bytes.as_slice()).into_owned()
}

/// The non-zero bytes of `v`, least significant first.
fn trimmed_bytes(v: u128) -> (r: Vec<u8>)
    ensures
        r@ == trim_spec(v),
{
    let mut out: Vec<u8> = Vec::new();
    let mut x: u128 = v;
    let mut i: usize = 0;
    while i < 16
        invariant
            0 <= i <= 16,
            out@ + strip_zeros(le_bytes(x as nat, (16 - i) as nat)) == trim_spec(v),
        decreases 16 - i,
    {
        let b = (x % 256) as u8;
        let ghost rest = le_bytes((x / 256) as nat, (16 - i - 1) as nat);
        proof {
            let k = (16 - i) as nat;
            assert(le_bytes(x as nat, k) == seq![b] + rest);
            assert((seq![b] + rest).drop_first() =~= rest);
            assert((seq![b] + rest)[0] == b);
        }
        if b != 0 {
            proof {
                assert(out@.push(b) + strip_zeros(rest) =~= out@ + (seq![b] + strip_zeros(rest)));
            }
            out.push(b);
        }
        x = x / 256;
        i = i + 1;
    }
    proof {
        assert(le_bytes(x as nat, 0) == Seq::<u8>::empty());
        assert(out@ + Seq::<u8>::empty() =~= out@);
    }
    out
}

/// The text spelled by the non-zero bytes of `v`, least significant first.
pub fn trim(v: u128) -> (r: String)
    ensures
        r@ == lossy_utf8(trim_spec(v)),
        is_ascii(trim_spec(v)) ==> r@ == ascii_chars(trim_spec(v)),
{
    let bytes = trimmed_bytes(v);
    string_from_bytes(&bytes)
}

/// A token name packed into two 128-bit words, bytes little-endian, zero bytes ignored.
#[derive(Clone, Copy, Debug, PartialEq, Eq, Structural)]
pub struct TokenName {
    pub part1: u128,
    pub part2: u128,
}

impl TokenName {
    pub fn new(part1: u128, part2: u128) -> (r: TokenName)
        ensures
            r.part1 == part1,
            r.part2 == part2,
    {
        TokenName { part1, part2 }
    }

    /// The name: the text of both words, one after the other.
    pub fn to_name_string(&self) -> (r: String)
        ensures
            r@ == lossy_utf8(trim_spec(self.part1) + trim_spec(self.part2)),
            is_ascii(trim_spec(self.part1) + trim_spec(self.part2)) ==> r@ == ascii_chars(
                trim_spec(self.part1) + trim_spec(self.part2),
            ),
    {
        let mut bytes = trimmed_bytes(self.part1);
        let mut second = trimmed_bytes(self.part2);
        bytes.append(&mut second);
        string_from_bytes(&bytes)
    }
}

impl Default for TokenName {
    fn default() -> (r: TokenName)
        ensures
            r.part1 == 0,
            r.part2 == 0,
    {
        TokenName { part1: 0, part2: 0 }
    }
}

} // verus!
