//! The factory: validates launches, collects the deployment fee and keeps the
//! registry of curves it created.
use crate::constants::FACTORY_DEPLOYMENT_FEE;
use crate::token::{base_payment, BondingCurve};
use crate::{
    ascii_chars, base_token_id, is_ascii, trim, trim_spec, AlkaneId, AlkaneTransfer, BaseToken,
    CurveError, CurveParams, BONDING_CURVE_FACTORY_ID,
};
use vstd::prelude::*;

verus! {

/// Parameters a creator supplies to launch a token; absent economics take defaults.
pub struct TokenLaunchParams {
    pub name_part1: u128,
    pub name_part2: u128,
    pub symbol: u128,
    pub image_data: Vec<u8>,
    pub base_price: Option<u128>,
    pub growth_rate: Option<u128>,
    pub graduation_threshold: Option<u128>,
    pub max_supply: Option<u128>,
    pub base_token: BaseToken,
    /// 0 burns all LP tokens, 1 rewards holders, 2 allocates to the creator, 3 to the DAO.
    pub lp_distribution_strategy: u8,
}

impl Default for TokenLaunchParams {
    fn default() -> (r: TokenLaunchParams)
        ensures
            r.name_part1 == 0,
            r.name_part2 == 0,
            r.symbol == 0,
            r.image_data@.len() == 0,
            r.base_price == Some(4_000_000u128),
            r.growth_rate == Some(150u128),
            r.graduation_threshold == Some(6_900_000_000u128),
            r.max_supply == Some(1_000_000_000u128),
            r.base_token == BaseToken::BUSD,
            r.lp_distribution_strategy == 0,
    {
        TokenLaunchParams {
            name_part1: 0,
            name_part2: 0,
            symbol: 0,
            image_data: Vec::new(),
            base_price: Some(4_000_000),
            growth_rate: Some(150),
            graduation_threshold: Some(6_900_000_000),
            max_supply: Some(1_000_000_000),
            base_token: BaseToken::BUSD,
            lp_distribution_strategy: 0,
        }
    }
}

/// A registry entry for one launched token.
pub struct TokenInfo {
    pub token_id: AlkaneId,
    pub name: String,
    pub symbol: String,
    pub creator: AlkaneId,
    pub base_token: BaseToken,
    pub launch_block: u64,
    pub launch_timestamp: u64,
    pub is_graduated: bool,
    pub amm_pool: Option<AlkaneId>,
}

impl TokenInfo {
    pub fn new(
        token_id: AlkaneId,
        name: String,
        symbol: String,
        creator: AlkaneId,
        base_token: BaseToken,
        launch_block: u64,
        launch_timestamp: u64,
        is_graduated: bool,
        amm_pool: Option<AlkaneId>,
    ) -> (r: TokenInfo)
        ensures
            r == (TokenInfo {
                token_id,
                name,
                symbol,
                creator,
                base_token,
                launch_block,
                launch_timestamp,
                is_graduated,
                amm_pool,
            }),
    {
        TokenInfo {
            token_id,
            name,
            symbol,
            creator,
            base_token,
            launch_block,
            launch_timestamp,
            is_graduated,
            amm_pool,
        }
    }

    pub fn token_id(&self) -> (r: AlkaneId)
        ensures
            r == self.token_id,
    {
        self.token_id
    }

    pub fn creator(&self) -> (r: AlkaneId)
        ensures
            r == self.creator,
    {
        self.creator
    }

    pub fn amm_pool(&self) -> (r: Option<AlkaneId>)
        ensures
            r == self.amm_pool,
    {
        self.amm_pool
    }

    /// An equal copy of the entry.
    pub fn snapshot(&self) -> (r: TokenInfo)
        ensures
            r == *self,
    {
        TokenInfo {
            token_id: self.token_id,
            name: self.name.clone(),
            symbol: self.symbol.clone(),
            creator: self.creator,
            base_token: self.base_token,
            launch_block: self.launch_block,
            launch_timestamp: self.launch_timestamp,
            is_graduated: self.is_graduated,
            amm_pool: self.amm_pool,
        }
    }
}

/// A curve deployed by the factory, with what it was initialized from.
pub struct DeployedCurve {
    pub token_id: AlkaneId,
    pub params: CurveParams,
    pub lp_distribution_strategy: u8,
}

/// Whether launch parameters are acceptable: a name, a symbol, and economics within
/// the factory's bounds.
pub open spec fn launch_params_ok(p: TokenLaunchParams) -> bool {
    let base_price = if p.base_price is Some { p.base_price->Some_0 } else { 4_000_000 };
    let growth_rate = if p.growth_rate is Some { p.growth_rate->Some_0 } else { 150 };
    let max_supply = if p.max_supply is Some { p.max_supply->Some_0 } else { 1_000_000_000 };
    &&& !(p.name_part1 == 0 && p.name_part2 == 0)
    &&& p.symbol != 0
    &&& 1_000 <= base_price <= 1_000_000_000
    &&& 10 <= growth_rate <= 1000
    &&& 1_000_000 <= max_supply <= 100_000_000_000
}

/// The curve parameters a launch produces.
pub open spec fn curve_params_of(p: TokenLaunchParams) -> CurveParams {
    CurveParams {
        base_price: if p.base_price is Some { p.base_price->Some_0 } else { 4_000_000 },
        growth_rate: if p.growth_rate is Some { p.growth_rate->Some_0 } else { 150 },
        graduation_threshold: if p.graduation_threshold is Some {
            p.graduation_threshold->Some_0
        } else {
            6_900_000_000
        },
        base_token: p.base_token,
        max_supply: if p.max_supply is Some { p.max_supply->Some_0 } else { 1_000_000_000 },
    }
}

/// The identity the factory gives its `index`-th token.
pub open spec fn token_id_of(index: u128) -> AlkaneId {
    AlkaneId { block: (BONDING_CURVE_FACTORY_ID >> 32u128), tx: index }
}

/// The ids of the entries of `tokens` made by `creator`, in registry order.
pub open spec fn tokens_by(tokens: Seq<TokenInfo>, creator: AlkaneId) -> Seq<AlkaneId>
    decreases tokens.len(),
{
    if tokens.len() == 0 {
        Seq::empty()
    } else {
        let rest = tokens_by(tokens.drop_last(), creator);
        if tokens.last().creator == creator {
            rest.push(tokens.last().token_id)
        } else {
            rest
        }
    }
}

/// A request to the factory, with its arguments decoded.
pub enum FactoryMessage {
    CreateToken { params: TokenLaunchParams },
    GetTokenList { offset: u128, limit: u128 },
    GetTokenInfo { token_block: u128, token_tx: u128 },
    GetCreatorTokens { creator_block: u128, creator_tx: u128 },
    SetFactoryFee { fee: u128 },
    /// 0 for BUSD, 1 for frBTC.
    WithdrawFees { base_token_type: u128 },
    GetFactoryStats,
}

/// The answer to a factory request.
pub enum FactoryResponse {
    Created(AlkaneId),
    TokenIds(Vec<AlkaneId>),
    Info(TokenInfo),
    FeeSet,
    FeesWithdrawn,
    Stats { total_tokens: u128, factory_fee: u128 },
}

/// The factory: its fee, its fee takings and its registry.
pub struct BondingCurveFactory {
    /// The fee set by the admin; 0 means the default fee.
    pub factory_fee: u128,
    pub collected_busd: u128,
    pub collected_frbtc: u128,
    /// Registered tokens; the token with index `i` (from 1) is at position `i - 1`.
    pub tokens: Vec<TokenInfo>,
    pub deployments: Vec<DeployedCurve>,
}

impl BondingCurveFactory {
    /// The invariant: one deployment per token, each token at the position its index
    /// gives, and the count within `u128`.
    pub open spec fn wf(&self) -> bool {
        &&& self.deployments@.len() == self.tokens@.len()
        &&& self.tokens@.len() <= u128::MAX
        &&& forall|i: int|
            0 <= i < self.tokens@.len() ==> #[trigger] self.tokens@[i].token_id == token_id_of(
                (i + 1) as u128,
            )
        &&& forall|i: int|
            0 <= i < self.tokens@.len() ==> #[trigger] self.deployments@[i].token_id
                == token_id_of((i + 1) as u128)
    }

    /// An empty factory charging the default fee.
    pub fn new() -> (r: BondingCurveFactory)
        ensures
            r.wf(),
            r.factory_fee == 0,
            r.collected_busd == 0,
            r.collected_frbtc == 0,
            r.tokens@.len() == 0,
    {
        BondingCurveFactory {
            factory_fee: 0,
            collected_busd: 0,
            collected_frbtc: 0,
            tokens: Vec::new(),
            deployments: Vec::new(),
        }
    }

    /// The fee charged per launch.
    pub open spec fn fee_spec(&self) -> u128 {
        if self.factory_fee == 0 {
            FACTORY_DEPLOYMENT_FEE
        } else {
            self.factory_fee
        }
    }

    pub fn get_factory_fee(&self) -> (r: u128)
        ensures
            r == self.fee_spec(),
    {
        if self.factory_fee == 0 {
            FACTORY_DEPLOYMENT_FEE
        } else {
            self.factory_fee
        }
    }

    pub fn set_factory_fee(&mut self, fee: u128)
        ensures
            *final(self) == (BondingCurveFactory { factory_fee: fee, ..*old(self) }),
    {
        self.factory_fee = fee;
    }

    /// The number of tokens launched so far.
    pub fn get_token_count(&self) -> (r: u128)
        requires
            self.wf(),
        ensures
            r == self.tokens@.len(),
    {
        self.tokens.len() as u128
    }

    /// Fees collected in one base token.
    pub fn collected_fees(&self, base_token: BaseToken) -> (r: u128)
        ensures
            r == match base_token {
                BaseToken::BUSD => self.collected_busd,
                BaseToken::FrBtc => self.collected_frbtc,
            },
    {
        match base_token {
            BaseToken::BUSD => self.collected_busd,
            BaseToken::FrBtc => self.collected_frbtc,
        }
    }

    /// Checks a launch: a name, a symbol, a base price within `[1_000, 1_000_000_000]`,
    /// a growth rate within `[10, 1000]` basis points and a maximum supply within
    /// `[1_000_000, 100_000_000_000]`, absent values taking their defaults.
    pub fn validate_launch_params(params: &TokenLaunchParams) -> (r: Result<(), CurveError>)
        ensures
            r is Ok <==> launch_params_ok(*params),
            params.name_part1 == 0 && params.name_part2 == 0 ==> r == Err::<(), CurveError>(
                CurveError::EmptyTokenName,
            ),
            !(params.name_part1 == 0 && params.name_part2 == 0) && params.symbol == 0 ==> r
                == Err::<(), CurveError>(CurveError::EmptyTokenSymbol),
            !(params.name_part1 == 0 && params.name_part2 == 0) && params.symbol != 0 && r is Err
                ==> r == Err::<(), CurveError>(CurveError::InvalidParameters),
    {
        if params.name_part1 == 0 && params.name_part2 == 0 {
            return Err(CurveError::EmptyTokenName);
        }
        if params.symbol == 0 {
            return Err(CurveError::EmptyTokenSymbol);
        }
        let base_price = match params.base_price {
            Some(v) => v,
            None => 4_000_000,
        };
        if base_price < 1_000 || base_price > 1_000_000_000 {
            return Err(CurveError::InvalidParameters);
        }
        let growth_rate = match params.growth_rate {
            Some(v) => v,
            None => 150,
        };
        if growth_rate < 10 || growth_rate > 1000 {
            return Err(CurveError::InvalidParameters);
        }
        let max_supply = match params.max_supply {
            Some(v) => v,
            None => 1_000_000_000,
        };
        if max_supply < 1_000_000 || max_supply > 100_000_000_000 {
            return Err(CurveError::InvalidParameters);
        }
        Ok(())
    }

    /// The curve parameters of a launch, defaults filled in.
    pub fn params_to_curve_params(params: &TokenLaunchParams) -> (r: CurveParams)
        ensures
            r == curve_params_of(*params),
    {
        CurveParams {
            base_price: match params.base_price {
                Some(v) => v,
                None => 4_000_000,
            },
            growth_rate: match params.growth_rate {
                Some(v) => v,
                None => 150,
            },
            graduation_threshold: match params.graduation_threshold {
                Some(v) => v,
                None => 6_900_000_000,
            },
            base_token: params.base_token,
            max_supply: match params.max_supply {
                Some(v) => v,
                None => 1_000_000_000,
            },
        }
    }

    /// The identity of the `index`-th token the factory launches.
    pub fn generate_token_id(index: u128) -> (r: AlkaneId)
        ensures
            r == token_id_of(index),
    {
        AlkaneId { block: BONDING_CURVE_FACTORY_ID >> 32u128, tx: index }
    }
    /// The index (from 1) that `token_id` has in the registry, if it is registered.
    pub open spec fn index_of(&self, token_id: AlkaneId) -> Option<int> {
        if token_id.block == BONDING_CURVE_FACTORY_ID >> 32u128 && 1 <= token_id.tx
            <= self.tokens@.len() {
            Some(token_id.tx as int)
        } else {
            None
        }
    }

    fn lookup(&self, token_id: &AlkaneId) -> (r: Option<usize>)
        requires
            self.wf(),
        ensures
            r matches Some(i) ==> self.index_of(*token_id) == Some(i + 1),
            r is None ==> self.index_of(*token_id) is None,
    {
        let n = self.tokens.len();
        if token_id.block == BONDING_CURVE_FACTORY_ID >> 32u128 && 1 <= token_id.tx
            && token_id.tx <= n as u128 {
            Some((token_id.tx - 1) as usize)
        } else {
            None
        }
    }

    /// Takes the launch fee out of the first incoming transfer of the base token.
    fn verify_fee_payment(&mut self, incoming: &Vec<AlkaneTransfer>, base_token: BaseToken) -> (r:
        Result<(), CurveError>)
        ensures
            ({
                let paid = base_payment(incoming@, base_token_id(base_token));
                let fee = old(self).fee_spec();
                let before = match base_token {
                    BaseToken::BUSD => old(self).collected_busd,
                    BaseToken::FrBtc => old(self).collected_frbtc,
                };
                &&& (paid is None || paid->Some_0 < fee) ==> r == Err::<(), CurveError>(
                    CurveError::InsufficientFee,
                )
                &&& !(paid is None || paid->Some_0 < fee) && before + fee > u128::MAX ==> r == Err::<
                    (),
                    CurveError,
                >(CurveError::ArithmeticOverflow)
                &&& !(paid is None || paid->Some_0 < fee) && before + fee <= u128::MAX ==> r is Ok
                &&& r is Err ==> *final(self) == *old(self)
                &&& r is Ok ==> !(paid is None || paid->Some_0 < fee) && before + fee <= u128::MAX
                    && *final(self) == match base_token {
                    BaseToken::BUSD => BondingCurveFactory {
                        collected_busd: (before + fee) as u128,
                        ..*old(self)
                    },
                    BaseToken::FrBtc => BondingCurveFactory {
                        collected_frbtc: (before + fee) as u128,
                        ..*old(self)
                    },
                }
            }),
    {
        let required_fee = self.get_factory_fee();
        let paid = BondingCurve::find_payment(incoming, base_token.alkane_id());
        match paid {
            None => return Err(CurveError::InsufficientFee),
            Some(amount) => if amount < required_fee {
                return Err(CurveError::InsufficientFee);
            },
        }
        match base_token {
            BaseToken::BUSD => match self.collected_busd.checked_add(required_fee) {
                Some(v) => {
                    self.collected_busd = v;
                    Ok(())
                },
                None => Err(CurveError::ArithmeticOverflow),
            },
            BaseToken::FrBtc => match self.collected_frbtc.checked_add(required_fee) {
                Some(v) => {
                    self.collected_frbtc = v;
                    Ok(())
                },
                None => Err(CurveError::ArithmeticOverflow),
            },
        }
    }

    /// Launches a token: checks the parameters and the fee, then registers the token
    /// and its curve under the next index. Returns the new token's identity.
    pub fn create_token(
        &mut self,
        creator: AlkaneId,
        incoming: &Vec<AlkaneTransfer>,
        params: TokenLaunchParams,
        launch_block: u64,
        launch_timestamp: u64,
    ) -> (r: Result<AlkaneId, CurveError>)
        requires
            old(self).wf(),
        ensures
            final(self).wf(),
            !launch_params_ok(params) ==> (r matches Err(e) && (e == CurveError::InvalidParameters
                || e == CurveError::EmptyTokenName || e == CurveError::EmptyTokenSymbol)),
            launch_params_ok(params) && ({
                let paid = base_payment(incoming@, base_token_id(params.base_token));
                paid is None || paid->Some_0 < old(self).fee_spec()
            }) ==> r == Err::<AlkaneId, CurveError>(CurveError::InsufficientFee),
            launch_params_ok(params) && ({
                let paid = base_payment(incoming@, base_token_id(params.base_token));
                let before = match params.base_token {
                    BaseToken::BUSD => old(self).collected_busd,
                    BaseToken::FrBtc => old(self).collected_frbtc,
                };
                &&& paid matches Some(p) && p >= old(self).fee_spec()
                &&& before + old(self).fee_spec() <= u128::MAX
                &&& old(self).tokens@.len() < u128::MAX
            }) ==> r is Ok,
            r is Err ==> *final(self) == *old(self),
            r matches Ok(id) ==> {
                let n = old(self).tokens@.len();
                let info = final(self).tokens@[n as int];
                &&& id == token_id_of((n + 1) as u128)
                &&& final(self).tokens@.len() == n + 1
                &&& final(self).tokens@.take(n as int) == old(self).tokens@
                &&& info.token_id == id
                &&& info.creator == creator
                &&& info.base_token == params.base_token
                &&& info.launch_block == launch_block
                &&& info.launch_timestamp == launch_timestamp
                &&& !info.is_graduated
                &&& info.amm_pool is None
                &&& is_ascii(trim_spec(params.symbol)) ==> info.symbol@ == ascii_chars(
                    trim_spec(params.symbol),
                )
                &&& is_ascii(trim_spec(params.name_part1) + trim_spec(params.name_part2))
                    ==> info.name@ == ascii_chars(
                    trim_spec(params.name_part1) + trim_spec(params.name_part2),
                )
                &&& final(self).deployments@ == old(self).deployments@.push(
                    DeployedCurve {
                        token_id: id,
                        params: curve_params_of(params),
                        lp_distribution_strategy: params.lp_distribution_strategy,
                    },
                )
                &&& final(self).factory_fee == old(self).factory_fee
            },
    {
        match Self::validate_launch_params(&params) {
            Ok(()) => {},
            Err(e) => return Err(e),
        }
        let count = self.tokens.len();
        if count as u128 == u128::MAX {
            return Err(CurveError::ArithmeticOverflow);
        }
        match self.verify_fee_payment(incoming, params.base_token) {
            Ok(()) => {},
            Err(e) => return Err(e),
        }
        let token_index = count as u128 + 1;
        let token_id = Self::generate_token_id(token_index);
        let curve_params = Self::params_to_curve_params(&params);
        let name = crate::TokenName::new(params.name_part1, params.name_part2).to_name_string();
        let info = TokenInfo::new(
            token_id,
            name,
            trim(params.symbol),
            creator,
            params.base_token,
            launch_block,
            launch_timestamp,
            false,
            None,
        );
        let ghost old_tokens = self.tokens@;
        self.tokens.push(info);
        self.deployments.push(
            DeployedCurve {
                token_id,
                params: curve_params,
                lp_distribution_strategy: params.lp_distribution_strategy,
            },
        );
        proof {
            assert(self.tokens@.take(count as int) =~= old_tokens);
        }
        Ok(token_id)
    }

    /// The registry entry of a token.
    pub fn get_token_info(&self, token_id: &AlkaneId) -> (r: Result<&TokenInfo, CurveError>)
        requires
            self.wf(),
        ensures
            self.index_of(*token_id) is None ==> r == Err::<&TokenInfo, CurveError>(
                CurveError::TokenNotFound,
            ),
            self.index_of(*token_id) matches Some(i) ==> r == Ok::<&TokenInfo, CurveError>(
                &self.tokens@[i - 1],
            ),
    {
        match self.lookup(token_id) {
            Some(i) => Ok(&self.tokens[i]),
            None => Err(CurveError::TokenNotFound),
        }
    }

    /// The identities of up to `limit` tokens, skipping the first `offset`.
    pub fn get_token_list(&self, offset: u128, limit: u128) -> (r: Vec<AlkaneId>)
        requires
            self.wf(),
        ensures
            ({
                let n = self.tokens@.len() as int;
                let start = if offset < n { offset as int } else { n };
                let end = if offset + limit < n { offset + limit } else { n };
                &&& r@.len() == end - start
                &&& forall|k: int| 0 <= k < r@.len() ==> #[trigger] r@[k] == self.tokens@[start + k].token_id
            }),
    {
        let n = self.tokens.len();
        let start: usize = if offset < n as u128 { offset as usize } else { n };
        let end: usize = if limit < n as u128 - start as u128 { start + limit as usize } else { n };
        let mut ids: Vec<AlkaneId> = Vec::new();
        let mut i: usize = start;
        while i < end
            invariant
                start <= i <= end <= n,
                n == self.tokens@.len(),
                ids@.len() == i - start,
                forall|k: int| 0 <= k < ids@.len() ==> #[trigger] ids@[k] == self.tokens@[start + k].token_id,
            decreases end - i,
        {
            ids.push(self.tokens[i].token_id);
            i = i + 1;
        }
        ids
    }

    /// The identities of the tokens a creator launched, oldest first.
    pub fn get_creator_tokens(&self, creator: &AlkaneId) -> (r: Vec<AlkaneId>)
        ensures
            r@ == tokens_by(self.tokens@, *creator),
    {
        let mut ids: Vec<AlkaneId> = Vec::new();
        let mut i: usize = 0;
        while i < self.tokens.len()
            invariant
                0 <= i <= self.tokens@.len(),
                ids@ == tokens_by(self.tokens@.take(i as int), *creator),
            decreases self.tokens@.len() - i,
        {
            proof {
                assert(self.tokens@.take(i as int + 1).drop_last() =~= self.tokens@.take(i as int));
            }
            if self.tokens[i].creator == *creator {
                ids.push(self.tokens[i].token_id);
            }
            i = i + 1;
        }
        proof {
            assert(self.tokens@.take(i as int) =~= self.tokens@);
        }
        ids
    }

    /// Records that a token graduated to `amm_pool`.
    pub fn update_graduation_status(&mut self, token_id: &AlkaneId, amm_pool: AlkaneId) -> (r:
        Result<(), CurveError>)
        requires
            old(self).wf(),
        ensures
            final(self).wf(),
            old(self).index_of(*token_id) is None ==> r == Err::<(), CurveError>(
                CurveError::TokenNotFound,
            ) && *final(self) == *old(self),
            old(self).index_of(*token_id) matches Some(i) ==> {
                &&& r is Ok
                &&& final(self).tokens@ == old(self).tokens@.update(
                    i - 1,
                    TokenInfo {
                        is_graduated: true,
                        amm_pool: Some(amm_pool),
                        ..old(self).tokens@[i - 1]
                    },
                )
                &&& final(self).deployments == old(self).deployments
                &&& final(self).factory_fee == old(self).factory_fee
            },
    {
        let i = match self.lookup(token_id) {
            Some(i) => i,
            None => return Err(CurveError::TokenNotFound),
        };
        let ghost before = self.tokens@;
        let mut info = self.tokens.remove(i);
        info.is_graduated = true;
        info.amm_pool = Some(amm_pool);
        self.tokens.insert(i, info);
        proof {
            assert(self.tokens@ =~= before.update(
                i as int,
                TokenInfo { is_graduated: true, amm_pool: Some(amm_pool), ..before[i as int] },
            ));
        }
        Ok(())
    }
}

/// The factory contract: it answers requests against its registry.
pub struct Factory {
    pub registry: BondingCurveFactory,
}

impl Factory {
    pub fn new() -> (r: Factory)
        ensures
            r.registry.wf(),
            r.registry.tokens@.len() == 0,
            r.registry.factory_fee == 0,
    {
        Factory { registry: BondingCurveFactory::new() }
    }

    /// Runs one factory request, on behalf of `caller` with the transfers `incoming`
    /// attached. A refused request changes nothing; reads change nothing.
    pub fn handle_factory_message(
        &mut self,
        message: FactoryMessage,
        caller: AlkaneId,
        incoming: &Vec<AlkaneTransfer>,
        launch_block: u64,
        launch_timestamp: u64,
    ) -> (r: Result<FactoryResponse, CurveError>)
        requires
            old(self).registry.wf(),
        ensures
            final(self).registry.wf(),
            r is Err ==> final(self).registry == old(self).registry,
            !(message is CreateToken || message is SetFactoryFee) ==> final(self).registry == old(self).registry,
            message matches FactoryMessage::SetFactoryFee { fee } ==> r matches Ok(
                FactoryResponse::FeeSet,
            ) && final(self).registry == (BondingCurveFactory { factory_fee: fee, ..old(self).registry }),
            message matches FactoryMessage::GetTokenInfo { token_block, token_tx } ==> match old(self).registry.index_of(AlkaneId { block: token_block, tx: token_tx }) {
                Some(i) => r matches Ok(FactoryResponse::Info(info)) && info == old(self).registry.tokens@[i - 1],
                None => r == Err::<FactoryResponse, CurveError>(CurveError::TokenNotFound),
            },
            message matches FactoryMessage::GetCreatorTokens { creator_block, creator_tx } ==> (r matches Ok(
                FactoryResponse::TokenIds(ids),
            ) && ids@ == tokens_by(
                old(self).registry.tokens@,
                AlkaneId { block: creator_block, tx: creator_tx },
            )),
            message is GetFactoryStats ==> (r matches Ok(
                FactoryResponse::Stats { total_tokens, factory_fee },
            ) && total_tokens == old(self).registry.tokens@.len() && factory_fee == old(self).registry.fee_spec()),
            message matches FactoryMessage::CreateToken { params } ==> (r matches Ok(
                FactoryResponse::Created(id),
            ) ==> id == token_id_of((old(self).registry.tokens@.len() + 1) as u128)
                && final(self).registry.tokens@.len() == old(self).registry.tokens@.len() + 1),
    {
        match message {
            FactoryMessage::CreateToken { params } => match self.registry.create_token(
                caller,
                incoming,
                params,
                launch_block,
                launch_timestamp,
            ) {
                Ok(id) => Ok(FactoryResponse::Created(id)),
                Err(e) => Err(e),
            },
            FactoryMessage::GetTokenList { offset, limit } => Ok(
                FactoryResponse::TokenIds(self.registry.get_token_list(offset, limit)),
            ),
            FactoryMessage::GetTokenInfo { token_block, token_tx } => {
                let token_id = AlkaneId::new(token_block, token_tx);
                match self.registry.get_token_info(&token_id) {
                    Ok(info) => Ok(FactoryResponse::Info(info.snapshot())),
                    Err(e) => Err(e),
                }
            },
            FactoryMessage::GetCreatorTokens { creator_block, creator_tx } => {
                let creator = AlkaneId::new(creator_block, creator_tx);
                Ok(FactoryResponse::TokenIds(self.registry.get_creator_tokens(&creator)))
            },
            FactoryMessage::SetFactoryFee { fee } => {
                self.registry.set_factory_fee(fee);
                Ok(FactoryResponse::FeeSet)
            },
            FactoryMessage::WithdrawFees { base_token_type: _ } => Ok(FactoryResponse::FeesWithdrawn),
            FactoryMessage::GetFactoryStats => Ok(
                FactoryResponse::Stats {
                    total_tokens: self.registry.get_token_count(),
                    factory_fee: self.registry.get_factory_fee(),
                },
            ),
        }
    }
}

/// The deployed contract, which serves as the factory.
pub struct BondingCurveSystem {
    pub factory: Factory,
}

impl BondingCurveSystem {
    pub fn new() -> (r: BondingCurveSystem)
        ensures
            r.factory.registry.wf(),
            r.factory.registry.tokens@.len() == 0,
    {
        BondingCurveSystem { factory: Factory::new() }
    }

    /// Whether requests are to be read as factory requests; this contract always is the
    /// factory.
    pub fn is_factory(&self) -> (r: bool)
        ensures
            r,
    {
        true
    }
}

} // verus!
