//! The operations on the records. Each takes the records it reads and writes,
//! the caller's identity and, where it matters, the current time; it either
//! applies every change it describes and returns `Ok`, or changes nothing and
//! returns the first failed check.

use vstd::prelude::*;

use crate::records::{
    AccountKey, ErrorCode, Market, MarketCategory, MarketStatus, PlatformState, Prediction,
    Reward, UserProfile, CATEGORY_COUNT, MAX_FEE_BPS, MAX_OPTIONS, MAX_TITLE_LEN, MIN_OPTIONS,
    RESOLVER_MIN_TOKENS, VOTER_MIN_TOKENS,
};
use crate::scoring::{
    calculate_difficulty_score, calculate_early_bird_bonus, difficulty_spec, early_bird_spec,
    fee_spec, lemma_seq_sum_bounds, lemma_seq_sum_update, lemma_seq_sum_zeros,
    oracle_tokens_earned, payout_spec, seq_sum, split_stake, tokens_spec, user_share_spec,
};
use vstd::string::StrSliceExecFns;

verus! {

/// Records read and written when a winner or loser settles a prediction.
#[derive(Clone, Debug)]
pub struct ClaimReward {
    pub market: Market,
    /// Address of `market`.
    pub market_key: AccountKey,
    pub prediction: Prediction,
    pub user_profile: UserProfile,
    pub platform_state: PlatformState,
    /// The signer claiming.
    pub user: AccountKey,
}

/// Volume staked on the winning outcome of a resolved market.
pub open spec fn correct_volume(m: Market) -> int {
    m.option_votes@[m.correct_option_index->Some_0 as int] as int
}

/// Whether the claim's prediction picked the winning outcome.
pub open spec fn claim_wins(c: ClaimReward) -> bool {
    c.market.correct_option_index == Some(c.prediction.option_index)
}

/// Incentive tokens a winning claim earns.
pub open spec fn claim_tokens(c: ClaimReward) -> int {
    tokens_spec(
        c.prediction.amount as int,
        early_bird_spec(
            c.prediction.timestamp as int,
            c.market.created_at as int,
            c.market.resolution_timestamp as int,
        ),
        difficulty_spec(correct_volume(c.market), c.market.total_volume as int),
    )
}

/// Whether every amount a winning claim computes and credits stays in range.
pub open spec fn claim_fits(c: ClaimReward) -> bool {
    let p = c.user_profile;
    let ci = c.market.category.spec_index() as int;
    let tokens = claim_tokens(c);
    &&& correct_volume(c.market) > 0
    &&& user_share_spec(
        c.prediction.amount as int,
        c.market.total_volume as int,
        correct_volume(c.market),
    ) <= u64::MAX
    &&& tokens <= u64::MAX
    &&& p.total_tokens + tokens <= u64::MAX
    &&& p.correct_predictions + 1 <= u64::MAX
    &&& ci < p.category_tokens.len() ==> p.category_tokens@[ci] + tokens <= u64::MAX
    &&& ci < p.category_correct.len() ==> p.category_correct@[ci] + 1 <= u64::MAX
}

/// The first check a claim fails, if any.
pub open spec fn claim_error(c: ClaimReward) -> Option<ErrorCode> {
    if !(c.market.status is Resolved) {
        Some(ErrorCode::MarketNotResolved)
    } else if c.prediction.claimed {
        Some(ErrorCode::AlreadyClaimed)
    } else if c.prediction.user != c.user {
        Some(ErrorCode::Unauthorized)
    } else if c.prediction.market != c.market_key {
        Some(ErrorCode::WrongMarket)
    } else if claim_wins(c) && !claim_fits(c) {
        Some(ErrorCode::ArithmeticOverflow)
    } else {
        None
    }
}

/// The reward a winning claim pays.
pub open spec fn claim_reward_spec(c: ClaimReward) -> Reward {
    let a = c.prediction.amount as int;
    let t = c.market.total_volume as int;
    let cv = correct_volume(c.market);
    let bps = c.platform_state.platform_fee_bps as int;
    Reward {
        payout: payout_spec(a, t, cv, bps) as u64,
        fee: fee_spec(user_share_spec(a, t, cv), bps) as u64,
        tokens_earned: claim_tokens(c) as u64,
    }
}

/// `after` is `before` credited with a correct call worth `tokens` in the
/// category slot `ci` (when the profile has that slot).
pub open spec fn credited(before: UserProfile, after: UserProfile, ci: int, tokens: int) -> bool {
    &&& after == (UserProfile {
        total_tokens: after.total_tokens,
        correct_predictions: after.correct_predictions,
        category_tokens: after.category_tokens,
        category_correct: after.category_correct,
        ..before
    })
    &&& after.total_tokens == before.total_tokens + tokens
    &&& after.correct_predictions == before.correct_predictions + 1
    &&& if 0 <= ci < before.category_tokens.len() {
        after.category_tokens@ == before.category_tokens@.update(
            ci,
            (before.category_tokens@[ci] + tokens) as u64,
        )
    } else {
        after.category_tokens@ == before.category_tokens@
    }
    &&& if 0 <= ci < before.category_correct.len() {
        after.category_correct@ == before.category_correct@.update(
            ci,
            (before.category_correct@[ci] + 1) as u64,
        )
    } else {
        after.category_correct@ == before.category_correct@
    }
}

/// Settles a prediction on a resolved market. A losing prediction is marked
/// claimed and pays nothing (`Ok(None)`). A winning one is marked claimed,
/// its incentive tokens are credited to the profile, and the payout that the
/// custody service moves from the market's vault to the user is returned.
pub fn claim_reward(ctx: &mut ClaimReward) -> (r: Result<Option<Reward>, ErrorCode>)
    requires
        old(ctx).market.wf(),
        old(ctx).platform_state.wf(),
    ensures
        match claim_error(*old(ctx)) {
            Some(e) => r == Err::<Option<Reward>, ErrorCode>(e) && *final(ctx) == *old(ctx),
            None => {
                &&& final(ctx).market == old(ctx).market
                &&& final(ctx).market_key == old(ctx).market_key
                &&& final(ctx).platform_state == old(ctx).platform_state
                &&& final(ctx).user == old(ctx).user
                &&& final(ctx).prediction == (Prediction { claimed: true, ..old(ctx).prediction })
                &&& if claim_wins(*old(ctx)) {
                    &&& r == Ok::<Option<Reward>, ErrorCode>(Some(claim_reward_spec(*old(ctx))))
                    &&& credited(
                        old(ctx).user_profile,
                        final(ctx).user_profile,
                        old(ctx).market.category.spec_index() as int,
                        claim_tokens(*old(ctx)),
                    )
                } else {
                    &&& r == Ok::<Option<Reward>, ErrorCode>(None)
                    &&& final(ctx).user_profile == old(ctx).user_profile
                }
            },
        },
        r is Ok ==> !old(ctx).prediction.claimed && final(ctx).prediction.claimed,
        r matches Ok(Some(w)) ==> w.payout + w.fee == user_share_spec(
            old(ctx).prediction.amount as int,
            old(ctx).market.total_volume as int,
            correct_volume(old(ctx).market),
        ),
{
    if ctx.market.status != MarketStatus::Resolved {
        return Err(ErrorCode::MarketNotResolved);
    }
    if ctx.prediction.claimed {
        return Err(ErrorCode::AlreadyClaimed);
    }
    if ctx.prediction.user != ctx.user {
        return Err(ErrorCode::Unauthorized);
    }
    if ctx.prediction.market != ctx.market_key {
        return Err(ErrorCode::WrongMarket);
    }
    let correct_option = match ctx.market.correct_option_index {
        Some(i) => i,
        None => {
            return Err(ErrorCode::MarketNotResolved);
        },
    };
    if ctx.prediction.option_index != correct_option {
        ctx.prediction.claimed = true;
        return Ok(None);
    }
    let total_volume = ctx.market.total_volume;
    let correct_volume = ctx.market.option_votes[correct_option as usize];
    proof {
        lemma_seq_sum_bounds(ctx.market.option_votes@, correct_option as int);
    }
    if correct_volume == 0 {
        return Err(ErrorCode::ArithmeticOverflow);
    }
    let amount = ctx.prediction.amount;
    let (payout, fee) = match split_stake(
        amount,
        total_volume,
        correct_volume,
        ctx.platform_state.platform_fee_bps,
    ) {
        Some(split) => split,
        None => {
            return Err(ErrorCode::ArithmeticOverflow);
        },
    };
    let early_bird = calculate_early_bird_bonus(
        ctx.prediction.timestamp,
        ctx.market.created_at,
        ctx.market.resolution_timestamp,
    );
    let difficulty = calculate_difficulty_score(correct_volume, total_volume);
    let tokens = match oracle_tokens_earned(amount, early_bird, difficulty) {
        Some(t) => t,
        None => {
            return Err(ErrorCode::ArithmeticOverflow);
        },
    };
    let profile = &ctx.user_profile;
    if profile.total_tokens > u64::MAX - tokens || profile.correct_predictions == u64::MAX {
        return Err(ErrorCode::ArithmeticOverflow);
    }
    let ci = ctx.market.category.index();
    let has_token_slot = ci < profile.category_tokens.len();
    let has_correct_slot = ci < profile.category_correct.len();
    if has_token_slot && profile.category_tokens[ci] > u64::MAX - tokens {
        return Err(ErrorCode::ArithmeticOverflow);
    }
    if has_correct_slot && profile.category_correct[ci] == u64::MAX {
        return Err(ErrorCode::ArithmeticOverflow);
    }
    ctx.user_profile.total_tokens = ctx.user_profile.total_tokens + tokens;
    ctx.user_profile.correct_predictions = ctx.user_profile.correct_predictions + 1;
    if has_token_slot {
        let v = ctx.user_profile.category_tokens[ci] + tokens;
        ctx.user_profile.category_tokens.set(ci, v);
    }
    if has_correct_slot {
        let v = ctx.user_profile.category_correct[ci] + 1;
        ctx.user_profile.category_correct.set(ci, v);
    }
    ctx.prediction.claimed = true;
    Ok(Some(Reward { payout, fee, tokens_earned: tokens }))
}


/// Records read and written when a user stakes on a market.
#[derive(Clone, Debug)]
pub struct MakePrediction {
    /// The user's prediction on this market; `None` until one is made.
    pub prediction: Option<Prediction>,
    pub market: Market,
    /// Address of `market`.
    pub market_key: AccountKey,
    pub user_profile: UserProfile,
    /// The signer staking.
    pub user: AccountKey,
    pub now: i64,
    pub bump: u8,
}

/// The first check a stake fails, if any.
pub open spec fn prediction_error(c: MakePrediction, option_index: u8, amount: u64) -> Option<
    ErrorCode,
> {
    if c.prediction is Some {
        Some(ErrorCode::AlreadyExists)
    } else if !(c.market.status is Active) {
        Some(ErrorCode::MarketNotActive)
    } else if c.now >= c.market.resolution_timestamp {
        Some(ErrorCode::MarketExpired)
    } else if option_index >= c.market.options.len() {
        Some(ErrorCode::InvalidOption)
    } else if amount == 0 {
        Some(ErrorCode::InvalidAmount)
    } else if c.market.total_volume + amount > u64::MAX || c.user_profile.total_volume + amount
        > u64::MAX || c.user_profile.total_predictions + 1 > u64::MAX {
        Some(ErrorCode::ArithmeticOverflow)
    } else {
        None
    }
}

/// Records a stake of `amount` on outcome `option_index`: a new unclaimed
/// prediction, the stake added to the pool and to the outcome's total, and the
/// user's counters raised. On `Ok` the custody service moves `amount` from the
/// user to the market's vault.
pub fn make_prediction(ctx: &mut MakePrediction, option_index: u8, amount: u64) -> (r: Result<
    (),
    ErrorCode,
>)
    requires
        old(ctx).market.wf(),
    ensures
        final(ctx).market.wf(),
        seq_sum(final(ctx).market.option_votes@) == final(ctx).market.total_volume,
        old(ctx).prediction is Some ==> {
            &&& r == Err::<(), ErrorCode>(ErrorCode::AlreadyExists)
            &&& *final(ctx) == *old(ctx)
        },
        old(ctx).prediction is None && old(ctx).market.status is Active && old(ctx).now < old(
            ctx,
        ).market.resolution_timestamp && option_index >= old(ctx).market.options.len() ==> {
            &&& r == Err::<(), ErrorCode>(ErrorCode::InvalidOption)
            &&& final(ctx).market == old(ctx).market
        },
        match prediction_error(*old(ctx), option_index, amount) {
            Some(e) => r == Err::<(), ErrorCode>(e) && *final(ctx) == *old(ctx),
            None => {
                &&& r is Ok
                &&& final(ctx).prediction == Some(
                    Prediction {
                        user: old(ctx).user,
                        market: old(ctx).market_key,
                        option_index,
                        amount,
                        timestamp: old(ctx).now,
                        claimed: false,
                        bump: old(ctx).bump,
                    },
                )
                &&& final(ctx).market == (Market {
                    total_volume: final(ctx).market.total_volume,
                    option_votes: final(ctx).market.option_votes,
                    ..old(ctx).market
                })
                &&& final(ctx).market.total_volume == old(ctx).market.total_volume + amount
                &&& final(ctx).market.option_votes@ == old(ctx).market.option_votes@.update(
                    option_index as int,
                    (old(ctx).market.option_votes@[option_index as int] + amount) as u64,
                )
                &&& final(ctx).user_profile == (UserProfile {
                    total_predictions: (old(ctx).user_profile.total_predictions + 1) as u64,
                    total_volume: (old(ctx).user_profile.total_volume + amount) as u64,
                    ..old(ctx).user_profile
                })
                &&& final(ctx).market_key == old(ctx).market_key
                &&& final(ctx).user == old(ctx).user
                &&& final(ctx).now == old(ctx).now
                &&& final(ctx).bump == old(ctx).bump
            },
        },
{
    if ctx.prediction.is_some() {
        return Err(ErrorCode::AlreadyExists);
    }
    if ctx.market.status != MarketStatus::Active {
        return Err(ErrorCode::MarketNotActive);
    }
    if ctx.now >= ctx.market.resolution_timestamp {
        return Err(ErrorCode::MarketExpired);
    }
    let i = option_index as usize;
    if i >= ctx.market.options.len() {
        return Err(ErrorCode::InvalidOption);
    }
    if amount == 0 {
        return Err(ErrorCode::InvalidAmount);
    }
    if ctx.market.total_volume > u64::MAX - amount || ctx.user_profile.total_volume > u64::MAX
        - amount || ctx.user_profile.total_predictions == u64::MAX {
        return Err(ErrorCode::ArithmeticOverflow);
    }
    proof {
        lemma_seq_sum_bounds(ctx.market.option_votes@, i as int);
        lemma_seq_sum_update(
            ctx.market.option_votes@,
            i as int,
            (ctx.market.option_votes@[i as int] + amount) as u64,
        );
    }
    ctx.prediction = Some(
        Prediction {
            user: ctx.user,
            market: ctx.market_key,
            option_index,
            amount,
            timestamp: ctx.now,
            claimed: false,
            bump: ctx.bump,
        },
    );
    ctx.market.total_volume = ctx.market.total_volume + amount;
    let v = ctx.market.option_votes[i] + amount;
    ctx.market.option_votes.set(i, v);
    ctx.user_profile.total_predictions = ctx.user_profile.total_predictions + 1;
    ctx.user_profile.total_volume = ctx.user_profile.total_volume + amount;
    Ok(())
}

/// Records read and written when a market is created.
#[derive(Clone, Debug)]
pub struct CreateMarket {
    /// The market at the new market's address; `None` until it is created.
    pub market: Option<Market>,
    pub creator_profile: UserProfile,
    pub platform_state: PlatformState,
    /// The signer creating the market.
    pub creator: AccountKey,
    pub now: i64,
    pub bump: u8,
}

/// The first check a market creation fails, if any.
pub open spec fn create_market_error(
    c: CreateMarket,
    title: Seq<char>,
    resolution_timestamp: i64,
    n_options: int,
) -> Option<ErrorCode> {
    if c.market is Some {
        Some(ErrorCode::AlreadyExists)
    } else if !(MIN_OPTIONS <= n_options <= MAX_OPTIONS) {
        Some(ErrorCode::InvalidOptionsCount)
    } else if resolution_timestamp <= c.now {
        Some(ErrorCode::InvalidResolutionTime)
    } else if title.len() > MAX_TITLE_LEN {
        Some(ErrorCode::TitleTooLong)
    } else if c.platform_state.total_markets == u64::MAX || c.creator_profile.markets_created
        == u64::MAX {
        Some(ErrorCode::ArithmeticOverflow)
    } else {
        None
    }
}

/// Opens a market with the given outcomes: `Active`, no stakes, created now
/// by the signer. Raises the platform's market count and the creator's.
pub fn create_market(
    ctx: &mut CreateMarket,
    market_id: u64,
    title: String,
    description: String,
    category: MarketCategory,
    resolution_timestamp: i64,
    options: Vec<String>,
) -> (r: Result<(), ErrorCode>)
    ensures
        match create_market_error(*old(ctx), title@, resolution_timestamp, options.len() as int) {
            Some(e) => r == Err::<(), ErrorCode>(e) && *final(ctx) == *old(ctx),
            None => {
                &&& r is Ok
                &&& final(ctx).market matches Some(m) && {
                    &&& m.wf()
                    &&& m.market_id == market_id
                    &&& m.creator == old(ctx).creator
                    &&& m.title == title
                    &&& m.description == description
                    &&& m.category == category
                    &&& m.options == options
                    &&& m.option_votes@ == Seq::new(options.len() as nat, |i: int| 0u64)
                    &&& m.resolution_timestamp == resolution_timestamp
                    &&& m.status == MarketStatus::Active
                    &&& m.total_volume == 0
                    &&& m.correct_option_index is None
                    &&& m.resolver is None
                    &&& m.resolved_at is None
                    &&& m.created_at == old(ctx).now
                    &&& m.bump == old(ctx).bump
                }
                &&& final(ctx).platform_state == (PlatformState {
                    total_markets: (old(ctx).platform_state.total_markets + 1) as u64,
                    ..old(ctx).platform_state
                })
                &&& final(ctx).creator_profile == (UserProfile {
                    markets_created: (old(ctx).creator_profile.markets_created + 1) as u64,
                    ..old(ctx).creator_profile
                })
                &&& final(ctx).creator == old(ctx).creator
                &&& final(ctx).now == old(ctx).now
                &&& final(ctx).bump == old(ctx).bump
            },
        },
{
    if ctx.market.is_some() {
        return Err(ErrorCode::AlreadyExists);
    }
    if options.len() < MIN_OPTIONS || options.len() > MAX_OPTIONS {
        return Err(ErrorCode::InvalidOptionsCount);
    }
    if resolution_timestamp <= ctx.now {
        return Err(ErrorCode::InvalidResolutionTime);
    }
    if title.as_str().unicode_len() > MAX_TITLE_LEN {
        return Err(ErrorCode::TitleTooLong);
    }
    if ctx.platform_state.total_markets == u64::MAX || ctx.creator_profile.markets_created
        == u64::MAX {
        return Err(ErrorCode::ArithmeticOverflow);
    }
    let mut option_votes: Vec<u64> = Vec::new();
    while option_votes.len() < options.len()
        invariant
            option_votes.len() <= options.len(),
            forall|k: int| 0 <= k < option_votes.len() ==> option_votes@[k] == 0,
        decreases options.len() - option_votes.len(),
    {
        option_votes.push(0);
    }
    proof {
        lemma_seq_sum_zeros(option_votes@);
        assert(option_votes@ =~= Seq::new(options.len() as nat, |i: int| 0u64));
    }
    let market = Market {
        market_id,
        creator: ctx.creator,
        title,
        description,
        category,
        options,
        option_votes,
        resolution_timestamp,
        status: MarketStatus::Active,
        total_volume: 0,
        correct_option_index: None,
        resolver: None,
        resolved_at: None,
        created_at: ctx.now,
        bump: ctx.bump,
    };
    ctx.market = Some(market);
    ctx.platform_state.total_markets = ctx.platform_state.total_markets + 1;
    ctx.creator_profile.markets_created = ctx.creator_profile.markets_created + 1;
    Ok(())
}


/// Records read and written when a market is resolved.
#[derive(Clone, Debug)]
pub struct ResolveMarket {
    pub market: Market,
    pub resolver_profile: UserProfile,
    /// The signer resolving.
    pub resolver: AccountKey,
    pub now: i64,
}

/// The first check a resolution fails, if any.
pub open spec fn resolve_error(c: ResolveMarket, correct_option_index: u8) -> Option<ErrorCode> {
    if !(c.market.status is Active) {
        Some(ErrorCode::MarketNotActive)
    } else if c.now < c.market.resolution_timestamp {
        Some(ErrorCode::MarketNotExpired)
    } else if correct_option_index >= c.market.options.len() {
        Some(ErrorCode::InvalidOption)
    } else if c.resolver_profile.total_tokens < RESOLVER_MIN_TOKENS {
        Some(ErrorCode::InsufficientResolverCredentials)
    } else {
        None
    }
}

/// Declares the winning outcome of an expired market. The market moves to
/// `PendingResolution`, recording the outcome, the resolver and the time;
/// claims open once the resolution is finalized.
pub fn resolve_market(ctx: &mut ResolveMarket, correct_option_index: u8) -> (r: Result<(), ErrorCode>)
    requires
        old(ctx).market.wf(),
    ensures
        final(ctx).market.wf(),
        match resolve_error(*old(ctx), correct_option_index) {
            Some(e) => r == Err::<(), ErrorCode>(e) && *final(ctx) == *old(ctx),
            None => {
                &&& r is Ok
                &&& final(ctx).market == (Market {
                    status: MarketStatus::PendingResolution,
                    correct_option_index: Some(correct_option_index),
                    resolver: Some(old(ctx).resolver),
                    resolved_at: Some(old(ctx).now),
                    ..old(ctx).market
                })
                &&& final(ctx).resolver_profile == old(ctx).resolver_profile
                &&& final(ctx).resolver == old(ctx).resolver
                &&& final(ctx).now == old(ctx).now
            },
        },
{
    if ctx.market.status != MarketStatus::Active {
        return Err(ErrorCode::MarketNotActive);
    }
    if ctx.now < ctx.market.resolution_timestamp {
        return Err(ErrorCode::MarketNotExpired);
    }
    if correct_option_index as usize >= ctx.market.options.len() {
        return Err(ErrorCode::InvalidOption);
    }
    if ctx.resolver_profile.total_tokens < RESOLVER_MIN_TOKENS {
        return Err(ErrorCode::InsufficientResolverCredentials);
    }
    ctx.market.status = MarketStatus::PendingResolution;
    ctx.market.correct_option_index = Some(correct_option_index);
    ctx.market.resolver = Some(ctx.resolver);
    ctx.market.resolved_at = Some(ctx.now);
    Ok(())
}

/// Records read and written when a pending resolution is made final.
#[derive(Clone, Debug)]
pub struct FinalizeResolution {
    pub market: Market,
    /// The signer finalizing.
    pub resolver: AccountKey,
}

/// The first check a finalization fails, if any.
pub open spec fn finalize_error(c: FinalizeResolution) -> Option<ErrorCode> {
    if !(c.market.status is PendingResolution) {
        Some(ErrorCode::MarketNotInDispute)
    } else if c.market.resolver != Some(c.resolver) {
        Some(ErrorCode::Unauthorized)
    } else {
        None
    }
}

/// Ends the dispute window of a resolved market: the resolver who declared
/// the outcome moves the market from `PendingResolution` to `Resolved`, which
/// opens claims. The recorded outcome is kept.
pub fn finalize_resolution(ctx: &mut FinalizeResolution) -> (r: Result<(), ErrorCode>)
    requires
        old(ctx).market.wf(),
    ensures
        final(ctx).market.wf(),
        match finalize_error(*old(ctx)) {
            Some(e) => r == Err::<(), ErrorCode>(e) && *final(ctx) == *old(ctx),
            None => {
                &&& r is Ok
                &&& final(ctx).market == (Market {
                    status: MarketStatus::Resolved,
                    ..old(ctx).market
                })
                &&& final(ctx).resolver == old(ctx).resolver
            },
        },
{
    if ctx.market.status != MarketStatus::PendingResolution {
        return Err(ErrorCode::MarketNotInDispute);
    }
    let authorized = match ctx.market.resolver {
        Some(k) => k == ctx.resolver,
        None => false,
    };
    if !authorized {
        return Err(ErrorCode::Unauthorized);
    }
    ctx.market.status = MarketStatus::Resolved;
    Ok(())
}

/// Records read and written when the platform is set up.
#[derive(Clone, Debug)]
pub struct Initialize {
    /// The platform configuration; `None` until it is set up.
    pub platform_state: Option<PlatformState>,
    /// The deploying signer.
    pub authority: AccountKey,
    pub oracle_token_mint: AccountKey,
    pub bump: u8,
}

/// Sets up the platform configuration with a fee of `platform_fee_bps`
/// basis points and no markets.
pub fn initialize(ctx: &mut Initialize, platform_fee_bps: u16) -> (r: Result<(), ErrorCode>)
    ensures
        old(ctx).platform_state is Some ==> r == Err::<(), ErrorCode>(ErrorCode::AlreadyExists),
        old(ctx).platform_state is None && platform_fee_bps > MAX_FEE_BPS ==> r == Err::<
            (),
            ErrorCode,
        >(ErrorCode::InvalidFee),
        r is Err ==> *final(ctx) == *old(ctx),
        r is Ok <==> old(ctx).platform_state is None && platform_fee_bps <= MAX_FEE_BPS,
        r is Ok ==> *final(ctx) == (Initialize {
            platform_state: Some(
                PlatformState {
                    authority: old(ctx).authority,
                    oracle_token_mint: old(ctx).oracle_token_mint,
                    platform_fee_bps,
                    total_markets: 0,
                    bump: old(ctx).bump,
                },
            ),
            ..*old(ctx)
        }),
        r is Ok ==> (final(ctx).platform_state matches Some(p) && p.wf()),
{
    if ctx.platform_state.is_some() {
        return Err(ErrorCode::AlreadyExists);
    }
    if platform_fee_bps > MAX_FEE_BPS {
        return Err(ErrorCode::InvalidFee);
    }
    ctx.platform_state = Some(
        PlatformState {
            authority: ctx.authority,
            oracle_token_mint: ctx.oracle_token_mint,
            platform_fee_bps,
            total_markets: 0,
            bump: ctx.bump,
        },
    );
    Ok(())
}

/// Records read and written when a user opens a profile.
#[derive(Clone, Debug)]
pub struct CreateUserProfile {
    /// The user's profile; `None` until it is created.
    pub user_profile: Option<UserProfile>,
    /// The signer opening the profile.
    pub user: AccountKey,
    pub now: i64,
    pub bump: u8,
}

/// Opens an empty profile for the signer, with zeroed counters and eight
/// zeroed per-category slots.
pub fn create_user_profile(ctx: &mut CreateUserProfile) -> (r: Result<(), ErrorCode>)
    ensures
        old(ctx).user_profile is Some <==> r == Err::<(), ErrorCode>(ErrorCode::AlreadyExists),
        old(ctx).user_profile is None <==> r is Ok,
        r is Err ==> *final(ctx) == *old(ctx),
        r is Ok ==> {
            &&& final(ctx).user == old(ctx).user
            &&& final(ctx).now == old(ctx).now
            &&& final(ctx).bump == old(ctx).bump
            &&& final(ctx).user_profile matches Some(p) && {
                &&& p.wf()
                &&& p.user == old(ctx).user
                &&& p.total_tokens == 0
                &&& p.total_predictions == 0
                &&& p.correct_predictions == 0
                &&& p.total_volume == 0
                &&& p.markets_created == 0
                &&& p.category_tokens@ == Seq::new(CATEGORY_COUNT as nat, |i: int| 0u64)
                &&& p.category_correct@ == Seq::new(CATEGORY_COUNT as nat, |i: int| 0u64)
                &&& p.created_at == old(ctx).now
                &&& p.bump == old(ctx).bump
            }
        },
{
    if ctx.user_profile.is_some() {
        return Err(ErrorCode::AlreadyExists);
    }
    let category_tokens = zeroed_slots();
    let category_correct = zeroed_slots();
    ctx.user_profile = Some(
        UserProfile {
            user: ctx.user,
            total_tokens: 0,
            total_predictions: 0,
            correct_predictions: 0,
            total_volume: 0,
            markets_created: 0,
            category_tokens,
            category_correct,
            created_at: ctx.now,
            bump: ctx.bump,
        },
    );
    Ok(())
}

fn zeroed_slots() -> (v: Vec<u64>)
    ensures
        v@ == Seq::new(CATEGORY_COUNT as nat, |i: int| 0u64),
{
    let mut v: Vec<u64> = Vec::new();
    while v.len() < CATEGORY_COUNT
        invariant
            v.len() <= CATEGORY_COUNT,
            forall|k: int| 0 <= k < v.len() ==> v@[k] == 0,
        decreases CATEGORY_COUNT - v.len(),
    {
        v.push(0);
    }
    assert(v@ =~= Seq::new(CATEGORY_COUNT as nat, |i: int| 0u64));
    v
}

/// Records read when a vote on a pending resolution is cast.
#[derive(Clone, Debug)]
pub struct DisputeVote {
    pub market: Market,
    pub voter_profile: UserProfile,
    /// The signer voting.
    pub voter: AccountKey,
}

/// Admits a vote on a resolution still in its dispute window, from a voter
/// holding at least 100 incentive tokens. Votes are not tallied: an admitted
/// vote changes no record.
pub fn dispute_vote(ctx: &DisputeVote, _proposed_option: u8) -> (r: Result<(), ErrorCode>)
    ensures
        !(ctx.market.status is PendingResolution) ==> r == Err::<(), ErrorCode>(
            ErrorCode::MarketNotInDispute,
        ),
        ctx.market.status is PendingResolution && ctx.voter_profile.total_tokens
            < VOTER_MIN_TOKENS ==> r == Err::<(), ErrorCode>(ErrorCode::InsufficientVotingPower),
        r is Ok <==> ctx.market.status is PendingResolution && ctx.voter_profile.total_tokens
            >= VOTER_MIN_TOKENS,
{
    if ctx.market.status != MarketStatus::PendingResolution {
        return Err(ErrorCode::MarketNotInDispute);
    }
    if ctx.voter_profile.total_tokens < VOTER_MIN_TOKENS {
        return Err(ErrorCode::InsufficientVotingPower);
    }
    Ok(())
}

/// A prediction is settled at most once: once a claim on it has gone
/// through, every later claim against the same resolved market fails with
/// `AlreadyClaimed`.
pub proof fn lemma_claim_once(before: ClaimReward, after: ClaimReward)
    requires
        claim_error(before) is None,
        after.market == before.market,
        after.prediction.claimed,
    ensures
        !before.prediction.claimed,
        claim_error(after) == Some(ErrorCode::AlreadyClaimed),
{
}


/// Payouts plus fees of the rewards that `claims` pay, each as `claim_reward`
/// returns it for a winning claim.
pub open spec fn rewards_total(claims: Seq<ClaimReward>) -> int
    decreases claims.len(),
{
    if claims.len() == 0 {
        0
    } else {
        let w = claim_reward_spec(claims.last());
        rewards_total(claims.drop_last()) + w.payout + w.fee
    }
}

/// Stakes of the predictions that `claims` settle.
pub open spec fn claim_amounts(claims: Seq<ClaimReward>) -> Seq<u64> {
    claims.map_values(|c: ClaimReward| c.prediction.amount)
}

proof fn lemma_rewards_total_settled(claims: Seq<ClaimReward>, market: Market, fee_bps: u16)
    requires
        fee_bps <= MAX_FEE_BPS,
        correct_volume(market) > 0,
        forall|i: int|
            0 <= i < claims.len() ==> {
                &&& #[trigger] claims[i].market == market
                &&& claims[i].platform_state.platform_fee_bps == fee_bps
                &&& claim_fits(claims[i])
            },
    ensures
        rewards_total(claims) == crate::scoring::total_settled(
            claim_amounts(claims),
            market.total_volume as int,
            correct_volume(market),
            fee_bps as int,
        ),
    decreases claims.len(),
{
    if claims.len() > 0 {
        let init = claims.drop_last();
        assert forall|i: int| 0 <= i < init.len() implies #[trigger] init[i].market == market
            && init[i].platform_state.platform_fee_bps == fee_bps && claim_fits(init[i]) by {
            assert(init[i] == claims[i]);
        }
        lemma_rewards_total_settled(init, market, fee_bps);
        assert(claim_amounts(claims).drop_last() =~= claim_amounts(init));
        let c = claims.last();
        assert(c == claims[claims.len() - 1]);
        let a = c.prediction.amount as int;
        let t = market.total_volume as int;
        let cv = correct_volume(market);
        let share = user_share_spec(a, t, cv);
        assert(share >= 0) by (nonlinear_arith)
            requires share == a * t / cv, a >= 0, t >= 0, cv > 0;
        assert(share * fee_bps <= share * 10000) by (nonlinear_arith)
            requires fee_bps <= 10000, share >= 0;
        assert(share * fee_bps >= 0) by (nonlinear_arith)
            requires fee_bps >= 0, share >= 0;
        vstd::arithmetic::div_mod::lemma_div_is_ordered(share * fee_bps, share * 10000, 10000);
        vstd::arithmetic::div_mod::lemma_div_multiples_vanish(share, 10000);
        vstd::arithmetic::div_mod::lemma_div_pos_is_pos(share * fee_bps, 10000);
    }
}

/// Once every winning prediction of a resolved market has been settled by a
/// successful `claim_reward`, the payouts and fees handed out add up to the
/// whole pool, short by less than one unit per winner.
pub proof fn lemma_claims_conserve_pool(claims: Seq<ClaimReward>, market: Market, fee_bps: u16)
    requires
        market.wf(),
        market.status is Resolved,
        fee_bps <= MAX_FEE_BPS,
        seq_sum(claim_amounts(claims)) == correct_volume(market),
        correct_volume(market) > 0,
        forall|i: int|
            0 <= i < claims.len() ==> {
                &&& #[trigger] claims[i].market == market
                &&& claims[i].platform_state.platform_fee_bps == fee_bps
                &&& claim_wins(claims[i])
                &&& claim_fits(claims[i])
            },
    ensures
        claims.len() >= 1,
        market.total_volume - (claims.len() - 1) <= rewards_total(claims) <= market.total_volume,
{
    lemma_rewards_total_settled(claims, market, fee_bps);
    crate::scoring::lemma_settlement_conservation(
        claim_amounts(claims),
        market.total_volume,
        fee_bps,
    );
}

} // verus!
