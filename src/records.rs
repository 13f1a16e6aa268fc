//! The stored records: platform configuration, markets, predictions and user
//! profiles, with the invariants each keeps.

use vstd::prelude::*;

use crate::scoring::seq_sum;

verus! {

/// Fewest outcomes a market may offer.
pub const MIN_OPTIONS: usize = 2;

/// Most outcomes a market may offer.
pub const MAX_OPTIONS: usize = 10;

/// Longest market title, in characters.
pub const MAX_TITLE_LEN: usize = 200;

/// Number of market categories, and of per-category slots in a profile.
pub const CATEGORY_COUNT: usize = 8;

/// Basis points in one whole.
pub const MAX_FEE_BPS: u16 = 10000;

/// Incentive tokens a user must hold to resolve a market.
pub const RESOLVER_MIN_TOKENS: u64 = 10000;

/// Incentive tokens a user must hold to vote on a disputed resolution.
pub const VOTER_MIN_TOKENS: u64 = 100;

/// A 32-byte account address, as four little-endian 64-bit words.
#[derive(Clone, Copy, Debug, PartialEq, Eq, Structural)]
pub struct AccountKey {
    pub w0: u64,
    pub w1: u64,
    pub w2: u64,
    pub w3: u64,
}

/// Lifecycle of a market. Markets open `Active`; a resolution moves them to
/// `PendingResolution`, the window in which it may be disputed; finalizing it
/// makes them `Resolved`, after which winnings can be claimed.
#[derive(Clone, Copy, Debug, PartialEq, Eq, Structural)]
pub enum MarketStatus {
    Active,
    PendingResolution,
    Resolved,
    Disputed,
    Cancelled,
}

#[derive(Clone, Copy, Debug, PartialEq, Eq, Structural)]
pub enum MarketCategory {
    Sports,
    Politics,
    Crypto,
    Entertainment,
    Technology,
    Economics,
    Science,
    Other,
}

impl MarketCategory {
    pub open spec fn spec_index(self) -> nat {
        match self {
            MarketCategory::Sports => 0,
            MarketCategory::Politics => 1,
            MarketCategory::Crypto => 2,
            MarketCategory::Entertainment => 3,
            MarketCategory::Technology => 4,
            MarketCategory::Economics => 5,
            MarketCategory::Science => 6,
            MarketCategory::Other => 7,
        }
    }

    /// Position of the category in a profile's per-category slots.
    pub fn index(self) -> (r: usize)
        ensures
            r == self.spec_index(),
            r < CATEGORY_COUNT,
    {
        match self {
            MarketCategory::Sports => 0,
            MarketCategory::Politics => 1,
            MarketCategory::Crypto => 2,
            MarketCategory::Entertainment => 3,
            MarketCategory::Technology => 4,
            MarketCategory::Economics => 5,
            MarketCategory::Science => 6,
            MarketCategory::Other => 7,
        }
    }
}

/// Why an operation was refused. A refused operation changes nothing.
#[derive(Clone, Copy, Debug, PartialEq, Eq, Structural)]
pub enum ErrorCode {
    InvalidOptionsCount,
    InvalidResolutionTime,
    TitleTooLong,
    InsufficientTokensToCreateMarket,
    MarketNotActive,
    MarketExpired,
    InvalidOption,
    MarketNotExpired,
    InsufficientResolverCredentials,
    MarketNotResolved,
    AlreadyClaimed,
    Unauthorized,
    MarketNotInDispute,
    InsufficientVotingPower,
    /// The record an operation would create is already there.
    AlreadyExists,
    /// A fee above 10000 basis points.
    InvalidFee,
    /// A stake of zero.
    InvalidAmount,
    /// A prediction presented against a market it was not made on.
    WrongMarket,
    /// A count or amount would leave the 64-bit range, or a division by zero.
    ArithmeticOverflow,
}

#[derive(Clone, Debug, PartialEq, Eq)]
pub struct PlatformState {
    pub authority: AccountKey,
    pub oracle_token_mint: AccountKey,
    pub platform_fee_bps: u16,
    pub total_markets: u64,
    pub bump: u8,
}

impl PlatformState {
    pub open spec fn wf(&self) -> bool {
        self.platform_fee_bps <= MAX_FEE_BPS
    }

    /// Whether the configuration keeps its invariant.
    pub fn is_well_formed(&self) -> (r: bool)
        ensures
            r == self.wf(),
    {
        self.platform_fee_bps <= MAX_FEE_BPS
    }
}

#[derive(Clone, Debug, PartialEq, Eq)]
pub struct Market {
    pub market_id: u64,
    pub creator: AccountKey,
    pub title: String,
    pub description: String,
    pub category: MarketCategory,
    pub options: Vec<String>,
    pub option_votes: Vec<u64>,
    pub resolution_timestamp: i64,
    pub status: MarketStatus,
    pub total_volume: u64,
    pub correct_option_index: Option<u8>,
    pub resolver: Option<AccountKey>,
    pub resolved_at: Option<i64>,
    pub created_at: i64,
    pub bump: u8,
}

impl Market {
    /// The market's invariant: 2 to 10 outcomes, one stake total per outcome,
    /// the totals summing to the pool, no winning outcome while the market is
    /// open, and a valid one recorded once it has been resolved.
    pub open spec fn wf(&self) -> bool {
        &&& MIN_OPTIONS <= self.options.len() <= MAX_OPTIONS
        &&& self.option_votes.len() == self.options.len()
        &&& seq_sum(self.option_votes@) == self.total_volume
        &&& (self.correct_option_index matches Some(i) ==> i < self.options.len())
        &&& (self.status is PendingResolution || self.status is Resolved)
            ==> self.correct_option_index is Some
        &&& self.status is Active ==> self.correct_option_index is None
    }

    /// Whether the market keeps its invariant.
    pub fn is_well_formed(&self) -> (r: bool)
        ensures
            r == self.wf(),
    {
        let n = self.options.len();
        if n < MIN_OPTIONS || n > MAX_OPTIONS || self.option_votes.len() != n {
            return false;
        }
        match self.correct_option_index {
            Some(i) => {
                if i as usize >= n || self.status == MarketStatus::Active {
                    return false;
                }
            },
            None => {
                if self.status == MarketStatus::PendingResolution || self.status
                    == MarketStatus::Resolved {
                    return false;
                }
            },
        }
        let mut sum: u64 = 0;
        let mut i: usize = 0;
        while i < n
            invariant
                n == self.option_votes.len(),
                i <= n,
                sum == seq_sum(self.option_votes@.take(i as int)),
            decreases n - i,
        {
            let v = self.option_votes[i];
            proof {
                assert(self.option_votes@.take(i + 1).drop_last() =~= self.option_votes@.take(
                    i as int,
                ));
            }
            if sum > u64::MAX - v {
                proof {
                    lemma_seq_sum_prefix(self.option_votes@, i + 1);
                }
                return false;
            }
            sum = sum + v;
            i = i + 1;
        }
        proof {
            assert(self.option_votes@.take(n as int) =~= self.option_votes@);
        }
        sum == self.total_volume
    }
}

/// A prefix never sums to more than the whole.
proof fn lemma_seq_sum_prefix(s: Seq<u64>, k: int)
    requires
        0 <= k <= s.len(),
    ensures
        seq_sum(s.take(k)) <= seq_sum(s),
    decreases s.len(),
{
    if k < s.len() {
        lemma_seq_sum_prefix(s.drop_last(), k);
        assert(s.drop_last().take(k) =~= s.take(k));
        crate::scoring::lemma_seq_sum_bounds(s, s.len() - 1);
    } else {
        assert(s.take(k) =~= s);
    }
}

#[derive(Clone, Debug, PartialEq, Eq)]
pub struct Prediction {
    pub user: AccountKey,
    pub market: AccountKey,
    pub option_index: u8,
    pub amount: u64,
    pub timestamp: i64,
    pub claimed: bool,
    pub bump: u8,
}

#[derive(Clone, Debug, PartialEq, Eq)]
pub struct UserProfile {
    pub user: AccountKey,
    pub total_tokens: u64,
    pub total_predictions: u64,
    pub correct_predictions: u64,
    pub total_volume: u64,
    pub markets_created: u64,
    pub category_tokens: Vec<u64>,
    pub category_correct: Vec<u64>,
    pub created_at: i64,
    pub bump: u8,
}

impl UserProfile {
    pub open spec fn wf(&self) -> bool {
        &&& self.category_tokens.len() == CATEGORY_COUNT
        &&& self.category_correct.len() == CATEGORY_COUNT
    }
}

/// What a winning claim pays: the payout to the user, the fee kept by the
/// platform, and the incentive tokens credited to the user's profile.
#[derive(Clone, Copy, Debug, PartialEq, Eq, Structural)]
pub struct Reward {
    pub payout: u64,
    pub fee: u64,
    pub tokens_earned: u64,
}

} // verus!
