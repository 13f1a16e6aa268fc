//! Settlement engine and lifecycle rules of a prediction market.
//!
//! Users stake on one of several outcomes of a market; after the deadline a
//! credentialed resolver declares the winning outcome, and winners split the
//! whole pool in proportion to their stake, net of a platform fee, and earn
//! incentive tokens scored by timing and by how contrarian their call was.
//! Storage, signatures, the clock and token custody belong to the host: every
//! operation here takes the records it reads and writes, and the current time,
//! as plain values.

pub mod instructions;
pub mod records;
pub mod scoring;

pub use instructions::{
    claim_reward, create_market, create_user_profile, dispute_vote, finalize_resolution,
    initialize, make_prediction, resolve_market, ClaimReward, CreateMarket, CreateUserProfile,
    DisputeVote, FinalizeResolution, Initialize, MakePrediction, ResolveMarket,
};
pub use records::{
    AccountKey, ErrorCode, Market, MarketCategory, MarketStatus, PlatformState, Prediction,
    Reward, UserProfile,
};
