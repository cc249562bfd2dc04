use vstd::prelude::*;

verus! {

/// Every way an operation on a game can be refused.
///
/// Validation errors are detected before any mutation, so a failed operation
/// leaves the game exactly as it was. The variants that speak of pools,
/// mints, owners and fee destinations belong to the host's account checks;
/// they are listed here so that the host can report them under the same
/// taxonomy as the game's own rules.
#[derive(Clone, Copy, PartialEq, Eq, Structural, Debug)]
pub enum EquilibrateError {
    /// Entry fee must be positive.
    InvalidEntryFee,
    /// Number of buckets must be positive.
    TooFewBuckets,
    /// Game cannot have more than 64 buckets.
    TooManyBuckets,
    /// Game is at capacity.
    GameAtCapacity,
    /// Token spill rate must be positive.
    InvalidSpillRate,
    /// Cannot burn tokens of native mints.
    CannotBurnNativeMint,
    /// Game must allow more than 1 player.
    MaxPlayersTooSmall,
    /// Game cannot have more than 10,000 players.
    MaxPlayersTooLarge,
    /// Attempted to enter a bucket that does not exist.
    BucketDoesNotExist,
    /// Not allowed to enter the holding bucket (index 0).
    CannotEnterHoldingBucket,
    /// Attempted to move within the same bucket.
    AlreadyInBucket,
    /// Attempted to act on a game that has already ended.
    GameIsOver,
    /// Program fee pubkey must be the one hard-coded in the program.
    InvalidProgramFeeDestination,
    /// Pool mint must be the one configured for the game.
    InvalidPoolMint,
    /// Pool manager must be the provided pool manager.
    InvalidPoolManager,
    /// Token pool address is incorrect.
    InvalidTokenPool,
    /// Token pool owner must be the pool manager.
    InvalidTokenPoolOwner,
    /// Pool manager owner must be this program.
    InvalidPoolManagerOwner,
    /// Token winnings account mint must be the one configured for the game.
    InvalidWinningsDestinationMint,
    /// Token source account mint must be the one configured for the game.
    InvalidTokenSourceMint,
    /// Mint being burned must be the one configured for the game.
    InvalidBurnMint,
    /// Program ID must be this program.
    InvalidProgramId,
    /// Given game creator does not match the one that created the game.
    GameCreatorMismatch,
    /// Player chose to abort leaving rather than lose tokens.
    AbortLeaveOnLoss,
}

} // verus!
