use vstd::prelude::*;

verus! {

/// One player's record in one game: where they stand, what movement
/// penalty they have accrued, and who owns the record.
#[derive(Clone, Copy, Debug)]
pub struct PlayerState {
    pub version: u8,
    /// Index of the enterable bucket the player occupies; never the holding
    /// bucket once joined.
    pub bucket: u8,
    /// Penalty accrued on moves, burned out of the winnings at leave time.
    pub burn_penalty_decimal_tokens: u64,
    /// Identity of the owning player.
    pub player: [u8; 32],
}

impl PlayerState {
    /// Serialized size of a player record.
    pub fn get_space() -> (space: usize)
        ensures
            space == 50,
    {
        8 + // account discriminator
        1 + // version
        1 + // bucket
        8 + // burn_penalty_decimal_tokens
        32 // player
    }
}

} // verus!
