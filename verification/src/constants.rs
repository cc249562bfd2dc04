use vstd::prelude::*;

verus! {

/// Most buckets a creator may configure for one game, the holding bucket not
/// counted.
pub const GAME_MAX_BUCKETS: u64 = 64;

/// Most players one game may admit.
pub const GAME_MAX_PLAYERS: u16 = 10000;

} // verus!
