use vstd::prelude::*;

use vstd::arithmetic::div_mod::lemma_div_multiples_vanish;

use crate::constants::{GAME_MAX_BUCKETS, GAME_MAX_PLAYERS};
use crate::engine::{
    desired_spillover, inflow_below, is_spill_target, lemma_inflow_below_bound,
    lemma_spill_parts_bounds, lemma_sum_balances_below_mono, lemma_sum_players_below_mono,
    new_balance, outflow, per_target_flow, sum_balances, sum_players, sum_players_below,
    target_count, target_count_below,
};

verus! {

/// A token-balance partition that players occupy. Tokens spill between
/// buckets over time.
#[derive(Clone, Copy, PartialEq, Eq, Structural, Debug)]
pub struct Bucket {
    pub decimal_tokens: u64,
    /// Number of players currently occupying this bucket. For the holding
    /// bucket this mirrors the total number of players in the game.
    pub players: u16,
}

/// A game's economic parameters, set once at creation and immutable after.
#[derive(Clone, Copy, Debug)]
pub struct GameConfig {
    /// Identifier of the fungible asset the game is denominated in.
    pub mint: [u8; 32],
    pub entry_fee_decimal_tokens: u64,
    pub spill_rate_decimal_tokens_per_second_per_player: u64,
    /// Player-enterable buckets; the holding bucket comes on top of these.
    pub n_buckets: u8,
    pub max_players: u16,
    /// Penalty accrued each time a player moves, redeemed as a burn at leave
    /// time.
    pub burn_rate_decimal_tokens_per_move: u64,
}

/// The mutable part of a game: the buckets (index 0 is the holding bucket)
/// and the time balances were last brought current.
#[derive(Clone, Debug)]
pub struct GameState {
    pub buckets: Vec<Bucket>,
    pub last_update_epoch_seconds: i64,
}

/// One game: identity, immutable configuration and mutable state.
#[derive(Clone, Debug)]
pub struct Game {
    pub version: u8,
    pub id: u64,
    pub creator: [u8; 32],
    pub config: GameConfig,
    pub state: GameState,
}

/// Whether a game's configuration is acceptable at creation: a positive
/// entry fee, one to sixty-four enterable buckets, a positive spill rate,
/// and room for more than one player but no more than the game's hard cap.
pub open spec fn config_is_valid(config: GameConfig) -> bool {
    &&& config.entry_fee_decimal_tokens > 0
    &&& 1 <= config.n_buckets as int <= GAME_MAX_BUCKETS as int
    &&& config.spill_rate_decimal_tokens_per_second_per_player > 0
    &&& 1 < config.max_players as int <= GAME_MAX_PLAYERS as int
}

/// The whole seconds an operation arriving at `now` must advance a state
/// last updated at `last`.
pub open spec fn elapsed_seconds(last: i64, now: u64) -> u64 {
    (now - last) as u64
}

impl Bucket {
    /// Serialized size of a bucket record.
    pub fn get_space() -> (space: usize)
        ensures
            space == 10,
    {
        8 + // decimal_tokens
        2 // players
    }

    /// How many tokens this bucket would emit over the elapsed time: its
    /// population times the spill rate times the seconds, capped at what it
    /// holds (a bucket can lose at most the tokens it contains).
    pub fn compute_spillover(
        &self,
        spill_rate: u64,
        time_elapsed_since_last_update_seconds: u64,
    ) -> (spillover: u64)
        ensures
            spillover == desired_spillover(
                *self,
                spill_rate,
                time_elapsed_since_last_update_seconds,
            ),
    {
        assert((self.players as int) * (spill_rate as int) <= 0xffff * (u64::MAX as int))
            by (nonlinear_arith)
            requires
                self.players <= 0xffff,
                spill_rate <= u64::MAX,
        ;
        let players_rate: u128 = (self.players as u128) * (spill_rate as u128);
        match players_rate.checked_mul(time_elapsed_since_last_update_seconds as u128) {
            None => {
                // The unscaled amount exceeds even u128, so the cap at the
                // bucket's balance certainly applies.
                self.decimal_tokens
            },
            Some(unscaled) => {
                if (self.decimal_tokens as u128) <= unscaled {
                    self.decimal_tokens
                } else {
                    unscaled as u64
                }
            },
        }
    }
}

impl GameConfig {
    /// Serialized size of a game's configuration.
    pub fn get_space() -> (space: usize)
        ensures
            space == 65,
    {
        32 + // mint
        8 + // entry_fee_decimal_tokens
        8 + // spill_rate_decimal_tokens_per_second_per_player
        1 + // n_buckets
        8 + // max_players
        8 // burn_rate_decimal_tokens_per_move
    }
}

impl GameState {
    /// Serialized size of a game's state when configured with
    /// `n_buckets_configured` enterable buckets (one more bucket is stored:
    /// the holding bucket).
    pub fn get_space(n_buckets_configured: u8) -> (space: usize)
        requires
            n_buckets_configured < 255,
        ensures
            space == 12 + 10 * (n_buckets_configured + 1),
    {
        4 + Bucket::get_space() * ((n_buckets_configured + 1) as usize) + // buckets
        8 // last_update_epoch_seconds
    }
}

impl Game {
    /// What holds of every live game between operations: a valid
    /// configuration; one holding bucket plus the configured enterable
    /// buckets; a nonnegative clock; a token total that fits the ledger's
    /// word size; and the double-counting convention — the holding bucket's
    /// player count mirrors the game's total, so the counts sum to twice
    /// the active players, and never exceed capacity.
    pub open spec fn wf(&self) -> bool {
        &&& config_is_valid(self.config)
        &&& self.state.buckets@.len() == self.config.n_buckets as int + 1
        &&& 0 <= self.state.last_update_epoch_seconds
        &&& sum_balances(self.state.buckets@) <= u64::MAX
        &&& 2 * (self.state.buckets@[0].players as int) == sum_players(self.state.buckets@)
        &&& self.state.buckets@[0].players <= self.config.max_players
    }

    /// How many players are in the game: the holding bucket's mirrored
    /// count. Every operation keeps this equal to half the summed bucket
    /// counts.
    pub open spec fn active_player_count(&self) -> int {
        self.state.buckets@[0].players as int
    }

    /// Counts the players in the game by summing every bucket's count and
    /// halving it: with the holding bucket mirroring the total, each player
    /// is counted twice.
    #[verifier::loop_isolation(false)]
    pub fn get_player_count(&self) -> (count: u16)
        requires
            self.wf(),
        ensures
            count as int == self.active_player_count(),
    {
        let n = self.state.buckets.len();
        let mut total: u16 = 0;
        let mut k: usize = 0;
        while k < n
            invariant
                0 <= k <= n,
                total as int == sum_players_below(self.state.buckets@, k as int),
            decreases n - k,
        {
            proof {
                lemma_sum_players_below_mono(self.state.buckets@, k as int + 1, n as int);
            }
            total = total + self.state.buckets[k].players;
            k = k + 1;
        }
        proof {
            lemma_div_multiples_vanish(self.state.buckets@[0].players as int, 2);
        }
        total / 2
    }

    /// Brings every bucket's balance current as of `now_epoch_seconds`.
    ///
    /// Each bucket's desired outflow is split equally over its eligible
    /// targets, rounded down; the remainder stays at the source. The caller
    /// remains responsible for updating `last_update_epoch_seconds` and the
    /// player counts.
    pub fn update_bucket_balances(&mut self, now_epoch_seconds: u64)
        requires
            0 <= old(self).state.last_update_epoch_seconds,
            old(self).state.last_update_epoch_seconds <= now_epoch_seconds,
            sum_balances(old(self).state.buckets@) <= u64::MAX,
        ensures
            final(self).version == old(self).version,
            final(self).id == old(self).id,
            final(self).creator == old(self).creator,
            final(self).config == old(self).config,
            final(self).state.last_update_epoch_seconds == old(
                self,
            ).state.last_update_epoch_seconds,
            final(self).state.buckets@.len() == old(self).state.buckets@.len(),
            forall|k: int|
                0 <= k < old(self).state.buckets@.len() ==> {
                    &&& (#[trigger] final(self).state.buckets@[k]).players == old(
                        self,
                    ).state.buckets@[k].players
                    &&& final(self).state.buckets@[k].decimal_tokens as int == new_balance(
                        old(self).state.buckets@,
                        old(self).config.spill_rate_decimal_tokens_per_second_per_player,
                        elapsed_seconds(
                            old(self).state.last_update_epoch_seconds,
                            now_epoch_seconds,
                        ),
                        k,
                    )
                },
    {
        let rate = self.config.spill_rate_decimal_tokens_per_second_per_player;
        let last_update: u64 = self.state.last_update_epoch_seconds as u64;
        let elapsed: u64 = now_epoch_seconds - last_update;
        assert(elapsed == elapsed_seconds(
            old(self).state.last_update_epoch_seconds,
            now_epoch_seconds,
        ));
        let advanced = advanced_buckets(&self.state.buckets, rate, elapsed);
        self.state.buckets = advanced;
    }

    /// Serialized size of a whole game account.
    pub fn get_space(n_buckets_configured: u8) -> (space: usize)
        requires
            n_buckets_configured < 255,
        ensures
            space == 126 + 10 * (n_buckets_configured + 1),
    {
        8 + // account discriminator
        1 + // version
        8 + // id
        32 + // creator
        GameConfig::get_space() + GameState::get_space(n_buckets_configured)
    }
}

/// Computes what every bucket holds after one advance over `elapsed`
/// seconds, leaving the given buckets untouched. Player counts carry over
/// unchanged; each balance becomes its advanced value.
#[verifier::loop_isolation(false)]
pub(crate) fn advanced_buckets(buckets: &Vec<Bucket>, rate: u64, elapsed: u64) -> (advanced: Vec<
    Bucket,
>)
    requires
        sum_balances(buckets@) <= u64::MAX,
    ensures
        advanced@.len() == buckets@.len(),
        forall|k: int|
            0 <= k < buckets@.len() ==> {
                &&& (#[trigger] advanced@[k]).players == buckets@[k].players
                &&& advanced@[k].decimal_tokens as int == new_balance(buckets@, rate, elapsed, k)
            },
{
    let ghost b0 = buckets@;
    let n = buckets.len();

    let mut inflow: Vec<u64> = Vec::new();
    while inflow.len() < n
        invariant
            inflow@.len() <= n,
            forall|q: int| 0 <= q < inflow@.len() ==> inflow@[q] == 0,
        decreases n - inflow@.len(),
    {
        inflow.push(0);
    }

    let mut outflows: Vec<u64> = Vec::new();
    let mut i: usize = 0;
    while i < n
        invariant
            0 <= i <= n,
            inflow@.len() == n,
            outflows@.len() == i,
            forall|q: int|
                0 <= q < n ==> inflow@[q] as int == inflow_below(
                    b0,
                    rate,
                    elapsed,
                    q,
                    i as int,
                ),
            forall|m: int|
                0 <= m < i ==> outflows@[m] as int == outflow(b0, rate, elapsed, m),
        decreases n - i,
    {
        let bucket_i = buckets[i];
        let mut count: u64 = 0;
        let mut j: usize = 0;
        while j < n
            invariant
                0 <= j <= n,
                count <= j,
                count as int == target_count_below(b0, i as int, j as int),
            decreases n - j,
        {
            let bucket_j = buckets[j];
            if j != 0 && j != i && (i == 0 || bucket_j.players < bucket_i.players) {
                count = count + 1;
            }
            j = j + 1;
        }
        assert(count as int == target_count(b0, i as int));

        let desired = bucket_i.compute_spillover(rate, elapsed);
        proof {
            lemma_spill_parts_bounds(b0, rate, elapsed, i as int);
        }
        let per: u64 = if count == 0 {
            0
        } else {
            desired / count
        };
        assert(per as int == per_target_flow(b0, rate, elapsed, i as int));
        assert((count as int) * (per as int) == outflow(b0, rate, elapsed, i as int));
        let realized: u64 = count * per;
        assert(realized as int == outflow(b0, rate, elapsed, i as int));
        outflows.push(realized);

        let mut j: usize = 0;
        while j < n
            invariant
                0 <= j <= n,
                inflow@.len() == n,
                forall|q: int|
                    0 <= q < n ==> inflow@[q] as int == inflow_below(
                        b0,
                        rate,
                        elapsed,
                        q,
                        i as int,
                    ) + if q < j && is_spill_target(b0, i as int, q) {
                        per_target_flow(b0, rate, elapsed, i as int)
                    } else {
                        0int
                    },
            decreases n - j,
        {
            let bucket_j = buckets[j];
            if j != 0 && j != i && (i == 0 || bucket_j.players < bucket_i.players) {
                assert(is_spill_target(b0, i as int, j as int));
                proof {
                    lemma_inflow_below_bound(b0, rate, elapsed, j as int, i as int + 1);
                    lemma_sum_balances_below_mono(b0, i as int + 1, n as int);
                }
                let current = inflow[j];
                inflow[j] = current + per;
            }
            j = j + 1;
        }
        i = i + 1;
    }

    let mut new_buckets: Vec<Bucket> = Vec::new();
    let mut k: usize = 0;
    while k < n
        invariant
            0 <= k <= n,
            new_buckets@.len() == k,
            forall|q: int|
                0 <= q < k ==> {
                    &&& (#[trigger] new_buckets@[q]).players == b0[q].players
                    &&& new_buckets@[q].decimal_tokens as int == new_balance(
                        b0,
                        rate,
                        elapsed,
                        q,
                    )
                },
        decreases n - k,
    {
        let bucket_k = buckets[k];
        proof {
            lemma_inflow_below_bound(b0, rate, elapsed, k as int, n as int);
            lemma_spill_parts_bounds(b0, rate, elapsed, k as int);
        }
        let with_inflow: u64 = bucket_k.decimal_tokens + inflow[k];
        let settled: u64 = with_inflow - outflows[k];
        new_buckets.push(Bucket { decimal_tokens: settled, players: bucket_k.players });
        k = k + 1;
    }
    new_buckets
}

} // verus!
