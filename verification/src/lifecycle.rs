use vstd::prelude::*;

use vstd::arithmetic::div_mod::{lemma_div_nonincreasing, lemma_div_pos_is_pos};

use crate::constants::{GAME_MAX_BUCKETS, GAME_MAX_PLAYERS};
use crate::engine::{lemma_advance_conserves_tokens, lemma_sum_balances_below_mono,
    lemma_sum_balances_below_of_advanced, lemma_sum_players_below_mono,
    lemma_sum_players_below_pointwise, lemma_sums_after_update, new_balance, sum_balances,
    sum_balances_below, sum_players, sum_players_below};
use crate::error::EquilibrateError;
use crate::game::{advanced_buckets, config_is_valid, elapsed_seconds, Bucket, Game, GameConfig,
    GameState};
use crate::player::PlayerState;

verus! {

/// Whether `player`'s record is consistent with `game`: the player stands
/// in an enterable bucket, and that bucket counts them.
pub open spec fn player_in_game(game: Game, player: PlayerState) -> bool {
    &&& 1 <= player.bucket as int <= game.config.n_buckets as int
    &&& game.state.buckets@[player.bucket as int].players >= 1
}

/// Which error a creation attempt with an invalid configuration reports:
/// the checks run in this order and the first failure wins.
pub open spec fn new_game_error(config: GameConfig) -> EquilibrateError
    recommends
        !config_is_valid(config),
{
    if config.entry_fee_decimal_tokens == 0 {
        EquilibrateError::InvalidEntryFee
    } else if config.n_buckets < 1 {
        EquilibrateError::TooFewBuckets
    } else if config.n_buckets as int > GAME_MAX_BUCKETS as int {
        EquilibrateError::TooManyBuckets
    } else if config.spill_rate_decimal_tokens_per_second_per_player == 0 {
        EquilibrateError::InvalidSpillRate
    } else if config.max_players <= 1 {
        EquilibrateError::MaxPlayersTooSmall
    } else {
        EquilibrateError::MaxPlayersTooLarge
    }
}

/// Sums all but the first `from` entries of a zero bucket run: a sequence
/// that is all-zero from `from` on contributes nothing past `from`.
proof fn lemma_sums_of_trailing_zeros(buckets: Seq<Bucket>, from: int, n: int)
    requires
        0 <= from <= n,
        forall|k: int|
            from <= k < n ==> buckets[k] == (Bucket { decimal_tokens: 0u64, players: 0u16 }),
    ensures
        sum_balances_below(buckets, n) == sum_balances_below(buckets, from),
        sum_players_below(buckets, n) == sum_players_below(buckets, from),
    decreases n,
{
    if from < n {
        lemma_sums_of_trailing_zeros(buckets, from, n - 1);
    }
}

/// Starts a new game: validates the configuration, places the entry fee in
/// the holding bucket, and puts the creating player in the first enterable
/// bucket. The host collects the protocol fee and the deposit before
/// persisting what this returns.
#[verifier::loop_isolation(false)]
pub fn new_game(
    config: GameConfig,
    game_id: u64,
    creator: [u8; 32],
    first_player: [u8; 32],
    now_epoch_seconds: i64,
) -> (result: Result<(Game, PlayerState), EquilibrateError>)
    requires
        0 <= now_epoch_seconds,
    ensures
        result is Ok <==> config_is_valid(config),
        !config_is_valid(config) ==> (result matches Err(e) && e == new_game_error(config)),
        config_is_valid(config) ==> (result matches Ok(made) && {
            let (game, player) = made;
            &&& game.wf()
            &&& game.version == 0
            &&& game.id == game_id
            &&& game.creator == creator
            &&& game.config == config
            &&& game.state.buckets@.len() == config.n_buckets as int + 1
            &&& game.state.buckets@[0] == (Bucket {
                decimal_tokens: config.entry_fee_decimal_tokens,
                players: 1u16,
            })
            &&& game.state.buckets@[1] == (Bucket { decimal_tokens: 0u64, players: 1u16 })
            &&& forall|k: int|
                2 <= k < game.state.buckets@.len() ==> game.state.buckets@[k] == (Bucket {
                    decimal_tokens: 0u64,
                    players: 0u16,
                })
            &&& game.state.last_update_epoch_seconds == now_epoch_seconds
            &&& game.active_player_count() == 1
            &&& sum_balances(game.state.buckets@) == config.entry_fee_decimal_tokens
            &&& player == (PlayerState {
                version: 0u8,
                bucket: 1u8,
                burn_penalty_decimal_tokens: 0u64,
                player: first_player,
            })
            &&& player_in_game(game, player)
        }),
{
    if config.entry_fee_decimal_tokens == 0 {
        return Err(EquilibrateError::InvalidEntryFee);
    }
    if config.n_buckets < 1 {
        return Err(EquilibrateError::TooFewBuckets);
    }
    if (config.n_buckets as u64) > GAME_MAX_BUCKETS {
        return Err(EquilibrateError::TooManyBuckets);
    }
    if config.spill_rate_decimal_tokens_per_second_per_player == 0 {
        return Err(EquilibrateError::InvalidSpillRate);
    }
    if config.max_players <= 1 {
        return Err(EquilibrateError::MaxPlayersTooSmall);
    }
    if config.max_players > GAME_MAX_PLAYERS {
        return Err(EquilibrateError::MaxPlayersTooLarge);
    }

    let mut buckets: Vec<Bucket> = Vec::new();
    // The entry fee starts in the holding bucket and spills out as the game
    // progresses; the holding bucket's count mirrors the one player so far.
    buckets.push(Bucket { decimal_tokens: config.entry_fee_decimal_tokens, players: 1 });
    // The creating player always starts in the first enterable bucket.
    buckets.push(Bucket { decimal_tokens: 0, players: 1 });
    let total_buckets = (config.n_buckets as usize) + 1;
    while buckets.len() < total_buckets
        invariant
            2 <= buckets@.len() <= total_buckets,
            buckets@[0] == (Bucket {
                decimal_tokens: config.entry_fee_decimal_tokens,
                players: 1u16,
            }),
            buckets@[1] == (Bucket { decimal_tokens: 0u64, players: 1u16 }),
            forall|k: int|
                2 <= k < buckets@.len() ==> buckets@[k] == (Bucket {
                    decimal_tokens: 0u64,
                    players: 0u16,
                }),
        decreases total_buckets - buckets@.len(),
    {
        buckets.push(Bucket { decimal_tokens: 0, players: 0 });
    }
    proof {
        lemma_sums_of_trailing_zeros(buckets@, 2, buckets@.len() as int);
        assert(sum_balances_below(buckets@, 0) == 0);
        assert(sum_balances_below(buckets@, 1) == config.entry_fee_decimal_tokens as int);
        assert(sum_balances_below(buckets@, 2) == config.entry_fee_decimal_tokens as int);
        assert(sum_players_below(buckets@, 0) == 0);
        assert(sum_players_below(buckets@, 1) == 1);
        assert(sum_players_below(buckets@, 2) == 2);
    }

    let state = GameState { buckets, last_update_epoch_seconds: now_epoch_seconds };
    let game = Game { version: 0, id: game_id, creator, config, state };
    let player = PlayerState {
        version: 0,
        bucket: 1,
        burn_penalty_decimal_tokens: 0,
        player: first_player,
    };
    Ok((game, player))
}

/// Which error a refused join reports: the checks run in this order and
/// the first failure wins.
pub open spec fn enter_game_error(game: Game, i_bucket: u8) -> EquilibrateError {
    if game.config.n_buckets < i_bucket {
        EquilibrateError::BucketDoesNotExist
    } else if i_bucket == 0 {
        EquilibrateError::CannotEnterHoldingBucket
    } else if game.active_player_count() == 0 {
        EquilibrateError::GameIsOver
    } else {
        EquilibrateError::GameAtCapacity
    }
}

/// Enters a new player into an existing game at bucket `i_bucket`.
///
/// On success the balances are first brought current, then the entry fee
/// lands in the holding bucket (to spill out later), the holding bucket's
/// mirrored count and the target bucket's count each grow by one, and the
/// new player's record is returned for the host to persist. A refused join
/// leaves the game exactly as it was.
pub fn enter_game(
    game: &mut Game,
    joining_player: [u8; 32],
    i_bucket: u8,
    now_epoch_seconds: i64,
) -> (result: Result<PlayerState, EquilibrateError>)
    requires
        old(game).wf(),
        old(game).state.last_update_epoch_seconds <= now_epoch_seconds,
        sum_balances(old(game).state.buckets@) + old(game).config.entry_fee_decimal_tokens
            <= u64::MAX,
    ensures
        final(game).version == old(game).version,
        final(game).id == old(game).id,
        final(game).creator == old(game).creator,
        final(game).config == old(game).config,
        final(game).wf(),
        result is Err ==> *final(game) == *old(game),
        result is Ok <==> (1 <= i_bucket as int <= old(game).config.n_buckets as int && 0 < old(
            game,
        ).active_player_count() < old(game).config.max_players as int),
        result is Err ==> (result matches Err(e) && e == enter_game_error(*old(game), i_bucket)),
        result is Ok ==> (result matches Ok(p) && p == (PlayerState {
            version: 0u8,
            bucket: i_bucket,
            burn_penalty_decimal_tokens: 0u64,
            player: joining_player,
        }) && player_in_game(*final(game), p)),
        result is Ok ==> ({
            let b_old = old(game).state.buckets@;
            let rate = old(game).config.spill_rate_decimal_tokens_per_second_per_player;
            let elapsed = elapsed_seconds(
                old(game).state.last_update_epoch_seconds,
                now_epoch_seconds as u64,
            );
            &&& final(game).state.last_update_epoch_seconds == now_epoch_seconds
            &&& final(game).state.buckets@.len() == b_old.len()
            &&& forall|k: int|
                0 <= k < b_old.len() ==> {
                    &&& (#[trigger] final(game).state.buckets@[k]).decimal_tokens as int
                        == new_balance(b_old, rate, elapsed, k) + if k == 0 {
                        old(game).config.entry_fee_decimal_tokens as int
                    } else {
                        0int
                    }
                    &&& final(game).state.buckets@[k].players as int == b_old[k].players + if k
                        == 0 || k == i_bucket as int {
                        1int
                    } else {
                        0int
                    }
                }
            &&& final(game).active_player_count() == old(game).active_player_count() + 1
            &&& sum_balances(final(game).state.buckets@) == sum_balances(b_old) + old(
                game,
            ).config.entry_fee_decimal_tokens
        }),
{
    if game.config.n_buckets < i_bucket {
        return Err(EquilibrateError::BucketDoesNotExist);
    }
    if i_bucket == 0 {
        return Err(EquilibrateError::CannotEnterHoldingBucket);
    }
    let game_player_count = game.get_player_count();
    if game_player_count == 0 {
        return Err(EquilibrateError::GameIsOver);
    }
    if game_player_count >= game.config.max_players {
        return Err(EquilibrateError::GameAtCapacity);
    }

    let ghost b_old = game.state.buckets@;
    let ghost rate = game.config.spill_rate_decimal_tokens_per_second_per_player;
    let ghost elapsed = elapsed_seconds(
        game.state.last_update_epoch_seconds,
        now_epoch_seconds as u64,
    );
    let n = game.state.buckets.len();

    game.update_bucket_balances(now_epoch_seconds as u64);
    proof {
        lemma_advance_conserves_tokens(b_old, rate, elapsed);
        lemma_sum_balances_below_of_advanced(game.state.buckets@, b_old, rate, elapsed, n as int);
        lemma_sum_players_below_pointwise(game.state.buckets@, b_old, n as int);
        // The holding bucket's advanced balance is part of the conserved
        // total, so adding the entry fee stays within the word size.
        assert(sum_balances_below(game.state.buckets@, 0) == 0);
        assert(sum_balances_below(game.state.buckets@, 1) == game.state.buckets@[0].decimal_tokens);
        lemma_sum_balances_below_mono(game.state.buckets@, 1, n as int);
    }

    let holding = game.state.buckets[0];
    let fee = game.config.entry_fee_decimal_tokens;
    let ghost s1 = game.state.buckets@;
    game.state.buckets[0] = Bucket {
        decimal_tokens: holding.decimal_tokens + fee,
        players: holding.players + 1,
    };
    proof {
        lemma_sums_after_update(
            s1,
            0,
            (Bucket { decimal_tokens: (holding.decimal_tokens + fee) as u64, players: (holding.players + 1) as u16 }),
            n as int,
        );
    }
    let ghost s2 = game.state.buckets@;
    let target = game.state.buckets[i_bucket as usize];
    proof {
        // The target bucket's count is bounded by the doubled player total.
        lemma_sum_players_below_mono(s2, 0, i_bucket as int);
        lemma_sum_players_below_mono(s2, i_bucket as int + 1, n as int);
        assert(sum_players_below(s2, i_bucket as int + 1) == sum_players_below(s2, i_bucket as int)
            + s2[i_bucket as int].players);
    }
    game.state.buckets[i_bucket as usize] = Bucket {
        decimal_tokens: target.decimal_tokens,
        players: target.players + 1,
    };
    proof {
        lemma_sums_after_update(
            s2,
            i_bucket as int,
            (Bucket { decimal_tokens: target.decimal_tokens, players: (target.players + 1) as u16 }),
            n as int,
        );
    }
    game.state.last_update_epoch_seconds = now_epoch_seconds;

    Ok(PlayerState {
        version: 0,
        bucket: i_bucket,
        burn_penalty_decimal_tokens: 0,
        player: joining_player,
    })
}

/// A game that counts a player in some enterable bucket has at least one
/// active player.
proof fn lemma_player_implies_active(game: Game, player: PlayerState)
    requires
        game.wf(),
        player_in_game(game, player),
    ensures
        game.active_player_count() >= 1,
{
    let b = game.state.buckets@;
    let pb = player.bucket as int;
    lemma_sum_players_below_mono(b, 0, pb);
    assert(sum_players_below(b, pb + 1) == sum_players_below(b, pb) + b[pb].players);
    lemma_sum_players_below_mono(b, pb + 1, b.len() as int);
}

/// Which error a refused move reports: the checks run in this order and
/// the first failure wins.
pub open spec fn move_buckets_error(player: PlayerState, game: Game, i_bucket: u8) -> EquilibrateError {
    if player.bucket == i_bucket {
        EquilibrateError::AlreadyInBucket
    } else if game.config.n_buckets < i_bucket {
        EquilibrateError::BucketDoesNotExist
    } else {
        EquilibrateError::CannotEnterHoldingBucket
    }
}

/// Moves a player to a different enterable bucket.
///
/// No tokens move with the player: the balances are first brought current,
/// then only the two bucket counts shift, which changes future spillover
/// eligibility. The move accrues the configured burn penalty, redeemed when
/// the player leaves. A refused move changes nothing.
pub fn move_buckets(
    game: &mut Game,
    player: &mut PlayerState,
    i_bucket: u8,
    now_epoch_seconds: i64,
) -> (result: Result<(), EquilibrateError>)
    requires
        old(game).wf(),
        player_in_game(*old(game), *old(player)),
        old(game).state.last_update_epoch_seconds <= now_epoch_seconds,
        old(player).burn_penalty_decimal_tokens
            + old(game).config.burn_rate_decimal_tokens_per_move <= u64::MAX,
    ensures
        final(game).version == old(game).version,
        final(game).id == old(game).id,
        final(game).creator == old(game).creator,
        final(game).config == old(game).config,
        final(game).wf(),
        result is Err ==> *final(game) == *old(game) && *final(player) == *old(player),
        result is Ok <==> (i_bucket != old(player).bucket && 1 <= i_bucket as int <= old(
            game,
        ).config.n_buckets as int),
        result is Err ==> (result matches Err(e) && e == move_buckets_error(
            *old(player),
            *old(game),
            i_bucket,
        )),
        result is Ok ==> ({
            let b_old = old(game).state.buckets@;
            let rate = old(game).config.spill_rate_decimal_tokens_per_second_per_player;
            let elapsed = elapsed_seconds(
                old(game).state.last_update_epoch_seconds,
                now_epoch_seconds as u64,
            );
            &&& *final(player) == (PlayerState {
                version: old(player).version,
                bucket: i_bucket,
                burn_penalty_decimal_tokens: (old(player).burn_penalty_decimal_tokens + old(
                    game,
                ).config.burn_rate_decimal_tokens_per_move) as u64,
                player: old(player).player,
            })
            &&& player_in_game(*final(game), *final(player))
            &&& final(game).state.last_update_epoch_seconds == now_epoch_seconds
            &&& final(game).state.buckets@.len() == b_old.len()
            &&& forall|k: int|
                0 <= k < b_old.len() ==> {
                    &&& (#[trigger] final(game).state.buckets@[k]).decimal_tokens as int
                        == new_balance(b_old, rate, elapsed, k)
                    &&& final(game).state.buckets@[k].players as int == b_old[k].players + (
                    if k == i_bucket as int {
                        1int
                    } else {
                        0int
                    }) - (if k == old(player).bucket as int {
                        1int
                    } else {
                        0int
                    })
                }
            &&& final(game).active_player_count() == old(game).active_player_count()
            &&& sum_balances(final(game).state.buckets@) == sum_balances(b_old)
        }),
{
    if player.bucket == i_bucket {
        return Err(EquilibrateError::AlreadyInBucket);
    }
    if game.config.n_buckets < i_bucket {
        return Err(EquilibrateError::BucketDoesNotExist);
    }
    if i_bucket == 0 {
        return Err(EquilibrateError::CannotEnterHoldingBucket);
    }
    let game_player_count = game.get_player_count();
    if game_player_count == 0 {
        // Unreachable: the moving player is counted in some bucket, so the
        // game cannot be over. The check mirrors the operation's taxonomy.
        proof {
            lemma_player_implies_active(*game, *player);
        }
        return Err(EquilibrateError::GameIsOver);
    }

    let ghost b_old = game.state.buckets@;
    let ghost rate = game.config.spill_rate_decimal_tokens_per_second_per_player;
    let ghost elapsed = elapsed_seconds(
        game.state.last_update_epoch_seconds,
        now_epoch_seconds as u64,
    );
    let n = game.state.buckets.len();

    game.update_bucket_balances(now_epoch_seconds as u64);
    proof {
        lemma_advance_conserves_tokens(b_old, rate, elapsed);
        lemma_sum_balances_below_of_advanced(game.state.buckets@, b_old, rate, elapsed, n as int);
        lemma_sum_players_below_pointwise(game.state.buckets@, b_old, n as int);
    }

    let i_current = player.bucket as usize;
    let ghost s1 = game.state.buckets@;
    let vacated = game.state.buckets[i_current];
    game.state.buckets[i_current] = Bucket {
        decimal_tokens: vacated.decimal_tokens,
        players: vacated.players - 1,
    };
    proof {
        lemma_sums_after_update(
            s1,
            i_current as int,
            (Bucket { decimal_tokens: vacated.decimal_tokens, players: (vacated.players - 1) as u16 }),
            n as int,
        );
    }
    let ghost s2 = game.state.buckets@;
    let entered = game.state.buckets[i_bucket as usize];
    proof {
        // The target bucket's count is bounded by the doubled player total.
        lemma_sum_players_below_mono(s2, 0, i_bucket as int);
        lemma_sum_players_below_mono(s2, i_bucket as int + 1, n as int);
        assert(sum_players_below(s2, i_bucket as int + 1) == sum_players_below(s2, i_bucket as int)
            + s2[i_bucket as int].players);
    }
    game.state.buckets[i_bucket as usize] = Bucket {
        decimal_tokens: entered.decimal_tokens,
        players: entered.players + 1,
    };
    proof {
        lemma_sums_after_update(
            s2,
            i_bucket as int,
            (Bucket { decimal_tokens: entered.decimal_tokens, players: (entered.players + 1) as u16 }),
            n as int,
        );
    }
    game.state.last_update_epoch_seconds = now_epoch_seconds;

    player.bucket = i_bucket;
    player.burn_penalty_decimal_tokens = player.burn_penalty_decimal_tokens
        + game.config.burn_rate_decimal_tokens_per_move;
    Ok(())
}

/// What a completed leave asks of the host: pay `winnings` to the player
/// from the pool, burn `decimal_tokens_to_burn` from the pool, close the
/// player's record, and — when `game_ended` — close the game itself,
/// returning its storage to the creator.
#[derive(Clone, Copy, PartialEq, Eq, Structural, Debug)]
pub struct LeaveOutcome {
    pub winnings: u64,
    pub decimal_tokens_to_burn: u64,
    pub game_ended: bool,
}

/// The winnings a leave at `now` yields before the burn penalty: the whole
/// remaining pool for the last player, otherwise the leaver's equal share
/// of their bucket's advanced balance, rounded down.
pub open spec fn leave_gross_winnings(game: Game, player: PlayerState, now: u64) -> int {
    let b = game.state.buckets@;
    if game.active_player_count() == 1 {
        sum_balances(b)
    } else {
        let rate = game.config.spill_rate_decimal_tokens_per_second_per_player;
        let advanced = new_balance(
            b,
            rate,
            elapsed_seconds(game.state.last_update_epoch_seconds, now),
            player.bucket as int,
        );
        advanced / (b[player.bucket as int].players as int)
    }
}

/// How much of the winnings the accrued move penalty burns: the whole
/// penalty, capped at the winnings themselves.
pub open spec fn leave_burn_amount(game: Game, player: PlayerState, now: u64) -> int {
    let gross = leave_gross_winnings(game, player, now);
    if player.burn_penalty_decimal_tokens as int > gross {
        gross
    } else {
        player.burn_penalty_decimal_tokens as int
    }
}

/// What a leave at `now` actually pays out: the winnings less the burned
/// penalty.
pub open spec fn leave_net_winnings(game: Game, player: PlayerState, now: u64) -> int {
    leave_gross_winnings(game, player, now) - leave_burn_amount(game, player, now)
}

/// Adds up every bucket's balance.
#[verifier::loop_isolation(false)]
fn total_balance(buckets: &Vec<Bucket>) -> (total: u64)
    requires
        sum_balances(buckets@) <= u64::MAX,
    ensures
        total as int == sum_balances(buckets@),
{
    let n = buckets.len();
    let mut total: u64 = 0;
    let mut k: usize = 0;
    while k < n
        invariant
            0 <= k <= n,
            total as int == sum_balances_below(buckets@, k as int),
        decreases n - k,
    {
        proof {
            lemma_sum_balances_below_mono(buckets@, k as int + 1, n as int);
        }
        total = total + buckets[k].decimal_tokens;
        k = k + 1;
    }
    total
}

/// Removes a player from the game and settles what they are owed.
///
/// The last player sweeps the whole remaining pool, holding-bucket residue
/// included, and the game ends. Any other player first has the balances
/// brought current, then takes the floor of their bucket's balance divided
/// by its occupancy; their bucket and the holding bucket's mirrored count
/// each shrink by one. The accrued move penalty is burned out of the
/// winnings, capped at the winnings. With `cancel_on_loss` set, a payout
/// below the entry fee aborts the whole leave and changes nothing.
pub fn leave_game(
    game: &mut Game,
    player: &PlayerState,
    cancel_on_loss: bool,
    now_epoch_seconds: i64,
) -> (result: Result<LeaveOutcome, EquilibrateError>)
    requires
        old(game).wf(),
        player_in_game(*old(game), *player),
        old(game).state.last_update_epoch_seconds <= now_epoch_seconds,
    ensures
        final(game).version == old(game).version,
        final(game).id == old(game).id,
        final(game).creator == old(game).creator,
        final(game).config == old(game).config,
        final(game).wf(),
        result is Err ==> *final(game) == *old(game),
        result is Err <==> (cancel_on_loss && leave_net_winnings(
            *old(game),
            *player,
            now_epoch_seconds as u64,
        ) < old(game).config.entry_fee_decimal_tokens),
        result is Err ==> (result matches Err(e) && e == EquilibrateError::AbortLeaveOnLoss),
        result is Ok ==> (result matches Ok(outcome) && {
            let now = now_epoch_seconds as u64;
            let b_old = old(game).state.buckets@;
            let rate = old(game).config.spill_rate_decimal_tokens_per_second_per_player;
            let elapsed = elapsed_seconds(old(game).state.last_update_epoch_seconds, now);
            let gross = leave_gross_winnings(*old(game), *player, now);
            &&& outcome.winnings as int == leave_net_winnings(*old(game), *player, now)
            &&& outcome.decimal_tokens_to_burn as int == leave_burn_amount(
                *old(game),
                *player,
                now,
            )
            &&& outcome.game_ended == (old(game).active_player_count() == 1)
            &&& final(game).state.last_update_epoch_seconds == now_epoch_seconds
            &&& (outcome.game_ended ==> final(game).state.buckets@ == b_old)
            &&& (!outcome.game_ended ==> {
                &&& final(game).state.buckets@.len() == b_old.len()
                &&& forall|k: int|
                    0 <= k < b_old.len() ==> {
                        &&& (#[trigger] final(game).state.buckets@[k]).decimal_tokens as int
                            == new_balance(b_old, rate, elapsed, k) - (
                        if k == player.bucket as int {
                            gross
                        } else {
                            0int
                        })
                        &&& final(game).state.buckets@[k].players as int == b_old[k].players - (
                        if k == 0 || k == player.bucket as int {
                            1int
                        } else {
                            0int
                        })
                    }
                &&& final(game).active_player_count() == old(game).active_player_count() - 1
                &&& sum_balances(final(game).state.buckets@) == sum_balances(b_old) - gross
            })
        }),
{
    let game_player_count = game.get_player_count();
    if game_player_count == 0 {
        // Unreachable: the leaving player is counted in some bucket, so the
        // game cannot be over. The check mirrors the operation's taxonomy.
        proof {
            lemma_player_implies_active(*game, *player);
        }
        return Err(EquilibrateError::GameIsOver);
    }

    let entry_fee = game.config.entry_fee_decimal_tokens;

    if game_player_count == 1 {
        // The last player sweeps the entire remaining pool; no advance is
        // needed since the game ends immediately after.
        let gross = total_balance(&game.state.buckets);
        let to_burn: u64;
        let net: u64;
        if player.burn_penalty_decimal_tokens > gross {
            to_burn = gross;
            net = 0;
        } else {
            to_burn = player.burn_penalty_decimal_tokens;
            net = gross - to_burn;
        }
        if cancel_on_loss && net < entry_fee {
            return Err(EquilibrateError::AbortLeaveOnLoss);
        }
        game.state.last_update_epoch_seconds = now_epoch_seconds;
        return Ok(LeaveOutcome {
            winnings: net,
            decimal_tokens_to_burn: to_burn,
            game_ended: true,
        });
    }

    let ghost b_old = game.state.buckets@;
    let ghost rate = game.config.spill_rate_decimal_tokens_per_second_per_player;
    let ghost elapsed = elapsed_seconds(
        game.state.last_update_epoch_seconds,
        now_epoch_seconds as u64,
    );
    let n = game.state.buckets.len();

    // Compute the advanced balances without touching the game yet, so that
    // a cancelled leave really changes nothing.
    let spill_rate = game.config.spill_rate_decimal_tokens_per_second_per_player;
    let last_update: u64 = game.state.last_update_epoch_seconds as u64;
    let elapsed_exec: u64 = (now_epoch_seconds as u64) - last_update;
    let mut settled = advanced_buckets(&game.state.buckets, spill_rate, elapsed_exec);

    let i_current = player.bucket as usize;
    let share_source = settled[i_current];
    proof {
        lemma_div_pos_is_pos(
            share_source.decimal_tokens as int,
            share_source.players as int,
        );
        lemma_div_nonincreasing(
            share_source.decimal_tokens as int,
            share_source.players as int,
        );
    }
    let gross: u64 = share_source.decimal_tokens / (share_source.players as u64);
    let to_burn: u64;
    let net: u64;
    if player.burn_penalty_decimal_tokens > gross {
        to_burn = gross;
        net = 0;
    } else {
        to_burn = player.burn_penalty_decimal_tokens;
        net = gross - to_burn;
    }
    if cancel_on_loss && net < entry_fee {
        return Err(EquilibrateError::AbortLeaveOnLoss);
    }

    proof {
        lemma_advance_conserves_tokens(b_old, rate, elapsed);
        lemma_sum_balances_below_of_advanced(settled@, b_old, rate, elapsed, n as int);
        lemma_sum_players_below_pointwise(settled@, b_old, n as int);
    }
    let ghost s1 = settled@;
    settled[i_current] = Bucket {
        decimal_tokens: share_source.decimal_tokens - gross,
        players: share_source.players - 1,
    };
    proof {
        lemma_sums_after_update(
            s1,
            i_current as int,
            (Bucket {
                decimal_tokens: (share_source.decimal_tokens - gross) as u64,
                players: (share_source.players - 1) as u16,
            }),
            n as int,
        );
    }
    let ghost s2 = settled@;
    let holding = settled[0];
    settled[0] = Bucket { decimal_tokens: holding.decimal_tokens, players: holding.players - 1 };
    proof {
        lemma_sums_after_update(
            s2,
            0,
            (Bucket {
                decimal_tokens: holding.decimal_tokens,
                players: (holding.players - 1) as u16,
            }),
            n as int,
        );
    }
    game.state.buckets = settled;
    game.state.last_update_epoch_seconds = now_epoch_seconds;

    Ok(LeaveOutcome { winnings: net, decimal_tokens_to_burn: to_burn, game_ended: false })
}

} // verus!
