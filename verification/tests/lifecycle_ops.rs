use equilibrate::error::EquilibrateError;
use equilibrate::game::{Bucket, Game, GameConfig, GameState};
use equilibrate::lifecycle::{enter_game, leave_game, move_buckets, new_game};
use equilibrate::player::PlayerState;

fn valid_config() -> GameConfig {
    GameConfig {
        mint: [7u8; 32],
        entry_fee_decimal_tokens: 100,
        spill_rate_decimal_tokens_per_second_per_player: 5,
        n_buckets: 3,
        max_players: 4,
        burn_rate_decimal_tokens_per_move: 10,
    }
}

fn game_with(buckets: Vec<Bucket>, config: GameConfig, last_update: i64) -> Game {
    Game {
        version: 0,
        id: 1,
        creator: [1u8; 32],
        config,
        state: GameState { buckets, last_update_epoch_seconds: last_update },
    }
}

fn player_at(bucket: u8, burn_penalty: u64) -> PlayerState {
    PlayerState {
        version: 0,
        bucket,
        burn_penalty_decimal_tokens: burn_penalty,
        player: [2u8; 32],
    }
}

#[test]
fn new_game_places_the_fee_and_the_first_player() {
    let (game, player) = new_game(valid_config(), 9, [1u8; 32], [2u8; 32], 1000).unwrap();
    assert_eq!(game.id, 9);
    assert_eq!(game.state.buckets.len(), 4);
    assert_eq!(game.state.buckets[0], Bucket { decimal_tokens: 100, players: 1 });
    assert_eq!(game.state.buckets[1], Bucket { decimal_tokens: 0, players: 1 });
    assert_eq!(game.state.buckets[2], Bucket { decimal_tokens: 0, players: 0 });
    assert_eq!(game.state.buckets[3], Bucket { decimal_tokens: 0, players: 0 });
    assert_eq!(game.state.last_update_epoch_seconds, 1000);
    assert_eq!(player.bucket, 1);
    assert_eq!(player.burn_penalty_decimal_tokens, 0);
    assert_eq!(game.get_player_count(), 1);
}

#[test]
fn new_game_rejects_a_zero_entry_fee() {
    let mut config = valid_config();
    config.entry_fee_decimal_tokens = 0;
    let r = new_game(config, 1, [1u8; 32], [2u8; 32], 0);
    assert!(matches!(r, Err(EquilibrateError::InvalidEntryFee)));
}

#[test]
fn new_game_rejects_zero_buckets() {
    let mut config = valid_config();
    config.n_buckets = 0;
    let r = new_game(config, 1, [1u8; 32], [2u8; 32], 0);
    assert!(matches!(r, Err(EquilibrateError::TooFewBuckets)));
}

#[test]
fn new_game_rejects_too_many_buckets() {
    let mut config = valid_config();
    config.n_buckets = 65;
    let r = new_game(config, 1, [1u8; 32], [2u8; 32], 0);
    assert!(matches!(r, Err(EquilibrateError::TooManyBuckets)));
}

#[test]
fn new_game_rejects_a_zero_spill_rate() {
    let mut config = valid_config();
    config.spill_rate_decimal_tokens_per_second_per_player = 0;
    let r = new_game(config, 1, [1u8; 32], [2u8; 32], 0);
    assert!(matches!(r, Err(EquilibrateError::InvalidSpillRate)));
}

#[test]
fn new_game_rejects_a_solo_capacity() {
    let mut config = valid_config();
    config.max_players = 1;
    let r = new_game(config, 1, [1u8; 32], [2u8; 32], 0);
    assert!(matches!(r, Err(EquilibrateError::MaxPlayersTooSmall)));
}

#[test]
fn new_game_rejects_an_oversized_capacity() {
    let mut config = valid_config();
    config.max_players = 10001;
    let r = new_game(config, 1, [1u8; 32], [2u8; 32], 0);
    assert!(matches!(r, Err(EquilibrateError::MaxPlayersTooLarge)));
}

#[test]
fn enter_game_deposits_the_fee_and_counts_the_player() {
    let (mut game, _creator) = new_game(valid_config(), 1, [1u8; 32], [2u8; 32], 1000).unwrap();
    let joiner = enter_game(&mut game, [3u8; 32], 2, 1000).unwrap();
    assert_eq!(joiner.bucket, 2);
    assert_eq!(game.state.buckets[0], Bucket { decimal_tokens: 200, players: 2 });
    assert_eq!(game.state.buckets[1], Bucket { decimal_tokens: 0, players: 1 });
    assert_eq!(game.state.buckets[2], Bucket { decimal_tokens: 0, players: 1 });
    assert_eq!(game.get_player_count(), 2);
}

#[test]
fn enter_game_rejects_a_bucket_past_the_end() {
    let (mut game, _creator) = new_game(valid_config(), 1, [1u8; 32], [2u8; 32], 1000).unwrap();
    let before = game.state.buckets.clone();
    let r = enter_game(&mut game, [3u8; 32], 4, 1000);
    assert!(matches!(r, Err(EquilibrateError::BucketDoesNotExist)));
    assert_eq!(game.state.buckets, before);
}

#[test]
fn enter_game_rejects_the_holding_bucket() {
    let (mut game, _creator) = new_game(valid_config(), 1, [1u8; 32], [2u8; 32], 1000).unwrap();
    let r = enter_game(&mut game, [3u8; 32], 0, 1000);
    assert!(matches!(r, Err(EquilibrateError::CannotEnterHoldingBucket)));
}

#[test]
fn enter_game_rejects_an_ended_game() {
    let buckets = vec![
        Bucket { decimal_tokens: 40, players: 0 },
        Bucket { decimal_tokens: 0, players: 0 },
        Bucket { decimal_tokens: 0, players: 0 },
        Bucket { decimal_tokens: 0, players: 0 },
    ];
    let mut game = game_with(buckets, valid_config(), 1000);
    let r = enter_game(&mut game, [3u8; 32], 1, 1000);
    assert!(matches!(r, Err(EquilibrateError::GameIsOver)));
}

#[test]
fn enter_game_enforces_capacity_and_mutates_nothing() {
    // Four players fill the game to its configured capacity.
    let buckets = vec![
        Bucket { decimal_tokens: 400, players: 4 },
        Bucket { decimal_tokens: 30, players: 2 },
        Bucket { decimal_tokens: 0, players: 1 },
        Bucket { decimal_tokens: 0, players: 1 },
    ];
    let mut game = game_with(buckets, valid_config(), 1000);
    let before = game.state.buckets.clone();
    let r = enter_game(&mut game, [3u8; 32], 1, 2000);
    assert!(matches!(r, Err(EquilibrateError::GameAtCapacity)));
    assert_eq!(game.state.buckets, before);
    assert_eq!(game.state.last_update_epoch_seconds, 1000);
}

#[test]
fn move_buckets_shifts_counts_and_accrues_the_penalty() {
    let (mut game, mut player) = new_game(valid_config(), 1, [1u8; 32], [2u8; 32], 1000).unwrap();
    move_buckets(&mut game, &mut player, 3, 1000).unwrap();
    assert_eq!(player.bucket, 3);
    assert_eq!(player.burn_penalty_decimal_tokens, 10);
    assert_eq!(game.state.buckets[1].players, 0);
    assert_eq!(game.state.buckets[3].players, 1);
    assert_eq!(game.state.buckets[0].players, 1);
    // A second move accrues the penalty again.
    move_buckets(&mut game, &mut player, 2, 1000).unwrap();
    assert_eq!(player.burn_penalty_decimal_tokens, 20);
}

#[test]
fn move_buckets_rejects_the_current_bucket() {
    let (mut game, mut player) = new_game(valid_config(), 1, [1u8; 32], [2u8; 32], 1000).unwrap();
    let before_buckets = game.state.buckets.clone();
    let r = move_buckets(&mut game, &mut player, 1, 2000);
    assert!(matches!(r, Err(EquilibrateError::AlreadyInBucket)));
    assert_eq!(game.state.buckets, before_buckets);
    assert_eq!(game.state.last_update_epoch_seconds, 1000);
    assert_eq!(player.bucket, 1);
    assert_eq!(player.burn_penalty_decimal_tokens, 0);
}

#[test]
fn move_buckets_rejects_a_bucket_past_the_end() {
    let (mut game, mut player) = new_game(valid_config(), 1, [1u8; 32], [2u8; 32], 1000).unwrap();
    let r = move_buckets(&mut game, &mut player, 4, 1000);
    assert!(matches!(r, Err(EquilibrateError::BucketDoesNotExist)));
}

#[test]
fn move_buckets_rejects_the_holding_bucket() {
    let (mut game, mut player) = new_game(valid_config(), 1, [1u8; 32], [2u8; 32], 1000).unwrap();
    let r = move_buckets(&mut game, &mut player, 0, 1000);
    assert!(matches!(r, Err(EquilibrateError::CannotEnterHoldingBucket)));
}

#[test]
fn last_player_sweeps_the_whole_pool() {
    let buckets = vec![
        Bucket { decimal_tokens: 100, players: 1 },
        Bucket { decimal_tokens: 0, players: 1 },
        Bucket { decimal_tokens: 50, players: 0 },
    ];
    let mut config = valid_config();
    config.n_buckets = 2;
    let mut game = game_with(buckets, config, 500);
    let player = player_at(1, 0);
    let outcome = leave_game(&mut game, &player, false, 600).unwrap();
    assert_eq!(outcome.winnings, 150);
    assert_eq!(outcome.decimal_tokens_to_burn, 0);
    assert!(outcome.game_ended);
}

#[test]
fn leaving_takes_an_equal_split_rounded_down() {
    // A bucket holding 101 tokens among 3 players pays a leaver 33 and
    // keeps 68 for the remaining two.
    let buckets = vec![
        Bucket { decimal_tokens: 0, players: 3 },
        Bucket { decimal_tokens: 101, players: 3 },
    ];
    let mut config = valid_config();
    config.n_buckets = 1;
    let mut game = game_with(buckets, config, 500);
    let player = player_at(1, 0);
    let outcome = leave_game(&mut game, &player, false, 500).unwrap();
    assert_eq!(outcome.winnings, 33);
    assert_eq!(outcome.decimal_tokens_to_burn, 0);
    assert!(!outcome.game_ended);
    assert_eq!(game.state.buckets[1], Bucket { decimal_tokens: 68, players: 2 });
    assert_eq!(game.state.buckets[0].players, 2);
}

#[test]
fn burn_penalty_is_capped_at_the_winnings() {
    // The leaver is entitled to 25 but owes a 40-token penalty: the whole
    // 25 is burned and nothing is paid out.
    let buckets = vec![
        Bucket { decimal_tokens: 0, players: 2 },
        Bucket { decimal_tokens: 50, players: 2 },
    ];
    let mut config = valid_config();
    config.n_buckets = 1;
    let mut game = game_with(buckets, config, 500);
    let player = player_at(1, 40);
    let outcome = leave_game(&mut game, &player, false, 500).unwrap();
    assert_eq!(outcome.winnings, 0);
    assert_eq!(outcome.decimal_tokens_to_burn, 25);
    assert!(!outcome.game_ended);
}

#[test]
fn burn_penalty_below_the_winnings_is_burned_whole() {
    let buckets = vec![
        Bucket { decimal_tokens: 0, players: 2 },
        Bucket { decimal_tokens: 50, players: 2 },
    ];
    let mut config = valid_config();
    config.n_buckets = 1;
    let mut game = game_with(buckets, config, 500);
    let player = player_at(1, 10);
    let outcome = leave_game(&mut game, &player, false, 500).unwrap();
    assert_eq!(outcome.winnings, 15);
    assert_eq!(outcome.decimal_tokens_to_burn, 10);
}

#[test]
fn cancel_on_loss_aborts_a_losing_leave_untouched() {
    // The entry fee was 100 but the leaver would only net 25.
    let buckets = vec![
        Bucket { decimal_tokens: 0, players: 2 },
        Bucket { decimal_tokens: 50, players: 2 },
    ];
    let mut config = valid_config();
    config.n_buckets = 1;
    let mut game = game_with(buckets, config, 500);
    let before = game.state.buckets.clone();
    let player = player_at(1, 0);
    let r = leave_game(&mut game, &player, true, 777);
    assert!(matches!(r, Err(EquilibrateError::AbortLeaveOnLoss)));
    assert_eq!(game.state.buckets, before);
    assert_eq!(game.state.last_update_epoch_seconds, 500);
}

#[test]
fn cancel_on_loss_lets_a_winning_leave_proceed() {
    let buckets = vec![
        Bucket { decimal_tokens: 0, players: 2 },
        Bucket { decimal_tokens: 500, players: 2 },
    ];
    let mut config = valid_config();
    config.n_buckets = 1;
    let mut game = game_with(buckets, config, 500);
    let player = player_at(1, 0);
    let outcome = leave_game(&mut game, &player, true, 500).unwrap();
    assert_eq!(outcome.winnings, 250);
}

#[test]
fn a_full_game_round_trip_conserves_every_token() {
    // Two players join, one moves, both leave; the pool the host would
    // have collected equals what it pays out plus what it burns.
    let mut config = valid_config();
    config.burn_rate_decimal_tokens_per_move = 3;
    let (mut game, creator) = new_game(config, 1, [1u8; 32], [2u8; 32], 1000).unwrap();
    let mut joiner = enter_game(&mut game, [3u8; 32], 2, 1010).unwrap();
    let deposited = 2 * config.entry_fee_decimal_tokens;

    move_buckets(&mut game, &mut joiner, 3, 1020).unwrap();
    let first_out = leave_game(&mut game, &joiner, false, 1030).unwrap();
    assert!(!first_out.game_ended);
    let second_out = leave_game(&mut game, &creator, false, 1040).unwrap();
    assert!(second_out.game_ended);

    let paid = first_out.winnings + second_out.winnings;
    let burned = first_out.decimal_tokens_to_burn + second_out.decimal_tokens_to_burn;
    assert_eq!(paid + burned, deposited);
}

#[test]
fn the_largest_configuration_is_accepted_whole() {
    let mut config = valid_config();
    config.n_buckets = 64;
    config.max_players = 10000;
    let (mut game, _creator) = new_game(config, 1, [1u8; 32], [2u8; 32], 1000).unwrap();
    assert_eq!(game.state.buckets.len(), 65);
    // The outermost enterable bucket is a valid join target...
    let joiner = enter_game(&mut game, [3u8; 32], 64, 1000).unwrap();
    assert_eq!(joiner.bucket, 64);
    assert_eq!(game.state.buckets[64].players, 1);
    // ...and one past it is not.
    let r = enter_game(&mut game, [4u8; 32], 65, 1000);
    assert!(matches!(r, Err(EquilibrateError::BucketDoesNotExist)));
}

#[test]
fn a_single_bucket_game_is_accepted() {
    let mut config = valid_config();
    config.n_buckets = 1;
    let (game, player) = new_game(config, 1, [1u8; 32], [2u8; 32], 1000).unwrap();
    assert_eq!(game.state.buckets.len(), 2);
    assert_eq!(player.bucket, 1);
}

#[test]
fn spillover_runs_across_a_full_width_game() {
    let mut config = valid_config();
    config.n_buckets = 64;
    config.max_players = 10000;
    let (mut game, _creator) = new_game(config, 1, [1u8; 32], [2u8; 32], 1000).unwrap();
    // After an hour the holding bucket desires 1 player * 5 tokens/s *
    // 3600 s, capped at the 100-token fee it holds. Split equally over all
    // 64 enterable buckets that makes 1 token each, with the remainder of
    // 36 staying put.
    game.update_bucket_balances(4600);
    let total: u64 = game.state.buckets.iter().map(|b| b.decimal_tokens).sum();
    assert_eq!(total, 100);
    assert_eq!(game.state.buckets[0].decimal_tokens, 36);
    assert_eq!(game.state.buckets[1].decimal_tokens, 1);
    assert_eq!(game.state.buckets[64].decimal_tokens, 1);
}

#[test]
fn joining_later_settles_the_spillover_first() {
    // Ten seconds pass before the join: the holding bucket has desired
    // min(100, 1 * 5 * 10) = 50 tokens, split over the three enterable
    // buckets as 16 each with 2 left behind. Only then does the new fee
    // land in the holding bucket and the counts grow.
    let (mut game, _creator) = new_game(valid_config(), 1, [1u8; 32], [2u8; 32], 1000).unwrap();
    let joiner = enter_game(&mut game, [3u8; 32], 2, 1010).unwrap();
    assert_eq!(joiner.bucket, 2);
    assert_eq!(game.state.buckets[0], Bucket { decimal_tokens: 152, players: 2 });
    assert_eq!(game.state.buckets[1], Bucket { decimal_tokens: 16, players: 1 });
    assert_eq!(game.state.buckets[2], Bucket { decimal_tokens: 16, players: 1 });
    assert_eq!(game.state.buckets[3], Bucket { decimal_tokens: 16, players: 0 });
    assert_eq!(game.state.last_update_epoch_seconds, 1010);
}

#[test]
fn leaving_later_settles_the_spillover_first() {
    // One second passes before the leave: the crowded bucket spills 3
    // tokens toward the sparse one, whose sole occupant then takes the
    // whole advanced balance.
    let buckets = vec![
        Bucket { decimal_tokens: 0, players: 4 },
        Bucket { decimal_tokens: 100, players: 3 },
        Bucket { decimal_tokens: 100, players: 1 },
    ];
    let mut config = valid_config();
    config.n_buckets = 2;
    config.max_players = 10;
    config.spill_rate_decimal_tokens_per_second_per_player = 1;
    let mut game = game_with(buckets, config, 500);
    let player = player_at(2, 0);
    let outcome = leave_game(&mut game, &player, false, 501).unwrap();
    assert_eq!(outcome.winnings, 103);
    assert!(!outcome.game_ended);
    assert_eq!(game.state.buckets[0].players, 3);
    assert_eq!(game.state.buckets[1], Bucket { decimal_tokens: 97, players: 3 });
    assert_eq!(game.state.buckets[2], Bucket { decimal_tokens: 0, players: 0 });
}
