use equilibrate::game::{Bucket, Game, GameConfig, GameState};

fn game_with(buckets: Vec<Bucket>, spill_rate: u64, last_update: i64) -> Game {
    let n_buckets = (buckets.len() - 1) as u8;
    Game {
        version: 0,
        id: 1,
        creator: [1u8; 32],
        config: GameConfig {
            mint: [0u8; 32],
            entry_fee_decimal_tokens: 100,
            spill_rate_decimal_tokens_per_second_per_player: spill_rate,
            n_buckets,
            max_players: 10,
            burn_rate_decimal_tokens_per_move: 0,
        },
        state: GameState { buckets, last_update_epoch_seconds: last_update },
    }
}

fn balances(game: &Game) -> Vec<u64> {
    game.state.buckets.iter().map(|b| b.decimal_tokens).collect()
}

#[test]
fn compute_spillover_scales_with_population_rate_and_time() {
    let bucket = Bucket { decimal_tokens: 1000, players: 2 };
    assert_eq!(bucket.compute_spillover(5, 3), 30);
}

#[test]
fn compute_spillover_is_capped_at_the_balance() {
    let bucket = Bucket { decimal_tokens: 7, players: 2 };
    assert_eq!(bucket.compute_spillover(5, 3), 7);
}

#[test]
fn compute_spillover_is_zero_for_an_empty_interval() {
    let bucket = Bucket { decimal_tokens: 1000, players: 2 };
    assert_eq!(bucket.compute_spillover(5, 0), 0);
}

#[test]
fn compute_spillover_survives_huge_products() {
    // The unscaled desire vastly exceeds any balance, so the cap applies.
    let bucket = Bucket { decimal_tokens: 123, players: 40000 };
    assert_eq!(bucket.compute_spillover(u64::MAX, u64::MAX), 123);
}

#[test]
fn holding_bucket_feeds_every_enterable_bucket_equally() {
    // Holding desires min(90, 2 players * 5 rate * 3 s) = 30; its targets
    // are both enterable buckets, 15 each. The enterable buckets have no
    // one less populated to feed, so they emit nothing.
    let buckets = vec![
        Bucket { decimal_tokens: 90, players: 2 },
        Bucket { decimal_tokens: 0, players: 1 },
        Bucket { decimal_tokens: 0, players: 1 },
    ];
    let mut game = game_with(buckets, 5, 100);
    game.update_bucket_balances(103);
    assert_eq!(balances(&game), vec![60, 15, 15]);
    assert_eq!(game.state.buckets[0].players, 2);
    // The engine leaves the timestamp to its caller.
    assert_eq!(game.state.last_update_epoch_seconds, 100);
}

#[test]
fn division_remainder_stays_at_the_source() {
    // Holding desires min(100, 1 * 31 * 1) = 31 over two targets: each
    // receives 15 and the odd token stays put.
    let buckets = vec![
        Bucket { decimal_tokens: 100, players: 1 },
        Bucket { decimal_tokens: 0, players: 0 },
        Bucket { decimal_tokens: 0, players: 1 },
    ];
    let mut game = game_with(buckets, 31, 0);
    game.update_bucket_balances(1);
    assert_eq!(balances(&game), vec![70, 15, 15]);
}

#[test]
fn advance_conserves_the_total() {
    let buckets = vec![
        Bucket { decimal_tokens: 987, players: 3 },
        Bucket { decimal_tokens: 55, players: 2 },
        Bucket { decimal_tokens: 1000, players: 1 },
        Bucket { decimal_tokens: 13, players: 0 },
    ];
    let mut game = game_with(buckets, 7, 50);
    let total_before: u64 = balances(&game).iter().sum();
    game.update_bucket_balances(1234);
    let total_after: u64 = balances(&game).iter().sum();
    assert_eq!(total_before, total_after);
}

#[test]
fn advance_at_zero_elapsed_changes_nothing() {
    let buckets = vec![
        Bucket { decimal_tokens: 987, players: 3 },
        Bucket { decimal_tokens: 55, players: 2 },
        Bucket { decimal_tokens: 1000, players: 1 },
    ];
    let mut game = game_with(buckets, 7, 400);
    let before = balances(&game);
    game.update_bucket_balances(400);
    assert_eq!(balances(&game), before);
}

#[test]
fn crowded_bucket_loses_ground_to_sparse_bucket() {
    // Both enterable buckets start level at 100 tokens. The crowded one
    // (3 players) spills toward the sparse one (1 player); the sparse one
    // has no less-populated target. Its lead strictly shrinks.
    let buckets = vec![
        Bucket { decimal_tokens: 0, players: 4 },
        Bucket { decimal_tokens: 100, players: 3 },
        Bucket { decimal_tokens: 100, players: 1 },
    ];
    let mut game = game_with(buckets, 1, 10);
    game.update_bucket_balances(11);
    assert_eq!(balances(&game), vec![0, 97, 103]);
}

#[test]
fn an_empty_bucket_can_receive_but_never_emits() {
    // Bucket 2 has a player but no tokens: it emits nothing. Bucket 1 has
    // players and tokens and feeds the emptier bucket 2.
    let buckets = vec![
        Bucket { decimal_tokens: 0, players: 3 },
        Bucket { decimal_tokens: 60, players: 2 },
        Bucket { decimal_tokens: 0, players: 1 },
    ];
    let mut game = game_with(buckets, 2, 0);
    game.update_bucket_balances(5);
    // Bucket 1 desires min(60, 2 * 2 * 5) = 20, one target: bucket 2.
    assert_eq!(balances(&game), vec![0, 40, 20]);
}

#[test]
fn get_player_count_halves_the_double_counted_total() {
    let buckets = vec![
        Bucket { decimal_tokens: 0, players: 3 },
        Bucket { decimal_tokens: 0, players: 2 },
        Bucket { decimal_tokens: 0, players: 1 },
    ];
    let game = game_with(buckets, 1, 0);
    assert_eq!(game.get_player_count(), 3);
}

#[test]
fn serialized_sizes_match_the_account_layout() {
    assert_eq!(Bucket::get_space(), 10);
    assert_eq!(GameConfig::get_space(), 65);
    assert_eq!(GameState::get_space(3), 52);
    assert_eq!(Game::get_space(3), 166);
    assert_eq!(equilibrate::player::PlayerState::get_space(), 50);
}
