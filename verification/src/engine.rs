use vstd::prelude::*;

use vstd::arithmetic::div_mod::{
    lemma_div_pos_is_pos, lemma_fundamental_div_mod, lemma_mod_division_less_than_divisor,
};
use vstd::arithmetic::mul::{lemma_mul_inequality, lemma_mul_nonnegative};

use crate::game::Bucket;

verus! {

// ------------------------------------------------------------------
// The spillover rule, stated as mathematics.
//
// One advance of the engine works bucket by bucket: every bucket wants to
// emit `players * rate * elapsed` tokens (capped at its balance), splits
// that desire equally over its eligible targets, rounding down, and keeps
// the division remainder. Applying every bucket's inflow and outflow at
// once yields the new balances.
// ------------------------------------------------------------------

/// How many tokens bucket `b` wants to emit over `elapsed` seconds: its
/// population times the spill rate times the elapsed time, but never more
/// than the bucket holds.
pub open spec fn desired_spillover(b: Bucket, spill_rate: u64, elapsed: u64) -> int {
    let unscaled = (b.players as int) * (spill_rate as int) * (elapsed as int);
    if b.decimal_tokens as int <= unscaled {
        b.decimal_tokens as int
    } else {
        unscaled
    }
}

/// Whether bucket `j` is an eligible target for the outflow of bucket `i`.
/// Targets are always enterable buckets other than the source itself; the
/// holding bucket (index 0) spills toward every enterable bucket, while an
/// enterable source spills only toward buckets with strictly fewer players.
pub open spec fn is_spill_target(buckets: Seq<Bucket>, i: int, j: int) -> bool {
    &&& 1 <= j < buckets.len()
    &&& j != i
    &&& (i == 0 || (buckets[j].players as int) < (buckets[i].players as int))
}

/// How many eligible targets bucket `i` has among the buckets with index
/// below `n`.
pub open spec fn target_count_below(buckets: Seq<Bucket>, i: int, n: int) -> int
    decreases n,
{
    if n <= 0 {
        0
    } else {
        target_count_below(buckets, i, n - 1) + if is_spill_target(buckets, i, n - 1) {
            1int
        } else {
            0int
        }
    }
}

/// How many eligible targets bucket `i` has.
pub open spec fn target_count(buckets: Seq<Bucket>, i: int) -> int {
    target_count_below(buckets, i, buckets.len() as int)
}

/// What each eligible target of bucket `i` receives: the equal split of
/// `i`'s desired outflow, rounded down. A bucket with no targets emits
/// nothing.
pub open spec fn per_target_flow(buckets: Seq<Bucket>, rate: u64, elapsed: u64, i: int) -> int {
    if target_count(buckets, i) == 0 {
        0
    } else {
        desired_spillover(buckets[i], rate, elapsed) / target_count(buckets, i)
    }
}

/// What flows from bucket `i` to bucket `j` in one advance.
pub open spec fn flow(buckets: Seq<Bucket>, rate: u64, elapsed: u64, i: int, j: int) -> int {
    if is_spill_target(buckets, i, j) {
        per_target_flow(buckets, rate, elapsed, i)
    } else {
        0
    }
}

/// Bucket `i`'s realized outflow: the equal split times the number of
/// targets. The division remainder stays at the source.
pub open spec fn outflow(buckets: Seq<Bucket>, rate: u64, elapsed: u64, i: int) -> int {
    target_count(buckets, i) * per_target_flow(buckets, rate, elapsed, i)
}

/// Bucket `j`'s inflow from the sources with index below `n`.
pub open spec fn inflow_below(buckets: Seq<Bucket>, rate: u64, elapsed: u64, j: int, n: int) -> int
    decreases n,
{
    if n <= 0 {
        0
    } else {
        inflow_below(buckets, rate, elapsed, j, n - 1) + flow(buckets, rate, elapsed, n - 1, j)
    }
}

/// Bucket `j`'s total inflow in one advance.
pub open spec fn inflow(buckets: Seq<Bucket>, rate: u64, elapsed: u64, j: int) -> int {
    inflow_below(buckets, rate, elapsed, j, buckets.len() as int)
}

/// Bucket `i`'s balance after one advance.
pub open spec fn new_balance(buckets: Seq<Bucket>, rate: u64, elapsed: u64, i: int) -> int {
    buckets[i].decimal_tokens + inflow(buckets, rate, elapsed, i) - outflow(
        buckets,
        rate,
        elapsed,
        i,
    )
}

// ------------------------------------------------------------------
// Sums over the buckets.
// ------------------------------------------------------------------

/// Sum of the balances of the buckets with index below `n`.
pub open spec fn sum_balances_below(buckets: Seq<Bucket>, n: int) -> int
    decreases n,
{
    if n <= 0 {
        0
    } else {
        sum_balances_below(buckets, n - 1) + buckets[n - 1].decimal_tokens
    }
}

/// Sum of all bucket balances: every token currently in the game.
pub open spec fn sum_balances(buckets: Seq<Bucket>) -> int {
    sum_balances_below(buckets, buckets.len() as int)
}

/// Sum of the player counts of the buckets with index below `n`.
pub open spec fn sum_players_below(buckets: Seq<Bucket>, n: int) -> int
    decreases n,
{
    if n <= 0 {
        0
    } else {
        sum_players_below(buckets, n - 1) + buckets[n - 1].players
    }
}

/// Sum of all bucket player counts. Because the holding bucket mirrors the
/// total number of players, this is twice the number of active players.
pub open spec fn sum_players(buckets: Seq<Bucket>) -> int {
    sum_players_below(buckets, buckets.len() as int)
}

/// Sum of the balances after one advance, over the buckets with index below
/// `n`.
pub open spec fn sum_new_balances_below(
    buckets: Seq<Bucket>,
    rate: u64,
    elapsed: u64,
    n: int,
) -> int
    decreases n,
{
    if n <= 0 {
        0
    } else {
        sum_new_balances_below(buckets, rate, elapsed, n - 1) + new_balance(
            buckets,
            rate,
            elapsed,
            n - 1,
        )
    }
}

/// Sum of all bucket balances after one advance.
pub open spec fn sum_new_balances(buckets: Seq<Bucket>, rate: u64, elapsed: u64) -> int {
    sum_new_balances_below(buckets, rate, elapsed, buckets.len() as int)
}

// ------------------------------------------------------------------
// Basic bounds.
// ------------------------------------------------------------------

/// A target count is between 0 and the number of buckets considered.
pub proof fn lemma_target_count_below_bounds(buckets: Seq<Bucket>, i: int, n: int)
    requires
        0 <= n,
    ensures
        0 <= target_count_below(buckets, i, n) <= n,
    decreases n,
{
    if n > 0 {
        lemma_target_count_below_bounds(buckets, i, n - 1);
    }
}

/// The pieces of one bucket's outflow are nonnegative, and the realized
/// outflow never exceeds the desire, which never exceeds the balance.
pub proof fn lemma_spill_parts_bounds(buckets: Seq<Bucket>, rate: u64, elapsed: u64, i: int)
    requires
        0 <= i < buckets.len(),
    ensures
        0 <= desired_spillover(buckets[i], rate, elapsed) <= buckets[i].decimal_tokens,
        desired_spillover(buckets[i], rate, elapsed) <= (buckets[i].players as int) * (
        rate as int) * (elapsed as int),
        0 <= per_target_flow(buckets, rate, elapsed, i) <= desired_spillover(
            buckets[i],
            rate,
            elapsed,
        ),
        0 <= outflow(buckets, rate, elapsed, i) <= desired_spillover(buckets[i], rate, elapsed),
{
    let b = buckets[i];
    lemma_mul_nonnegative(b.players as int, rate as int);
    lemma_mul_nonnegative((b.players as int) * (rate as int), elapsed as int);
    let d = desired_spillover(b, rate, elapsed);
    let c = target_count(buckets, i);
    lemma_target_count_below_bounds(buckets, i, buckets.len() as int);
    if c > 0 {
        lemma_div_pos_is_pos(d, c);
        lemma_fundamental_div_mod(d, c);
        lemma_mod_division_less_than_divisor(d, c);
        // d == c * (d / c) + d % c with 0 <= d % c, so the realized outflow
        // c * (d / c) is at most d.
        lemma_mul_inequality(1, c, d / c);
    }
}

/// A bucket's inflow is nonnegative and, together with its own balance,
/// never exceeds the total held by the buckets considered: every source
/// emits at most what it holds, and no bucket feeds itself.
pub proof fn lemma_inflow_below_bound(
    buckets: Seq<Bucket>,
    rate: u64,
    elapsed: u64,
    j: int,
    n: int,
)
    requires
        0 <= n <= buckets.len(),
        0 <= j < buckets.len(),
    ensures
        0 <= inflow_below(buckets, rate, elapsed, j, n),
        inflow_below(buckets, rate, elapsed, j, n) + (if j < n {
            buckets[j].decimal_tokens as int
        } else {
            0
        }) <= sum_balances_below(buckets, n),
    decreases n,
{
    if n > 0 {
        lemma_inflow_below_bound(buckets, rate, elapsed, j, n - 1);
        lemma_spill_parts_bounds(buckets, rate, elapsed, n - 1);
    }
}

/// A prefix of the balances sums to no more than a longer prefix.
pub proof fn lemma_sum_balances_below_mono(buckets: Seq<Bucket>, m: int, n: int)
    requires
        0 <= m <= n,
    ensures
        sum_balances_below(buckets, m) <= sum_balances_below(buckets, n),
    decreases n,
{
    if m < n {
        lemma_sum_balances_below_mono(buckets, m, n - 1);
    }
}

/// A prefix of the player counts sums to no more than a longer prefix.
pub proof fn lemma_sum_players_below_mono(buckets: Seq<Bucket>, m: int, n: int)
    requires
        0 <= m <= n,
    ensures
        sum_players_below(buckets, m) <= sum_players_below(buckets, n),
    decreases n,
{
    if m < n {
        lemma_sum_players_below_mono(buckets, m, n - 1);
    }
}

/// Two bucket sequences with the same balances below `n` have the same
/// balance sum below `n`.
pub proof fn lemma_sum_balances_below_pointwise(a: Seq<Bucket>, b: Seq<Bucket>, n: int)
    requires
        forall|k: int| 0 <= k < n ==> a[k].decimal_tokens == b[k].decimal_tokens,
    ensures
        sum_balances_below(a, n) == sum_balances_below(b, n),
    decreases n,
{
    if n > 0 {
        lemma_sum_balances_below_pointwise(a, b, n - 1);
    }
}

/// Two bucket sequences with the same player counts below `n` have the same
/// player sum below `n`.
pub proof fn lemma_sum_players_below_pointwise(a: Seq<Bucket>, b: Seq<Bucket>, n: int)
    requires
        forall|k: int| 0 <= k < n ==> a[k].players == b[k].players,
    ensures
        sum_players_below(a, n) == sum_players_below(b, n),
    decreases n,
{
    if n > 0 {
        lemma_sum_players_below_pointwise(a, b, n - 1);
    }
}

/// A sequence holding, below `n`, exactly the advanced balances of
/// `before` sums to the advanced total.
pub proof fn lemma_sum_balances_below_of_advanced(
    after: Seq<Bucket>,
    before: Seq<Bucket>,
    rate: u64,
    elapsed: u64,
    n: int,
)
    requires
        forall|k: int|
            0 <= k < n ==> (#[trigger] after[k]).decimal_tokens as int == new_balance(
                before,
                rate,
                elapsed,
                k,
            ),
    ensures
        sum_balances_below(after, n) == sum_new_balances_below(before, rate, elapsed, n),
    decreases n,
{
    if n > 0 {
        lemma_sum_balances_below_of_advanced(after, before, rate, elapsed, n - 1);
    }
}

/// Changing one bucket changes the sums by exactly that bucket's change.
pub proof fn lemma_sums_after_update(buckets: Seq<Bucket>, i: int, v: Bucket, n: int)
    requires
        0 <= i < n <= buckets.len(),
    ensures
        sum_balances_below(buckets.update(i, v), n) == sum_balances_below(buckets, n)
            + v.decimal_tokens - buckets[i].decimal_tokens,
        sum_players_below(buckets.update(i, v), n) == sum_players_below(buckets, n) + v.players
            - buckets[i].players,
    decreases n,
{
    if i < n - 1 {
        lemma_sums_after_update(buckets, i, v, n - 1);
    } else {
        lemma_sum_balances_below_pointwise(buckets.update(i, v), buckets, n - 1);
        lemma_sum_players_below_pointwise(buckets.update(i, v), buckets, n - 1);
    }
}

// ------------------------------------------------------------------
// Conservation: one advance moves tokens around but neither creates nor
// destroys any.
// ------------------------------------------------------------------

/// Sum of what flows from bucket `i` into the buckets with index below `l`.
pub open spec fn flow_row_below(buckets: Seq<Bucket>, rate: u64, elapsed: u64, i: int, l: int) -> int
    decreases l,
{
    if l <= 0 {
        0
    } else {
        flow_row_below(buckets, rate, elapsed, i, l - 1) + flow(buckets, rate, elapsed, i, l - 1)
    }
}

/// Summing one source's flows over all its targets yields exactly its
/// realized outflow: the equal split times the number of targets.
proof fn lemma_flow_row_below_eq(buckets: Seq<Bucket>, rate: u64, elapsed: u64, i: int, l: int)
    requires
        0 <= l,
    ensures
        flow_row_below(buckets, rate, elapsed, i, l) == target_count_below(buckets, i, l)
            * per_target_flow(buckets, rate, elapsed, i),
    decreases l,
{
    let p = per_target_flow(buckets, rate, elapsed, i);
    if l > 0 {
        lemma_flow_row_below_eq(buckets, rate, elapsed, i, l - 1);
        let c = target_count_below(buckets, i, l - 1);
        assert((c + 1) * p == c * p + p) by (nonlinear_arith);
    }
}

/// Sum of the partial inflows (from sources below `m`) of the buckets with
/// index below `l`.
pub open spec fn sum_inflow_below(
    buckets: Seq<Bucket>,
    rate: u64,
    elapsed: u64,
    l: int,
    m: int,
) -> int
    decreases l,
{
    if l <= 0 {
        0
    } else {
        sum_inflow_below(buckets, rate, elapsed, l - 1, m) + inflow_below(
            buckets,
            rate,
            elapsed,
            l - 1,
            m,
        )
    }
}

/// With no sources considered, no bucket has received anything.
proof fn lemma_sum_inflow_below_zero(buckets: Seq<Bucket>, rate: u64, elapsed: u64, l: int)
    requires
        0 <= l,
    ensures
        sum_inflow_below(buckets, rate, elapsed, l, 0) == 0,
    decreases l,
{
    if l > 0 {
        lemma_sum_inflow_below_zero(buckets, rate, elapsed, l - 1);
    }
}

/// Admitting one more source adds exactly that source's row of flows to the
/// summed inflows.
proof fn lemma_sum_inflow_below_step(buckets: Seq<Bucket>, rate: u64, elapsed: u64, l: int, m: int)
    requires
        0 <= l,
        0 <= m,
    ensures
        sum_inflow_below(buckets, rate, elapsed, l, m + 1) == sum_inflow_below(
            buckets,
            rate,
            elapsed,
            l,
            m,
        ) + flow_row_below(buckets, rate, elapsed, m, l),
    decreases l,
{
    if l > 0 {
        lemma_sum_inflow_below_step(buckets, rate, elapsed, l - 1, m);
    }
}

/// Sum of the realized outflows of the buckets with index below `m`.
pub open spec fn total_outflow_below(buckets: Seq<Bucket>, rate: u64, elapsed: u64, m: int) -> int
    decreases m,
{
    if m <= 0 {
        0
    } else {
        total_outflow_below(buckets, rate, elapsed, m - 1) + outflow(
            buckets,
            rate,
            elapsed,
            m - 1,
        )
    }
}

/// Everything the buckets receive is exactly what the sources emit: the
/// double sum of the flows, grouped by target, equals it grouped by source.
proof fn lemma_total_inflow_eq_total_outflow(buckets: Seq<Bucket>, rate: u64, elapsed: u64, m: int)
    requires
        0 <= m,
    ensures
        sum_inflow_below(buckets, rate, elapsed, buckets.len() as int, m) == total_outflow_below(
            buckets,
            rate,
            elapsed,
            m,
        ),
    decreases m,
{
    let len = buckets.len() as int;
    if m == 0 {
        lemma_sum_inflow_below_zero(buckets, rate, elapsed, len);
    } else {
        lemma_total_inflow_eq_total_outflow(buckets, rate, elapsed, m - 1);
        lemma_sum_inflow_below_step(buckets, rate, elapsed, len, m - 1);
        lemma_flow_row_below_eq(buckets, rate, elapsed, m - 1, len);
    }
}

/// The sum of the advanced balances decomposes into old balances plus
/// summed inflows minus summed outflows.
proof fn lemma_sum_new_balances_decomposes(buckets: Seq<Bucket>, rate: u64, elapsed: u64, n: int)
    requires
        0 <= n,
    ensures
        sum_new_balances_below(buckets, rate, elapsed, n) == sum_balances_below(buckets, n)
            + sum_inflow_below(buckets, rate, elapsed, n, buckets.len() as int)
            - total_outflow_below(buckets, rate, elapsed, n),
    decreases n,
{
    if n > 0 {
        lemma_sum_new_balances_decomposes(buckets, rate, elapsed, n - 1);
    }
}

/// Conservation: an advance on its own neither creates nor destroys
/// tokens. The balances after one advance sum to exactly what the balances
/// summed to before, whatever the state, the spill rate and the elapsed
/// time.
pub proof fn lemma_advance_conserves_tokens(buckets: Seq<Bucket>, rate: u64, elapsed: u64)
    ensures
        sum_new_balances(buckets, rate, elapsed) == sum_balances(buckets),
{
    let len = buckets.len() as int;
    lemma_sum_new_balances_decomposes(buckets, rate, elapsed, len);
    lemma_total_inflow_eq_total_outflow(buckets, rate, elapsed, len);
}

// ------------------------------------------------------------------
// Idempotence at zero elapsed time.
// ------------------------------------------------------------------

/// With no sources flowing, a bucket receives nothing.
proof fn lemma_inflow_below_of_zero_flows(
    buckets: Seq<Bucket>,
    rate: u64,
    elapsed: u64,
    j: int,
    n: int,
)
    requires
        0 <= n,
        forall|i: int|
            0 <= i < n ==> per_target_flow(buckets, rate, elapsed, i) == 0,
    ensures
        inflow_below(buckets, rate, elapsed, j, n) == 0,
    decreases n,
{
    if n > 0 {
        lemma_inflow_below_of_zero_flows(buckets, rate, elapsed, j, n - 1);
    }
}

/// Idempotence: advancing by zero elapsed seconds changes no balance. A
/// bucket's desire is its population times the rate times zero, so nothing
/// flows anywhere.
pub proof fn lemma_advance_zero_elapsed_is_noop(buckets: Seq<Bucket>, rate: u64)
    ensures
        forall|i: int|
            0 <= i < buckets.len() ==> new_balance(buckets, rate, 0, i)
                == buckets[i].decimal_tokens,
{
    let len = buckets.len() as int;
    assert forall|i: int| 0 <= i < len implies per_target_flow(buckets, rate, 0, i) == 0 by {
        let b = buckets[i];
        assert((b.players as int) * (rate as int) * (0 as int) == 0);
        let c = target_count(buckets, i);
        lemma_target_count_below_bounds(buckets, i, len);
        if c != 0 {
            lemma_div_pos_is_pos(0, c);
            lemma_fundamental_div_mod(0, c);
            lemma_mod_division_less_than_divisor(0, c);
        }
    }
    assert forall|i: int| 0 <= i < len implies new_balance(buckets, rate, 0, i)
        == buckets[i].decimal_tokens by {
        lemma_inflow_below_of_zero_flows(buckets, rate, 0, i, len);
    }
}

// ------------------------------------------------------------------
// Equilibration: flow is biased toward the less-populated bucket.
// ------------------------------------------------------------------

/// A source with an eligible target below `n` counts at least one target
/// below `n`.
proof fn lemma_target_present(buckets: Seq<Bucket>, i: int, j: int, n: int)
    requires
        is_spill_target(buckets, i, j),
        j < n,
    ensures
        target_count_below(buckets, i, n) >= 1,
    decreases n,
{
    lemma_target_count_below_bounds(buckets, i, n - 1);
    if n - 1 != j {
        lemma_target_present(buckets, i, j, n - 1);
    }
}

/// Source by source, a less-populated enterable bucket receives at least as
/// much as a more-populated one: every source that feeds the crowded bucket
/// also feeds the sparse one, with the same equal split. This half of the
/// equilibrating pressure holds of every state and every elapsed time.
pub proof fn lemma_inflow_dominance(
    buckets: Seq<Bucket>,
    rate: u64,
    elapsed: u64,
    hi: int,
    lo: int,
    n: int,
)
    requires
        1 <= hi < buckets.len(),
        1 <= lo < buckets.len(),
        (buckets[lo].players as int) < (buckets[hi].players as int),
        0 <= n <= buckets.len(),
    ensures
        inflow_below(buckets, rate, elapsed, hi, n) <= inflow_below(buckets, rate, elapsed, lo, n),
    decreases n,
{
    if n > 0 {
        lemma_inflow_dominance(buckets, rate, elapsed, hi, lo, n - 1);
        let m = n - 1;
        if is_spill_target(buckets, m, hi) {
            assert(m != lo);
            assert(is_spill_target(buckets, m, lo));
        } else {
            lemma_spill_parts_bounds(buckets, rate, elapsed, m);
        }
    }
}

/// Equilibration: when time passes and the more-populated bucket's desired
/// outflow is neither capped by its balance nor cut down by a division
/// remainder, its lead over any less-populated enterable bucket strictly
/// shrinks in one advance. Because an advance conserves the total, this
/// says the crowded bucket's share of the tokens falls relative to the
/// sparse bucket's share.
pub proof fn lemma_advance_equilibrates(
    buckets: Seq<Bucket>,
    rate: u64,
    elapsed: u64,
    i: int,
    j: int,
)
    requires
        1 <= i < buckets.len(),
        1 <= j < buckets.len(),
        (buckets[j].players as int) < (buckets[i].players as int),
        rate >= 1,
        elapsed >= 1,
        (buckets[i].players as int) * (rate as int) * (elapsed as int)
            <= buckets[i].decimal_tokens as int,
        desired_spillover(buckets[i], rate, elapsed) % target_count(buckets, i) == 0,
    ensures
        new_balance(buckets, rate, elapsed, i) - new_balance(buckets, rate, elapsed, j)
            < buckets[i].decimal_tokens - buckets[j].decimal_tokens,
{
    let len = buckets.len() as int;
    let p_i = buckets[i].players as int;
    let p_j = buckets[j].players as int;
    let r = rate as int;
    let e = elapsed as int;
    let d_i = desired_spillover(buckets[i], rate, elapsed);
    let c_i = target_count(buckets, i);

    assert(is_spill_target(buckets, i, j));
    lemma_target_present(buckets, i, j, len);

    // With no remainder, bucket i's realized outflow is its whole desire,
    // and the desire is not capped, so it is the full population-scaled
    // amount.
    lemma_fundamental_div_mod(d_i, c_i);
    assert(outflow(buckets, rate, elapsed, i) == d_i);
    assert(d_i == p_i * r * e);

    // Bucket j's realized outflow is at most its own population-scaled
    // amount.
    lemma_spill_parts_bounds(buckets, rate, elapsed, j);

    // Bucket j receives at least as much as bucket i.
    lemma_inflow_dominance(buckets, rate, elapsed, i, j, len);

    // The population gap makes i's outflow strictly exceed j's.
    assert(p_i * r * e - p_j * r * e >= r * e >= 1) by (nonlinear_arith)
        requires
            p_j < p_i,
            r >= 1,
            e >= 1,
    ;
}

} // verus!
