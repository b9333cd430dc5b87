//! What the buildings that a player owns yield over a stretch of time.
use crate::compiled::game::CompiledGame;
use crate::resolve::adjusted;
use vstd::prelude::*;

verus! {

/// A stretch of time in seconds, given in milliseconds.
pub open spec fn seconds(elapsed_ms: int) -> real {
    elapsed_ms as real / 1000real
}

/// What a player gets per second out of one entry of the buildings owned:
/// the building's own rate, adjusted by the upgrades owned, times the number
/// owned. An entry with a count of zero yields nothing.
pub open spec fn entry_rate(
    game: &CompiledGame,
    upgrades: Seq<Seq<char>>,
    entry: (Seq<char>, usize),
) -> real {
    match game.building_of(entry.0) {
        Some(building) => adjusted(game, upgrades, entry.0, building.spec.base_cps@) * (
        entry.1 as real),
        None => 0real,
    }
}

/// What a player gets per second out of all the buildings owned.
pub open spec fn total_rate(
    game: &CompiledGame,
    buildings: Seq<(Seq<char>, usize)>,
    upgrades: Seq<Seq<char>>,
) -> real
    decreases buildings.len(),
{
    if buildings.len() == 0 {
        0real
    } else {
        total_rate(game, buildings.drop_last(), upgrades) + entry_rate(
            game,
            upgrades,
            buildings.last(),
        )
    }
}

/// What the buildings owned yield over a stretch of time: for each entry,
/// its rate times the seconds elapsed.
pub open spec fn production(
    game: &CompiledGame,
    buildings: Seq<(Seq<char>, usize)>,
    upgrades: Seq<Seq<char>>,
    elapsed_ms: int,
) -> real
    decreases buildings.len(),
{
    if buildings.len() == 0 {
        0real
    } else {
        production(game, buildings.drop_last(), upgrades, elapsed_ms) + entry_rate(
            game,
            upgrades,
            buildings.last(),
        ) * seconds(elapsed_ms)
    }
}

/// Whether the catalog holds a building for every entry, whatever its
/// count.
pub open spec fn buildings_known(game: &CompiledGame, buildings: Seq<(Seq<char>, usize)>) -> bool {
    forall|i: int|
        0 <= i < buildings.len() ==> game.building_of((#[trigger] buildings[i]).0).is_some()
}

/// Production is the total rate times the seconds elapsed.
pub proof fn lemma_production_is_rate_times_time(
    game: &CompiledGame,
    buildings: Seq<(Seq<char>, usize)>,
    upgrades: Seq<Seq<char>>,
    elapsed_ms: int,
)
    ensures
        production(game, buildings, upgrades, elapsed_ms) == total_rate(game, buildings, upgrades)
            * seconds(elapsed_ms),
    decreases buildings.len(),
{
    if buildings.len() > 0 {
        lemma_production_is_rate_times_time(game, buildings.drop_last(), upgrades, elapsed_ms);
        let rest = total_rate(game, buildings.drop_last(), upgrades);
        let last = entry_rate(game, upgrades, buildings.last());
        let s = seconds(elapsed_ms);
        assert(rest * s + last * s == (rest + last) * s) by (nonlinear_arith);
    }
}

/// Production, written as a fold over the entries.
proof fn lemma_production_is_fold(
    game: &CompiledGame,
    buildings: Seq<(Seq<char>, usize)>,
    upgrades: Seq<Seq<char>>,
    elapsed_ms: int,
)
    ensures
        production(game, buildings, upgrades, elapsed_ms) == buildings.fold_left(
            0real,
            |sum: real, entry: (Seq<char>, usize)|
                sum + entry_rate(game, upgrades, entry) * seconds(elapsed_ms),
        ),
    decreases buildings.len(),
{
    if buildings.len() > 0 {
        lemma_production_is_fold(game, buildings.drop_last(), upgrades, elapsed_ms);
    }
}

/// The order in which the buildings are gone through plays no part: two
/// sequences that hold the same entries equally often yield the same.
pub proof fn lemma_production_order(
    game: &CompiledGame,
    first: Seq<(Seq<char>, usize)>,
    second: Seq<(Seq<char>, usize)>,
    upgrades: Seq<Seq<char>>,
    elapsed_ms: int,
)
    requires
        first.to_multiset() == second.to_multiset(),
    ensures
        production(game, first, upgrades, elapsed_ms) == production(
            game,
            second,
            upgrades,
            elapsed_ms,
        ),
{
    let plus = |sum: real, entry: (Seq<char>, usize)|
        sum + entry_rate(game, upgrades, entry) * seconds(elapsed_ms);
    lemma_production_is_fold(game, first, upgrades, elapsed_ms);
    lemma_production_is_fold(game, second, upgrades, elapsed_ms);
    assert(vstd::seq_lib::commutative_foldl(plus));
    vstd::seq_lib::lemma_fold_left_permutation(first, second, plus, 0real);
}

/// While time runs forwards and the total rate is not negative, nothing is
/// lost.
pub proof fn lemma_production_not_negative(
    game: &CompiledGame,
    buildings: Seq<(Seq<char>, usize)>,
    upgrades: Seq<Seq<char>>,
    elapsed_ms: int,
)
    requires
        elapsed_ms >= 0,
        total_rate(game, buildings, upgrades) >= 0real,
    ensures
        production(game, buildings, upgrades, elapsed_ms) >= 0real,
{
    lemma_production_is_rate_times_time(game, buildings, upgrades, elapsed_ms);
    let rate = total_rate(game, buildings, upgrades);
    let s = seconds(elapsed_ms);
    assert(s >= 0real);
    assert(rate * s >= 0real) by (nonlinear_arith)
        requires
            rate >= 0real,
            s >= 0real,
    ;
}

/// Over no time at all nothing is produced.
pub proof fn lemma_production_zero(
    game: &CompiledGame,
    buildings: Seq<(Seq<char>, usize)>,
    upgrades: Seq<Seq<char>>,
)
    ensures
        production(game, buildings, upgrades, 0) == 0real,
{
    lemma_production_is_rate_times_time(game, buildings, upgrades, 0);
    let rate = total_rate(game, buildings, upgrades);
    assert(seconds(0) == 0real);
    assert(rate * 0real == 0real) by (nonlinear_arith);
}

/// Production adds up over time: what two stretches yield one after the
/// other is what one stretch of their joint length yields, wherever the
/// joint stretch is split.
pub proof fn lemma_production_additive(
    game: &CompiledGame,
    buildings: Seq<(Seq<char>, usize)>,
    upgrades: Seq<Seq<char>>,
    first_ms: int,
    second_ms: int,
)
    ensures
        production(game, buildings, upgrades, first_ms) + production(
            game,
            buildings,
            upgrades,
            second_ms,
        ) == production(game, buildings, upgrades, first_ms + second_ms),
{
    lemma_production_is_rate_times_time(game, buildings, upgrades, first_ms);
    lemma_production_is_rate_times_time(game, buildings, upgrades, second_ms);
    lemma_production_is_rate_times_time(game, buildings, upgrades, first_ms + second_ms);
    let rate = total_rate(game, buildings, upgrades);
    let a = seconds(first_ms);
    let b = seconds(second_ms);
    assert(seconds(first_ms + second_ms) == a + b);
    assert(rate * a + rate * b == rate * (a + b)) by (nonlinear_arith);
}

} // verus!
