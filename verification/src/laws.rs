//! What holds of the engine over more than one call.
use crate::achievements::keeps;
use crate::achievements::evaluated;
use crate::achievements::lemma_keeps_run;
use crate::achievements::lemma_pass_keeps;
use crate::compiled::game::CompiledGame;
use crate::production::lemma_production_additive;
use crate::production::lemma_production_not_negative;
use crate::production::lemma_production_zero;
use crate::production::total_rate;
use crate::GameState;
use vstd::prelude::*;

verus! {

/// A tick at the time of the last tick yields nothing: the holding stays as
/// it is, and the clock stands where it stood.
pub proof fn lemma_tick_without_time(game: &CompiledGame, before: GameState, after: GameState)
    requires
        before.ticked(game, &after, before.last_tick),
    ensures
        after.carcinized@ == before.carcinized@,
        after.last_tick == before.last_tick,
{
    lemma_production_zero(game, before.buildings@, before.upgrades@);
}

/// While time runs forwards and the buildings owned yield at a rate that is
/// not negative, a tick takes nothing away from the holding.
pub proof fn lemma_tick_takes_nothing(game: &CompiledGame, before: GameState, after: GameState)
    requires
        before.ticked(game, &after, after.last_tick),
        after.last_tick >= before.last_tick,
        total_rate(game, before.buildings@, before.upgrades@) >= 0real,
    ensures
        after.carcinized@ >= before.carcinized@,
{
    lemma_production_not_negative(
        game,
        before.buildings@,
        before.upgrades@,
        after.last_tick - before.last_tick,
    );
}

/// Two ticks, one after the other, yield what one tick over the whole
/// stretch yields, wherever the stretch is split; the split may even lie
/// outside the stretch. What the evaluator unlocks between the two ticks
/// plays no part.
pub proof fn lemma_tick_split(
    game: &CompiledGame,
    start: GameState,
    split: i64,
    middle: GameState,
    resumed: GameState,
    end: i64,
    twice: GameState,
    once: GameState,
)
    requires
        start.ticked(game, &middle, split),
        middle.same_but_achievements(&resumed),
        resumed.ticked(game, &twice, end),
        start.ticked(game, &once, end),
    ensures
        twice.carcinized@ == once.carcinized@,
        twice.last_tick == once.last_tick,
{
    lemma_production_additive(
        game,
        start.buildings@,
        start.upgrades@,
        split - start.last_tick,
        end - split,
    );
}

/// Whether `after` is what one step of the game can make of `before`: a
/// tick at some time, or a pass of the evaluator.
pub open spec fn stepped(game: &CompiledGame, before: GameState, after: GameState) -> bool {
    ||| exists|now: i64| before.ticked(game, &after, now)
    ||| evaluated(game, before.achievements@, after.achievements@)
}

/// Over any run of ticks and passes the unlocked achievements only grow:
/// what is unlocked at one point of the run is unlocked at every later one.
pub proof fn lemma_ticks_keep_achievements(
    game: &CompiledGame,
    states: Seq<GameState>,
    earlier: int,
    later: int,
)
    requires
        forall|i: int|
            0 <= i < states.len() - 1 ==> stepped(game, #[trigger] states[i], states[i + 1]),
        0 <= earlier <= later < states.len(),
    ensures
        keeps(states[earlier].achievements@, states[later].achievements@),
{
    let unlocked = Seq::new(states.len(), |i: int| states[i].achievements@);
    assert forall|i: int| 0 <= i < unlocked.len() - 1 implies keeps(
        #[trigger] unlocked[i],
        unlocked[i + 1],
    ) by {
        assert(stepped(game, states[i], states[i + 1]));
        if evaluated(game, states[i].achievements@, states[i + 1].achievements@) {
            lemma_pass_keeps(game, unlocked[i], unlocked[i + 1]);
        }
    }
    lemma_keeps_run(unlocked, earlier, later);
    assert(unlocked[earlier] == states[earlier].achievements@);
    assert(unlocked[later] == states[later].achievements@);
}

/// With no upgrade owned a click yields exactly one unit, whenever it is
/// made.
pub proof fn lemma_click_without_upgrades(game: &CompiledGame, upgrades: Seq<Seq<char>>)
    requires
        upgrades.len() == 0,
    ensures
        GameState::click_gain(game, upgrades) == 1real,
{
}

} // verus!
