//! An incremental game played with exact numbers: a player gathers one
//! resource by clicking and by owning buildings, buys upgrades that adjust
//! what those yield, and unlocks achievements.
pub mod achievements;
pub mod compiled;
pub mod format;
pub mod ids;
pub mod laws;
pub mod pricing;
pub mod production;
pub mod rational;
pub mod resolve;
pub mod script;
pub mod shop;

use crate::achievements::keeps;
use crate::achievements::Pass;
use crate::compiled::game::CompiledGame;
pub use crate::format::human_number;
use crate::ids::with_count;
use crate::ids::with_id;
use crate::ids::without_id;
use crate::ids::Counts;
use crate::ids::IdSet;
use crate::production::buildings_known;
use crate::production::entry_rate;
use crate::production::production;
use crate::production::seconds;
use crate::rational::Rational;
use crate::resolve::owned_added;
use crate::resolve::owned_factor;
use crate::resolve::resolve;
use crate::resolve::upgrades_known;
use crate::script::new_runtime;
use dyon::Runtime;
use std::sync::Arc;
use vstd::prelude::*;

verus! {

/// A player's state: the only thing that changes while the game runs.
#[derive(Clone, Debug, PartialEq, Eq)]
pub struct GameState {
    /// When the state was last advanced, in milliseconds since the Unix
    /// epoch.
    pub last_tick: i64,
    /// How much of the resource the player holds.
    pub carcinized: Rational,
    /// The upgrades owned.
    pub upgrades: IdSet,
    /// How many of each building are owned.
    pub buildings: Counts,
    /// The achievements unlocked.
    pub achievements: IdSet,
}

/// Reads the clock through `chrono`: `Utc::now().timestamp_millis()`, the
/// milliseconds since the Unix epoch. Nothing is promised of the reading.
#[verifier::external_body]
fn now_millis() -> (now: i64) {
    chrono::Utc::now().timestamp_millis()
}

impl Default for GameState {
    /// A fresh state that starts now.
    fn default() -> (state: GameState)
        ensures
            state.carcinized@ == 0real,
            state.upgrades@.len() == 0,
            state.buildings@.len() == 0,
            state.achievements@.len() == 0,
    {
        GameState::starting_at(now_millis())
    }
}

impl GameState {
    /// Whether the state fits a catalog: the catalog holds every upgrade
    /// owned and every building that the state has an entry for, be its
    /// count zero.
    pub open spec fn fits(&self, game: &CompiledGame) -> bool {
        &&& upgrades_known(game, self.upgrades@)
        &&& buildings_known(game, self.buildings@)
    }

    /// Whether `after` is what a tick at the time `now` makes of this state:
    /// the clock stands at `now`, the buildings owned have yielded for the
    /// time since the last tick, and what is owned and unlocked is as it
    /// was.
    pub open spec fn ticked(&self, game: &CompiledGame, after: &GameState, now: i64) -> bool {
        &&& after.last_tick == now
        &&& after.carcinized@ == self.carcinized@ + production(
            game,
            self.buildings@,
            self.upgrades@,
            now - self.last_tick,
        )
        &&& after.upgrades@ == self.upgrades@
        &&& after.buildings@ == self.buildings@
        &&& after.achievements@ == self.achievements@
    }

    /// Whether `other` differs from this state in nothing but the
    /// achievements unlocked.
    pub open spec fn same_but_achievements(&self, other: &GameState) -> bool {
        &&& other.last_tick == self.last_tick
        &&& other.carcinized@ == self.carcinized@
        &&& other.upgrades@ == self.upgrades@
        &&& other.buildings@ == self.buildings@
    }

    /// What one click yields under the upgrades owned: one unit and what
    /// they add, times their factors.
    pub open spec fn click_gain(game: &CompiledGame, upgrades: Seq<Seq<char>>) -> real {
        (1real + owned_added(game, upgrades, "click"@)) * owned_factor(game, upgrades, "click"@)
    }

    /// A fresh state: nothing held, nothing owned, nothing unlocked.
    pub fn starting_at(now: i64) -> (state: GameState)
        ensures
            state.last_tick == now,
            state.carcinized@ == 0real,
            state.upgrades@.len() == 0,
            state.buildings@.len() == 0,
            state.achievements@.len() == 0,
    {
        GameState {
            last_tick: now,
            carcinized: Rational::from_i64(0),
            upgrades: IdSet::new(),
            buildings: Counts::new(),
            achievements: IdSet::new(),
        }
    }

    /// Whether the catalog holds every upgrade owned.
    pub fn knows_upgrades(&self, game: &CompiledGame) -> (known: bool)
        ensures
            known == upgrades_known(game, self.upgrades@),
    {
        let mut i: usize = 0;
        while i < self.upgrades.len()
            invariant
                i <= self.upgrades@.len(),
                forall|j: int|
                    0 <= j < i ==> game.upgrade_of(#[trigger] self.upgrades@[j]).is_some(),
            decreases self.upgrades@.len() - i,
        {
            if game.upgrade(self.upgrades.get(i)).is_none() {
                return false;
            }
            i += 1;
        }
        true
    }

    /// Whether the catalog holds every building that the state has an entry
    /// for.
    pub fn knows_buildings(&self, game: &CompiledGame) -> (known: bool)
        ensures
            known == buildings_known(game, self.buildings@),
    {
        let mut k: usize = 0;
        while k < self.buildings.len()
            invariant
                k <= self.buildings@.len(),
                forall|j: int|
                    0 <= j < k ==> game.building_of((#[trigger] self.buildings@[j]).0).is_some(),
            decreases self.buildings@.len() - k,
        {
            if game.building(self.buildings.key(k)).is_none() {
                return false;
            }
            k += 1;
        }
        true
    }

    /// Whether the state fits a catalog.
    pub fn fits_game(&self, game: &CompiledGame) -> (fitting: bool)
        ensures
            fitting == self.fits(game),
    {
        self.knows_upgrades(game) && self.knows_buildings(game)
    }

    /// What the buildings owned yield in the milliseconds given.
    fn produce(
        &self,
        game: &CompiledGame,
        elapsed: &Rational,
        Ghost(elapsed_ms): Ghost<int>,
    ) -> (gain: Rational)
        requires
            elapsed@ == elapsed_ms as real,
            self.fits(game),
        ensures
            gain@ == production(game, self.buildings@, self.upgrades@, elapsed_ms),
    {
        let thousand = Rational::from_i64(1000);
        let stretch = elapsed.divided_by(&thousand).unwrap();
        let mut gain = Rational::from_i64(0);
        let mut i: usize = 0;
        assert(self.buildings@.take(0) =~= Seq::<(Seq<char>, usize)>::empty());
        while i < self.buildings.len()
            invariant
                i <= self.buildings@.len(),
                self.fits(game),
                stretch@ == seconds(elapsed_ms),
                gain@ == production(
                    game,
                    self.buildings@.take(i as int),
                    self.upgrades@,
                    elapsed_ms,
                ),
            decreases self.buildings@.len() - i,
        {
            let ghost entry = self.buildings@[i as int];
            assert(self.buildings@.take(i + 1).drop_last() =~= self.buildings@.take(i as int));
            assert(self.buildings@.take(i + 1).last() == entry);
            let count = self.buildings.value(i);
            let id = self.buildings.key(i);
            let building = game.building(id).unwrap();
            let modifier = resolve(id, &self.upgrades, game);
            let rate = building.spec.base_cps.plus(&modifier.0).times(&modifier.1).times(
                &Rational::from_usize(count),
            );
            assert(rate@ == entry_rate(game, self.upgrades@, entry));
            gain = gain.plus(&rate.times(&stretch));
            i += 1;
        }
        assert(self.buildings@.take(i as int) =~= self.buildings@);
        gain
    }

    /// Advances the state to `new_time`, given in milliseconds since the
    /// Unix epoch: the buildings owned yield for the time that has passed
    /// since the last tick. Time that runs backwards is taken as it is. Then
    /// the evaluator's pass begins: the tick returns which predicates are to
    /// be asked of the advanced state, and `evaluate` takes what they gave.
    pub fn tick(&mut self, game: &CompiledGame, new_time: i64) -> (pass: Pass)
        requires
            old(self).fits(game),
        ensures
            old(self).ticked(game, final(self), new_time),
            final(self).fits(game),
            final(self).upgrades == old(self).upgrades,
            final(self).buildings == old(self).buildings,
            final(self).achievements == old(self).achievements,
            final(self).opens(game, &pass),
    {
        let elapsed = Rational::from_i64(new_time).minus(&Rational::from_i64(self.last_tick));
        assert(elapsed@ == (new_time - self.last_tick) as real);
        let gain = self.produce(game, &elapsed, Ghost(new_time - self.last_tick));
        self.last_tick = new_time;
        self.carcinized = self.carcinized.plus(&gain);
        self.begin_pass(game)
    }

    /// One click: the player gains one unit, adjusted by the upgrades owned
    /// that bear on `click`. Time plays no part.
    pub fn click(&mut self, game: &CompiledGame)
        requires
            upgrades_known(game, old(self).upgrades@),
        ensures
            final(self).carcinized@ == old(self).carcinized@ + GameState::click_gain(
                game,
                old(self).upgrades@,
            ),
            final(self).last_tick == old(self).last_tick,
            final(self).upgrades == old(self).upgrades,
            final(self).buildings == old(self).buildings,
            final(self).achievements == old(self).achievements,
    {
        let target = "click".to_owned();
        let modifier = resolve(&target, &self.upgrades, game);
        let gain = Rational::from_i64(1).plus(&modifier.0).times(&modifier.1);
        self.carcinized = self.carcinized.plus(&gain);
    }

    /// Adds what a steady rate per second yields in the milliseconds given.
    pub fn earn(&mut self, per_second: &Rational, elapsed_ms: i64)
        ensures
            final(self).carcinized@ == old(self).carcinized@ + per_second@ * seconds(
                elapsed_ms as int,
            ),
            final(self).last_tick == old(self).last_tick,
            final(self).upgrades == old(self).upgrades,
            final(self).buildings == old(self).buildings,
            final(self).achievements == old(self).achievements,
    {
        let stretch = Rational::from_i64(elapsed_ms).divided_by(&Rational::from_i64(1000)).unwrap();
        self.carcinized = self.carcinized.plus(&per_second.times(&stretch));
    }

    /// A fresh script engine, ready to be shared.
    pub fn mk_engine() -> (engine: Arc<Runtime>) {
        Arc::new(new_runtime())
    }

    /// How many of a building are owned.
    pub fn get_building(&self, k: String) -> (count: usize)
        ensures
            count == self.buildings.count(k@),
    {
        self.buildings.get(&k)
    }

    /// Whether at least `wanted` of a building are owned.
    pub fn owns_at_least(&self, id: &String, wanted: usize) -> (holds: bool)
        ensures
            holds == (self.buildings.count(id@) >= wanted),
    {
        self.buildings.get(id) >= wanted
    }

    /// Sets how many of a building are owned.
    pub fn set_building(&mut self, k: String, v: usize)
        ensures
            forall|id: Seq<char>|
                #[trigger] final(self).buildings.count(id) == if id == k@ {
                    v
                } else {
                    old(self).buildings.count(id)
                },
            final(self).last_tick == old(self).last_tick,
            final(self).carcinized == old(self).carcinized,
            final(self).upgrades == old(self).upgrades,
            final(self).achievements == old(self).achievements,
            final(self).buildings@ == with_count(old(self).buildings@, k@, v),
    {
        self.buildings.insert(k, v);
    }

    /// Whether an upgrade is owned.
    pub fn get_upgrade(&self, k: String) -> (owned: bool)
        ensures
            owned == self.upgrades@.contains(k@),
    {
        self.upgrades.contains(&k)
    }

    /// Makes an upgrade owned or not owned.
    pub fn set_upgrade(&mut self, k: String, v: bool)
        ensures
            final(self).upgrades@ == if v {
                with_id(old(self).upgrades@, k@)
            } else {
                without_id(old(self).upgrades@, k@)
            },
            final(self).upgrades@.contains(k@) == v,
            forall|id: Seq<char>|
                id != k@ ==> #[trigger] final(self).upgrades@.contains(id) == old(
                    self,
                ).upgrades@.contains(id),
            final(self).last_tick == old(self).last_tick,
            final(self).carcinized == old(self).carcinized,
            final(self).buildings == old(self).buildings,
            final(self).achievements == old(self).achievements,
    {
        if v {
            self.upgrades.insert(k);
        } else {
            self.upgrades.remove(&k);
        }
    }

    /// Whether an achievement is unlocked.
    pub fn get_achievement(&self, k: String) -> (unlocked: bool)
        ensures
            unlocked == self.achievements@.contains(k@),
    {
        self.achievements.contains(&k)
    }

    /// Unlocks an achievement where `v` is `true`. An achievement that is
    /// unlocked stays unlocked: with `false` nothing changes.
    pub fn set_achievement(&mut self, k: String, v: bool)
        ensures
            final(self).achievements@ == if v {
                with_id(old(self).achievements@, k@)
            } else {
                old(self).achievements@
            },
            keeps(old(self).achievements@, final(self).achievements@),
            final(self).achievements@.contains(k@) == (v || old(self).achievements@.contains(k@)),
            forall|id: Seq<char>|
                id != k@ ==> #[trigger] final(self).achievements@.contains(id) == old(
                    self,
                ).achievements@.contains(id),
            final(self).last_tick == old(self).last_tick,
            final(self).carcinized == old(self).carcinized,
            final(self).upgrades == old(self).upgrades,
            final(self).buildings == old(self).buildings,
    {
        if v {
            self.achievements.insert(k);
        }
    }
}

} // verus!
