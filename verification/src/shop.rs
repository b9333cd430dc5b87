//! The shop: buying buildings and upgrades, and what the shop shows.
use crate::achievements::all_held;
use crate::achievements::depends_met;
use crate::compiled::game::CompiledGame;
use crate::ids::entry_keys;
use crate::ids::with_count;
use crate::ids::with_id;
use crate::pricing::price;
use crate::pricing::price_of;
use crate::production::buildings_known;
use crate::rational::truncate;
use crate::rational::Rational;
use crate::resolve::upgrades_known;
use crate::GameState;
use vstd::prelude::*;

verus! {

/// Why a purchase was turned down.
#[derive(Clone, Copy, Debug, PartialEq, Eq, Structural)]
pub enum PurchaseError {
    /// The price is above what the player holds.
    InsufficientResources,
    /// An achievement that the upgrade depends on is still locked.
    DependencyUnmet,
}

/// How far a price is from what the player holds.
#[derive(Clone, Copy, Debug, PartialEq, Eq, Structural)]
pub enum Affordability {
    /// The player holds enough.
    Affordable,
    /// At the present rate the player holds enough after this many whole
    /// seconds.
    After(u64),
    /// At the present rate it takes more seconds than can be counted.
    OutOfReach,
    /// The player gains nothing at present.
    NoIncome,
}

/// What `afford` answers for a price, a holding and a rate per second.
pub open spec fn affordability_of(cost: real, held: real, rate: real) -> Affordability {
    if cost <= held {
        Affordability::Affordable
    } else if rate > 0real {
        let wait = truncate((cost - held) / rate);
        if wait <= u64::MAX {
            Affordability::After(wait as u64)
        } else {
            Affordability::OutOfReach
        }
    } else {
        Affordability::NoIncome
    }
}

/// The rate per second at which the holding changed between two readings
/// taken `elapsed_ms` milliseconds apart; zero where no time passed.
pub open spec fn observed_rate_of(before: real, after: real, elapsed_ms: int) -> real {
    if elapsed_ms != 0 {
        1000real * (after - before) / (elapsed_ms as real)
    } else {
        0real
    }
}

/// How far a price is from a holding that grows at a rate per second.
pub fn afford(cost: &Rational, held: &Rational, rate: &Rational) -> (answer: Affordability)
    ensures
        answer == affordability_of(cost@, held@, rate@),
{
    if cost.le(held) {
        Affordability::Affordable
    } else if rate.gt(&Rational::from_i64(0)) {
        let wait = cost.minus(held).divided_by(rate).unwrap();
        match wait.to_u64() {
            Some(seconds) => Affordability::After(seconds),
            None => {
                proof {
                    let w = (cost@ - held@) / rate@;
                    assert(w >= 0real) by (nonlinear_arith)
                        requires
                            w == (cost@ - held@) / rate@,
                            cost@ - held@ > 0real,
                            rate@ > 0real,
                    ;
                }
                Affordability::OutOfReach
            },
        }
    } else {
        Affordability::NoIncome
    }
}

impl GameState {
    /// The rate per second at which the holding changed since an earlier
    /// reading of the state; zero where both were taken at the same time.
    pub fn observed_rate(&self, earlier: &GameState) -> (rate: Rational)
        ensures
            rate@ == observed_rate_of(
                earlier.carcinized@,
                self.carcinized@,
                self.last_tick - earlier.last_tick,
            ),
    {
        if self.last_tick != earlier.last_tick {
            let elapsed = Rational::from_i64(self.last_tick).minus(
                &Rational::from_i64(earlier.last_tick),
            );
            let gained = self.carcinized.minus(&earlier.carcinized);
            Rational::from_i64(1000).times(&gained).divided_by(&elapsed).unwrap()
        } else {
            Rational::from_i64(0)
        }
    }

    /// Whether the shop shows a building: the player owns one already or
    /// holds the price of the first.
    pub fn building_offered(&self, game: &CompiledGame, id: &String) -> (offered: bool)
        requires
            game.building_of(id@).is_some(),
        ensures
            offered == (self.buildings.count(id@) > 0 || game.building_of(
                id@,
            ).unwrap().spec.base_cost@ <= self.carcinized@),
    {
        let building = game.building(id).unwrap();
        self.buildings.get(id) > 0 || building.spec.base_cost.le(&self.carcinized)
    }

    /// Whether the shop shows an upgrade: it is not owned yet, all it
    /// depends on is unlocked, and its price is at most three times what the
    /// player holds.
    pub fn upgrade_offered(&self, game: &CompiledGame, id: &String) -> (offered: bool)
        requires
            game.upgrade_of(id@).is_some(),
        ensures
            offered == {
                let upgrade = game.upgrade_of(id@).unwrap();
                &&& upgrade.spec.cost@ <= self.carcinized@ * 3real
                &&& all_held(self.achievements@, upgrade.spec.depends@)
                &&& !self.upgrades@.contains(id@)
            },
    {
        let upgrade = game.upgrade(id).unwrap();
        let limit = self.carcinized.times(&Rational::from_i64(3));
        upgrade.spec.cost.le(&limit) && depends_met(&self.achievements, &upgrade.spec.depends)
            && !self.upgrades.contains(id)
    }

    /// Buys one more of a building, at the price that the pricing model
    /// gives for the number owned. Fails, and changes nothing, where the
    /// price is above what the player holds.
    pub fn purchase_building(
        &mut self,
        game: &CompiledGame,
        id: &String,
        cost_fac: &Rational,
    ) -> (done: Result<(), PurchaseError>)
        requires
            game.building_of(id@).is_some(),
            old(self).buildings.count(id@) < usize::MAX,
        ensures
            old(self).fits(game) ==> final(self).fits(game),
            ({
                let owned = old(self).buildings.count(id@);
                let cost = price_of(
                    game.building_of(id@).unwrap().spec.base_cost@,
                    cost_fac@,
                    owned as nat,
                );
                match done {
                    Ok(_) => {
                        &&& cost <= old(self).carcinized@
                        &&& final(self).carcinized@ == old(self).carcinized@ - cost
                        &&& final(self).carcinized@ >= 0real
                        &&& final(self).buildings@ == with_count(
                            old(self).buildings@,
                            id@,
                            (owned + 1) as usize,
                        )
                        &&& forall|other: Seq<char>|
                            #[trigger] final(self).buildings.count(other) == if other == id@ {
                                (owned + 1) as usize
                            } else {
                                old(self).buildings.count(other)
                            }
                        &&& final(self).last_tick == old(self).last_tick
                        &&& final(self).upgrades == old(self).upgrades
                        &&& final(self).achievements == old(self).achievements
                    },
                    Err(reason) => {
                        &&& reason == PurchaseError::InsufficientResources
                        &&& cost > old(self).carcinized@
                        &&& *final(self) == *old(self)
                    },
                }
            }),
    {
        let building = game.building(id).unwrap();
        let owned = self.buildings.get(id);
        let cost = price(&building.spec.base_cost, cost_fac, owned);
        if cost.gt(&self.carcinized) {
            Err(PurchaseError::InsufficientResources)
        } else {
            let ghost before = self.buildings@;
            self.carcinized = self.carcinized.minus(&cost);
            self.buildings.insert(id.clone(), owned + 1);
            proof {
                if buildings_known(game, before) {
                    let after = self.buildings@;
                    assert forall|i: int| 0 <= i < after.len() && (#[trigger] after[i]).1
                        > 0 implies game.building_of(after[i].0).is_some() by {
                        if entry_keys(before).contains(id@) {
                            let k = entry_keys(before).index_of(id@);
                            if i != k {
                                assert(after[i] == before[i]);
                            }
                        } else if i < before.len() {
                            assert(after[i] == before[i]);
                        }
                    }
                }
            }
            Ok(())
        }
    }

    /// Buys an upgrade. Fails, and changes nothing, where an achievement
    /// that the upgrade depends on is still locked, or else where the
    /// price is above what the player holds.
    pub fn purchase_upgrade(&mut self, game: &CompiledGame, id: &String) -> (done: Result<
        (),
        PurchaseError,
    >)
        requires
            game.upgrade_of(id@).is_some(),
        ensures
            old(self).fits(game) ==> final(self).fits(game),
            ({
                let upgrade = game.upgrade_of(id@).unwrap();
                let met = all_held(old(self).achievements@, upgrade.spec.depends@);
                let cost = upgrade.spec.cost@;
                match done {
                    Ok(_) => {
                        &&& met
                        &&& cost <= old(self).carcinized@
                        &&& final(self).carcinized@ == old(self).carcinized@ - cost
                        &&& final(self).carcinized@ >= 0real
                        &&& final(self).upgrades@ == with_id(old(self).upgrades@, id@)
                        &&& final(self).last_tick == old(self).last_tick
                        &&& final(self).buildings == old(self).buildings
                        &&& final(self).achievements == old(self).achievements
                    },
                    Err(PurchaseError::DependencyUnmet) => {
                        &&& !met
                        &&& *final(self) == *old(self)
                    },
                    Err(PurchaseError::InsufficientResources) => {
                        &&& met
                        &&& cost > old(self).carcinized@
                        &&& *final(self) == *old(self)
                    },
                }
            }),
    {
        let upgrade = game.upgrade(id).unwrap();
        if !depends_met(&self.achievements, &upgrade.spec.depends) {
            Err(PurchaseError::DependencyUnmet)
        } else if upgrade.spec.cost.gt(&self.carcinized) {
            Err(PurchaseError::InsufficientResources)
        } else {
            let ghost before = self.upgrades@;
            self.carcinized = self.carcinized.minus(&upgrade.spec.cost);
            self.upgrades.insert(id.clone());
            proof {
                if upgrades_known(game, before) {
                    let after = self.upgrades@;
                    assert forall|i: int| 0 <= i < after.len() implies game.upgrade_of(
                        #[trigger] after[i],
                    ).is_some() by {
                        if i < before.len() {
                            assert(after[i] == before[i]);
                        }
                    }
                }
            }
            Ok(())
        }
    }
}

} // verus!
