use carcinization_clicker::compiled::building::{BuildingSpec, CompiledBuilding};
use carcinization_clicker::compiled::game::CompiledGame;
use carcinization_clicker::compiled::upgrade::{CompiledUpgrade, UpgradeEffect, UpgradeSpec};
use carcinization_clicker::rational::Rational;
use carcinization_clicker::shop::{afford, Affordability, PurchaseError};
use carcinization_clicker::GameState;

fn whole(n: i64) -> Rational {
    Rational::from_i64(n)
}

fn ratio(numer: i64, denom: i64) -> Rational {
    whole(numer).divided_by(&whole(denom)).unwrap()
}

fn catalog() -> CompiledGame {
    let mut game = CompiledGame::new();
    game.buildings.push((
        "programmer".to_string(),
        CompiledBuilding {
            spec: BuildingSpec {
                name: "Programmer".to_string(),
                flavor: "A fellow programmer to join your cause.".to_string(),
                base_cps: ratio(1, 10),
                base_cost: whole(10),
            },
            script: None,
        },
    ));
    game.upgrades.push((
        "copilot".to_string(),
        CompiledUpgrade {
            spec: UpgradeSpec {
                name: "Copilot".to_string(),
                flavor: "An automated buddy.".to_string(),
                depends: vec!["pair_programming".to_string(), "first".to_string()],
                effects: vec![UpgradeEffect {
                    affects: "programmer".to_string(),
                    cps_fac: Some(ratio(11, 10)),
                    cps_add: None,
                }],
                cost: whole(100),
            },
            script: None,
        },
    ));
    game.upgrades.push((
        "free".to_string(),
        CompiledUpgrade {
            spec: UpgradeSpec {
                name: "Free".to_string(),
                flavor: "On the house.".to_string(),
                depends: vec![],
                effects: vec![],
                cost: whole(0),
            },
            script: None,
        },
    ));
    game
}

fn id(s: &str) -> String {
    s.to_string()
}

#[test]
fn buying_a_building_takes_the_price_and_adds_one() {
    let game = catalog();
    let factor = ratio(23, 20);
    let mut state = GameState::starting_at(0);
    state.carcinized = whole(30);
    assert_eq!(state.purchase_building(&game, &id("programmer"), &factor), Ok(()));
    assert_eq!(state.get_building(id("programmer")), 1);
    assert_eq!(state.carcinized, whole(20));
    assert_eq!(state.purchase_building(&game, &id("programmer"), &factor), Ok(()));
    assert_eq!(state.get_building(id("programmer")), 2);
    assert_eq!(state.carcinized, ratio(17, 2));
    assert!(state.fits_game(&game));
}

#[test]
fn a_building_that_costs_too_much_is_not_bought() {
    let game = catalog();
    let factor = ratio(23, 20);
    let mut state = GameState::starting_at(7);
    state.carcinized = ratio(999, 100);
    let before = state.clone();
    assert_eq!(
        state.purchase_building(&game, &id("programmer"), &factor),
        Err(PurchaseError::InsufficientResources)
    );
    assert_eq!(state, before);
    state.carcinized = whole(10);
    assert_eq!(state.purchase_building(&game, &id("programmer"), &factor), Ok(()));
    assert_eq!(state.carcinized, whole(0));
    // the second one costs 11.5
    state.carcinized = whole(11);
    let before = state.clone();
    assert_eq!(
        state.purchase_building(&game, &id("programmer"), &factor),
        Err(PurchaseError::InsufficientResources)
    );
    assert_eq!(state, before);
}

#[test]
fn an_upgrade_with_a_locked_dependency_is_not_bought() {
    let game = catalog();
    let mut state = GameState::starting_at(3);
    state.carcinized = whole(1_000);
    state.set_achievement(id("first"), true);
    let before = state.clone();
    assert_eq!(
        state.purchase_upgrade(&game, &id("copilot")),
        Err(PurchaseError::DependencyUnmet)
    );
    assert_eq!(state, before);
    assert_eq!(state.carcinized, whole(1_000));
    assert_eq!(state.upgrades.len(), 0);
}

#[test]
fn a_locked_dependency_is_reported_before_the_price() {
    let game = catalog();
    let mut state = GameState::starting_at(3);
    let before = state.clone();
    assert_eq!(
        state.purchase_upgrade(&game, &id("copilot")),
        Err(PurchaseError::DependencyUnmet)
    );
    assert_eq!(state, before);
}

#[test]
fn an_upgrade_that_costs_too_much_is_not_bought() {
    let game = catalog();
    let mut state = GameState::starting_at(3);
    state.set_achievement(id("first"), true);
    state.set_achievement(id("pair_programming"), true);
    state.carcinized = ratio(9_999, 100);
    let before = state.clone();
    assert_eq!(
        state.purchase_upgrade(&game, &id("copilot")),
        Err(PurchaseError::InsufficientResources)
    );
    assert_eq!(state, before);
}

#[test]
fn buying_an_upgrade_takes_the_price_and_owns_it() {
    let game = catalog();
    let mut state = GameState::starting_at(3);
    state.set_achievement(id("first"), true);
    state.set_achievement(id("pair_programming"), true);
    state.carcinized = whole(100);
    assert_eq!(state.purchase_upgrade(&game, &id("copilot")), Ok(()));
    assert_eq!(state.carcinized, whole(0));
    assert!(state.get_upgrade(id("copilot")));
    assert_eq!(state.upgrades.len(), 1);
    assert_eq!(state.purchase_upgrade(&game, &id("free")), Ok(()));
    assert_eq!(state.upgrades.to_vec(), vec![id("copilot"), id("free")]);
    assert!(state.fits_game(&game));
}

#[test]
fn an_owned_upgrade_works_on_the_next_tick() {
    let game = catalog();
    let mut state = GameState::starting_at(0);
    state.set_achievement(id("first"), true);
    state.set_achievement(id("pair_programming"), true);
    state.carcinized = whole(120);
    state.purchase_building(&game, &id("programmer"), &whole(2)).unwrap();
    state.purchase_upgrade(&game, &id("copilot")).unwrap();
    assert_eq!(state.carcinized, whole(10));
    state.tick(&game, 100_000);
    // 0.1 * 1.1 * 100 seconds
    assert_eq!(state.carcinized, whole(21));
}

#[test]
fn the_shop_shows_buildings_owned_or_within_reach() {
    let game = catalog();
    let mut state = GameState::starting_at(0);
    assert!(!state.building_offered(&game, &id("programmer")));
    state.carcinized = whole(10);
    assert!(state.building_offered(&game, &id("programmer")));
    state.carcinized = whole(0);
    state.set_building(id("programmer"), 1);
    assert!(state.building_offered(&game, &id("programmer")));
}

#[test]
fn the_shop_shows_upgrades_that_are_near() {
    let game = catalog();
    let mut state = GameState::starting_at(0);
    state.set_achievement(id("first"), true);
    state.carcinized = whole(50);
    assert!(!state.upgrade_offered(&game, &id("copilot")));
    state.set_achievement(id("pair_programming"), true);
    assert!(state.upgrade_offered(&game, &id("copilot")));
    state.carcinized = ratio(100, 3);
    assert!(state.upgrade_offered(&game, &id("copilot")));
    state.carcinized = whole(33);
    assert!(!state.upgrade_offered(&game, &id("copilot")));
    state.carcinized = whole(500);
    state.set_upgrade(id("copilot"), true);
    assert!(!state.upgrade_offered(&game, &id("copilot")));
}

#[test]
fn afford_tells_how_long_to_wait() {
    assert_eq!(afford(&whole(10), &whole(10), &whole(0)), Affordability::Affordable);
    assert_eq!(afford(&whole(10), &whole(11), &whole(-1)), Affordability::Affordable);
    assert_eq!(afford(&whole(10), &whole(3), &whole(2)), Affordability::After(3));
    assert_eq!(afford(&whole(10), &whole(9), &whole(2)), Affordability::After(0));
    assert_eq!(afford(&whole(10), &whole(3), &whole(0)), Affordability::NoIncome);
    assert_eq!(afford(&whole(10), &whole(3), &ratio(-1, 2)), Affordability::NoIncome);
    let far = Rational::from_u64(u64::MAX);
    assert_eq!(afford(&far, &whole(0), &whole(1)), Affordability::After(u64::MAX));
    assert_eq!(afford(&far, &whole(0), &ratio(1, 2)), Affordability::OutOfReach);
}

#[test]
fn observed_rate_is_gain_per_second() {
    let mut earlier = GameState::starting_at(1_000);
    earlier.carcinized = whole(5);
    let mut later = earlier.clone();
    later.last_tick = 3_000;
    later.carcinized = whole(12);
    assert_eq!(later.observed_rate(&earlier), ratio(7, 2));
    assert_eq!(earlier.observed_rate(&later), ratio(7, 2));
    later.last_tick = 1_000;
    assert_eq!(later.observed_rate(&earlier), whole(0));
    later.last_tick = 1_001;
    later.carcinized = whole(4);
    assert_eq!(later.observed_rate(&earlier), whole(-1_000));
}
