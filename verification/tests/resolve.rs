use carcinization_clicker::compiled::game::CompiledGame;
use carcinization_clicker::compiled::upgrade::{CompiledUpgrade, UpgradeEffect, UpgradeSpec};
use carcinization_clicker::ids::IdSet;
use carcinization_clicker::rational::Rational;
use carcinization_clicker::resolve::resolve;

fn whole(n: i64) -> Rational {
    Rational::from_i64(n)
}

fn ratio(numer: i64, denom: i64) -> Rational {
    whole(numer).divided_by(&whole(denom)).unwrap()
}

fn effect(affects: &str, add: Option<Rational>, fac: Option<Rational>) -> UpgradeEffect {
    UpgradeEffect { affects: affects.to_string(), cps_fac: fac, cps_add: add }
}

fn upgrade(effects: Vec<UpgradeEffect>) -> CompiledUpgrade {
    CompiledUpgrade {
        spec: UpgradeSpec {
            name: "Upgrade".to_string(),
            flavor: "It upgrades.".to_string(),
            depends: vec![],
            effects,
            cost: whole(1),
        },
        script: None,
    }
}

fn catalog() -> CompiledGame {
    let mut game = CompiledGame::new();
    game.upgrades.push(("plus5".to_string(), upgrade(vec![effect("gen", Some(whole(5)), None)])));
    game.upgrades.push(("double".to_string(), upgrade(vec![effect("gen", None, Some(whole(2)))])));
    game.upgrades.push((
        "all".to_string(),
        upgrade(vec![effect("*", Some(ratio(1, 2)), Some(whole(3)))]),
    ));
    game.upgrades.push((
        "mixed".to_string(),
        upgrade(vec![
            effect("gen", Some(whole(1)), Some(ratio(3, 2))),
            effect("other", Some(whole(100)), Some(whole(100))),
            effect("click", Some(whole(7)), None),
        ]),
    ));
    game
}

fn owned(ids: &[&str]) -> IdSet {
    let mut set = IdSet::new();
    for id in ids {
        set.insert(id.to_string());
    }
    set
}

#[test]
fn nothing_owned_adds_nothing() {
    let game = catalog();
    let (add, fac) = resolve(&"gen".to_string(), &owned(&[]), &game);
    assert_eq!(add, whole(0));
    assert_eq!(fac, whole(1));
}

#[test]
fn upgrades_not_owned_do_not_count() {
    let game = catalog();
    let (add, fac) = resolve(&"gen".to_string(), &owned(&["plus5"]), &game);
    assert_eq!(add, whole(5));
    assert_eq!(fac, whole(1));
}

#[test]
fn amounts_are_summed_and_factors_multiplied() {
    let game = catalog();
    let (add, fac) = resolve(&"gen".to_string(), &owned(&["plus5", "double", "all", "mixed"]), &game);
    assert_eq!(add, ratio(13, 2));
    assert_eq!(fac, whole(9));
}

#[test]
fn wildcard_bears_on_every_target() {
    let game = catalog();
    let (add, fac) = resolve(&"unheard_of".to_string(), &owned(&["plus5", "all"]), &game);
    assert_eq!(add, ratio(1, 2));
    assert_eq!(fac, whole(3));
}

#[test]
fn click_is_a_target_like_any_other() {
    let game = catalog();
    let (add, fac) = resolve(&"click".to_string(), &owned(&["plus5", "mixed", "all"]), &game);
    assert_eq!(add, ratio(15, 2));
    assert_eq!(fac, whole(3));
}

#[test]
fn order_of_purchase_plays_no_part() {
    let game = catalog();
    let target = "gen".to_string();
    let orders: [[&str; 4]; 6] = [
        ["plus5", "double", "all", "mixed"],
        ["mixed", "all", "double", "plus5"],
        ["double", "plus5", "mixed", "all"],
        ["all", "mixed", "plus5", "double"],
        ["plus5", "mixed", "double", "all"],
        ["double", "all", "plus5", "mixed"],
    ];
    let expected = resolve(&target, &owned(&orders[0]), &game);
    for order in orders.iter() {
        assert_eq!(resolve(&target, &owned(order), &game), expected);
    }
}

#[test]
fn bears_on_matches_target_or_wildcard() {
    let gen = "gen".to_string();
    assert!(effect("gen", None, None).bears_on(&gen));
    assert!(effect("*", None, None).bears_on(&gen));
    assert!(!effect("click", None, None).bears_on(&gen));
    assert!(!effect("", None, None).bears_on(&gen));
}
