use carcinization_clicker::compiled::achievement::{AchievementSpec, CompiledAchievement};
use carcinization_clicker::compiled::building::{BuildingSpec, CompiledBuilding};
use carcinization_clicker::compiled::game::CompiledGame;
use carcinization_clicker::compiled::source::SourceDir;
use carcinization_clicker::achievements::{depends_met, Pass};
use carcinization_clicker::ids::IdSet;
use carcinization_clicker::rational::Rational;
use carcinization_clicker::script::{judge, Judgement, Snapshot};
use carcinization_clicker::GameState;
use dyon::embed::PushVariable;
use dyon::{Call, Module, Runtime, Variable};
use num::BigInt;
use std::sync::Arc;

const ALWAYS: &str = "fn check(state) -> bool { return true }";
const NEVER: &str = "fn check(state) -> bool { return false }";
const TWO_PROGRAMMERS: &str = "
fn check(state) -> bool {
    buildings := state[0]
    for i len(buildings) {
        if (buildings[i][0] == \"programmer\") && (buildings[i][1] >= 2) {
            return true
        }
    }
    return false
}
";
const OWNS_COPILOT: &str = "
fn check(state) -> bool {
    upgrades := state[1]
    return any i len(upgrades) { upgrades[i] == \"copilot\" }
}
";
const HAS_FIRST: &str = "
fn check(state) -> bool {
    achievements := state[2]
    return any i len(achievements) { achievements[i] == \"first\" }
}
";
const RICH: &str = "fn check(state) -> bool { return state[3] == \"1234\" }";
const NOT_A_BOOL: &str = "fn check(state) -> f64 { return 1 }";
const NO_CHECK: &str = "fn other(state) -> bool { return true }";
const FAILS_AT_RUN_TIME: &str = "fn check(state) -> bool { return state[99] == 1 }";

fn achievement(depends: &[&str], script: Option<&str>) -> CompiledAchievement {
    let mut files = vec![("achievement.json5".to_string(), Some("{}".to_string()))];
    if let Some(text) = script {
        files.push(("achievement.lua".to_string(), Some(text.to_string())));
    }
    let dir = SourceDir { path: "achievements/x".to_string(), files };
    let loaded = script.map(|text| {
        let mut module = Module::new();
        dyon::load_str("building.dyon", Arc::new(text.to_string()), &mut module).map(|_| module)
    });
    let spec = AchievementSpec {
        depends: depends.iter().map(|d| d.to_string()).collect(),
        name: "Achievement".to_string(),
        flavor: "Well done.".to_string(),
    };
    CompiledAchievement::compile(&dir, Ok(spec), loaded).unwrap()
}

fn game_with(achievements: Vec<(&str, CompiledAchievement)>) -> CompiledGame {
    let mut game = CompiledGame::new();
    game.buildings.push((
        "programmer".to_string(),
        CompiledBuilding {
            spec: BuildingSpec {
                name: "Programmer".to_string(),
                flavor: "A fellow programmer.".to_string(),
                base_cps: Rational::from_i64(0),
                base_cost: Rational::from_i64(10),
            },
            script: None,
        },
    ));
    for (id, a) in achievements {
        game.achievements.push((id.to_string(), a));
    }
    game
}

fn unlocked(state: &GameState) -> Vec<String> {
    state.achievements.to_vec()
}

/// The snapshot as the scripts are given it.
fn seen(state: &Snapshot) -> Variable {
    let (numer, denom) = state.amount.to_parts();
    Variable::Array(Arc::new(vec![
        state.buildings.push_var(),
        state.upgrades.push_var(),
        state.achievements.push_var(),
        state.carcinized.push_var(),
        BigInt::from_signed_bytes_le(&numer).to_string().push_var(),
        BigInt::from_signed_bytes_le(&denom).to_string().push_var(),
        Variable::f64(state.last_tick as f64),
    ]))
}

/// Asks the predicates of a pass, as the program around the library does.
fn ask(game: &CompiledGame, pass: &Pass, engine: &mut Runtime) -> Vec<Option<Result<bool, String>>> {
    pass.candidates
        .iter()
        .map(|at| {
            game.achievements[*at].1.script.as_ref().map(|script| {
                Call::new("check").arg(seen(&pass.state)).run_ret::<bool>(
                    engine,
                    &Arc::new(script.clone()),
                )
            })
        })
        .collect()
}

fn run_pass(state: &mut GameState, game: &CompiledGame, engine: &mut Runtime) -> Vec<String> {
    let pass = state.begin_pass(game);
    let outcomes = ask(game, &pass, engine);
    state.evaluate(game, &outcomes).unwrap()
}

fn tick_and_pass(
    state: &mut GameState,
    game: &CompiledGame,
    now: i64,
    engine: &mut Runtime,
) -> Vec<String> {
    let pass = state.tick(game, now);
    let outcomes = ask(game, &pass, engine);
    state.evaluate(game, &outcomes).unwrap()
}

#[test]
fn a_predicate_that_holds_unlocks() {
    let game = game_with(vec![
        ("yes", achievement(&[], Some(ALWAYS))),
        ("no", achievement(&[], Some(NEVER))),
    ]);
    let mut state = GameState::starting_at(0);
    let mut engine = GameState::mk_engine();
    let reports = run_pass(&mut state, &game, Arc::get_mut(&mut engine).unwrap());
    assert!(reports.is_empty());
    assert_eq!(unlocked(&state), vec!["yes".to_string()]);
}

#[test]
fn an_achievement_without_a_script_never_unlocks_by_itself() {
    let game = game_with(vec![("plain", achievement(&[], None))]);
    let mut state = GameState::starting_at(0);
    let mut engine = GameState::mk_engine();
    let reports = run_pass(&mut state, &game, Arc::get_mut(&mut engine).unwrap());
    assert!(reports.is_empty());
    assert_eq!(state.achievements.len(), 0);
    assert_eq!(state.candidates(&game), vec![0]);
    // an answer that no script gave is not taken
    let before = state.clone();
    assert_eq!(state.evaluate(&game, &vec![Some(Ok(true))]), None);
    assert_eq!(state, before);
}

#[test]
fn a_tick_begins_a_pass_on_the_advanced_state() {
    let mut game = game_with(vec![
        ("rich", achievement(&[], Some(RICH))),
        ("later", achievement(&["rich"], Some(ALWAYS))),
        ("plain", achievement(&[], None)),
    ]);
    game.buildings[0].1.spec.base_cps = Rational::from_i64(617);
    let mut state = GameState::starting_at(0);
    state.set_building("programmer".to_string(), 1);
    let pass = state.tick(&game, 2_000);
    assert_eq!(pass.candidates, vec![0, 2]);
    assert_eq!(pass.state.carcinized, "1234");
    assert_eq!(pass.state.buildings, vec![("programmer".to_string(), 1)]);
    assert_eq!(state.achievements.len(), 0);
    let again = state.begin_pass(&game);
    assert_eq!(again.candidates, pass.candidates);
    assert_eq!(again.state.carcinized, pass.state.carcinized);
    let mut engine = GameState::mk_engine();
    let outcomes = ask(&game, &pass, Arc::get_mut(&mut engine).unwrap());
    assert_eq!(outcomes, vec![Some(Ok(true)), None]);
    assert_eq!(state.evaluate(&game, &outcomes), Some(vec![]));
    assert_eq!(unlocked(&state), vec!["rich".to_string()]);
    assert_eq!(state.begin_pass(&game).candidates, vec![1, 2]);
}

#[test]
fn outcomes_that_do_not_fit_the_state_change_nothing() {
    let game = game_with(vec![
        ("a", achievement(&[], Some(ALWAYS))),
        ("b", achievement(&[], None)),
    ]);
    let mut state = GameState::starting_at(3);
    let before = state.clone();
    assert_eq!(state.evaluate(&game, &vec![]), None);
    assert_eq!(state.evaluate(&game, &vec![Some(Ok(true))]), None);
    assert_eq!(state.evaluate(&game, &vec![Some(Ok(true)), None, None]), None);
    assert_eq!(state.evaluate(&game, &vec![None, Some(Ok(true))]), None);
    assert_eq!(state.evaluate(&game, &vec![None, None]), None);
    assert_eq!(state.evaluate(&game, &vec![Some(Ok(true)), Some(Ok(true))]), None);
    assert_eq!(state, before);
    let told = state.evaluate(&game, &vec![Some(Err("broken".to_string())), None]);
    assert_eq!(told, Some(vec!["broken".to_string()]));
    assert_eq!(state, before);
    assert_eq!(state.evaluate(&game, &vec![Some(Ok(true)), None]), Some(vec![]));
    assert_eq!(unlocked(&state), vec!["a".to_string()]);
    // the outcomes of the pass before no longer fit
    assert_eq!(state.evaluate(&game, &vec![Some(Ok(true)), None]), None);
    assert_eq!(state.evaluate(&game, &vec![None]), Some(vec![]));
}

#[test]
fn the_script_sees_the_buildings() {
    let game = game_with(vec![("pair_programming", achievement(&[], Some(TWO_PROGRAMMERS)))]);
    let mut state = GameState::starting_at(0);
    let mut shared = GameState::mk_engine();
    let engine = Arc::get_mut(&mut shared).unwrap();
    state.set_building("programmer".to_string(), 1);
    tick_and_pass(&mut state, &game, 10, engine);
    assert!(!state.get_achievement("pair_programming".to_string()));
    state.set_building("programmer".to_string(), 2);
    let reports = tick_and_pass(&mut state, &game, 20, engine);
    assert!(reports.is_empty());
    assert!(state.get_achievement("pair_programming".to_string()));
}

#[test]
fn the_script_sees_upgrades_achievements_and_the_resource() {
    let game = game_with(vec![
        ("copilot_owner", achievement(&[], Some(OWNS_COPILOT))),
        ("second", achievement(&[], Some(HAS_FIRST))),
        ("rich", achievement(&[], Some(RICH))),
    ]);
    let mut shared = GameState::mk_engine();
    let engine = Arc::get_mut(&mut shared).unwrap();
    let mut state = GameState::starting_at(0);
    run_pass(&mut state, &game, engine);
    assert_eq!(state.achievements.len(), 0);
    state.set_upgrade("copilot".to_string(), true);
    state.set_achievement("first".to_string(), true);
    state.carcinized = Rational::from_i64(12345).divided_by(&Rational::from_i64(10)).unwrap();
    let snapshot = state.snapshot();
    assert_eq!(snapshot.upgrades, vec!["copilot".to_string()]);
    assert_eq!(snapshot.achievements, vec!["first".to_string()]);
    assert_eq!(snapshot.buildings, vec![]);
    assert_eq!(snapshot.carcinized, "1234");
    let reports = run_pass(&mut state, &game, engine);
    assert!(reports.is_empty());
    assert_eq!(
        unlocked(&state),
        vec![
            "first".to_string(),
            "copilot_owner".to_string(),
            "second".to_string(),
            "rich".to_string()
        ]
    );
}

#[test]
fn the_snapshot_holds_the_whole_state() {
    let mut state = GameState::starting_at(77);
    state.carcinized = Rational::from_i64(-7).divided_by(&Rational::from_i64(2)).unwrap();
    state.set_building("programmer".to_string(), 3);
    state.set_upgrade("copilot".to_string(), true);
    state.set_achievement("first".to_string(), true);
    let snapshot = state.snapshot();
    assert_eq!(snapshot.last_tick, 77);
    assert_eq!(snapshot.amount, state.carcinized);
    assert_eq!(snapshot.carcinized, "-3");
    assert_eq!(snapshot.buildings, vec![("programmer".to_string(), 3)]);
    assert_eq!(snapshot.upgrades, vec!["copilot".to_string()]);
    assert_eq!(snapshot.achievements, vec!["first".to_string()]);
}

#[test]
fn the_script_sees_the_exact_amount_and_the_time() {
    let exact = "fn check(state) -> bool { return (state[4] == \"2469\") && (state[5] == \"2\") }";
    let timed = "fn check(state) -> bool { return state[6] == 5000 }";
    let game = game_with(vec![
        ("exact", achievement(&[], Some(exact))),
        ("timed", achievement(&[], Some(timed))),
    ]);
    let mut shared = GameState::mk_engine();
    let engine = Arc::get_mut(&mut shared).unwrap();
    let mut state = GameState::starting_at(0);
    assert!(tick_and_pass(&mut state, &game, 4_000, engine).is_empty());
    assert_eq!(state.achievements.len(), 0);
    state.carcinized = Rational::from_i64(2469).divided_by(&Rational::from_i64(2)).unwrap();
    assert!(tick_and_pass(&mut state, &game, 5_000, engine).is_empty());
    assert_eq!(unlocked(&state), vec!["exact".to_string(), "timed".to_string()]);
}

#[test]
fn a_failing_script_counts_as_false_and_is_reported() {
    let game = game_with(vec![
        ("wrong_type", achievement(&[], Some(NOT_A_BOOL))),
        ("good", achievement(&[], Some(ALWAYS))),
        ("no_entry", achievement(&[], Some(NO_CHECK))),
        ("crashes", achievement(&[], Some(FAILS_AT_RUN_TIME))),
    ]);
    let mut state = GameState::starting_at(0);
    let mut shared = GameState::mk_engine();
    let engine = Arc::get_mut(&mut shared).unwrap();
    let reports = run_pass(&mut state, &game, engine);
    assert_eq!(reports.len(), 3);
    assert!(reports[1].contains("check"));
    assert_eq!(unlocked(&state), vec!["good".to_string()]);
    // the failures do not stop the game
    let again = tick_and_pass(&mut state, &game, 1_000, engine);
    assert_eq!(again.len(), 3);
    assert_eq!(unlocked(&state), vec!["good".to_string()]);
}

#[test]
fn one_engine_serves_many_ticks() {
    let game = game_with(vec![
        ("first", achievement(&[], Some(ALWAYS))),
        ("second", achievement(&["first"], Some(ALWAYS))),
        ("broken", achievement(&[], Some(FAILS_AT_RUN_TIME))),
    ]);
    let mut state = GameState::starting_at(0);
    let mut shared = GameState::mk_engine();
    let engine = Arc::get_mut(&mut shared).unwrap();
    let reports = tick_and_pass(&mut state, &game, 10, engine);
    assert_eq!(reports.len(), 1);
    assert_eq!(unlocked(&state), vec!["first".to_string()]);
    let reports = tick_and_pass(&mut state, &game, 20, engine);
    assert_eq!(reports.len(), 1);
    assert_eq!(unlocked(&state), vec!["first".to_string(), "second".to_string()]);
    assert_eq!(state.last_tick, 20);
}

#[test]
fn dependencies_gate_a_pass() {
    let game = game_with(vec![
        ("third", achievement(&["second"], Some(ALWAYS))),
        ("second", achievement(&["first"], Some(ALWAYS))),
        ("first", achievement(&[], Some(ALWAYS))),
        ("lost", achievement(&["nowhere"], Some(ALWAYS))),
    ]);
    let mut state = GameState::starting_at(0);
    let mut shared = GameState::mk_engine();
    let engine = Arc::get_mut(&mut shared).unwrap();
    assert_eq!(state.candidates(&game), vec![2]);
    tick_and_pass(&mut state, &game, 1, engine);
    assert_eq!(unlocked(&state), vec!["first".to_string()]);
    assert_eq!(state.candidates(&game), vec![1]);
    tick_and_pass(&mut state, &game, 2, engine);
    assert_eq!(unlocked(&state), vec!["first".to_string(), "second".to_string()]);
    tick_and_pass(&mut state, &game, 3, engine);
    assert_eq!(
        unlocked(&state),
        vec!["first".to_string(), "second".to_string(), "third".to_string()]
    );
    tick_and_pass(&mut state, &game, 4, engine);
    assert_eq!(state.achievements.len(), 3);
    assert_eq!(state.candidates(&game), Vec::<usize>::new());
}

#[test]
fn unlocked_achievements_stay_unlocked() {
    let game = game_with(vec![
        ("two", achievement(&[], Some(TWO_PROGRAMMERS))),
        ("never", achievement(&[], Some(NEVER))),
    ]);
    let mut state = GameState::starting_at(0);
    let mut shared = GameState::mk_engine();
    let engine = Arc::get_mut(&mut shared).unwrap();
    state.set_achievement("old".to_string(), true);
    state.set_building("programmer".to_string(), 2);
    let mut seen: Vec<String> = unlocked(&state);
    for (step, count) in [2_usize, 0, 1, 5, 0].iter().enumerate() {
        state.set_building("programmer".to_string(), *count);
        state.set_achievement("two".to_string(), false);
        state.set_achievement("old".to_string(), false);
        state.tick(&game, step as i64 * 1_000 - 1);
        let after_tick = unlocked(&state);
        assert_eq!(after_tick, seen);
        tick_and_pass(&mut state, &game, step as i64 * 1_000, engine);
        let now = unlocked(&state);
        for id in seen.iter() {
            assert!(now.contains(id));
        }
        seen = now;
    }
    assert_eq!(seen, vec!["old".to_string(), "two".to_string()]);
}

#[test]
fn apply_verdicts_unlocks_what_is_true() {
    let game = game_with(vec![
        ("a", achievement(&[], None)),
        ("b", achievement(&[], None)),
        ("c", achievement(&[], None)),
        ("a", achievement(&[], None)),
    ]);
    let mut state = GameState::starting_at(9);
    state.set_achievement("c".to_string(), true);
    let candidates = state.candidates(&game);
    // the first `a` is overridden by the last one
    assert_eq!(candidates, vec![1, 3]);
    let before = state.clone();
    state.apply_verdicts(&game, &candidates, &vec![false, false]);
    assert_eq!(state, before);
    state.apply_verdicts(&game, &candidates, &vec![false, true]);
    assert_eq!(unlocked(&state), vec!["c".to_string(), "a".to_string()]);
    state.apply_verdicts(&game, &vec![3, 1, 3], &vec![true, true, true]);
    assert_eq!(unlocked(&state), vec!["c".to_string(), "a".to_string(), "b".to_string()]);
    assert_eq!(state.last_tick, 9);
}

#[test]
fn settle_unlocks_on_true_and_reports_failures() {
    let game = game_with(vec![
        ("a", achievement(&[], Some(ALWAYS))),
        ("b", achievement(&[], Some(ALWAYS))),
        ("c", achievement(&[], None)),
        ("d", achievement(&[], Some(ALWAYS))),
    ]);
    let mut state = GameState::starting_at(9);
    let candidates = state.candidates(&game);
    assert_eq!(candidates, vec![0, 1, 2, 3]);
    let outcomes = vec![
        Some(Err("first".to_string())),
        Some(Ok(true)),
        None,
        Some(Err("second".to_string())),
    ];
    let reports = state.settle(&game, &candidates, &outcomes);
    assert_eq!(reports, vec!["first".to_string(), "second".to_string()]);
    assert_eq!(unlocked(&state), vec!["b".to_string()]);
    let candidates = state.candidates(&game);
    assert_eq!(candidates, vec![0, 2, 3]);
    let reports = state.settle(&game, &candidates, &vec![Some(Ok(false)), None, Some(Ok(true))]);
    assert!(reports.is_empty());
    assert_eq!(unlocked(&state), vec!["b".to_string(), "d".to_string()]);
}

#[test]
fn depends_met_wants_every_dependency() {
    let mut held = IdSet::new();
    held.insert("a".to_string());
    held.insert("b".to_string());
    assert!(depends_met(&held, &vec![]));
    assert!(depends_met(&held, &vec!["a".to_string()]));
    assert!(depends_met(&held, &vec!["b".to_string(), "a".to_string()]));
    assert!(!depends_met(&held, &vec!["a".to_string(), "c".to_string()]));
}

#[test]
fn judge_takes_a_failure_as_false() {
    assert_eq!(judge(&None), Judgement { holds: false, report: None });
    assert_eq!(judge(&Some(Ok(true))), Judgement { holds: true, report: None });
    assert_eq!(judge(&Some(Ok(false))), Judgement { holds: false, report: None });
    assert_eq!(
        judge(&Some(Err("boom".to_string()))),
        Judgement { holds: false, report: Some("boom".to_string()) }
    );
}
