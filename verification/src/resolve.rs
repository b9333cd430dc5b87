//! The modifier resolver: what the upgrades that a player owns do to a
//! target's rate.
//!
//! All amounts are added up first and all factors are multiplied afterwards,
//! so the order in which the upgrades were bought plays no part.
use crate::compiled::game::CompiledGame;
use crate::compiled::upgrade::UpgradeEffect;
use crate::ids::IdSet;
use crate::rational::Rational;
use vstd::prelude::*;

verus! {

/// The sum of what a sequence of effects adds to a target's rate.
pub open spec fn effects_added(effects: Seq<UpgradeEffect>, target: Seq<char>) -> real
    decreases effects.len(),
{
    if effects.len() == 0 {
        0real
    } else {
        effects_added(effects.drop_last(), target) + effects.last().added(target)
    }
}

/// The product of the factors that a sequence of effects puts on a target's
/// rate.
pub open spec fn effects_factor(effects: Seq<UpgradeEffect>, target: Seq<char>) -> real
    decreases effects.len(),
{
    if effects.len() == 0 {
        1real
    } else {
        effects_factor(effects.drop_last(), target) * effects.last().factor(target)
    }
}

/// What the upgrade under an identifier adds to a target's rate.
pub open spec fn upgrade_added(game: &CompiledGame, id: Seq<char>, target: Seq<char>) -> real {
    match game.upgrade_of(id) {
        Some(upgrade) => effects_added(upgrade.spec.effects@, target),
        None => 0real,
    }
}

/// The factor that the upgrade under an identifier puts on a target's rate.
pub open spec fn upgrade_factor(game: &CompiledGame, id: Seq<char>, target: Seq<char>) -> real {
    match game.upgrade_of(id) {
        Some(upgrade) => effects_factor(upgrade.spec.effects@, target),
        None => 1real,
    }
}

/// The sum of what the upgrades under a sequence of identifiers add to a
/// target's rate.
pub open spec fn owned_added(game: &CompiledGame, ids: Seq<Seq<char>>, target: Seq<char>) -> real
    decreases ids.len(),
{
    if ids.len() == 0 {
        0real
    } else {
        owned_added(game, ids.drop_last(), target) + upgrade_added(game, ids.last(), target)
    }
}

/// The product of the factors that the upgrades under a sequence of
/// identifiers put on a target's rate.
pub open spec fn owned_factor(game: &CompiledGame, ids: Seq<Seq<char>>, target: Seq<char>) -> real
    decreases ids.len(),
{
    if ids.len() == 0 {
        1real
    } else {
        owned_factor(game, ids.drop_last(), target) * upgrade_factor(game, ids.last(), target)
    }
}

/// Whether the catalog holds an upgrade under each of the identifiers.
pub open spec fn upgrades_known(game: &CompiledGame, ids: Seq<Seq<char>>) -> bool {
    forall|i: int| 0 <= i < ids.len() ==> game.upgrade_of(#[trigger] ids[i]).is_some()
}

/// The rate of a target whose own rate is `base`, under the upgrades that
/// are owned: the amounts are added first, the factors applied afterwards.
pub open spec fn adjusted(
    game: &CompiledGame,
    ids: Seq<Seq<char>>,
    target: Seq<char>,
    base: real,
) -> real {
    (base + owned_added(game, ids, target)) * owned_factor(game, ids, target)
}

impl UpgradeEffect {
    /// Whether the effect bears on a target.
    pub fn bears_on(&self, target: &String) -> (applies: bool)
        ensures
            applies == self.applies_to(target@),
    {
        let wildcard = "*".to_owned();
        self.affects == *target || self.affects == wildcard
    }
}

/// Adds to `sum` what the effects add to a target's rate.
fn add_effects(sum: Rational, effects: &Vec<UpgradeEffect>, target: &String) -> (total: Rational)
    ensures
        total@ == sum@ + effects_added(effects@, target@),
{
    let mut total = sum;
    let mut j: usize = 0;
    assert(effects@.take(0) =~= Seq::<UpgradeEffect>::empty());
    while j < effects.len()
        invariant
            j <= effects.len(),
                total@ == sum@ + effects_added(effects@.take(j as int), target@),
        decreases effects.len() - j,
    {
        let effect = &effects[j];
        assert(effects@.take(j + 1).drop_last() =~= effects@.take(j as int));
        assert(effects@.take(j + 1).last() == effects@[j as int]);
        if effect.bears_on(target) {
            match &effect.cps_add {
                Some(amount) => {
                    total = total.plus(amount);
                },
                None => {},
            }
        }
        j += 1;
    }
    assert(effects@.take(j as int) =~= effects@);
    total
}

/// Multiplies `product` by the factors that the effects put on a target's
/// rate.
fn multiply_effects(product: Rational, effects: &Vec<UpgradeEffect>, target: &String) -> (total:
    Rational)
    ensures
        total@ == product@ * effects_factor(effects@, target@),
{
    let mut total = product;
    let mut j: usize = 0;
    assert(effects@.take(0) =~= Seq::<UpgradeEffect>::empty());
    while j < effects.len()
        invariant
            j <= effects.len(),
                total@ == product@ * effects_factor(effects@.take(j as int), target@),
        decreases effects.len() - j,
    {
        let effect = &effects[j];
        let ghost before = effects_factor(effects@.take(j as int), target@);
        let ghost step = effect.factor(target@);
        assert(effects@.take(j + 1).drop_last() =~= effects@.take(j as int));
        assert(effects@.take(j + 1).last() == effects@[j as int]);
        assert(effects_factor(effects@.take(j + 1), target@) == before * step);
        assert((product@ * before) * step == product@ * (before * step)) by (nonlinear_arith);
        if effect.bears_on(target) {
            match &effect.cps_fac {
                Some(factor) => {
                    total = total.times(factor);
                },
                None => {},
            }
        }
        j += 1;
    }
    assert(effects@.take(j as int) =~= effects@);
    total
}

/// The net adjustment that the owned upgrades make to a target: the sum of
/// the amounts they add, and the product of their factors. An effect counts
/// where it names the target or the wildcard `*`. Every upgrade owned has
/// to be in the catalog.
pub fn resolve(target: &String, owned: &IdSet, game: &CompiledGame) -> (modifier: (
    Rational,
    Rational,
))
    requires
        upgrades_known(game, owned@),
    ensures
        modifier.0@ == owned_added(game, owned@, target@),
        modifier.1@ == owned_factor(game, owned@, target@),
{
    let mut additive = Rational::from_i64(0);
    let mut i: usize = 0;
    assert(owned@.take(0) =~= Seq::<Seq<char>>::empty());
    while i < owned.len()
        invariant
            i <= owned@.len(),
            upgrades_known(game, owned@),
            additive@ == owned_added(game, owned@.take(i as int), target@),
        decreases owned@.len() - i,
    {
        assert(owned@.take(i + 1).drop_last() =~= owned@.take(i as int));
        assert(owned@.take(i + 1).last() == owned@[i as int]);
        let upgrade = game.upgrade(owned.get(i)).unwrap();
        additive = add_effects(additive, &upgrade.spec.effects, target);
        i += 1;
    }
    assert(owned@.take(i as int) =~= owned@);
    let mut multiplicative = Rational::from_i64(1);
    let mut k: usize = 0;
    while k < owned.len()
        invariant
            k <= owned@.len(),
            upgrades_known(game, owned@),
            multiplicative@ == owned_factor(game, owned@.take(k as int), target@),
        decreases owned@.len() - k,
    {
        assert(owned@.take(k + 1).drop_last() =~= owned@.take(k as int));
        assert(owned@.take(k + 1).last() == owned@[k as int]);
        let upgrade = game.upgrade(owned.get(k)).unwrap();
        multiplicative = multiply_effects(multiplicative, &upgrade.spec.effects, target);
        k += 1;
    }
    assert(owned@.take(k as int) =~= owned@);
    (additive, multiplicative)
}

/// The sum of the amounts, written as a fold over the identifiers.
proof fn lemma_added_is_fold(game: &CompiledGame, ids: Seq<Seq<char>>, target: Seq<char>)
    ensures
        owned_added(game, ids, target) == ids.fold_left(
            0real,
            |sum: real, id: Seq<char>| sum + upgrade_added(game, id, target),
        ),
    decreases ids.len(),
{
    if ids.len() > 0 {
        lemma_added_is_fold(game, ids.drop_last(), target);
    }
}

/// The product of the factors, written as a fold over the identifiers.
proof fn lemma_factor_is_fold(game: &CompiledGame, ids: Seq<Seq<char>>, target: Seq<char>)
    ensures
        owned_factor(game, ids, target) == ids.fold_left(
            1real,
            |product: real, id: Seq<char>| product * upgrade_factor(game, id, target),
        ),
    decreases ids.len(),
{
    if ids.len() > 0 {
        lemma_factor_is_fold(game, ids.drop_last(), target);
    }
}

/// The order of the owned upgrades plays no part: two sequences that hold
/// the same identifiers equally often give a target the same sum of amounts
/// and the same product of factors, and so the same adjusted rate.
pub proof fn lemma_resolve_order(
    game: &CompiledGame,
    first: Seq<Seq<char>>,
    second: Seq<Seq<char>>,
    target: Seq<char>,
)
    requires
        first.to_multiset() == second.to_multiset(),
    ensures
        owned_added(game, first, target) == owned_added(game, second, target),
        owned_factor(game, first, target) == owned_factor(game, second, target),
        forall|base: real|
            #[trigger] adjusted(game, first, target, base) == adjusted(game, second, target, base),
{
    let plus = |sum: real, id: Seq<char>| sum + upgrade_added(game, id, target);
    let times = |product: real, id: Seq<char>| product * upgrade_factor(game, id, target);
    lemma_added_is_fold(game, first, target);
    lemma_added_is_fold(game, second, target);
    lemma_factor_is_fold(game, first, target);
    lemma_factor_is_fold(game, second, target);
    assert(vstd::seq_lib::commutative_foldl(plus));
    assert forall|x: Seq<char>, y: Seq<char>, v: real| #[trigger]
        times(times(v, x), y) == times(times(v, y), x) by {
        let a = upgrade_factor(game, x, target);
        let b = upgrade_factor(game, y, target);
        assert((v * a) * b == (v * b) * a) by (nonlinear_arith);
    }
    assert(vstd::seq_lib::commutative_foldl(times));
    vstd::seq_lib::lemma_fold_left_permutation(first, second, plus, 0real);
    vstd::seq_lib::lemma_fold_left_permutation(first, second, times, 1real);
}

} // verus!
