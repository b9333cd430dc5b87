//! The achievement evaluator: which achievements a pass over the catalog
//! unlocks.
//!
//! A pass looks at the achievements that are still locked and whose
//! dependencies were all unlocked when the pass began, asks each one's
//! predicate, and unlocks those that hold. An achievement whose dependency
//! is unlocked by the same pass has to wait for the next one, so the outcome
//! does not hang on the order of the catalog.
//!
//! A predicate is a script, and a script can fail in any way, also by
//! bringing its caller down. So the library does not call it. It says which
//! predicates are to be asked and with what (`begin_pass`), and takes what
//! the calls gave (`evaluate`); the caller makes the calls, behind whatever
//! guard it has.
use crate::compiled::game::find_position;
use crate::compiled::game::position_of;
use crate::compiled::game::CompiledGame;
use crate::ids::entry_seq;
use crate::ids::id_seq;
use crate::ids::IdSet;
use crate::script::judge;
use crate::script::reports_of;
use crate::script::verdicts_of;
use crate::rational::integer_text;
use crate::rational::truncate;
use crate::script::Snapshot;
use crate::GameState;
use vstd::prelude::*;

verus! {

/// Whether `after` holds every identifier that `before` holds.
pub open spec fn keeps(before: Seq<Seq<char>>, after: Seq<Seq<char>>) -> bool {
    forall|id: Seq<char>| before.contains(id) ==> #[trigger] after.contains(id)
}

/// Whether every identifier that is wanted is among those held.
pub open spec fn all_held(held: Seq<Seq<char>>, wanted: Seq<String>) -> bool {
    forall|i: int| 0 <= i < wanted.len() ==> held.contains(#[trigger] wanted[i]@)
}

/// Whether the achievement at a position of the catalog is up for a pass: it
/// is the one that the catalog holds under its identifier, it is still
/// locked, and all it depends on is unlocked.
pub open spec fn is_candidate(game: &CompiledGame, unlocked: Seq<Seq<char>>, at: int) -> bool {
    &&& 0 <= at < game.achievements@.len()
    &&& position_of(game.achievements@, game.achievements@[at].0@) == Some(at)
    &&& !unlocked.contains(game.achievements@[at].0@)
    &&& all_held(unlocked, game.achievements@[at].1.spec.depends@)
}

/// The positions, among the first `upto` of the catalog, of the achievements
/// that are up for a pass, in rising order.
pub open spec fn candidates_upto(game: &CompiledGame, unlocked: Seq<Seq<char>>, upto: nat) -> Seq<
    usize,
>
    decreases upto,
{
    if upto == 0 {
        Seq::empty()
    } else {
        let before = candidates_upto(game, unlocked, (upto - 1) as nat);
        if is_candidate(game, unlocked, upto - 1) {
            before.push((upto - 1) as usize)
        } else {
            before
        }
    }
}

/// The positions of all achievements that are up for a pass.
pub open spec fn candidates_of(game: &CompiledGame, unlocked: Seq<Seq<char>>) -> Seq<usize> {
    candidates_upto(game, unlocked, game.achievements@.len())
}

/// The achievements unlocked once the candidates whose verdict is `true`
/// have been added, each one once, in the candidates' order.
pub open spec fn unlocked_after(
    game: &CompiledGame,
    unlocked: Seq<Seq<char>>,
    candidates: Seq<usize>,
    verdicts: Seq<bool>,
) -> Seq<Seq<char>>
    decreases candidates.len(),
{
    if candidates.len() == 0 || verdicts.len() != candidates.len() {
        unlocked
    } else {
        let before = unlocked_after(game, unlocked, candidates.drop_last(), verdicts.drop_last());
        let id = game.achievements@[candidates.last() as int].0@;
        if verdicts.last() && !before.contains(id) {
            before.push(id)
        } else {
            before
        }
    }
}

/// Whether the achievement at a position of the catalog has a script.
pub open spec fn has_script(game: &CompiledGame, at: usize) -> bool {
    game.achievements@[at as int].1.script.is_some()
}

/// Whether a sequence of outcomes can be what a pass got from the
/// predicates of the candidates of `before`: one outcome for each candidate,
/// and a call made exactly where the candidate has a script.
pub open spec fn outcomes_fit(
    game: &CompiledGame,
    before: Seq<Seq<char>>,
    outcomes: Seq<Option<Result<bool, String>>>,
) -> bool {
    &&& outcomes.len() == candidates_of(game, before).len()
    &&& forall|i: int|
        0 <= i < outcomes.len() ==> (#[trigger] outcomes[i]).is_some() == has_script(
            game,
            candidates_of(game, before)[i],
        )
}

/// The achievements unlocked after a pass that began with `before` and got
/// the outcomes given: those of `before`, and the candidates whose predicate
/// answered `true`.
pub open spec fn passed(
    game: &CompiledGame,
    before: Seq<Seq<char>>,
    outcomes: Seq<Option<Result<bool, String>>>,
) -> Seq<Seq<char>> {
    unlocked_after(game, before, candidates_of(game, before), verdicts_of(outcomes))
}

/// Whether `after` is what some pass over the catalog can leave of
/// `before`.
pub open spec fn evaluated(
    game: &CompiledGame,
    before: Seq<Seq<char>>,
    after: Seq<Seq<char>>,
) -> bool {
    exists|outcomes: Seq<Option<Result<bool, String>>>|
        #[trigger] outcomes_fit(game, before, outcomes) && after == passed(game, before, outcomes)
}

/// The positions listed are positions of the catalog.
pub open spec fn in_catalog(game: &CompiledGame, candidates: Seq<usize>) -> bool {
    forall|i: int|
        0 <= i < candidates.len() ==> (#[trigger] candidates[i]) < game.achievements@.len()
}

/// Unlocking is permanent: whatever the verdicts, a pass keeps every
/// achievement that was unlocked before it, unlocks none twice, and unlocks
/// only candidates whose verdict is `true`.
pub proof fn lemma_unlock_monotonic(
    game: &CompiledGame,
    unlocked: Seq<Seq<char>>,
    candidates: Seq<usize>,
    verdicts: Seq<bool>,
)
    ensures
        unlocked.no_duplicates() ==> unlocked_after(
            game,
            unlocked,
            candidates,
            verdicts,
        ).no_duplicates(),
        unlocked.len() <= unlocked_after(game, unlocked, candidates, verdicts).len(),
        keeps(unlocked, unlocked_after(game, unlocked, candidates, verdicts)),
        forall|id: Seq<char>| #[trigger]
            unlocked_after(game, unlocked, candidates, verdicts).contains(id) && !unlocked.contains(
                id,
            ) ==> exists|i: int|
                0 <= i < candidates.len() && verdicts.len() == candidates.len() && #[trigger] verdicts[i]
                    && game.achievements@[candidates[i] as int].0@ == id,
    decreases candidates.len(),
{
    if candidates.len() == 0 || verdicts.len() != candidates.len() {
    } else {
        let rest_c = candidates.drop_last();
        let rest_v = verdicts.drop_last();
        lemma_unlock_monotonic(game, unlocked, rest_c, rest_v);
        let before = unlocked_after(game, unlocked, rest_c, rest_v);
        let after = unlocked_after(game, unlocked, candidates, verdicts);
        assert forall|other: Seq<char>| unlocked.contains(other) implies after.contains(other) by {
            assert(before.contains(other));
            let k = choose|k: int| 0 <= k < before.len() && before[k] == other;
            assert(after[k] == other);
        }
        assert forall|other: Seq<char>| #[trigger]
            after.contains(other) && !unlocked.contains(other) implies exists|i: int|
            0 <= i < candidates.len() && verdicts.len() == candidates.len() && #[trigger] verdicts[i]
                && game.achievements@[candidates[i] as int].0@ == other by {
            if before.contains(other) {
                let i = choose|i: int|
                    0 <= i < rest_c.len() && rest_v.len() == rest_c.len() && #[trigger] rest_v[i]
                        && game.achievements@[rest_c[i] as int].0@ == other;
                assert(verdicts[i] == rest_v[i]);
                assert(candidates[i] == rest_c[i]);
            } else {
                let k = choose|k: int| 0 <= k < after.len() && after[k] == other;
                assert(k == before.len());
                assert(verdicts[candidates.len() - 1]);
            }
        }
    }
}

/// Every position among the candidates is that of an achievement that is
/// up for a pass.
pub proof fn lemma_candidates_are_up(game: &CompiledGame, unlocked: Seq<Seq<char>>, upto: nat)
    requires
        upto <= game.achievements@.len(),
    ensures
        forall|i: int|
            0 <= i < candidates_upto(game, unlocked, upto).len() ==> is_candidate(
                game,
                unlocked,
                (#[trigger] candidates_upto(game, unlocked, upto)[i]) as int,
            ),
    decreases upto,
{
    if upto > 0 {
        lemma_candidates_are_up(game, unlocked, (upto - 1) as nat);
        vstd::std_specs::vec::axiom_spec_len(&game.achievements);
        assert(game.achievements@.len() <= usize::MAX);
        let before = candidates_upto(game, unlocked, (upto - 1) as nat);
        let all = candidates_upto(game, unlocked, upto);
        assert forall|i: int| 0 <= i < all.len() implies is_candidate(
            game,
            unlocked,
            (#[trigger] all[i]) as int,
        ) by {
            if i < before.len() {
                assert(all[i] == before[i]);
            } else {
                assert(all[i] == (upto - 1) as usize);
            }
        }
    }
}

/// Every achievement that is up for a pass has its position among the
/// candidates.
pub proof fn lemma_candidates_are_all(
    game: &CompiledGame,
    unlocked: Seq<Seq<char>>,
    upto: nat,
    at: int,
)
    requires
        upto <= game.achievements@.len(),
        is_candidate(game, unlocked, at),
        at < upto,
    ensures
        candidates_upto(game, unlocked, upto).contains(at as usize),
    decreases upto,
{
    let before = candidates_upto(game, unlocked, (upto - 1) as nat);
    let all = candidates_upto(game, unlocked, upto);
    if at == upto - 1 {
        assert(all[before.len() as int] == at as usize);
    } else {
        lemma_candidates_are_all(game, unlocked, (upto - 1) as nat, at);
        let k = choose|k: int| 0 <= k < before.len() && before[k] == at as usize;
        assert(all[k] == at as usize);
    }
}

/// A pass unlocks only what was up for it: an achievement that is unlocked
/// after a pass and was not before it is one of the catalog that was still
/// locked, with all it depends on unlocked when the pass began, and it has
/// a script.
pub proof fn lemma_pass_unlocks_candidates(
    game: &CompiledGame,
    before: Seq<Seq<char>>,
    after: Seq<Seq<char>>,
    id: Seq<char>,
)
    requires
        evaluated(game, before, after),
        after.contains(id),
        !before.contains(id),
    ensures
        exists|at: int|
            #[trigger] is_candidate(game, before, at) && has_script(game, at as usize)
                && game.achievements@[at].0@ == id,
{
    let outcomes = choose|outcomes: Seq<Option<Result<bool, String>>>|
        #[trigger] outcomes_fit(game, before, outcomes) && after == passed(game, before, outcomes);
    let candidates = candidates_of(game, before);
    let verdicts = verdicts_of(outcomes);
    lemma_unlock_monotonic(game, before, candidates, verdicts);
    lemma_candidates_are_up(game, before, game.achievements@.len());
    let i = choose|i: int|
        0 <= i < candidates.len() && verdicts.len() == candidates.len() && #[trigger] verdicts[i]
            && game.achievements@[candidates[i] as int].0@ == id;
    assert(outcomes[i].is_some());
    assert(is_candidate(game, before, candidates[i] as int));
}

/// A pass keeps every achievement that was unlocked before it.
pub proof fn lemma_pass_keeps(game: &CompiledGame, before: Seq<Seq<char>>, after: Seq<Seq<char>>)
    requires
        evaluated(game, before, after),
    ensures
        keeps(before, after),
{
    let outcomes = choose|outcomes: Seq<Option<Result<bool, String>>>|
        #[trigger] outcomes_fit(game, before, outcomes) && after == passed(game, before, outcomes);
    lemma_unlock_monotonic(game, before, candidates_of(game, before), verdicts_of(outcomes));
}

/// Where each of a run of sets keeps what the one before it holds, every
/// set of the run keeps what every earlier one holds.
pub proof fn lemma_keeps_run(unlocked: Seq<Seq<Seq<char>>>, earlier: int, later: int)
    requires
        forall|i: int|
            0 <= i < unlocked.len() - 1 ==> keeps(#[trigger] unlocked[i], unlocked[i + 1]),
        0 <= earlier <= later < unlocked.len(),
    ensures
        keeps(unlocked[earlier], unlocked[later]),
    decreases later - earlier,
{
    if earlier < later {
        lemma_keeps_run(unlocked, earlier, later - 1);
        assert(keeps(unlocked[later - 1], unlocked[later - 1 + 1]));
    }
}

/// Over any number of passes, one after the other, the unlocked
/// achievements only grow: what is unlocked after one pass is unlocked
/// after every later one.
pub proof fn lemma_passes_only_grow(
    game: &CompiledGame,
    unlocked: Seq<Seq<Seq<char>>>,
    earlier: int,
    later: int,
)
    requires
        forall|i: int|
            0 <= i < unlocked.len() - 1 ==> evaluated(
                game,
                #[trigger] unlocked[i],
                unlocked[i + 1],
            ),
        0 <= earlier <= later < unlocked.len(),
    ensures
        keeps(unlocked[earlier], unlocked[later]),
{
    assert forall|i: int| 0 <= i < unlocked.len() - 1 implies keeps(
        #[trigger] unlocked[i],
        unlocked[i + 1],
    ) by {
        lemma_pass_keeps(game, unlocked[i], unlocked[i + 1]);
    }
    lemma_keeps_run(unlocked, earlier, later);
}

/// What a pass has to ask: the positions in the catalog of the achievements
/// whose predicates are to be called, and what each call is given to look
/// at.
#[derive(Clone, Debug)]
pub struct Pass {
    /// The candidates, in the order of the catalog.
    pub candidates: Vec<usize>,
    /// The state as the scripts see it.
    pub state: Snapshot,
}

/// Whether all that an achievement depends on is unlocked.
pub fn depends_met(unlocked: &IdSet, depends: &Vec<String>) -> (met: bool)
    ensures
        met == all_held(unlocked@, depends@),
{
    let mut i: usize = 0;
    while i < depends.len()
        invariant
            i <= depends.len(),
            forall|j: int| 0 <= j < i ==> unlocked@.contains(#[trigger] depends@[j]@),
        decreases depends.len() - i,
    {
        if !unlocked.contains(&depends[i]) {
            return false;
        }
        i += 1;
    }
    true
}

impl GameState {
    /// Whether a snapshot shows this state: the time of the last tick, the
    /// amount held, exactly and as whole units in decimal, and the
    /// buildings, upgrades and achievements as they stand.
    pub open spec fn shown_by(&self, state: &Snapshot) -> bool {
        &&& state.last_tick == self.last_tick
        &&& state.amount@ == self.carcinized@
        &&& entry_seq(state.buildings@) == self.buildings@
        &&& id_seq(state.upgrades@) == self.upgrades@
        &&& id_seq(state.achievements@) == self.achievements@
        &&& state.carcinized@ == integer_text(truncate(self.carcinized@))
    }

    /// Whether a pass is the one that this state calls for: its candidates
    /// are the achievements that are up, and its snapshot shows the state.
    pub open spec fn opens(&self, game: &CompiledGame, pass: &Pass) -> bool {
        &&& pass.candidates@ == candidates_of(game, self.achievements@)
        &&& in_catalog(game, pass.candidates@)
        &&& self.shown_by(&pass.state)
    }

    /// What a script is given to look at: the whole state as it stands.
    pub fn snapshot(&self) -> (state: Snapshot)
        ensures
            self.shown_by(&state),
    {
        Snapshot {
            last_tick: self.last_tick,
            amount: self.carcinized.clone(),
            buildings: self.buildings.to_vec(),
            upgrades: self.upgrades.to_vec(),
            achievements: self.achievements.to_vec(),
            carcinized: self.carcinized.integer_string(),
        }
    }

    /// The positions in the catalog of the achievements that are up for a
    /// pass: still locked, and all they depend on unlocked.
    pub fn candidates(&self, game: &CompiledGame) -> (found: Vec<usize>)
        ensures
            found@ == candidates_of(game, self.achievements@),
            in_catalog(game, found@),
    {
        let mut found: Vec<usize> = Vec::new();
        let mut i: usize = 0;
        while i < game.achievements.len()
            invariant
                i <= game.achievements@.len(),
                found@ == candidates_upto(game, self.achievements@, i as nat),
                in_catalog(game, found@),
            decreases game.achievements@.len() - i,
        {
            let entry = &game.achievements[i];
            let held = find_position(&game.achievements, &entry.0);
            if held == Some(i) && !self.achievements.contains(&entry.0) && depends_met(
                &self.achievements,
                &entry.1.spec.depends,
            ) {
                found.push(i);
            }
            i += 1;
        }
        found
    }

    /// Unlocks the candidates whose verdict is `true`. Nothing else in the
    /// state changes.
    pub fn apply_verdicts(
        &mut self,
        game: &CompiledGame,
        candidates: &Vec<usize>,
        verdicts: &Vec<bool>,
    )
        requires
            in_catalog(game, candidates@),
            verdicts@.len() == candidates@.len(),
        ensures
            final(self).achievements@ == unlocked_after(
                game,
                old(self).achievements@,
                candidates@,
                verdicts@,
            ),
            final(self).last_tick == old(self).last_tick,
            final(self).carcinized == old(self).carcinized,
            final(self).upgrades == old(self).upgrades,
            final(self).buildings == old(self).buildings,
    {
        let mut i: usize = 0;
        assert(candidates@.take(0) =~= Seq::<usize>::empty());
        while i < candidates.len()
            invariant
                i <= candidates@.len(),
                verdicts@.len() == candidates@.len(),
                in_catalog(game, candidates@),
                self.achievements@ == unlocked_after(
                    game,
                    old(self).achievements@,
                    candidates@.take(i as int),
                    verdicts@.take(i as int),
                ),
                self.last_tick == old(self).last_tick,
                self.carcinized == old(self).carcinized,
                self.upgrades == old(self).upgrades,
                self.buildings == old(self).buildings,
            decreases candidates@.len() - i,
        {
            assert(candidates@.take(i + 1).drop_last() =~= candidates@.take(i as int));
            assert(verdicts@.take(i + 1).drop_last() =~= verdicts@.take(i as int));
            assert(candidates@.take(i + 1).last() == candidates@[i as int]);
            assert(verdicts@.take(i + 1).last() == verdicts@[i as int]);
            if verdicts[i] {
                let id = game.achievements[candidates[i]].0.clone();
                self.achievements.insert(id);
            }
            i += 1;
        }
        assert(candidates@.take(i as int) =~= candidates@);
        assert(verdicts@.take(i as int) =~= verdicts@);
    }

    /// Settles a pass, given what the call of each candidate's predicate
    /// gave: the candidates whose outcome is an answer of `true` are
    /// unlocked, and the messages of the calls that failed are returned, in
    /// the candidates' order. Nothing else in the state changes.
    pub fn settle(
        &mut self,
        game: &CompiledGame,
        candidates: &Vec<usize>,
        outcomes: &Vec<Option<Result<bool, String>>>,
    ) -> (reports: Vec<String>)
        requires
            in_catalog(game, candidates@),
            outcomes@.len() == candidates@.len(),
        ensures
            final(self).achievements@ == unlocked_after(
                game,
                old(self).achievements@,
                candidates@,
                verdicts_of(outcomes@),
            ),
            id_seq(reports@) == reports_of(outcomes@),
            final(self).last_tick == old(self).last_tick,
            final(self).carcinized == old(self).carcinized,
            final(self).upgrades == old(self).upgrades,
            final(self).buildings == old(self).buildings,
    {
        let mut verdicts: Vec<bool> = Vec::new();
        let mut reports: Vec<String> = Vec::new();
        let mut i: usize = 0;
        assert(outcomes@.take(0) =~= Seq::<Option<Result<bool, String>>>::empty());
        assert(id_seq(reports@) =~= Seq::<Seq<char>>::empty());
        while i < outcomes.len()
            invariant
                i <= outcomes@.len(),
                verdicts@ == verdicts_of(outcomes@.take(i as int)),
                id_seq(reports@) == reports_of(outcomes@.take(i as int)),
            decreases outcomes@.len() - i,
        {
            let ghost told = id_seq(reports@);
            let judgement = judge(&outcomes[i]);
            assert(outcomes@.take(i + 1).drop_last() =~= outcomes@.take(i as int));
            assert(outcomes@.take(i + 1).last() == outcomes@[i as int]);
            verdicts.push(judgement.holds);
            assert(verdicts@ =~= verdicts_of(outcomes@.take(i + 1)));
            match judgement.report {
                Some(report) => {
                    reports.push(report);
                    assert(id_seq(reports@) =~= told.push(report@));
                },
                None => {},
            }
            i += 1;
        }
        assert(outcomes@.take(i as int) =~= outcomes@);
        self.apply_verdicts(game, candidates, &verdicts);
        reports
    }

    /// Begins a pass: says which predicates are to be asked, and with
    /// what.
    pub fn begin_pass(&self, game: &CompiledGame) -> (pass: Pass)
        ensures
            self.opens(game, &pass),
    {
        Pass { candidates: self.candidates(game), state: self.snapshot() }
    }

    /// One pass of the evaluator, given what the call of each candidate's
    /// predicate gave, in the candidates' order: nothing for a candidate
    /// without a script, else the script's answer or the message of its
    /// failure. The candidates whose script answered `true` are unlocked; a
    /// failure counts as `false`, and its message is returned as a report.
    /// Where the outcomes are not those of this state's candidates (another
    /// number of them, or a call that was made without a script or left out
    /// with one), nothing is returned and nothing changes.
    pub fn evaluate(
        &mut self,
        game: &CompiledGame,
        outcomes: &Vec<Option<Result<bool, String>>>,
    ) -> (reports: Option<Vec<String>>)
        ensures
            reports.is_some() == outcomes_fit(game, old(self).achievements@, outcomes@),
            match reports {
                Some(told) => {
                    &&& final(self).achievements@ == passed(
                        game,
                        old(self).achievements@,
                        outcomes@,
                    )
                    &&& id_seq(told@) == reports_of(outcomes@)
                    &&& evaluated(game, old(self).achievements@, final(self).achievements@)
                },
                None => final(self).achievements == old(self).achievements,
            },
            keeps(old(self).achievements@, final(self).achievements@),
            final(self).last_tick == old(self).last_tick,
            final(self).carcinized == old(self).carcinized,
            final(self).upgrades == old(self).upgrades,
            final(self).buildings == old(self).buildings,
    {
        let candidates = self.candidates(game);
        if outcomes.len() != candidates.len() {
            return None;
        }
        let mut i: usize = 0;
        while i < candidates.len()
            invariant
                i <= candidates@.len(),
                outcomes@.len() == candidates@.len(),
                candidates@ == candidates_of(game, self.achievements@),
                in_catalog(game, candidates@),
                forall|j: int|
                    0 <= j < i ==> (#[trigger] outcomes@[j]).is_some() == has_script(
                        game,
                        candidates@[j],
                    ),
            decreases candidates@.len() - i,
        {
            let called = outcomes[i].is_some();
            let scripted = game.achievements[candidates[i]].1.script.is_some();
            if called != scripted {
                assert(outcomes@[i as int].is_some() != has_script(game, candidates@[i as int]));
                return None;
            }
            i += 1;
        }
        let ghost before = self.achievements@;
        let reports = self.settle(game, &candidates, outcomes);
        proof {
            assert(outcomes_fit(game, before, outcomes@));
            lemma_pass_keeps(game, before, self.achievements@);
        }
        Some(reports)
    }
}

} // verus!
