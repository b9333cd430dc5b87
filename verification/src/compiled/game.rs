use crate::compiled::achievement::CompiledAchievement;
use crate::compiled::building::CompiledBuilding;
use crate::compiled::source::complete;
use crate::compiled::source::gather;
use crate::compiled::source::gathered;
use crate::compiled::source::CompileError;
use crate::compiled::upgrade::CompiledUpgrade;
use crate::ids::same_id;
use vstd::prelude::*;

verus! {

/// The position of the entry that a list of named entries holds for an
/// identifier: that of the last one of that name, as in a map that was
/// filled in the list's order.
pub open spec fn position_of<T>(entries: Seq<(String, T)>, id: Seq<char>) -> Option<int>
    decreases entries.len(),
{
    if entries.len() == 0 {
        None
    } else if entries.last().0@ == id {
        Some(entries.len() - 1)
    } else {
        position_of(entries.drop_last(), id)
    }
}

/// The entry that a list of named entries holds for an identifier.
pub open spec fn lookup<T>(entries: Seq<(String, T)>, id: Seq<char>) -> Option<T> {
    match position_of(entries, id) {
        Some(at) => Some(entries[at].1),
        None => None,
    }
}

/// Finds the position of the entry for an identifier in a list of named
/// entries.
pub fn find_position<T>(entries: &Vec<(String, T)>, id: &String) -> (found: Option<usize>)
    ensures
        match found {
            Some(at) => position_of(entries@, id@) == Some(at as int) && at < entries@.len(),
            None => position_of(entries@, id@).is_none(),
        },
{
    let mut i: usize = entries.len();
    assert(entries@.take(i as int) =~= entries@);
    while i > 0
        invariant
            i <= entries.len(),
            position_of(entries@, id@) == position_of(entries@.take(i as int), id@),
        decreases i,
    {
        i -= 1;
        assert(entries@.take(i + 1).drop_last() =~= entries@.take(i as int));
        if same_id(&entries[i].0, id) {
            return Some(i);
        }
    }
    None
}

/// Finds the entry for an identifier in a list of named entries.
pub fn find<'a, T>(entries: &'a Vec<(String, T)>, id: &String) -> (found: Option<&'a T>)
    ensures
        match found {
            Some(entry) => lookup(entries@, id@) == Some(*entry),
            None => lookup(entries@, id@).is_none(),
        },
{
    match find_position(entries, id) {
        Some(at) => Some(&entries[at].1),
        None => None,
    }
}

/// The compiled catalog: every building, upgrade and achievement under its
/// identifier. It is built once and only read afterwards.
#[derive(Clone)]
pub struct CompiledGame {
    pub buildings: Vec<(String, CompiledBuilding)>,
    pub upgrades: Vec<(String, CompiledUpgrade)>,
    pub achievements: Vec<(String, CompiledAchievement)>,
}

impl CompiledGame {
    /// The building that the catalog holds under an identifier.
    pub open spec fn building_of(&self, id: Seq<char>) -> Option<CompiledBuilding> {
        lookup(self.buildings@, id)
    }

    /// The upgrade that the catalog holds under an identifier.
    pub open spec fn upgrade_of(&self, id: Seq<char>) -> Option<CompiledUpgrade> {
        lookup(self.upgrades@, id)
    }

    /// The achievement that the catalog holds under an identifier.
    pub open spec fn achievement_of(&self, id: Seq<char>) -> Option<CompiledAchievement> {
        lookup(self.achievements@, id)
    }

    /// Puts a catalog together from the entities of each kind, each under
    /// its identifier with what its compilation gave. There is a catalog
    /// only where every directory is there and every entity compiled: the
    /// error is the first one met, going through the buildings, then the
    /// upgrades, then the achievements.
    pub fn compile(
        buildings: Option<Vec<(String, Result<CompiledBuilding, CompileError>)>>,
        upgrades: Option<Vec<(String, Result<CompiledUpgrade, CompileError>)>>,
        achievements: Option<Vec<(String, Result<CompiledAchievement, CompileError>)>>,
    ) -> (out: Result<CompiledGame, CompileError>)
        ensures
            match out {
                Ok(game) => {
                    &&& gathered("buildings"@, buildings, Ok(game.buildings))
                    &&& gathered("upgrades"@, upgrades, Ok(game.upgrades))
                    &&& gathered("achievements"@, achievements, Ok(game.achievements))
                },
                Err(e) => if !complete(buildings) {
                    gathered("buildings"@, buildings, Err(e))
                } else if !complete(upgrades) {
                    gathered("upgrades"@, upgrades, Err(e))
                } else {
                    !complete(achievements) && gathered("achievements"@, achievements, Err(e))
                },
            },
            out.is_ok() == (complete(buildings) && complete(upgrades) && complete(achievements)),
    {
        let buildings = match gather("buildings", buildings) {
            Ok(all) => all,
            Err(e) => {
                return Err(e);
            },
        };
        let upgrades = match gather("upgrades", upgrades) {
            Ok(all) => all,
            Err(e) => {
                return Err(e);
            },
        };
        let achievements = match gather("achievements", achievements) {
            Ok(all) => all,
            Err(e) => {
                return Err(e);
            },
        };
        Ok(CompiledGame { buildings, upgrades, achievements })
    }

    /// A catalog without entries.
    pub fn new() -> (game: CompiledGame)
        ensures
            game.buildings@.len() == 0,
            game.upgrades@.len() == 0,
            game.achievements@.len() == 0,
    {
        CompiledGame { buildings: Vec::new(), upgrades: Vec::new(), achievements: Vec::new() }
    }

    /// The building under an identifier, if there is one.
    pub fn building(&self, id: &String) -> (found: Option<&CompiledBuilding>)
        ensures
            match found {
                Some(b) => self.building_of(id@) == Some(*b),
                None => self.building_of(id@).is_none(),
            },
    {
        find(&self.buildings, id)
    }

    /// The upgrade under an identifier, if there is one.
    pub fn upgrade(&self, id: &String) -> (found: Option<&CompiledUpgrade>)
        ensures
            match found {
                Some(u) => self.upgrade_of(id@) == Some(*u),
                None => self.upgrade_of(id@).is_none(),
            },
    {
        find(&self.upgrades, id)
    }

    /// The achievement under an identifier, if there is one.
    pub fn achievement(&self, id: &String) -> (found: Option<&CompiledAchievement>)
        ensures
            match found {
                Some(a) => self.achievement_of(id@) == Some(*a),
                None => self.achievement_of(id@).is_none(),
            },
    {
        find(&self.achievements, id)
    }
}

} // verus!
