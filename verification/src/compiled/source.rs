//! What the compiler reads: a directory per entity, each with a required
//! declaration and an optional script, and what can go wrong with them.
use crate::compiled::game::find;
use crate::compiled::game::lookup;
use dyon::Module;
use vstd::prelude::*;

verus! {

/// The directory of one entity: its path and its files, each a name with
/// the file's text, or with nothing where the file is not UTF-8.
#[derive(Clone, Debug, PartialEq, Eq)]
pub struct SourceDir {
    pub path: String,
    pub files: Vec<(String, Option<String>)>,
}

/// Why a catalog could not be compiled. Each error is fatal: there is no
/// catalog with a part missing.
#[derive(Clone, Debug, PartialEq, Eq)]
pub enum CompileError {
    /// The directory that holds all entities of one kind is missing.
    MissingDir { name: String },
    /// An entity's directory does not hold the file of its declaration.
    MissingSpec { entity: String, file: String },
    /// An entity's declaration is not UTF-8.
    SpecNotUtf8 { entity: String },
    /// An entity's declaration, the file named, does not say what it has to
    /// say.
    BadSpec { entity: String, file: String, reason: String },
    /// An entity's script does not load.
    BadScript { entity: String, reason: String },
    /// What was handed in as an entity's loaded script is not that: there
    /// is one though the directory holds no script, or none though it holds
    /// one.
    ScriptMismatch { entity: String },
}

impl SourceDir {
    /// The text of the file of a name: none where the directory has no such
    /// file or the file is not UTF-8.
    pub open spec fn text_of(&self, name: Seq<char>) -> Option<Seq<char>> {
        match lookup(self.files@, name) {
            Some(Some(text)) => Some(text@),
            _ => None,
        }
    }

    /// Whether an error is the one that a directory without the text of a
    /// file calls for: that the file is missing, or that it is not UTF-8,
    /// with the entity named. Where the directory holds the text, no error
    /// is.
    pub open spec fn lacks(&self, name: Seq<char>, error: CompileError) -> bool {
        match lookup(self.files@, name) {
            Some(Some(_)) => false,
            Some(None) => error matches CompileError::SpecNotUtf8 { entity } && entity@
                == self.path@,
            None => error matches CompileError::MissingSpec { entity, file } && entity@
                == self.path@ && file@ == name,
        }
    }

    /// What asking for a file that has to be there can give: its text, or
    /// the error that its lack calls for.
    pub open spec fn required(&self, name: Seq<char>, text: Result<&String, CompileError>) -> bool {
        match text {
            Ok(found) => lookup(self.files@, name) == Some(Some(*found)),
            Err(error) => self.lacks(name, error),
        }
    }

    /// The text of a file that has to be there.
    pub fn required_text(&self, name: &String) -> (text: Result<&String, CompileError>)
        ensures
            self.required(name@, text),
    {
        match find(&self.files, name) {
            Some(Some(found)) => Ok(found),
            Some(None) => Err(CompileError::SpecNotUtf8 { entity: self.path.clone() }),
            None => Err(
                CompileError::MissingSpec { entity: self.path.clone(), file: name.clone() },
            ),
        }
    }

    /// The text of a file that may be there. A file that is not UTF-8
    /// counts as absent.
    pub fn optional_text(&self, name: &String) -> (text: Option<&String>)
        ensures
            match text {
                Some(found) => self.text_of(name@) == Some(found@),
                None => self.text_of(name@).is_none(),
            },
    {
        match find(&self.files, name) {
            Some(Some(found)) => Some(found),
            _ => None,
        }
    }
}

/// What becomes of an entity's script once it has been put to the loader:
/// the loaded script where there was one and it loaded, nothing where there
/// was none, and an error that names the entity, with the loader's message,
/// where it did not load.
pub fn attach_script(entity: &String, loaded: Option<Result<Module, String>>) -> (script: Result<
    Option<Module>,
    CompileError,
>)
    ensures
        match loaded {
            None => script == Ok::<Option<Module>, CompileError>(None),
            Some(Ok(module)) => script == Ok::<Option<Module>, CompileError>(Some(module)),
            Some(Err(message)) => script matches Err(CompileError::BadScript { entity: e, reason })
                && e@ == entity@ && reason@ == message@,
        },
{
    match loaded {
        None => Ok(None),
        Some(Ok(module)) => Ok(Some(module)),
        Some(Err(message)) => Err(
            CompileError::BadScript { entity: entity.clone(), reason: message },
        ),
    }
}

/// What `finish` makes of an entity, from what reading its declaration gave
/// and what loading its script gave. The first of these that holds decides:
/// - the directory does not hold the declaration as text: the error that
///   this calls for, whatever else is given;
/// - the declaration was turned down: an error with the entity, the file
///   and the reason;
/// - a loaded script is handed in though the directory holds no script, or
///   none though it holds one: an error that names the entity;
/// - the script did not load: an error with the entity and the loader's
///   message;
/// - else the declaration, with the loaded script if there is one.
pub open spec fn finished<S>(
    dir: &SourceDir,
    spec_name: Seq<char>,
    parsed: Result<S, String>,
    script_name: Seq<char>,
    loaded: Option<Result<Module, String>>,
    out: Result<(S, Option<Module>), CompileError>,
) -> bool {
    if dir.text_of(spec_name).is_none() {
        out matches Err(error) && dir.lacks(spec_name, error)
    } else {
        match parsed {
            Err(why) => out matches Err(CompileError::BadSpec { entity, file, reason })
                && entity@ == dir.path@ && file@ == spec_name && reason@ == why@,
            Ok(spec) => if loaded.is_some() != dir.text_of(script_name).is_some() {
                out matches Err(CompileError::ScriptMismatch { entity }) && entity@ == dir.path@
            } else {
                match loaded {
                    None => out == Ok::<(S, Option<Module>), CompileError>((spec, None)),
                    Some(Ok(module)) => out == Ok::<(S, Option<Module>), CompileError>(
                        (spec, Some(module)),
                    ),
                    Some(Err(message)) => out matches Err(
                        CompileError::BadScript { entity, reason },
                    ) && entity@ == dir.path@ && reason@ == message@,
                }
            },
        }
    }
}

/// Finishes the compilation of one entity, given what reading its
/// declaration gave (the declaration, or why it was turned down) and what
/// loading its script gave (nothing where it has none, else the loaded
/// script or the loader's message).
pub fn finish<S>(
    dir: &SourceDir,
    spec_name: &String,
    parsed: Result<S, String>,
    script_name: &String,
    loaded: Option<Result<Module, String>>,
) -> (out: Result<(S, Option<Module>), CompileError>)
    ensures
        finished(dir, spec_name@, parsed, script_name@, loaded, out),
{
    match dir.required_text(spec_name) {
        Err(missing) => {
            return Err(missing);
        },
        Ok(_) => {},
    }
    let spec = match parsed {
        Err(why) => {
            return Err(
                CompileError::BadSpec {
                    entity: dir.path.clone(),
                    file: spec_name.clone(),
                    reason: why,
                },
            );
        },
        Ok(spec) => spec,
    };
    if loaded.is_some() != dir.optional_text(script_name).is_some() {
        return Err(CompileError::ScriptMismatch { entity: dir.path.clone() });
    }
    match attach_script(&dir.path, loaded) {
        Ok(script) => Ok((spec, script)),
        Err(e) => Err(e),
    }
}

/// The position of the first entry that is an error, if there is one.
pub open spec fn first_error<T>(entries: Seq<(String, Result<T, CompileError>)>) -> Option<int>
    decreases entries.len(),
{
    if entries.len() == 0 {
        None
    } else {
        match first_error(entries.drop_last()) {
            Some(at) => Some(at),
            None => if entries.last().1 is Err {
                Some(entries.len() - 1)
            } else {
                None
            },
        }
    }
}

/// Whether the entities of one kind are all there: their directory is, and
/// none of them is an error.
pub open spec fn complete<T>(entries: Option<Vec<(String, Result<T, CompileError>)>>) -> bool {
    entries matches Some(list) && first_error(list@).is_none()
}

/// What `gather` makes of the entities of one kind: an error where their
/// directory is missing, else the first error among them, else all of them
/// in their order.
pub open spec fn gathered<T>(
    name: Seq<char>,
    entries: Option<Vec<(String, Result<T, CompileError>)>>,
    out: Result<Vec<(String, T)>, CompileError>,
) -> bool {
    match entries {
        None => out matches Err(CompileError::MissingDir { name: n }) && n@ == name,
        Some(list) => match first_error(list@) {
            Some(at) => out matches Err(e) && list@[at].1 == Err::<T, CompileError>(e),
            None => out matches Ok(all) && all@.len() == list@.len() && forall|i: int|
                0 <= i < list@.len() ==> (#[trigger] all@[i]).0 == list@[i].0 && list@[i].1 == Ok::<
                    T,
                    CompileError,
                >(all@[i].1),
        },
    }
}

/// Where there is a first error, it is an error and nothing before it is.
pub proof fn lemma_first_error<T>(entries: Seq<(String, Result<T, CompileError>)>)
    ensures
        match first_error(entries) {
            Some(at) => 0 <= at < entries.len() && entries[at].1 is Err && forall|i: int|
                0 <= i < at ==> (#[trigger] entries[i]).1 is Ok,
            None => forall|i: int| 0 <= i < entries.len() ==> (#[trigger] entries[i]).1 is Ok,
        },
    decreases entries.len(),
{
    if entries.len() > 0 {
        lemma_first_error(entries.drop_last());
        let rest = entries.drop_last();
        match first_error(rest) {
            Some(at) => {
                assert(rest[at] == entries[at]);
                assert forall|i: int| 0 <= i < at implies (#[trigger] entries[i]).1 is Ok by {
                    assert(rest[i] == entries[i]);
                }
            },
            None => {
                assert forall|i: int| 0 <= i < entries.len() - 1 implies (
                #[trigger] entries[i]).1 is Ok by {
                    assert(rest[i] == entries[i]);
                }
            },
        }
    }
}

/// Gathers the entities of one kind into a list, or stops at the first
/// that could not be compiled. `name` is the directory they come from.
pub fn gather<T>(name: &str, entries: Option<Vec<(String, Result<T, CompileError>)>>) -> (out:
    Result<Vec<(String, T)>, CompileError>)
    ensures
        gathered(name@, entries, out),
{
    let mut list = match entries {
        None => {
            return Err(CompileError::MissingDir { name: name.to_owned() });
        },
        Some(list) => list,
    };
    let ghost all = list@;
    let mut failed: Option<CompileError> = None;
    let mut turned: Vec<(String, T)> = Vec::new();
    proof {
        lemma_first_error(all);
    }
    // Taken from the end, so that the error that stays is the first one.
    while list.len() > 0
        invariant
            list@ == all.take(list@.len() as int),
            list@.len() <= all.len(),
            match failed {
                Some(e) => exists|at: int|
                    list@.len() <= at < all.len() && (#[trigger] all[at]).1 == Err::<
                        T,
                        CompileError,
                    >(e)
                        && forall|i: int| list@.len() <= i < at ==> (#[trigger] all[i]).1 is Ok,
                None => {
                    &&& turned@.len() == all.len() - list@.len()
                    &&& forall|i: int|
                        list@.len() <= i < all.len() ==> (#[trigger] all[i]).0 == turned@[all.len()
                            - 1 - i].0 && all[i].1 == Ok::<T, CompileError>(
                            turned@[all.len() - 1 - i].1,
                        )
                },
            },
        decreases list@.len(),
    {
        let ghost at = list@.len() - 1;
        let entry = list.pop().unwrap();
        assert(entry == all[at]);
        assert(list@ =~= all.take(at));
        match entry.1 {
            Ok(value) => {
                if failed.is_none() {
                    turned.push((entry.0, value));
                }
            },
            Err(e) => {
                failed = Some(e);
            },
        }
    }
    match failed {
        Some(e) => Err(e),
        None => {
            let mut out: Vec<(String, T)> = Vec::new();
            let ghost back = turned@;
            while turned.len() > 0
                invariant
                    back.len() == all.len(),
                    turned@ == back.take(turned@.len() as int),
                    turned@.len() <= back.len(),
                    out@.len() == back.len() - turned@.len(),
                    forall|i: int|
                        0 <= i < out@.len() ==> (#[trigger] out@[i]) == back[back.len() - 1 - i],
                decreases turned@.len(),
            {
                let ghost at = turned@.len() - 1;
                let entry = turned.pop().unwrap();
                assert(entry == back[at]);
                assert(turned@ =~= back.take(at));
                out.push(entry);
            }
            assert forall|i: int| 0 <= i < all.len() implies (#[trigger] out@[i]).0 == all[i].0
                && all[i].1 == Ok::<T, CompileError>(out@[i].1) by {
                assert(out@[i] == back[back.len() - 1 - i]);
            }
            Ok(out)
        },
    }
}

} // verus!
