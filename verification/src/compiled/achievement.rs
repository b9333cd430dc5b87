use crate::compiled::source::finish;
use crate::compiled::source::finished;
use crate::compiled::source::CompileError;
use crate::compiled::source::SourceDir;
use dyon::Module;
use vstd::prelude::*;

verus! {

/// What an achievement's declaration says.
#[derive(Clone, Debug, PartialEq, Eq)]
pub struct AchievementSpec {
    /// Achievements that must be unlocked before this one is looked at.
    pub depends: Vec<String>,
    pub name: String,
    pub flavor: String,
}

/// An achievement of the catalog: its declaration and, where it has one, the
/// loaded script that holds its predicate.
#[derive(Clone)]
pub struct CompiledAchievement {
    pub spec: AchievementSpec,
    pub script: Option<Module>,
}

impl CompiledAchievement {
    /// The text of the achievement's declaration, the file `achievement.json5` of
    /// its directory, or the error that its lack calls for.
    pub fn spec_text(dir: &SourceDir) -> (text: Result<&String, CompileError>)
        ensures
            dir.required("achievement.json5"@, text),
    {
        dir.required_text(&"achievement.json5".to_owned())
    }

    /// The text of the achievement's script, the file `achievement.lua` of its
    /// directory, if there is one.
    pub fn script_text(dir: &SourceDir) -> (text: Option<&String>)
        ensures
            match text {
                Some(found) => dir.text_of("achievement.lua"@) == Some(found@),
                None => dir.text_of("achievement.lua"@).is_none(),
            },
    {
        dir.optional_text(&"achievement.lua".to_owned())
    }

    /// Compiles an achievement from its directory, from what reading its
    /// declaration gave, and from what loading its script gave, which is
    /// nothing where the directory holds no script. A directory that does
    /// not hold the declaration is an error whatever else is given; then a
    /// declaration that was turned down; then a loaded script that is
    /// handed in without a script in the directory, or left out with one;
    /// then a script that did not load.
    pub fn compile(
        dir: &SourceDir,
        parsed: Result<AchievementSpec, String>,
        loaded: Option<Result<Module, String>>,
    ) -> (out: Result<CompiledAchievement, CompileError>)
        ensures
            finished(
                dir,
                "achievement.json5"@,
                parsed,
                "achievement.lua"@,
                loaded,
                match out {
                    Ok(achievement) => Ok((achievement.spec, achievement.script)),
                    Err(e) => Err(e),
                },
            ),
    {
        match finish(
            dir,
            &"achievement.json5".to_owned(),
            parsed,
            &"achievement.lua".to_owned(),
            loaded,
        ) {
            Ok(pair) => Ok(CompiledAchievement { spec: pair.0, script: pair.1 }),
            Err(e) => Err(e),
        }
    }
}

} // verus!
