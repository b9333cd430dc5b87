use crate::compiled::source::finish;
use crate::compiled::source::finished;
use crate::compiled::source::CompileError;
use crate::compiled::source::SourceDir;
use crate::rational::Rational;
use dyon::Module;
use vstd::prelude::*;

verus! {

/// What a building's declaration says.
#[derive(Clone, Debug, PartialEq, Eq)]
pub struct BuildingSpec {
    pub name: String,
    pub flavor: String,
    /// Resource units that one such building yields per second.
    pub base_cps: Rational,
    /// Price of the first such building.
    pub base_cost: Rational,
}

/// A building of the catalog: its declaration and, where it has one, its
/// loaded script.
#[derive(Clone)]
pub struct CompiledBuilding {
    pub spec: BuildingSpec,
    pub script: Option<Module>,
}

impl CompiledBuilding {
    /// The text of the building's declaration, the file `building.json5` of
    /// its directory, or the error that its lack calls for.
    pub fn spec_text(dir: &SourceDir) -> (text: Result<&String, CompileError>)
        ensures
            dir.required("building.json5"@, text),
    {
        dir.required_text(&"building.json5".to_owned())
    }

    /// The text of the building's script, the file `building.lua` of its
    /// directory, if there is one.
    pub fn script_text(dir: &SourceDir) -> (text: Option<&String>)
        ensures
            match text {
                Some(found) => dir.text_of("building.lua"@) == Some(found@),
                None => dir.text_of("building.lua"@).is_none(),
            },
    {
        dir.optional_text(&"building.lua".to_owned())
    }

    /// Compiles a building from its directory, from what reading its
    /// declaration gave, and from what loading its script gave, which is
    /// nothing where the directory holds no script. A directory that does
    /// not hold the declaration is an error whatever else is given; then a
    /// declaration that was turned down; then a loaded script that is
    /// handed in without a script in the directory, or left out with one;
    /// then a script that did not load.
    pub fn compile(
        dir: &SourceDir,
        parsed: Result<BuildingSpec, String>,
        loaded: Option<Result<Module, String>>,
    ) -> (out: Result<CompiledBuilding, CompileError>)
        ensures
            finished(
                dir,
                "building.json5"@,
                parsed,
                "building.lua"@,
                loaded,
                match out {
                    Ok(building) => Ok((building.spec, building.script)),
                    Err(e) => Err(e),
                },
            ),
    {
        match finish(
            dir,
            &"building.json5".to_owned(),
            parsed,
            &"building.lua".to_owned(),
            loaded,
        ) {
            Ok(pair) => Ok(CompiledBuilding { spec: pair.0, script: pair.1 }),
            Err(e) => Err(e),
        }
    }
}

} // verus!
