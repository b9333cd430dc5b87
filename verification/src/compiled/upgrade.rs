use crate::compiled::source::finish;
use crate::compiled::source::finished;
use crate::compiled::source::CompileError;
use crate::compiled::source::SourceDir;
use crate::rational::Rational;
use dyon::Module;
use vstd::prelude::*;

verus! {

/// One adjustment that an upgrade makes to a target.
#[derive(Clone, Debug, PartialEq, Eq)]
pub struct UpgradeEffect {
    /// A building's identifier, `*` for every target, or `click`.
    pub affects: String,
    /// Factor on the target's rate; none stands for one.
    pub cps_fac: Option<Rational>,
    /// Amount added to the target's rate; none stands for zero.
    pub cps_add: Option<Rational>,
}

impl UpgradeEffect {
    /// Whether the effect bears on a target: it names the target or every
    /// target.
    pub open spec fn applies_to(&self, target: Seq<char>) -> bool {
        self.affects@ == target || self.affects@ == "*"@
    }

    /// What the effect adds to a target's rate.
    pub open spec fn added(&self, target: Seq<char>) -> real {
        if self.applies_to(target) {
            match self.cps_add {
                Some(a) => a@,
                None => 0real,
            }
        } else {
            0real
        }
    }

    /// The factor that the effect puts on a target's rate.
    pub open spec fn factor(&self, target: Seq<char>) -> real {
        if self.applies_to(target) {
            match self.cps_fac {
                Some(f) => f@,
                None => 1real,
            }
        } else {
            1real
        }
    }
}

/// What an upgrade's declaration says.
#[derive(Clone, Debug, PartialEq, Eq)]
pub struct UpgradeSpec {
    pub name: String,
    pub flavor: String,
    /// Achievements that must be unlocked before the upgrade can be bought.
    pub depends: Vec<String>,
    pub effects: Vec<UpgradeEffect>,
    pub cost: Rational,
}

/// An upgrade of the catalog: its declaration and, where it has one, its
/// loaded script.
#[derive(Clone)]
pub struct CompiledUpgrade {
    pub spec: UpgradeSpec,
    pub script: Option<Module>,
}

impl CompiledUpgrade {
    /// The text of the upgrade's declaration, the file `upgrade.json5` of
    /// its directory, or the error that its lack calls for.
    pub fn spec_text(dir: &SourceDir) -> (text: Result<&String, CompileError>)
        ensures
            dir.required("upgrade.json5"@, text),
    {
        dir.required_text(&"upgrade.json5".to_owned())
    }

    /// The text of the upgrade's script, the file `upgrade.lua` of its
    /// directory, if there is one.
    pub fn script_text(dir: &SourceDir) -> (text: Option<&String>)
        ensures
            match text {
                Some(found) => dir.text_of("upgrade.lua"@) == Some(found@),
                None => dir.text_of("upgrade.lua"@).is_none(),
            },
    {
        dir.optional_text(&"upgrade.lua".to_owned())
    }

    /// Compiles an upgrade from its directory, from what reading its
    /// declaration gave, and from what loading its script gave, which is
    /// nothing where the directory holds no script. A directory that does
    /// not hold the declaration is an error whatever else is given; then a
    /// declaration that was turned down; then a loaded script that is
    /// handed in without a script in the directory, or left out with one;
    /// then a script that did not load.
    pub fn compile(
        dir: &SourceDir,
        parsed: Result<UpgradeSpec, String>,
        loaded: Option<Result<Module, String>>,
    ) -> (out: Result<CompiledUpgrade, CompileError>)
        ensures
            finished(
                dir,
                "upgrade.json5"@,
                parsed,
                "upgrade.lua"@,
                loaded,
                match out {
                    Ok(upgrade) => Ok((upgrade.spec, upgrade.script)),
                    Err(e) => Err(e),
                },
            ),
    {
        match finish(
            dir,
            &"upgrade.json5".to_owned(),
            parsed,
            &"upgrade.lua".to_owned(),
            loaded,
        ) {
            Ok(pair) => Ok(CompiledUpgrade { spec: pair.0, script: pair.1 }),
            Err(e) => Err(e),
        }
    }
}

} // verus!
