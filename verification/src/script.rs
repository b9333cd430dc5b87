//! The script host: the embedded `dyon` runtime behind a narrow interface.
//!
//! A script is content. Loading one and calling one are both work of the
//! runtime on a text that anybody may have written: it can succeed, fail,
//! run for ever, or bring its caller down. No contract could leave those
//! texts out, so the library makes neither call. It says what is to be
//! loaded and what a call is to be given (a [`Snapshot`]), and decides in
//! verified code what to do with each possible outcome.
use dyon::Module;
use crate::rational::Rational;
use dyon::Runtime;
use vstd::prelude::*;

verus! {

/// A loaded `dyon` script. Its inside is not visible to the verifier.
#[verifier::external_type_specification]
#[verifier::external_body]
pub struct ExModule(Module);

/// A `dyon` runtime. Its inside is not visible to the verifier.
#[verifier::external_type_specification]
#[verifier::external_body]
pub struct ExRuntime(Runtime);

/// What a script is given to look at: a copy of the player's state, whole,
/// in values that are easy to hand to the runtime.
#[derive(Clone, Debug)]
pub struct Snapshot {
    /// When the state was last advanced, in milliseconds since the Unix
    /// epoch.
    pub last_tick: i64,
    /// How much of the resource is held, exactly.
    pub amount: Rational,
    /// The whole units of the resource held, in decimal.
    pub carcinized: String,
    /// Each building owned, with its count.
    pub buildings: Vec<(String, usize)>,
    /// The upgrades owned.
    pub upgrades: Vec<String>,
    /// The achievements unlocked.
    pub achievements: Vec<String>,
}

/// What became of one call of a script's predicate.
#[derive(Clone, Debug, PartialEq, Eq)]
pub struct Judgement {
    /// Whether the predicate held.
    pub holds: bool,
    /// What went wrong, where the call failed.
    pub report: Option<String>,
}

/// What a judgement is made from: nothing where there is no script to call,
/// else what the call gave.
pub open spec fn judgement_of(outcome: Option<Result<bool, String>>) -> (bool, Option<Seq<char>>) {
    match outcome {
        Some(Ok(answer)) => (answer, None),
        Some(Err(message)) => (false, Some(message@)),
        None => (false, None),
    }
}

/// The verdicts that a sequence of outcomes gives, one for each.
pub open spec fn verdicts_of(outcomes: Seq<Option<Result<bool, String>>>) -> Seq<bool> {
    Seq::new(outcomes.len(), |i: int| judgement_of(outcomes[i]).0)
}

/// The reports that a sequence of outcomes gives: the messages of the calls
/// that failed, in their order.
pub open spec fn reports_of(outcomes: Seq<Option<Result<bool, String>>>) -> Seq<Seq<char>>
    decreases outcomes.len(),
{
    if outcomes.len() == 0 {
        Seq::empty()
    } else {
        let before = reports_of(outcomes.drop_last());
        match judgement_of(outcomes.last()).1 {
            Some(message) => before.push(message),
            None => before,
        }
    }
}

/// Judges the outcome of a predicate: it holds only where a script was
/// called and answered `true`. A call that failed counts as `false`, and its
/// message is kept as a report.
pub fn judge(outcome: &Option<Result<bool, String>>) -> (judgement: Judgement)
    ensures
        judgement.holds == judgement_of(*outcome).0,
        match judgement.report {
            Some(text) => judgement_of(*outcome).1 == Some(text@),
            None => judgement_of(*outcome).1.is_none(),
        },
{
    match outcome {
        Some(Ok(answer)) => Judgement { holds: *answer, report: None },
        Some(Err(message)) => Judgement { holds: false, report: Some(message.clone()) },
        None => Judgement { holds: false, report: None },
    }
}

/// Calls `dyon`'s `Runtime::new`: a fresh runtime, ready to run scripts.
#[verifier::external_body]
pub(crate) fn new_runtime() -> (engine: Runtime) {
    Runtime::new()
}

} // verus!
