//! Errors and warnings of script evaluation, with their messages.
use vstd::prelude::*;

use crate::common::ExUnits;
use crate::text::{decimal, push_decimal, push_str, string_of};
use crate::validators::phase_1::errors::strings_view;
use crate::validators::phase_2::hints::{get_error_hint, get_warning_hint};

verus! {

/// A script evaluation that failed, or a budget that does not cover it.
#[derive(Debug, Clone)]
pub enum Phase2Error {
    NoEnoughBudget { expected_budget: ExUnits, actual_budget: ExUnits },
    InvalidRedeemerIndex { tag: String, index: u64 },
    MachineError { error: String },
    NativeScriptIsReferencedByRedeemer,
    CostModelNotFound { language: String },
    ScriptDecodeError { error: String },
    BuildTxContextError { error: String },
    MissingScriptForRedeemer { error: String },
}

/// A budget larger than the evaluation needs.
#[derive(Debug, Clone)]
pub enum Phase2Warning {
    BudgetIsBiggerThanExpected { expected_budget: ExUnits, actual_budget: ExUnits },
}

/// An error, its message, where it applies, and a hint.
#[derive(Debug, Clone)]
pub struct ValidationPhase2Error {
    pub error: Phase2Error,
    pub error_message: String,
    pub locations: Vec<String>,
    pub hint: Option<String>,
}

/// A warning, where it applies, and a hint.
#[derive(Debug, Clone)]
pub struct ValidationPhase2Warning {
    pub warning: Phase2Warning,
    pub locations: Vec<String>,
    pub hint: Option<String>,
}

/// The debug writing of a budget: `ExUnits { mem: M, steps: S }`.
pub open spec fn ex_units_text(u: ExUnits) -> Seq<char> {
    "ExUnits { mem: "@ + decimal(u.mem as nat) + ", steps: "@ + decimal(u.steps as nat) + " }"@
}

/// The message of an error.
pub open spec fn phase2_error_text(e: Phase2Error) -> Seq<char> {
    match e {
        Phase2Error::NoEnoughBudget { expected_budget, actual_budget } => "Not enough budget available. Expected: "@
            + ex_units_text(expected_budget) + ", Actual: "@ + ex_units_text(actual_budget),
        Phase2Error::InvalidRedeemerIndex { tag, index } => "Invalid redeemer index for tag '"@ + tag@ + "': "@
            + decimal(index as nat),
        Phase2Error::MachineError { error } => "Plutus machine error: "@ + error@,
        Phase2Error::NativeScriptIsReferencedByRedeemer => "Native script cannot be referenced by redeemer"@,
        Phase2Error::CostModelNotFound { language } => "Cost model not found for language: "@ + language@,
        Phase2Error::ScriptDecodeError { error } => "Failed to decode script: "@ + error@,
        Phase2Error::BuildTxContextError { error } => "Failed to build transaction context: "@ + error@,
        Phase2Error::MissingScriptForRedeemer { error } => "Missing script for redeemer: "@ + error@,
    }
}

/// The message of a warning.
pub open spec fn phase2_warning_text(w: Phase2Warning) -> Seq<char> {
    match w {
        Phase2Warning::BudgetIsBiggerThanExpected { expected_budget, actual_budget } => "Budget is bigger than expected. Expected: "@
            + ex_units_text(expected_budget) + ", Actual: "@ + ex_units_text(actual_budget),
    }
}

/// Appends the debug writing of a budget.
fn push_ex_units(s: &mut String, u: &ExUnits)
    ensures
        final(s)@ == old(s)@ + ex_units_text(*u),
{
    push_str(s, "ExUnits { mem: ");
    push_decimal(s, u.mem as u128);
    push_str(s, ", steps: ");
    push_decimal(s, u.steps as u128);
    push_str(s, " }");
}

/// `prefix` followed by the budgets `a` and `b`, as in the budget messages.
fn budgets_message(prefix: &str, a: &ExUnits, b: &ExUnits) -> (r: String)
    ensures
        r@ == prefix@ + ex_units_text(*a) + ", Actual: "@ + ex_units_text(*b),
{
    let mut s = string_of(prefix);
    push_ex_units(&mut s, a);
    push_str(&mut s, ", Actual: ");
    push_ex_units(&mut s, b);
    s
}

/// `prefix` followed by `text`.
fn prefixed(prefix: &str, text: &str) -> (r: String)
    ensures
        r@ == prefix@ + text@,
{
    let mut s = string_of(prefix);
    push_str(&mut s, text);
    s
}

impl Phase2Error {
    /// A copy of the error.
    pub fn duplicate(&self) -> (r: Self)
        ensures
            r == *self,
    {
        match self {
            Phase2Error::NoEnoughBudget { expected_budget, actual_budget } => Phase2Error::NoEnoughBudget {
                expected_budget: *expected_budget,
                actual_budget: *actual_budget,
            },
            Phase2Error::InvalidRedeemerIndex { tag, index } => Phase2Error::InvalidRedeemerIndex {
                tag: tag.clone(),
                index: *index,
            },
            Phase2Error::MachineError { error } => Phase2Error::MachineError { error: error.clone() },
            Phase2Error::NativeScriptIsReferencedByRedeemer => Phase2Error::NativeScriptIsReferencedByRedeemer,
            Phase2Error::CostModelNotFound { language } => Phase2Error::CostModelNotFound {
                language: language.clone(),
            },
            Phase2Error::ScriptDecodeError { error } => Phase2Error::ScriptDecodeError { error: error.clone() },
            Phase2Error::BuildTxContextError { error } => Phase2Error::BuildTxContextError { error: error.clone() },
            Phase2Error::MissingScriptForRedeemer { error } => Phase2Error::MissingScriptForRedeemer {
                error: error.clone(),
            },
        }
    }

    /// The message of the error.
    pub fn to_string(&self) -> (r: String)
        ensures
            r@ == phase2_error_text(*self),
    {
        match self {
            Phase2Error::NoEnoughBudget { expected_budget, actual_budget } => budgets_message(
                "Not enough budget available. Expected: ",
                expected_budget,
                actual_budget,
            ),
            Phase2Error::InvalidRedeemerIndex { tag, index } => {
                let mut s = string_of("Invalid redeemer index for tag '");
                push_str(&mut s, tag.as_str());
                push_str(&mut s, "': ");
                push_decimal(&mut s, *index as u128);
                s
            },
            Phase2Error::MachineError { error } => prefixed("Plutus machine error: ", error.as_str()),
            Phase2Error::NativeScriptIsReferencedByRedeemer => string_of(
                "Native script cannot be referenced by redeemer",
            ),
            Phase2Error::CostModelNotFound { language } => prefixed(
                "Cost model not found for language: ",
                language.as_str(),
            ),
            Phase2Error::ScriptDecodeError { error } => prefixed("Failed to decode script: ", error.as_str()),
            Phase2Error::BuildTxContextError { error } => prefixed(
                "Failed to build transaction context: ",
                error.as_str(),
            ),
            Phase2Error::MissingScriptForRedeemer { error } => prefixed(
                "Missing script for redeemer: ",
                error.as_str(),
            ),
        }
    }
}

impl Phase2Warning {
    /// The message of the warning.
    pub fn to_string(&self) -> (r: String)
        ensures
            r@ == phase2_warning_text(*self),
    {
        match self {
            Phase2Warning::BudgetIsBiggerThanExpected { expected_budget, actual_budget } => budgets_message(
                "Budget is bigger than expected. Expected: ",
                expected_budget,
                actual_budget,
            ),
        }
    }
}

/// A copy of a list of strings.
pub fn copy_strings(s: &[String]) -> (r: Vec<String>)
    ensures
        strings_view(r@) == strings_view(s@),
{
    let mut r: Vec<String> = Vec::new();
    let n = s.len();
    let mut i: usize = 0;
    while i < n
        invariant
            n == s@.len(),
            i <= n,
            strings_view(r@) =~= strings_view(s@.take(i as int)),
        decreases n - i,
    {
        let t = s[i].clone();
        r.push(t);
        assert(strings_view(s@.take(i + 1)) =~= strings_view(s@.take(i as int)).push(s@[i as int]@));
        i += 1;
    }
    assert(s@.take(n as int) =~= s@);
    r
}

impl ValidationPhase2Error {
    /// An error at one location, with its message and hint.
    pub fn new(error: Phase2Error, location: String) -> (r: Self)
        ensures
            r.error == error,
            r.error_message@ == phase2_error_text(error),
            strings_view(r.locations@) == seq![location@],
            r.hint is None,
    {
        let error_message = error.to_string();
        let hint = get_error_hint(&error);
        let mut locations = Vec::new();
        locations.push(location);
        assert(strings_view(locations@) =~= seq![location@]);
        ValidationPhase2Error { error, error_message, locations, hint }
    }

    /// An error at the given locations, with its message and hint.
    pub fn new_with_locations(error: Phase2Error, locations: &[String]) -> (r: Self)
        ensures
            r.error == error,
            r.error_message@ == phase2_error_text(error),
            strings_view(r.locations@) == strings_view(locations@),
            r.hint is None,
    {
        let error_message = error.to_string();
        let hint = get_error_hint(&error);
        ValidationPhase2Error { error, error_message, locations: copy_strings(locations), hint }
    }
}

impl ValidationPhase2Warning {
    /// A warning at one location, with its hint.
    pub fn new(warning: Phase2Warning, location: String) -> (r: Self)
        ensures
            r.warning == warning,
            strings_view(r.locations@) == seq![location@],
            r.hint is None,
    {
        let hint = get_warning_hint(&warning);
        let mut locations = Vec::new();
        locations.push(location);
        assert(strings_view(locations@) =~= seq![location@]);
        ValidationPhase2Warning { warning, locations, hint }
    }

    /// A warning at the given locations, with its hint.
    pub fn new_with_locations(warning: Phase2Warning, locations: &[String]) -> (r: Self)
        ensures
            r.warning == warning,
            strings_view(r.locations@) == strings_view(locations@),
            r.hint is None,
    {
        let hint = get_warning_hint(&warning);
        ValidationPhase2Warning { warning, locations: copy_strings(locations), hint }
    }
}

} // verus!
