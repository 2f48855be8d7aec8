//! Errors, warnings and results of the phase-1 rules.
use vstd::prelude::*;

verus! {

/// A phase-1 rule that a transaction breaks.
#[derive(Debug, Clone)]
pub enum Phase1Error {
    OutputTooBigUTxO { actual_size: u32, max_size: u32 },
    OutputTooSmallUTxO { output_amount: i128, min_amount: i128 },
    AuxiliaryDataHashMismatch { expected_hash: String, actual_hash: Option<String> },
    AuxiliaryDataHashMissing,
    AuxiliaryDataHashPresentButNotExpected,
    TooManyCollateralInputs { actual_count: u32, max_count: u32 },
    InsufficientCollateral { total_collateral: i128, required_collateral: i128 },
    IncorrectTotalCollateralField { declared_total: i128, actual_sum: i128 },
    CalculatedCollateralContainsNonAdaAssets,
    CollateralInputContainsNonAdaAssets { collateral_input: String },
    CollateralReturnTooSmall { output_amount: i128, min_amount: i128 },
    CollateralIsLockedByScript { invalid_collateral: String },
    MissingVKeyWitnesses { missing_key_hash: String },
    MissingScriptWitnesses { missing_script_hash: String },
    MissingRedeemer { tag: String, index: u32 },
    ExtraneousScriptWitnesses { extraneous_scripts: Vec<String> },
    NoCollateralInputs,
    MissingDatum { datum_hash: String },
    InvalidSignature { invalid_signature: String },
    ExtraneousSignature { extraneous_signature: String },
    NativeScriptIsUnsuccessful { native_script_hash: String },
    ExtraneousDatumWitnesses { datum_hash: String },
    ScriptDataHashMismatch { expected_hash: Option<String>, provided_hash: Option<String> },
}

/// Something unusual about a transaction that breaks no phase-1 rule.
#[derive(Debug, Clone)]
pub enum Phase1Warning {
    CollateralIsUnnecessary,
    TotalCollateralIsNotDeclared,
    CollateralInputUsesRewardAddress { invalid_collateral: String },
}

/// A phase-1 error as plain values.
pub enum Phase1ErrorView {
    OutputTooBigUTxO { actual_size: u32, max_size: u32 },
    OutputTooSmallUTxO { output_amount: i128, min_amount: i128 },
    AuxiliaryDataHashMismatch { expected_hash: Seq<char>, actual_hash: Option<Seq<char>> },
    AuxiliaryDataHashMissing,
    AuxiliaryDataHashPresentButNotExpected,
    TooManyCollateralInputs { actual_count: u32, max_count: u32 },
    InsufficientCollateral { total_collateral: i128, required_collateral: i128 },
    IncorrectTotalCollateralField { declared_total: i128, actual_sum: i128 },
    CalculatedCollateralContainsNonAdaAssets,
    CollateralInputContainsNonAdaAssets { collateral_input: Seq<char> },
    CollateralReturnTooSmall { output_amount: i128, min_amount: i128 },
    CollateralIsLockedByScript { invalid_collateral: Seq<char> },
    MissingVKeyWitnesses { missing_key_hash: Seq<char> },
    MissingScriptWitnesses { missing_script_hash: Seq<char> },
    MissingRedeemer { tag: Seq<char>, index: u32 },
    ExtraneousScriptWitnesses { extraneous_scripts: Seq<Seq<char>> },
    NoCollateralInputs,
    MissingDatum { datum_hash: Seq<char> },
    InvalidSignature { invalid_signature: Seq<char> },
    ExtraneousSignature { extraneous_signature: Seq<char> },
    NativeScriptIsUnsuccessful { native_script_hash: Seq<char> },
    ExtraneousDatumWitnesses { datum_hash: Seq<char> },
    ScriptDataHashMismatch { expected_hash: Option<Seq<char>>, provided_hash: Option<Seq<char>> },
}

/// A phase-1 warning as plain values.
pub enum Phase1WarningView {
    CollateralIsUnnecessary,
    TotalCollateralIsNotDeclared,
    CollateralInputUsesRewardAddress { invalid_collateral: Seq<char> },
}

/// The characters of each string.
pub open spec fn strings_view(s: Seq<String>) -> Seq<Seq<char>> {
    s.map_values(|x: String| x@)
}

impl View for Phase1Error {
    type V = Phase1ErrorView;

    open spec fn view(&self) -> Phase1ErrorView {
        match self {
            Phase1Error::OutputTooBigUTxO { actual_size, max_size } => Phase1ErrorView::OutputTooBigUTxO {
                actual_size: *actual_size,
                max_size: *max_size,
            },
            Phase1Error::OutputTooSmallUTxO { output_amount, min_amount } => Phase1ErrorView::OutputTooSmallUTxO {
                output_amount: *output_amount,
                min_amount: *min_amount,
            },
            Phase1Error::AuxiliaryDataHashMismatch { expected_hash, actual_hash } => Phase1ErrorView::AuxiliaryDataHashMismatch {
                expected_hash: expected_hash@,
                actual_hash: match actual_hash {
                    Some(h) => Some(h@),
                    None => None,
                },
            },
            Phase1Error::AuxiliaryDataHashMissing => Phase1ErrorView::AuxiliaryDataHashMissing,
            Phase1Error::AuxiliaryDataHashPresentButNotExpected => Phase1ErrorView::AuxiliaryDataHashPresentButNotExpected,
            Phase1Error::TooManyCollateralInputs { actual_count, max_count } => Phase1ErrorView::TooManyCollateralInputs {
                actual_count: *actual_count,
                max_count: *max_count,
            },
            Phase1Error::InsufficientCollateral { total_collateral, required_collateral } => Phase1ErrorView::InsufficientCollateral {
                total_collateral: *total_collateral,
                required_collateral: *required_collateral,
            },
            Phase1Error::IncorrectTotalCollateralField { declared_total, actual_sum } => Phase1ErrorView::IncorrectTotalCollateralField {
                declared_total: *declared_total,
                actual_sum: *actual_sum,
            },
            Phase1Error::CalculatedCollateralContainsNonAdaAssets => Phase1ErrorView::CalculatedCollateralContainsNonAdaAssets,
            Phase1Error::CollateralInputContainsNonAdaAssets { collateral_input } => Phase1ErrorView::CollateralInputContainsNonAdaAssets {
                collateral_input: collateral_input@,
            },
            Phase1Error::CollateralReturnTooSmall { output_amount, min_amount } => Phase1ErrorView::CollateralReturnTooSmall {
                output_amount: *output_amount,
                min_amount: *min_amount,
            },
            Phase1Error::CollateralIsLockedByScript { invalid_collateral } => Phase1ErrorView::CollateralIsLockedByScript {
                invalid_collateral: invalid_collateral@,
            },
            Phase1Error::MissingVKeyWitnesses { missing_key_hash } => Phase1ErrorView::MissingVKeyWitnesses {
                missing_key_hash: missing_key_hash@,
            },
            Phase1Error::MissingScriptWitnesses { missing_script_hash } => Phase1ErrorView::MissingScriptWitnesses {
                missing_script_hash: missing_script_hash@,
            },
            Phase1Error::MissingRedeemer { tag, index } => Phase1ErrorView::MissingRedeemer {
                tag: tag@,
                index: *index,
            },
            Phase1Error::ExtraneousScriptWitnesses { extraneous_scripts } => Phase1ErrorView::ExtraneousScriptWitnesses {
                extraneous_scripts: strings_view(extraneous_scripts@),
            },
            Phase1Error::NoCollateralInputs => Phase1ErrorView::NoCollateralInputs,
            Phase1Error::MissingDatum { datum_hash } => Phase1ErrorView::MissingDatum { datum_hash: datum_hash@ },
            Phase1Error::InvalidSignature { invalid_signature } => Phase1ErrorView::InvalidSignature {
                invalid_signature: invalid_signature@,
            },
            Phase1Error::ExtraneousSignature { extraneous_signature } => Phase1ErrorView::ExtraneousSignature {
                extraneous_signature: extraneous_signature@,
            },
            Phase1Error::NativeScriptIsUnsuccessful { native_script_hash } => Phase1ErrorView::NativeScriptIsUnsuccessful {
                native_script_hash: native_script_hash@,
            },
            Phase1Error::ExtraneousDatumWitnesses { datum_hash } => Phase1ErrorView::ExtraneousDatumWitnesses {
                datum_hash: datum_hash@,
            },
            Phase1Error::ScriptDataHashMismatch { expected_hash, provided_hash } => Phase1ErrorView::ScriptDataHashMismatch {
                expected_hash: match expected_hash {
                    Some(h) => Some(h@),
                    None => None,
                },
                provided_hash: match provided_hash {
                    Some(h) => Some(h@),
                    None => None,
                },
            },
        }
    }
}

impl View for Phase1Warning {
    type V = Phase1WarningView;

    open spec fn view(&self) -> Phase1WarningView {
        match self {
            Phase1Warning::CollateralIsUnnecessary => Phase1WarningView::CollateralIsUnnecessary,
            Phase1Warning::TotalCollateralIsNotDeclared => Phase1WarningView::TotalCollateralIsNotDeclared,
            Phase1Warning::CollateralInputUsesRewardAddress { invalid_collateral } => Phase1WarningView::CollateralInputUsesRewardAddress {
                invalid_collateral: invalid_collateral@,
            },
        }
    }
}

/// A broken rule and where in the transaction it is broken.
#[derive(Debug, Clone)]
pub struct ValidationPhase1Error {
    pub error: Phase1Error,
    pub locations: Vec<String>,
}

/// The name under which the validators report errors.
pub type ValidationError = ValidationPhase1Error;

/// A warning and where in the transaction it applies.
#[derive(Debug, Clone)]
pub struct ValidationPhase1Warning {
    pub warning: Phase1Warning,
    pub locations: Vec<String>,
}

/// The name under which the validators report warnings.
pub type ValidationWarning = ValidationPhase1Warning;

impl View for ValidationPhase1Error {
    type V = (Phase1ErrorView, Seq<Seq<char>>);

    open spec fn view(&self) -> (Phase1ErrorView, Seq<Seq<char>>) {
        (self.error@, strings_view(self.locations@))
    }
}

impl View for ValidationPhase1Warning {
    type V = (Phase1WarningView, Seq<Seq<char>>);

    open spec fn view(&self) -> (Phase1WarningView, Seq<Seq<char>>) {
        (self.warning@, strings_view(self.locations@))
    }
}

impl ValidationPhase1Error {
    /// An error at one location.
    pub fn new(error: Phase1Error, location: String) -> (r: Self)
        ensures
            r@ == (error@, seq![location@]),
    {
        let mut locations = Vec::new();
        locations.push(location);
        let r = ValidationPhase1Error { error, locations };
        assert(strings_view(r.locations@) =~= seq![location@]);
        r
    }
}

impl ValidationPhase1Warning {
    /// A warning at one location.
    pub fn new(warning: Phase1Warning, location: String) -> (r: Self)
        ensures
            r@ == (warning@, seq![location@]),
    {
        let mut locations = Vec::new();
        locations.push(location);
        let r = ValidationPhase1Warning { warning, locations };
        assert(strings_view(r.locations@) =~= seq![location@]);
        r
    }
}

/// The errors and warnings a validator found.
#[derive(Debug, Clone)]
pub struct ValidationResult {
    pub errors: Vec<ValidationPhase1Error>,
    pub warnings: Vec<ValidationPhase1Warning>,
}

/// The views of a list of errors.
pub open spec fn errors_view(s: Seq<ValidationPhase1Error>) -> Seq<(Phase1ErrorView, Seq<Seq<char>>)> {
    s.map_values(|e: ValidationPhase1Error| e@)
}

/// The views of a list of warnings.
pub open spec fn warnings_view(s: Seq<ValidationPhase1Warning>) -> Seq<
    (Phase1WarningView, Seq<Seq<char>>),
> {
    s.map_values(|w: ValidationPhase1Warning| w@)
}

impl View for ValidationResult {
    type V = (Seq<(Phase1ErrorView, Seq<Seq<char>>)>, Seq<(Phase1WarningView, Seq<Seq<char>>)>);

    open spec fn view(&self) -> Self::V {
        (errors_view(self.errors@), warnings_view(self.warnings@))
    }
}

impl ValidationResult {
    pub fn new(errors: Vec<ValidationPhase1Error>, warnings: Vec<ValidationPhase1Warning>) -> (r: Self)
        ensures
            r.errors == errors,
            r.warnings == warnings,
    {
        ValidationResult { errors, warnings }
    }

    pub fn new_phase_1(errors: Vec<ValidationPhase1Error>, warnings: Vec<ValidationPhase1Warning>) -> (r: Self)
        ensures
            r.errors == errors,
            r.warnings == warnings,
    {
        ValidationResult { errors, warnings }
    }
}


/// Appends an error.
pub fn push_error(errors: &mut Vec<ValidationPhase1Error>, e: ValidationPhase1Error)
    ensures
        errors_view(final(errors)@) == errors_view(old(errors)@).push(e@),
{
    let ghost prev = errors@;
    errors.push(e);
    assert(errors_view(errors@) =~= errors_view(prev).push(e@));
}

/// Appends a warning.
pub fn push_warning(warnings: &mut Vec<ValidationPhase1Warning>, w: ValidationPhase1Warning)
    ensures
        warnings_view(final(warnings)@) == warnings_view(old(warnings)@).push(w@),
{
    let ghost prev = warnings@;
    warnings.push(w);
    assert(warnings_view(warnings@) =~= warnings_view(prev).push(w@));
}

/// `seq![x]` when `b` holds, else nothing.
pub open spec fn opt_item<T>(b: bool, x: T) -> Seq<T> {
    if b {
        seq![x]
    } else {
        Seq::empty()
    }
}

} // verus!
