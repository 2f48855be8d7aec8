//! The auxiliary data hash in the body must be the hash of the auxiliary data.
use vstd::prelude::*;

use crate::crypto::{blake2b_256, blake2b_256_digest};
use crate::text::{hex_encode, hex_encode_spec, string_of};
use crate::validators::phase_1::common::bytes_equal;
use crate::validators::phase_1::errors::{
    errors_view, Phase1Error, Phase1ErrorView, ValidationPhase1Error, ValidationResult,
};

verus! {

/// The auxiliary data of a transaction (its serialized bytes), the hash of
/// those bytes, and the hash that the body declares.
pub struct AuxiliaryDataValidationContext {
    pub auxiliary_data: Option<Vec<u8>>,
    pub expected_auxiliary_data_hash: Option<Vec<u8>>,
    pub actual_auxiliary_data_hash: Option<Vec<u8>>,
}

/// The location of the auxiliary data hash.
pub open spec fn aux_hash_location() -> Seq<char> {
    "transaction.body.auxiliary_data_hash"@
}

/// The errors of the auxiliary data check.
pub open spec fn aux_errors_spec(c: &AuxiliaryDataValidationContext) -> Seq<
    (Phase1ErrorView, Seq<Seq<char>>),
> {
    match c.auxiliary_data {
        None => match c.actual_auxiliary_data_hash {
            Some(_) => seq![(Phase1ErrorView::AuxiliaryDataHashPresentButNotExpected, seq![aux_hash_location()])],
            None => Seq::empty(),
        },
        Some(_) => match c.expected_auxiliary_data_hash {
            Some(expected) => match c.actual_auxiliary_data_hash {
                Some(actual) => if actual@ != expected@ {
                    seq![
                        (
                            Phase1ErrorView::AuxiliaryDataHashMismatch {
                                expected_hash: hex_encode_spec(expected@),
                                actual_hash: Some(hex_encode_spec(actual@)),
                            },
                            seq![aux_hash_location()],
                        ),
                    ]
                } else {
                    Seq::empty()
                },
                None => seq![(Phase1ErrorView::AuxiliaryDataHashMissing, seq![aux_hash_location()])],
            },
            None => match c.actual_auxiliary_data_hash {
                Some(_) => seq![
                    (Phase1ErrorView::AuxiliaryDataHashPresentButNotExpected, seq![aux_hash_location()]),
                ],
                None => Seq::empty(),
            },
        },
    }
}

impl AuxiliaryDataValidationContext {
    /// Hashes the auxiliary data, when there is any, and keeps the hash the
    /// body declares.
    pub fn new(auxiliary_data: Option<Vec<u8>>, body_auxiliary_data_hash: Option<Vec<u8>>) -> (r: Self)
        ensures
            r.auxiliary_data == auxiliary_data,
            r.actual_auxiliary_data_hash == body_auxiliary_data_hash,
            match auxiliary_data {
                Some(a) => r.expected_auxiliary_data_hash matches Some(h) && h@ == blake2b_256_digest(a@),
                None => r.expected_auxiliary_data_hash is None,
            },
    {
        let expected_auxiliary_data_hash = match &auxiliary_data {
            Some(a) => Some(blake2b_256(a.as_slice())),
            None => None,
        };
        AuxiliaryDataValidationContext {
            auxiliary_data,
            expected_auxiliary_data_hash,
            actual_auxiliary_data_hash: body_auxiliary_data_hash,
        }
    }

    /// With auxiliary data present: a mismatch when the declared hash differs
    /// from the computed one, a missing hash when none is declared, and a hash
    /// present but not expected when none was computed.  Without auxiliary
    /// data, a declared hash is present but not expected.  No warnings.
    pub fn validate(&self) -> (r: ValidationResult)
        ensures
            errors_view(r.errors@) == aux_errors_spec(self),
            r.warnings@.len() == 0,
    {
        let mut errors: Vec<ValidationPhase1Error> = Vec::new();
        if self.auxiliary_data.is_some() {
            match &self.expected_auxiliary_data_hash {
                Some(expected_hash) => {
                    match &self.actual_auxiliary_data_hash {
                        Some(actual_hash) => {
                            if !bytes_equal(actual_hash.as_slice(), expected_hash.as_slice()) {
                                errors.push(
                                    ValidationPhase1Error::new(
                                        Phase1Error::AuxiliaryDataHashMismatch {
                                            expected_hash: hex_encode(expected_hash.as_slice()),
                                            actual_hash: Some(hex_encode(actual_hash.as_slice())),
                                        },
                                        string_of("transaction.body.auxiliary_data_hash"),
                                    ),
                                );
                            }
                        },
                        None => {
                            errors.push(
                                ValidationPhase1Error::new(
                                    Phase1Error::AuxiliaryDataHashMissing,
                                    string_of("transaction.body.auxiliary_data_hash"),
                                ),
                            );
                        },
                    }
                },
                None => {
                    if self.actual_auxiliary_data_hash.is_some() {
                        errors.push(
                            ValidationPhase1Error::new(
                                Phase1Error::AuxiliaryDataHashPresentButNotExpected,
                                string_of("transaction.body.auxiliary_data_hash"),
                            ),
                        );
                    }
                },
            }
        } else if self.actual_auxiliary_data_hash.is_some() {
            errors.push(
                ValidationPhase1Error::new(
                    Phase1Error::AuxiliaryDataHashPresentButNotExpected,
                    string_of("transaction.body.auxiliary_data_hash"),
                ),
            );
        }
        let r = ValidationResult::new(errors, Vec::new());
        assert(errors_view(r.errors@) =~= aux_errors_spec(self));
        r
    }
}

} // verus!
