//! Hints that accompany phase-2 errors and warnings.
use vstd::prelude::*;

use crate::validators::phase_2::errors::{Phase2Error, Phase2Warning};

verus! {

/// A hint for an error; none is known for any error yet.
pub fn get_error_hint(_error: &Phase2Error) -> (r: Option<String>)
    ensures
        r is None,
{
    None
}

/// A hint for a warning; none is known for any warning yet.
pub fn get_warning_hint(_warning: &Phase2Warning) -> (r: Option<String>)
    ensures
        r is None,
{
    None
}

} // verus!
