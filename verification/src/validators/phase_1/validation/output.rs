//! Outputs must not be too big and must hold enough lovelace.
use vstd::prelude::*;

use crate::text::{decimal, push_decimal, string_of};
use crate::validators::phase_1::errors::{
    errors_view, Phase1Error, Phase1ErrorView, ValidationPhase1Error, ValidationResult,
};
use crate::validators::phase_1::input_contexts::ValidationInputContext;

verus! {

/// What the output check reads of one output: the size of its serialized
/// value, its lovelace, and its encoding.
#[derive(Debug, Clone)]
pub struct OutputFacts {
    pub value_size: usize,
    pub coin: u64,
    pub output_cbor: Vec<u8>,
}

/// The minimum lovelace that the output encoded by `output` must hold at
/// `coins_per_byte` lovelace per byte, as the serialization library computes
/// it; nothing when it cannot be computed.
pub uninterp spec fn min_ada_reading(output: Seq<u8>, coins_per_byte: u64) -> Option<u64>;

/// `TransactionOutput::from_bytes`, then `min_ada_for_output` with a data
/// cost of `coins_per_byte` lovelace per byte: the minimum lovelace of the
/// output, or nothing when either call fails.
#[verifier::external_body]
pub(crate) fn min_ada_for_output(output: &[u8], coins_per_byte: u64) -> (r: Option<u64>)
    ensures
        r == min_ada_reading(output@, coins_per_byte),
{
    let output = cardano_serialization_lib::TransactionOutput::from_bytes(output.to_vec()).ok()?;
    let cost = cardano_serialization_lib::DataCost::new_coins_per_byte(&cardano_serialization_lib::BigNum::from(coins_per_byte));
    cardano_serialization_lib::min_ada_for_output(&output, &cost).ok().map(u64::from)
}

pub struct OutputValidator {
    /// (index, value_size)
    pub oversized_outputs: Vec<(usize, u32)>,
    /// (index, actual_amount, min_amount)
    pub outputs_below_min_ada: Vec<(usize, i128, i128)>,
    pub max_value_size: u32,
}

/// `prefix` followed by the decimal writing of `index`.
pub fn indexed_location(prefix: &str, index: u64) -> (r: String)
    ensures
        r@ == prefix@ + decimal(index as nat),
{
    let mut s = string_of(prefix);
    push_decimal(&mut s, index as u128);
    s
}

/// The location of output `i`.
pub open spec fn output_location(i: nat) -> Seq<char> {
    "transaction.body.outputs."@ + decimal(i)
}

/// The outputs whose value is bigger than allowed, with their size.
pub open spec fn oversized_spec(outputs: Seq<OutputFacts>, max_value_size: u32) -> Seq<(usize, u32)>
    decreases outputs.len(),
{
    if outputs.len() == 0 {
        Seq::empty()
    } else {
        let rest = oversized_spec(outputs.drop_last(), max_value_size);
        let size = outputs.last().value_size as u32;
        if size > max_value_size {
            rest.push(((outputs.len() - 1) as usize, size))
        } else {
            rest
        }
    }
}

/// The outputs holding less lovelace than their minimum, with both amounts.
pub open spec fn below_min_spec(outputs: Seq<OutputFacts>, coins_per_byte: u64) -> Seq<(usize, i128, i128)>
    decreases outputs.len(),
{
    if outputs.len() == 0 {
        Seq::empty()
    } else {
        let rest = below_min_spec(outputs.drop_last(), coins_per_byte);
        let o = outputs.last();
        match min_ada_reading(o.output_cbor@, coins_per_byte) {
            Some(m) => if (o.coin as int) < (m as int) {
                rest.push(((outputs.len() - 1) as usize, o.coin as i128, m as i128))
            } else {
                rest
            },
            None => rest,
        }
    }
}

/// The errors of the output check, in its order: all oversized outputs, then
/// all outputs below their minimum.
pub open spec fn output_errors_spec(v: &OutputValidator) -> Seq<(Phase1ErrorView, Seq<Seq<char>>)> {
    v.oversized_outputs@.map_values(
        |o: (usize, u32)|
            (
                Phase1ErrorView::OutputTooBigUTxO { actual_size: o.1, max_size: v.max_value_size },
                seq![output_location(o.0 as nat)],
            ),
    ) + v.outputs_below_min_ada@.map_values(
        |o: (usize, i128, i128)|
            (
                Phase1ErrorView::OutputTooSmallUTxO { output_amount: o.1, min_amount: o.2 },
                seq![output_location(o.0 as nat)],
            ),
    )
}

/// An output whose lovelace is below the minimum computed for it is listed,
/// whatever its position, with its index, its lovelace and that minimum.
pub proof fn law_every_short_output_is_listed(outputs: Seq<OutputFacts>, coins_per_byte: u64, i: int)
    requires
        0 <= i < outputs.len() <= usize::MAX,
        min_ada_reading(outputs[i].output_cbor@, coins_per_byte) matches Some(m) && (outputs[i].coin as int) < (
        m as int),
    ensures
        below_min_spec(outputs, coins_per_byte).contains(
            (
                i as usize,
                outputs[i].coin as i128,
                min_ada_reading(outputs[i].output_cbor@, coins_per_byte)->Some_0 as i128,
            ),
        ),
    decreases outputs.len(),
{
    let p = outputs.drop_last();
    let x = (
        i as usize,
        outputs[i].coin as i128,
        min_ada_reading(outputs[i].output_cbor@, coins_per_byte)->Some_0 as i128,
    );
    let b = below_min_spec(outputs, coins_per_byte);
    if i < outputs.len() - 1 {
        assert(p[i] == outputs[i]);
        law_every_short_output_is_listed(p, coins_per_byte, i);
        let rest = below_min_spec(p, coins_per_byte);
        let j = choose|j: int| 0 <= j < rest.len() && rest[j] == x;
        assert(b[j] == x);
    } else {
        assert(outputs.last() == outputs[i]);
        assert(b[below_min_spec(p, coins_per_byte).len() as int] == x);
    }
}

/// Only outputs below their minimum are listed: each entry is the index of
/// an output, its lovelace and its computed minimum, the lovelace below the
/// minimum; and the entries come in the order of the outputs, each once.
pub proof fn law_only_short_outputs_are_listed(outputs: Seq<OutputFacts>, coins_per_byte: u64)
    requires
        outputs.len() <= usize::MAX,
    ensures
        forall|j: int|
            #![trigger below_min_spec(outputs, coins_per_byte)[j]]
            0 <= j < below_min_spec(outputs, coins_per_byte).len() ==> {
                let e = below_min_spec(outputs, coins_per_byte)[j];
                &&& e.0 < outputs.len()
                &&& e.1 == outputs[e.0 as int].coin as i128
                &&& min_ada_reading(outputs[e.0 as int].output_cbor@, coins_per_byte) matches Some(m) && e.2
                    == m as i128 && (e.1 as int) < (e.2 as int)
            },
        forall|j: int, l: int|
            0 <= j < l < below_min_spec(outputs, coins_per_byte).len() ==> (#[trigger] below_min_spec(
                outputs,
                coins_per_byte,
            )[j]).0 < (#[trigger] below_min_spec(outputs, coins_per_byte)[l]).0,
    decreases outputs.len(),
{
    if outputs.len() > 0 {
        let p = outputs.drop_last();
        law_only_short_outputs_are_listed(p, coins_per_byte);
        let rest = below_min_spec(p, coins_per_byte);
        let b = below_min_spec(outputs, coins_per_byte);
        assert forall|j: int| 0 <= j < rest.len() implies (#[trigger] rest[j]).0 < p.len() && outputs[rest[j].0 as int]
            == p[rest[j].0 as int] by {}
        assert forall|j: int| #![trigger b[j]] 0 <= j < b.len() implies {
            let e = b[j];
            &&& e.0 < outputs.len()
            &&& e.1 == outputs[e.0 as int].coin as i128
            &&& min_ada_reading(outputs[e.0 as int].output_cbor@, coins_per_byte) matches Some(m) && e.2 == m as i128
                && (e.1 as int) < (e.2 as int)
        } by {
            if j < rest.len() {
                assert(b[j] == rest[j]);
            } else {
                assert(outputs.last() == outputs[outputs.len() - 1]);
            }
        }
        assert forall|j: int, l: int| 0 <= j < l < b.len() implies (#[trigger] b[j]).0 < (#[trigger] b[l]).0 by {
            if l < rest.len() {
                assert(b[j] == rest[j]);
                assert(b[l] == rest[l]);
            } else {
                assert(b[j] == rest[j]);
            }
        }
    }
}

impl OutputValidator {
    /// Collects the outputs that are too big or hold too little lovelace.
    pub fn new(outputs: &[OutputFacts], validation_input_context: &ValidationInputContext) -> (r: Self)
        ensures
            r.max_value_size == validation_input_context.protocol_parameters.max_value_size,
            r.oversized_outputs@ == oversized_spec(outputs@, r.max_value_size),
            r.outputs_below_min_ada@ == below_min_spec(
                outputs@,
                validation_input_context.protocol_parameters.ada_per_utxo_byte,
            ),
    {
        let max_value_size = validation_input_context.protocol_parameters.max_value_size;
        let coins_per_byte = validation_input_context.protocol_parameters.ada_per_utxo_byte;
        let mut oversized_outputs: Vec<(usize, u32)> = Vec::new();
        let mut outputs_below_min_ada: Vec<(usize, i128, i128)> = Vec::new();
        let n = outputs.len();
        let mut i: usize = 0;
        while i < n
            invariant
                n == outputs@.len(),
                i <= n,
                oversized_outputs@ == oversized_spec(outputs@.take(i as int), max_value_size),
                outputs_below_min_ada@ == below_min_spec(outputs@.take(i as int), coins_per_byte),
            decreases n - i,
        {
            proof {
                assert(outputs@.take(i + 1).drop_last() =~= outputs@.take(i as int));
                assert(outputs@.take(i + 1).last() == outputs@[i as int]);
            }
            let output = &outputs[i];
            let value_size = output.value_size as u32;
            if value_size > max_value_size {
                oversized_outputs.push((i, value_size));
            }
            if let Some(min_ada) = min_ada_for_output(output.output_cbor.as_slice(), coins_per_byte) {
                let min_ada_amount = min_ada as i128;
                let actual_ada_amount = output.coin as i128;
                if actual_ada_amount < min_ada_amount {
                    outputs_below_min_ada.push((i, actual_ada_amount, min_ada_amount));
                }
            }
            i += 1;
        }
        assert(outputs@.take(n as int) =~= outputs@);
        OutputValidator { oversized_outputs, outputs_below_min_ada, max_value_size }
    }

    /// An error for every oversized output, then one for every output below
    /// its minimum lovelace; no warnings.
    pub fn validate(&self) -> (r: ValidationResult)
        ensures
            errors_view(r.errors@) == output_errors_spec(self),
            r.warnings@.len() == 0,
    {
        let mut errors: Vec<ValidationPhase1Error> = Vec::new();
        let n = self.oversized_outputs.len();
        let mut i: usize = 0;
        while i < n
            invariant
                n == self.oversized_outputs@.len(),
                i <= n,
                errors_view(errors@) =~= output_errors_spec(self).take(i as int),
            decreases n - i,
        {
            let (index, value_size) = self.oversized_outputs[i];
            let e = ValidationPhase1Error::new(
                Phase1Error::OutputTooBigUTxO { actual_size: value_size, max_size: self.max_value_size },
                indexed_location("transaction.body.outputs.", index as u64),
            );
            let ghost prev = errors@;
            errors.push(e);
            proof {
                assert(errors_view(errors@) =~= errors_view(prev).push(e@));
                assert(output_errors_spec(self)[i as int] == e@);
                assert(output_errors_spec(self).take(i + 1) =~= output_errors_spec(self).take(
                    i as int,
                ).push(e@));
            }
            i += 1;
        }
        let m = self.outputs_below_min_ada.len();
        let mut k: usize = 0;
        while k < m
            invariant
                n == self.oversized_outputs@.len(),
                m == self.outputs_below_min_ada@.len(),
                k <= m,
                errors_view(errors@) =~= output_errors_spec(self).take(n + k),
            decreases m - k,
        {
            let (index, actual_amount, min_amount) = self.outputs_below_min_ada[k];
            let e = ValidationPhase1Error::new(
                Phase1Error::OutputTooSmallUTxO { output_amount: actual_amount, min_amount },
                indexed_location("transaction.body.outputs.", index as u64),
            );
            let ghost prev = errors@;
            errors.push(e);
            proof {
                assert(errors_view(errors@) =~= errors_view(prev).push(e@));
                assert(output_errors_spec(self)[n + k] == e@);
                assert(output_errors_spec(self).take(n + k + 1) =~= output_errors_spec(self).take(
                    n + k,
                ).push(e@));
            }
            k += 1;
        }
        assert(output_errors_spec(self).take(n + m) =~= output_errors_spec(self));
        ValidationResult::new_phase_1(errors, Vec::new())
    }
}

} // verus!
