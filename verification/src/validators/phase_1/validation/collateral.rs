//! Collateral: its inputs, its amount, its return and the fields that declare
//! them.
use vstd::prelude::*;

use crate::common::TxInput;
use crate::text::{decimal, string_of};
use crate::validators::phase_1::errors::{
    errors_view, opt_item, push_error, push_warning, warnings_view, Phase1Error, Phase1ErrorView,
    Phase1Warning, Phase1WarningView, ValidationPhase1Error, ValidationPhase1Warning, ValidationResult,
};
use crate::validators::phase_1::helpers::{
    address_reading, csl_tx_input_to_string, string_to_csl_address, tx_input_text, AddressKind,
};
use crate::validators::phase_1::input_contexts::{found_utxo, UtxoInputContext, ValidationInputContext};
use crate::validators::phase_1::validation::output::{indexed_location, min_ada_for_output, min_ada_reading};
use crate::validators::phase_1::value::{
    add_all_fits, added_all, amounts_coins, amounts_entries, amounts_fit, set_policies, AssetEntry,
    CslValueFacts, Value,
};

verus! {

/// Why a collateral input is not as it should be.
#[derive(Debug, Clone, Copy, PartialEq, Eq, Structural)]
pub enum InvalidInputType {
    PaymentCredentialIsScript,
    AddressIsReward,
    HasNonAdaAssets,
}

/// The collateral return output: its value and its encoding.
#[derive(Debug, Clone)]
pub struct CollateralReturnFacts {
    pub amount: CslValueFacts,
    pub output_cbor: Vec<u8>,
}

/// What the collateral check reads of a transaction.
#[derive(Debug, Clone)]
pub struct CollateralTxFacts {
    /// The collateral inputs (none when the field is absent).
    pub collateral_inputs: Vec<TxInput>,
    pub collateral_return: Option<CollateralReturnFacts>,
    pub total_collateral: Option<u64>,
    pub fee: u64,
    /// The number of redeemers of the witness set.
    pub redeemer_count: usize,
}

pub struct CollateralValidator {
    pub invalid_inputs: Vec<(TxInput, u32, InvalidInputType)>,
    pub total_input: Value,
    pub collateral_return: Option<Value>,
    pub total_collateral: Option<i128>,
    pub actual_collateral: Value,
    pub estimated_minimal_collateral: i128,
    pub actual_number_of_inputs: u32,
    pub max_number_of_inputs: u32,
    pub need_collateral: bool,
    pub min_ada_for_collateral_return: Option<i128>,
}

// ---------------------------------------------------------------------------
// Specification
// ---------------------------------------------------------------------------

/// The amounts held by the UTxO an input spends (none when it is unknown).
pub open spec fn input_amounts(i: TxInput, utxos: Seq<UtxoInputContext>) -> Seq<crate::common::Asset> {
    match found_utxo(utxos, i.tx_hash@, i.output_index) {
        Some(u) => u.utxo.output.amount@,
        None => Seq::empty(),
    }
}

/// The lovelace of the UTxOs the inputs spend.
pub open spec fn total_input_coins(inputs: Seq<TxInput>, utxos: Seq<UtxoInputContext>) -> int
    decreases inputs.len(),
{
    if inputs.len() == 0 {
        0
    } else {
        total_input_coins(inputs.drop_last(), utxos) + amounts_coins(input_amounts(inputs.last(), utxos))
    }
}

/// The bundle of the UTxOs the inputs spend, added in turn.
pub open spec fn total_input_entries(inputs: Seq<TxInput>, utxos: Seq<UtxoInputContext>) -> Seq<AssetEntry>
    decreases inputs.len(),
{
    if inputs.len() == 0 {
        Seq::empty()
    } else {
        added_all(
            total_input_entries(inputs.drop_last(), utxos),
            amounts_entries(input_amounts(inputs.last(), utxos)),
            false,
        )
    }
}

/// Every amount parses and no partial sum leaves the range of `i128`.
pub open spec fn total_input_fits(inputs: Seq<TxInput>, utxos: Seq<UtxoInputContext>) -> bool
    decreases inputs.len(),
{
    if inputs.len() == 0 {
        true
    } else {
        &&& total_input_fits(inputs.drop_last(), utxos)
        &&& amounts_fit(input_amounts(inputs.last(), utxos))
        &&& i128::MIN <= total_input_coins(inputs, utxos) <= i128::MAX
        &&& add_all_fits(
            total_input_entries(inputs.drop_last(), utxos),
            amounts_entries(input_amounts(inputs.last(), utxos)),
            false,
        )
    }
}

/// The collateral input `i` spends a UTxO locked by a script (and not held
/// at a reward address).
pub open spec fn locked_by_script(i: TxInput, utxos: Seq<UtxoInputContext>) -> bool {
    match found_utxo(utxos, i.tx_hash@, i.output_index) {
        Some(u) => match address_reading(u.utxo.output.address@) {
            Ok(a) => a.0 != AddressKind::Reward && match a.1 {
                Some(c) => c.0,
                None => false,
            },
            Err(_) => false,
        },
        None => false,
    }
}

/// The collateral input `i` spends a UTxO held at a reward address.
pub open spec fn at_reward_address(i: TxInput, utxos: Seq<UtxoInputContext>) -> bool {
    match found_utxo(utxos, i.tx_hash@, i.output_index) {
        Some(u) => match address_reading(u.utxo.output.address@) {
            Ok(a) => a.0 == AddressKind::Reward,
            Err(_) => false,
        },
        None => false,
    }
}

/// The collateral input `i` spends a UTxO holding assets other than lovelace.
pub open spec fn holds_non_ada(i: TxInput, utxos: Seq<UtxoInputContext>) -> bool {
    match found_utxo(utxos, i.tx_hash@, i.output_index) {
        Some(u) => exists|k: int|
            0 <= k < u.utxo.output.amount@.len() && !crate::common::is_ada_unit(
                u.utxo.output.amount@[k].unit@,
            ),
        None => false,
    }
}

/// The check that an invalid input of type `t` fails.
pub open spec fn flag_check(t: InvalidInputType, i: TxInput, utxos: Seq<UtxoInputContext>) -> bool {
    match t {
        InvalidInputType::PaymentCredentialIsScript => locked_by_script(i, utxos),
        InvalidInputType::AddressIsReward => at_reward_address(i, utxos),
        InvalidInputType::HasNonAdaAssets => holds_non_ada(i, utxos),
    }
}

/// The collateral inputs failing the check of `t`, with their position.
pub open spec fn flagged_inputs(inputs: Seq<TxInput>, utxos: Seq<UtxoInputContext>, t: InvalidInputType) -> Seq<
    (TxInput, u32, InvalidInputType),
>
    decreases inputs.len(),
{
    if inputs.len() == 0 {
        Seq::empty()
    } else {
        let rest = flagged_inputs(inputs.drop_last(), utxos, t);
        if flag_check(t, inputs.last(), utxos) {
            rest.push((inputs.last(), (inputs.len() - 1) as u32, t))
        } else {
            rest
        }
    }
}

/// The invalid collateral inputs: those locked by a script, then those at a
/// reward address, then those holding other assets than lovelace.
pub open spec fn invalid_inputs_spec(inputs: Seq<TxInput>, utxos: Seq<UtxoInputContext>) -> Seq<
    (TxInput, u32, InvalidInputType),
> {
    flagged_inputs(inputs, utxos, InvalidInputType::PaymentCredentialIsScript) + flagged_inputs(
        inputs,
        utxos,
        InvalidInputType::AddressIsReward,
    ) + flagged_inputs(inputs, utxos, InvalidInputType::HasNonAdaAssets)
}

pub open spec fn collateral_location() -> Seq<char> {
    "transaction.body.collateral"@
}

pub open spec fn total_collateral_location() -> Seq<char> {
    "transaction.body.total_collateral"@
}

pub open spec fn collateral_return_location() -> Seq<char> {
    "transaction.body.collateral_return"@
}

pub open spec fn collateral_input_location(i: u32) -> Seq<char> {
    "transaction.body.collateral."@ + decimal(i as nat)
}

/// One error per invalid input of type `t`, built by `f`.
pub open spec fn input_errors(
    s: Seq<(TxInput, u32, InvalidInputType)>,
    t: InvalidInputType,
    f: spec_fn(Seq<char>) -> Phase1ErrorView,
) -> Seq<(Phase1ErrorView, Seq<Seq<char>>)>
    decreases s.len(),
{
    if s.len() == 0 {
        Seq::empty()
    } else {
        let rest = input_errors(s.drop_last(), t, f);
        if s.last().2 == t {
            rest.push((f(tx_input_text(s.last().0)), seq![collateral_input_location(s.last().1)]))
        } else {
            rest
        }
    }
}

/// One warning per invalid input at a reward address.
pub open spec fn reward_input_warnings(s: Seq<(TxInput, u32, InvalidInputType)>) -> Seq<
    (Phase1WarningView, Seq<Seq<char>>),
>
    decreases s.len(),
{
    if s.len() == 0 {
        Seq::empty()
    } else {
        let rest = reward_input_warnings(s.drop_last());
        if s.last().2 == InvalidInputType::AddressIsReward {
            rest.push(
                (
                    Phase1WarningView::CollateralInputUsesRewardAddress {
                        invalid_collateral: tx_input_text(s.last().0),
                    },
                    seq![collateral_input_location(s.last().1)],
                ),
            )
        } else {
            rest
        }
    }
}

pub open spec fn non_ada_error(t: Seq<char>) -> Phase1ErrorView {
    Phase1ErrorView::CollateralInputContainsNonAdaAssets { collateral_input: t }
}

pub open spec fn locked_error(t: Seq<char>) -> Phase1ErrorView {
    Phase1ErrorView::CollateralIsLockedByScript { invalid_collateral: t }
}

/// Too many collateral inputs for the limit, and no collateral input where
/// redeemers need collateral.
pub open spec fn count_errors(v: &CollateralValidator) -> Seq<(Phase1ErrorView, Seq<Seq<char>>)> {
    opt_item(
        v.actual_number_of_inputs > v.max_number_of_inputs,
        (
            Phase1ErrorView::TooManyCollateralInputs {
                actual_count: v.actual_number_of_inputs,
                max_count: v.max_number_of_inputs,
            },
            seq![collateral_location()],
        ),
    ) + opt_item(
        v.need_collateral && v.actual_number_of_inputs == 0,
        (Phase1ErrorView::NoCollateralInputs, seq![collateral_location()]),
    )
}

/// The declared total (or, without one, the inputs' lovelace) against the
/// minimal collateral, and the declared total against the collateral given.
pub open spec fn total_errors(v: &CollateralValidator) -> Seq<(Phase1ErrorView, Seq<Seq<char>>)> {
    let est = v.estimated_minimal_collateral;
    match v.total_collateral {
        Some(t) => opt_item(
            t < est,
            (
                Phase1ErrorView::InsufficientCollateral { total_collateral: t, required_collateral: est },
                seq![total_collateral_location()],
            ),
        ) + opt_item(
            v.actual_collateral.coins != t,
            (
                Phase1ErrorView::IncorrectTotalCollateralField {
                    declared_total: t,
                    actual_sum: v.actual_collateral.coins,
                },
                seq![total_collateral_location()],
            ),
        ),
        None => opt_item(
            v.total_input.coins < est,
            (
                Phase1ErrorView::InsufficientCollateral {
                    total_collateral: v.total_input.coins,
                    required_collateral: est,
                },
                seq![collateral_location()],
            ),
        ),
    }
}

/// With a collateral return, the collateral given must hold lovelace only;
/// without one, every input must.
pub open spec fn assets_errors(v: &CollateralValidator) -> Seq<(Phase1ErrorView, Seq<Seq<char>>)> {
    if v.collateral_return is Some {
        opt_item(
            v.actual_collateral.assets@.len() != 0,
            (Phase1ErrorView::CalculatedCollateralContainsNonAdaAssets, seq![collateral_location()]),
        )
    } else {
        input_errors(v.invalid_inputs@, InvalidInputType::HasNonAdaAssets, |t: Seq<char>| non_ada_error(t))
    }
}

/// The lovelace of the collateral return against its minimum lovelace.
pub open spec fn return_errors(v: &CollateralValidator) -> Seq<(Phase1ErrorView, Seq<Seq<char>>)> {
    match (v.collateral_return, v.min_ada_for_collateral_return) {
        (Some(ret), Some(m)) => opt_item(
            ret.coins < m,
            (
                Phase1ErrorView::CollateralReturnTooSmall { output_amount: ret.coins, min_amount: m },
                seq![collateral_return_location()],
            ),
        ),
        _ => Seq::empty(),
    }
}

/// The errors of the collateral check, in its order.
pub open spec fn collateral_errors_spec(v: &CollateralValidator) -> Seq<(Phase1ErrorView, Seq<Seq<char>>)> {
    count_errors(v) + total_errors(v) + assets_errors(v) + return_errors(v) + input_errors(
        v.invalid_inputs@,
        InvalidInputType::PaymentCredentialIsScript,
        |t: Seq<char>| locked_error(t),
    )
}

/// Collateral given where no redeemer needs it.
pub open spec fn unnecessary_warnings(v: &CollateralValidator) -> Seq<(Phase1WarningView, Seq<Seq<char>>)> {
    opt_item(
        !v.need_collateral && (v.actual_number_of_inputs > 0 || v.total_collateral is Some),
        (Phase1WarningView::CollateralIsUnnecessary, seq![collateral_location()]),
    )
}

/// A collateral return without a declared total.
pub open spec fn undeclared_total_warnings(v: &CollateralValidator) -> Seq<(Phase1WarningView, Seq<Seq<char>>)> {
    opt_item(
        v.total_collateral is None && v.collateral_return is Some,
        (Phase1WarningView::TotalCollateralIsNotDeclared, seq![total_collateral_location()]),
    )
}

/// The warnings of the collateral check, in its order.
pub open spec fn collateral_warnings_spec(v: &CollateralValidator) -> Seq<
    (Phase1WarningView, Seq<Seq<char>>),
> {
    unnecessary_warnings(v) + undeclared_total_warnings(v) + reward_input_warnings(v.invalid_inputs@)
}

// ---------------------------------------------------------------------------
// Building the validator
// ---------------------------------------------------------------------------

proof fn lemma_total_input_fits_prefix(inputs: Seq<TxInput>, utxos: Seq<UtxoInputContext>, k: int)
    requires
        total_input_fits(inputs, utxos),
        0 <= k <= inputs.len(),
    ensures
        total_input_fits(inputs.take(k), utxos),
    decreases inputs.len(),
{
    if k == inputs.len() {
        assert(inputs.take(k) =~= inputs);
    } else {
        assert(inputs.take(k) =~= inputs.drop_last().take(k));
        lemma_total_input_fits_prefix(inputs.drop_last(), utxos, k);
    }
}

/// A copy of an input reference.
pub fn copy_tx_input(i: &TxInput) -> (r: TxInput)
    ensures
        r == *i,
{
    TxInput { output_index: i.output_index, tx_hash: i.tx_hash.clone() }
}

/// The value of the UTxOs the collateral inputs spend: for each input, the
/// value of its UTxO when the context knows it, nothing otherwise.
fn calculate_total_input(inputs: &Vec<TxInput>, ctx: &ValidationInputContext) -> (r: Value)
    requires
        total_input_fits(inputs@, ctx.utxo_set@),
    ensures
        r.coins == total_input_coins(inputs@, ctx.utxo_set@),
        r.assets@ == total_input_entries(inputs@, ctx.utxo_set@),
{
    let n = inputs.len();
    let mut acc = Value::new_from_coins(0);
    let mut i: usize = 0;
    while i < n
        invariant
            n == inputs@.len(),
            i <= n,
            total_input_fits(inputs@, ctx.utxo_set@),
            acc.coins == total_input_coins(inputs@.take(i as int), ctx.utxo_set@),
            acc.assets@ == total_input_entries(inputs@.take(i as int), ctx.utxo_set@),
        decreases n - i,
    {
        proof {
            lemma_total_input_fits_prefix(inputs@, ctx.utxo_set@, i + 1);
            assert(inputs@.take(i + 1).drop_last() =~= inputs@.take(i as int));
            assert(inputs@.take(i + 1).last() == inputs@[i as int]);
        }
        let input = &inputs[i];
        let value = match ctx.find_utxo(input.tx_hash.clone(), input.output_index) {
            Some(utxo) => Value::new_from_common_assets(&utxo.utxo.output.amount),
            None => Value::new_from_coins(0),
        };
        acc.add_ref(&value);
        i += 1;
    }
    assert(inputs@.take(n as int) =~= inputs@);
    acc
}

/// Whether the context knows the UTxO the input spends and it satisfies the
/// check of `t`.
fn input_is_flagged(input: &TxInput, ctx: &ValidationInputContext, t: InvalidInputType) -> (r: bool)
    ensures
        r == flag_check(t, *input, ctx.utxo_set@),
{
    match ctx.find_utxo(input.tx_hash.clone(), input.output_index) {
        Some(utxo) => match t {
            InvalidInputType::HasNonAdaAssets => utxo.utxo.output.has_non_ada_assets(),
            _ => match string_to_csl_address(&utxo.utxo.output.address) {
                Ok(address) => {
                    let is_reward = address.kind == AddressKind::Reward;
                    if t == InvalidInputType::AddressIsReward {
                        is_reward
                    } else {
                        !is_reward && match &address.payment_cred {
                            Some(crate::validators::phase_1::common::LocalCredential::ScriptHash(_)) => true,
                            _ => false,
                        }
                    }
                },
                Err(_) => false,
            },
        },
        None => false,
    }
}

/// The collateral inputs flagged by the check of `t`, with their position.
fn find_flagged_inputs(inputs: &Vec<TxInput>, ctx: &ValidationInputContext, t: InvalidInputType) -> (r: Vec<
    (TxInput, u32, InvalidInputType),
>)
    ensures
        r@ == flagged_inputs(inputs@, ctx.utxo_set@, t),
{
    let n = inputs.len();
    let mut r: Vec<(TxInput, u32, InvalidInputType)> = Vec::new();
    let mut i: usize = 0;
    while i < n
        invariant
            n == inputs@.len(),
            i <= n,
            r@ == flagged_inputs(inputs@.take(i as int), ctx.utxo_set@, t),
        decreases n - i,
    {
        proof {
            assert(inputs@.take(i + 1).drop_last() =~= inputs@.take(i as int));
            assert(inputs@.take(i + 1).last() == inputs@[i as int]);
        }
        let flagged = input_is_flagged(&inputs[i], ctx, t);
        if flagged {
            #[verifier::truncate]
            let position = i as u32;
            r.push((copy_tx_input(&inputs[i]), position, t));
        }
        i += 1;
    }
    assert(inputs@.take(n as int) =~= inputs@);
    r
}

/// The value of the collateral return, when there is one.
fn calculate_total_output(collateral_return: &Option<CollateralReturnFacts>) -> (r: Option<Value>)
    ensures
        r is Some == collateral_return is Some,
        r matches Some(v) ==> v.coins == collateral_return.unwrap().amount.coin && v.assets@ == match collateral_return.unwrap().amount.multiasset {
            Some(ps) => set_policies(Seq::empty(), ps@),
            None => Seq::empty(),
        },
{
    match collateral_return {
        Some(c) => {
            let mut v = Value::new_from_csl_value(&c.amount);
            v.coins = c.amount.coin as i128;
            Some(v)
        },
        None => None,
    }
}

/// The declared total collateral, when there is one.
fn get_total_collateral(total_collateral: Option<u64>) -> (r: Option<i128>)
    ensures
        r == match total_collateral {
            Some(t) => Some(t as i128),
            None => None::<i128>,
        },
{
    match total_collateral {
        Some(t) => Some(t as i128),
        None => None,
    }
}

/// The minimal collateral: the fee times the collateral percentage, over 100.
fn calculate_estimated_minimal_collateral(fee: u64, collateral_percentage: u32) -> (r: i128)
    ensures
        r == fee as int * collateral_percentage as int / 100,
{
    let fee = fee as i128;
    let percentage = collateral_percentage as i128;
    assert(0 <= fee * percentage <= 0xffff_ffff_ffff_ffff * 0xffff_ffff) by (nonlinear_arith)
        requires
            0 <= fee <= 0xffff_ffff_ffff_ffff,
            0 <= percentage <= 0xffff_ffff,
    ;
    fee * percentage / 100
}

/// Collateral is needed when the transaction has redeemers.
fn is_need_collateral(redeemer_count: usize) -> (r: bool)
    ensures
        r == (redeemer_count > 0),
{
    redeemer_count > 0
}

/// The minimum lovelace of the collateral return, when there is one and the
/// serialization library computes it.
fn calculate_min_ada_for_collateral_return(collateral_return: &Option<CollateralReturnFacts>, coins_per_byte: u64) -> (r:
    Option<i128>)
    ensures
        r == match *collateral_return {
            Some(c) => match min_ada_reading(c.output_cbor@, coins_per_byte) {
                Some(m) => Some(m as i128),
                None => None::<i128>,
            },
            None => None::<i128>,
        },
{
    match collateral_return {
        Some(c) => match min_ada_for_output(c.output_cbor.as_slice(), coins_per_byte) {
            Some(m) => Some(m as i128),
            None => None,
        },
        None => None,
    }
}

/// The total input, less the collateral return when there is one, keeps
/// within the range of `i128`.
pub open spec fn actual_collateral_fits(total_coins: int, total_entries: Seq<AssetEntry>, ret: Option<
    CollateralReturnFacts,
>) -> bool {
    match ret {
        Some(r) => {
            let ret_entries = match r.amount.multiasset {
                Some(ps) => set_policies(Seq::empty(), ps@),
                None => Seq::empty(),
            };
            i128::MIN <= total_coins - r.amount.coin <= i128::MAX && add_all_fits(total_entries, ret_entries, true)
        },
        None => true,
    }
}

impl CollateralValidator {
    /// Gathers what the collateral check needs: the value of the collateral
    /// inputs, the collateral return, the declared total, the collateral
    /// actually given, the minimal collateral (fee times the collateral
    /// percentage, over 100), the invalid collateral inputs, the number of
    /// collateral inputs against the limit, whether redeemers need
    /// collateral, and the minimum lovelace of the collateral return.
    pub fn new(tx: &CollateralTxFacts, validation_input_context: &ValidationInputContext) -> (r: Self)
        requires
            total_input_fits(tx.collateral_inputs@, validation_input_context.utxo_set@),
            actual_collateral_fits(
                total_input_coins(tx.collateral_inputs@, validation_input_context.utxo_set@),
                total_input_entries(tx.collateral_inputs@, validation_input_context.utxo_set@),
                tx.collateral_return,
            ),
        ensures
            r.total_input.coins == total_input_coins(tx.collateral_inputs@, validation_input_context.utxo_set@),
            r.total_input.assets@ == total_input_entries(
                tx.collateral_inputs@,
                validation_input_context.utxo_set@,
            ),
            r.collateral_return is Some == tx.collateral_return is Some,
            r.collateral_return matches Some(v) ==> v.coins == tx.collateral_return.unwrap().amount.coin && v.assets@ == match tx.collateral_return.unwrap().amount.multiasset {
                Some(ps) => set_policies(Seq::empty(), ps@),
                None => Seq::empty(),
            },
            r.total_collateral == match tx.total_collateral {
                Some(t) => Some(t as i128),
                None => None::<i128>,
            },
            r.actual_collateral.coins == r.total_input.coins - match r.collateral_return {
                Some(v) => v.coins,
                None => 0,
            },
            r.actual_collateral.assets@ == match r.collateral_return {
                Some(v) => added_all(r.total_input.assets@, v.assets@, true),
                None => r.total_input.assets@,
            },
            r.estimated_minimal_collateral == tx.fee as int
                * validation_input_context.protocol_parameters.collateral_percentage as int / 100,
            r.invalid_inputs@ == invalid_inputs_spec(tx.collateral_inputs@, validation_input_context.utxo_set@),
            r.actual_number_of_inputs == tx.collateral_inputs@.len() as u32,
            r.max_number_of_inputs == validation_input_context.protocol_parameters.max_collateral_inputs,
            r.need_collateral == (tx.redeemer_count > 0),
            r.min_ada_for_collateral_return == match tx.collateral_return {
                Some(c) => match min_ada_reading(
                    c.output_cbor@,
                    validation_input_context.protocol_parameters.ada_per_utxo_byte,
                ) {
                    Some(m) => Some(m as i128),
                    None => None::<i128>,
                },
                None => None::<i128>,
            },
    {
        let ctx = validation_input_context;
        let total_input = calculate_total_input(&tx.collateral_inputs, ctx);
        let collateral_return = calculate_total_output(&tx.collateral_return);
        #[verifier::truncate]
        let number_of_inputs = tx.collateral_inputs.len() as u32;
        let total_collateral = get_total_collateral(tx.total_collateral);
        let actual_collateral = match &collateral_return {
            Some(ret) => total_input.difference(ret),
            None => total_input.duplicate(),
        };
        let estimated_minimal_collateral = calculate_estimated_minimal_collateral(
            tx.fee,
            ctx.protocol_parameters.collateral_percentage,
        );
        let mut invalid_inputs = find_flagged_inputs(
            &tx.collateral_inputs,
            ctx,
            InvalidInputType::PaymentCredentialIsScript,
        );
        let mut reward = find_flagged_inputs(&tx.collateral_inputs, ctx, InvalidInputType::AddressIsReward);
        let mut non_ada = find_flagged_inputs(&tx.collateral_inputs, ctx, InvalidInputType::HasNonAdaAssets);
        invalid_inputs.append(&mut reward);
        invalid_inputs.append(&mut non_ada);
        let min_ada_for_collateral_return = calculate_min_ada_for_collateral_return(
            &tx.collateral_return,
            ctx.protocol_parameters.ada_per_utxo_byte,
        );
        CollateralValidator {
            invalid_inputs,
            total_input,
            collateral_return,
            total_collateral,
            actual_collateral,
            estimated_minimal_collateral,
            actual_number_of_inputs: number_of_inputs,
            max_number_of_inputs: ctx.protocol_parameters.max_collateral_inputs,
            need_collateral: is_need_collateral(tx.redeemer_count),
            min_ada_for_collateral_return,
        }
    }
}

impl CollateralValidator {
    /// The errors and warnings of the collateral rules: too many inputs, no
    /// collateral input where a redeemer needs one, a total below the minimal
    /// collateral or not matching what is given, other assets than lovelace in
    /// the collateral, a return whose own lovelace is below its minimum,
    /// inputs locked by a script; collateral that no redeemer needs, a return
    /// without a declared total, inputs at a reward address.
    pub fn validate(&self) -> (r: ValidationResult)
        ensures
            errors_view(r.errors@) == collateral_errors_spec(self),
            warnings_view(r.warnings@) == collateral_warnings_spec(self),
    {
        let mut errors: Vec<ValidationPhase1Error> = Vec::new();
        let mut warnings: Vec<ValidationPhase1Warning> = Vec::new();
        if self.actual_number_of_inputs > self.max_number_of_inputs {
            push_error(
                &mut errors,
                ValidationPhase1Error::new(
                    Phase1Error::TooManyCollateralInputs {
                        actual_count: self.actual_number_of_inputs,
                        max_count: self.max_number_of_inputs,
                    },
                    string_of("transaction.body.collateral"),
                ),
            );
        }
        if self.need_collateral && self.actual_number_of_inputs == 0 {
            push_error(
                &mut errors,
                ValidationPhase1Error::new(Phase1Error::NoCollateralInputs, string_of("transaction.body.collateral")),
            );
        }
        assert(errors_view(errors@) =~= count_errors(self));
        if !self.need_collateral && (self.actual_number_of_inputs > 0 || self.total_collateral.is_some()) {
            push_warning(
                &mut warnings,
                ValidationPhase1Warning::new(
                    Phase1Warning::CollateralIsUnnecessary,
                    string_of("transaction.body.collateral"),
                ),
            );
        }
        assert(warnings_view(warnings@) =~= unnecessary_warnings(self));
        if let Some(total_collateral) = self.total_collateral {
            if total_collateral < self.estimated_minimal_collateral {
                push_error(
                    &mut errors,
                    ValidationPhase1Error::new(
                        Phase1Error::InsufficientCollateral {
                            total_collateral,
                            required_collateral: self.estimated_minimal_collateral,
                        },
                        string_of("transaction.body.total_collateral"),
                    ),
                );
            }
            if self.actual_collateral.coins != total_collateral {
                push_error(
                    &mut errors,
                    ValidationPhase1Error::new(
                        Phase1Error::IncorrectTotalCollateralField {
                            declared_total: total_collateral,
                            actual_sum: self.actual_collateral.coins,
                        },
                        string_of("transaction.body.total_collateral"),
                    ),
                );
            }
        } else {
            if self.total_input.coins < self.estimated_minimal_collateral {
                push_error(
                    &mut errors,
                    ValidationPhase1Error::new(
                        Phase1Error::InsufficientCollateral {
                            total_collateral: self.total_input.coins,
                            required_collateral: self.estimated_minimal_collateral,
                        },
                        string_of("transaction.body.collateral"),
                    ),
                );
            }
            if self.collateral_return.is_some() {
                push_warning(
                    &mut warnings,
                    ValidationPhase1Warning::new(
                        Phase1Warning::TotalCollateralIsNotDeclared,
                        string_of("transaction.body.total_collateral"),
                    ),
                );
            }
        }
        assert(errors_view(errors@) =~= count_errors(self) + total_errors(self));
        assert(warnings_view(warnings@) =~= unnecessary_warnings(self) + undeclared_total_warnings(self));
        let ghost base_e = errors_view(errors@);
        let ghost base_w = warnings_view(warnings@);
        let n = self.invalid_inputs.len();
        if self.collateral_return.is_some() {
            if self.actual_collateral.has_assets() {
                push_error(
                    &mut errors,
                    ValidationPhase1Error::new(
                        Phase1Error::CalculatedCollateralContainsNonAdaAssets,
                        string_of("transaction.body.collateral"),
                    ),
                );
            }
            assert(errors_view(errors@) =~= base_e + assets_errors(self));
        } else {
            let mut i: usize = 0;
            while i < n
                invariant
                    n == self.invalid_inputs@.len(),
                    i <= n,
                    self.collateral_return is None,
                    errors_view(errors@) == base_e + input_errors(
                        self.invalid_inputs@.take(i as int),
                        InvalidInputType::HasNonAdaAssets,
                        |t: Seq<char>| non_ada_error(t),
                    ),
                decreases n - i,
            {
                proof {
                    assert(self.invalid_inputs@.take(i + 1).drop_last() =~= self.invalid_inputs@.take(i as int));
                }
                let input = &self.invalid_inputs[i];
                if input.2 == InvalidInputType::HasNonAdaAssets {
                    push_error(
                        &mut errors,
                        ValidationPhase1Error::new(
                            Phase1Error::CollateralInputContainsNonAdaAssets {
                                collateral_input: csl_tx_input_to_string(&input.0),
                            },
                            indexed_location("transaction.body.collateral.", input.1 as u64),
                        ),
                    );
                }
                i += 1;
            }
            assert(self.invalid_inputs@.take(n as int) =~= self.invalid_inputs@);
        }
        assert(errors_view(errors@) =~= count_errors(self) + total_errors(self) + assets_errors(self));
        if let (Some(ret), Some(min_ada_for_collateral_return)) = (&self.collateral_return, self.min_ada_for_collateral_return) {
            if ret.coins < min_ada_for_collateral_return {
                push_error(
                    &mut errors,
                    ValidationPhase1Error::new(
                        Phase1Error::CollateralReturnTooSmall {
                            output_amount: ret.coins,
                            min_amount: min_ada_for_collateral_return,
                        },
                        string_of("transaction.body.collateral_return"),
                    ),
                );
            }
        }
        assert(errors_view(errors@) =~= count_errors(self) + total_errors(self) + assets_errors(self)
            + return_errors(self));
        let ghost base_e2 = errors_view(errors@);
        let mut k: usize = 0;
        while k < n
            invariant
                n == self.invalid_inputs@.len(),
                k <= n,
                errors_view(errors@) == base_e2 + input_errors(
                    self.invalid_inputs@.take(k as int),
                    InvalidInputType::PaymentCredentialIsScript,
                    |t: Seq<char>| locked_error(t),
                ),
                warnings_view(warnings@) == base_w + reward_input_warnings(self.invalid_inputs@.take(k as int)),
            decreases n - k,
        {
            proof {
                assert(self.invalid_inputs@.take(k + 1).drop_last() =~= self.invalid_inputs@.take(k as int));
            }
            let invalid_input = &self.invalid_inputs[k];
            if invalid_input.2 == InvalidInputType::PaymentCredentialIsScript {
                push_error(
                    &mut errors,
                    ValidationPhase1Error::new(
                        Phase1Error::CollateralIsLockedByScript {
                            invalid_collateral: csl_tx_input_to_string(&invalid_input.0),
                        },
                        indexed_location("transaction.body.collateral.", invalid_input.1 as u64),
                    ),
                );
            } else if invalid_input.2 == InvalidInputType::AddressIsReward {
                push_warning(
                    &mut warnings,
                    ValidationPhase1Warning::new(
                        Phase1Warning::CollateralInputUsesRewardAddress {
                            invalid_collateral: csl_tx_input_to_string(&invalid_input.0),
                        },
                        indexed_location("transaction.body.collateral.", invalid_input.1 as u64),
                    ),
                );
            }
            k += 1;
        }
        assert(self.invalid_inputs@.take(n as int) =~= self.invalid_inputs@);
        ValidationResult::new(errors, warnings)
    }
}

} // verus!
