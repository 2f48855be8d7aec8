use cquisitor_lib::common::ExUnits;
use cquisitor_lib::validators::phase_2::errors::{
    Phase2Error, Phase2Warning, ValidationPhase2Error, ValidationPhase2Warning,
};
use cquisitor_lib::validators::phase_2::hints::{get_error_hint, get_warning_hint};
use cquisitor_lib::validators::phase_2::validation::{
    check_missed_utxos, collect_inputs, collect_redeemer_findings, input_to_request_format,
    redeemer_tag_to_tx_location, redeemer_to_tx_locations, EvalRedeemerResult, InputReference, RedeemerTag,
};

fn units(mem: u64, steps: u64) -> ExUnits {
    ExUnits { mem, steps }
}

#[test]
fn error_messages() {
    let e = Phase2Error::NoEnoughBudget { expected_budget: units(1, 2), actual_budget: units(3, 4) };
    assert_eq!(
        e.to_string(),
        "Not enough budget available. Expected: ExUnits { mem: 1, steps: 2 }, Actual: ExUnits { mem: 3, steps: 4 }"
    );
    assert_eq!(
        Phase2Error::InvalidRedeemerIndex { tag: "Spend".to_string(), index: 3 }.to_string(),
        "Invalid redeemer index for tag 'Spend': 3"
    );
    assert_eq!(Phase2Error::MachineError { error: "x".to_string() }.to_string(), "Plutus machine error: x");
    assert_eq!(
        Phase2Error::NativeScriptIsReferencedByRedeemer.to_string(),
        "Native script cannot be referenced by redeemer"
    );
    assert_eq!(
        Phase2Error::CostModelNotFound { language: "PlutusV3".to_string() }.to_string(),
        "Cost model not found for language: PlutusV3"
    );
    assert_eq!(Phase2Error::ScriptDecodeError { error: "e".to_string() }.to_string(), "Failed to decode script: e");
    assert_eq!(
        Phase2Error::BuildTxContextError { error: "e".to_string() }.to_string(),
        "Failed to build transaction context: e"
    );
    assert_eq!(
        Phase2Error::MissingScriptForRedeemer { error: "e".to_string() }.to_string(),
        "Missing script for redeemer: e"
    );
    let w = Phase2Warning::BudgetIsBiggerThanExpected { expected_budget: units(5, 6), actual_budget: units(7, 8) };
    assert_eq!(
        w.to_string(),
        "Budget is bigger than expected. Expected: ExUnits { mem: 5, steps: 6 }, Actual: ExUnits { mem: 7, steps: 8 }"
    );
}

#[test]
fn validation_errors_carry_message_locations_and_no_hint() {
    let e = ValidationPhase2Error::new(Phase2Error::MachineError { error: "x".to_string() }, "loc".to_string());
    assert_eq!(e.error_message, "Plutus machine error: x");
    assert_eq!(e.locations, vec!["loc".to_string()]);
    assert!(e.hint.is_none());
    let locs = vec!["a".to_string(), "b".to_string()];
    let e = ValidationPhase2Error::new_with_locations(Phase2Error::NativeScriptIsReferencedByRedeemer, &locs);
    assert_eq!(e.locations, locs);
    let w = ValidationPhase2Warning::new(
        Phase2Warning::BudgetIsBiggerThanExpected { expected_budget: units(1, 1), actual_budget: units(2, 2) },
        "l".to_string(),
    );
    assert_eq!(w.locations, vec!["l".to_string()]);
    assert!(w.hint.is_none());
    let w2 = ValidationPhase2Warning::new_with_locations(w.warning.clone(), &locs);
    assert_eq!(w2.locations, locs);
    assert!(get_error_hint(&e.error).is_none());
    assert!(get_warning_hint(&w.warning).is_none());
}

#[test]
fn redeemer_locations() {
    assert_eq!(redeemer_tag_to_tx_location(&RedeemerTag::Mint, 2), "transaction.body.mint.2");
    assert_eq!(redeemer_tag_to_tx_location(&RedeemerTag::Spend, 0), "transaction.body.inputs.0");
    assert_eq!(redeemer_tag_to_tx_location(&RedeemerTag::Cert, 1), "transaction.body.certs.1");
    assert_eq!(redeemer_tag_to_tx_location(&RedeemerTag::Propose, 4), "transaction.body.voting_proposals.4");
    assert_eq!(redeemer_tag_to_tx_location(&RedeemerTag::Vote, 5), "transaction.body.voting_procedures.5");
    assert_eq!(redeemer_tag_to_tx_location(&RedeemerTag::Reward, 6), "transaction.body.withdrawals.6");
    let r = EvalRedeemerResult {
        tag: RedeemerTag::Reward,
        index: 3,
        provided_ex_units: units(1, 1),
        calculated_ex_units: units(1, 1),
    };
    assert_eq!(
        redeemer_to_tx_locations(&r, 7),
        vec!["transaction.body.withdrawals.3".to_string(), "transaction.witness_set.redeemers.7".to_string()]
    );
}

#[test]
fn input_references() {
    assert_eq!(input_to_request_format(&[0xab, 0xcd], 1), "abcd#1");
    let inputs = vec![InputReference { transaction_id: vec![1], index: 0 }];
    let refs = vec![InputReference { transaction_id: vec![2], index: 1 }];
    let coll = vec![InputReference { transaction_id: vec![3], index: 2 }];
    assert_eq!(
        collect_inputs(&inputs, &refs, &coll),
        vec!["01#0".to_string(), "02#1".to_string(), "03#2".to_string()]
    );
}

#[test]
fn missed_utxos_are_listed() {
    let requested = vec!["a#0".to_string(), "b#1".to_string(), "c#2".to_string()];
    let known = vec!["b#1".to_string()];
    assert_eq!(
        check_missed_utxos(&requested, &known),
        Err("Can't get these UTXOs from API, check the network type: a#0, c#2".to_string())
    );
    assert_eq!(check_missed_utxos(&requested, &requested), Ok(()));
    assert_eq!(check_missed_utxos(&[], &known), Ok(()));
}

#[test]
fn budget_findings() {
    let over = EvalRedeemerResult {
        tag: RedeemerTag::Spend,
        index: 0,
        provided_ex_units: units(10, 10),
        calculated_ex_units: units(11, 5),
    };
    let under = EvalRedeemerResult {
        tag: RedeemerTag::Mint,
        index: 1,
        provided_ex_units: units(10, 10),
        calculated_ex_units: units(10, 9),
    };
    let exact = EvalRedeemerResult {
        tag: RedeemerTag::Cert,
        index: 2,
        provided_ex_units: units(10, 10),
        calculated_ex_units: units(10, 10),
    };
    let outcomes = vec![
        (over, Some(Phase2Error::MachineError { error: "boom".to_string() })),
        (under, None),
        (exact, None),
    ];
    let (errors, warnings, results) = collect_redeemer_findings(&outcomes);
    assert_eq!(results.len(), 3);
    assert_eq!(results[0].index, 0);
    assert_eq!(results[1].tag, RedeemerTag::Mint);
    assert_eq!(results[1].calculated_ex_units.steps, 9);
    assert_eq!(results[2].tag, RedeemerTag::Cert);
    assert_eq!(errors.len(), 2);
    assert!(matches!(errors[0].error, Phase2Error::MachineError { .. }));
    assert!(matches!(errors[1].error, Phase2Error::NoEnoughBudget { .. }));
    assert_eq!(
        errors[1].locations,
        vec!["transaction.body.inputs.0".to_string(), "transaction.witness_set.redeemers.0".to_string()]
    );
    assert_eq!(warnings.len(), 1);
    assert_eq!(
        warnings[0].locations,
        vec!["transaction.body.mint.1".to_string(), "transaction.witness_set.redeemers.1".to_string()]
    );
    let (e2, w2, r2) = collect_redeemer_findings(&[(exact, None)]);
    assert!(e2.is_empty() && w2.is_empty());
    assert_eq!(r2.len(), 1);
    let (e3, w3, r3) = collect_redeemer_findings(&[]);
    assert!(e3.is_empty() && w3.is_empty() && r3.is_empty());
}
