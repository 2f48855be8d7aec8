use cquisitor_lib::common::{Asset, CostModels, ExUnitPrices, ExUnits, SubCoin, TxInput, TxOutput, UTxO};
use cquisitor_lib::text::hex_encode;
use cquisitor_lib::validators::phase_1::common::NetworkType;
use cquisitor_lib::validators::phase_1::errors::{Phase1Error, Phase1Warning, ValidationResult};
use cquisitor_lib::validators::phase_1::input_contexts::{CommitteeInputContext, UtxoInputContext, ValidationInputContext};
use cquisitor_lib::validators::phase_1::protocol_params::{ProtocolParameters, VersionPair};
use cquisitor_lib::validators::phase_1::validation::auxiliary_data::AuxiliaryDataValidationContext;
use cquisitor_lib::validators::phase_1::validation::collateral::{
    CollateralReturnFacts, CollateralTxFacts, CollateralValidator,
};
use cquisitor_lib::validators::phase_1::validation::output::{OutputFacts, OutputValidator};
use cquisitor_lib::validators::phase_1::value::{CslAssetQuantity, CslPolicyAssets, CslValueFacts};
use cquisitor_lib::validators::phase_1::common::LocalCredential;
use cquisitor_lib::validators::phase_1::helpers::{credential_to_bech32_reward_address, string_to_csl_address};
use cardano_serialization_lib as csl;

/// The encoding of an output holding `coin` lovelace at a key address, and
/// its minimum lovelace at 4310 lovelace per byte.
fn encoded_output(coin: u64) -> (Vec<u8>, u64) {
    let address = csl::Address::from_hex(&key_address()).unwrap();
    let output = csl::TransactionOutput::new(&address, &csl::Value::new(&csl::BigNum::from(coin)));
    let cost = csl::DataCost::new_coins_per_byte(&csl::BigNum::from(4310u64));
    let min = u64::from(csl::min_ada_for_output(&output, &cost).unwrap());
    (output.to_bytes(), min)
}

fn params() -> ProtocolParameters {
    ProtocolParameters {
        min_fee_coefficient_a: 44,
        min_fee_constant_b: 155381,
        max_block_body_size: 90112,
        max_transaction_size: 16384,
        max_block_header_size: 1100,
        stake_key_deposit: 2000000,
        stake_pool_deposit: 500000000,
        max_epoch_for_pool_retirement: 18,
        protocol_version: VersionPair(10, 0),
        min_pool_cost: 170000000,
        ada_per_utxo_byte: 4310,
        cost_models: CostModels { plutus_v1: None, plutus_v2: None, plutus_v3: None },
        execution_prices: ExUnitPrices {
            mem_price: SubCoin { numerator: 577, denominator: 10000 },
            step_price: SubCoin { numerator: 721, denominator: 10000000 },
        },
        max_tx_execution_units: ExUnits { mem: 14000000, steps: 10000000000 },
        max_block_execution_units: ExUnits { mem: 62000000, steps: 20000000000 },
        max_value_size: 5000,
        collateral_percentage: 150,
        max_collateral_inputs: 3,
        governance_action_deposit: 100000000000,
        drep_deposit: 500000000,
        reference_script_cost_per_byte: SubCoin { numerator: 15, denominator: 1 },
    }
}


fn key_address() -> String {
    format!("60{}", "11".repeat(28))
}

fn script_address() -> String {
    format!("70{}", "22".repeat(28))
}

fn reward_address() -> String {
    format!("e0{}", "33".repeat(28))
}

fn utxo(index: u32, address: String, amount: Vec<(&str, &str)>) -> UtxoInputContext {
    UtxoInputContext {
        utxo: UTxO {
            input: TxInput { output_index: index, tx_hash: "aa".to_string() },
            output: TxOutput {
                address,
                amount: amount
                    .into_iter()
                    .map(|(u, q)| Asset { unit: u.to_string(), quantity: q.to_string() })
                    .collect(),
                data_hash: None,
                plutus_data: None,
                script_ref: None,
                script_hash: None,
            },
        },
        is_spent: false,
    }
}

fn context() -> ValidationInputContext {
    ValidationInputContext::new(
        vec![
            utxo(0, key_address(), vec![("lovelace", "5000000")]),
            utxo(1, script_address(), vec![("lovelace", "3000000")]),
            utxo(2, reward_address(), vec![("lovelace", "1000000")]),
            utxo(3, key_address(), vec![("lovelace", "2000000"), ("policyname", "10")]),
            utxo(4, key_address(), vec![("lovelace", "500000")]),
        ],
        params(),
        0,
        vec![],
        vec![],
        vec![],
        vec![],
        vec![],
        0,
        NetworkType::Testnet,
        CommitteeInputContext {
            active_committee_members: vec![],
            potential_committee_members: vec![],
            resigned_committee_members: vec![],
        },
    )
}

fn input(index: u32) -> TxInput {
    TxInput { output_index: index, tx_hash: "aa".to_string() }
}

fn facts(inputs: Vec<u32>) -> CollateralTxFacts {
    CollateralTxFacts {
        collateral_inputs: inputs.into_iter().map(input).collect(),
        collateral_return: None,
        total_collateral: None,
        fee: 1_000_000,
        redeemer_count: 1,
    }
}

fn collateral(tx: &CollateralTxFacts) -> ValidationResult {
    CollateralValidator::new(tx, &context()).validate()
}

#[test]
fn collateral_without_problems() {
    let v = CollateralValidator::new(&facts(vec![0]), &context());
    assert_eq!(v.total_input.coins, 5_000_000);
    assert_eq!(v.estimated_minimal_collateral, 1_500_000);
    assert_eq!(v.actual_collateral.coins, 5_000_000);
    let r = v.validate();
    assert!(r.errors.is_empty());
    assert!(r.warnings.is_empty());
}

#[test]
fn too_many_collateral_inputs() {
    let tx = facts(vec![0, 0, 0, 0, 0]);
    let r = collateral(&tx);
    assert_eq!(r.errors.len(), 1);
    assert!(matches!(r.errors[0].error, Phase1Error::TooManyCollateralInputs { actual_count: 5, max_count: 3 }));
    assert_eq!(r.errors[0].locations, vec!["transaction.body.collateral".to_string()]);
}

#[test]
fn insufficient_collateral() {
    let mut tx = facts(vec![0]);
    tx.fee = 10_000_000;
    let r = collateral(&tx);
    assert_eq!(r.errors.len(), 1);
    assert!(matches!(
        r.errors[0].error,
        Phase1Error::InsufficientCollateral { total_collateral: 5_000_000, required_collateral: 15_000_000 }
    ));
    assert_eq!(r.errors[0].locations, vec!["transaction.body.collateral".to_string()]);
}

#[test]
fn declared_total_below_minimum_and_not_matching() {
    let mut tx = facts(vec![0]);
    tx.total_collateral = Some(1_000_000);
    let r = collateral(&tx);
    assert_eq!(r.errors.len(), 2);
    assert!(matches!(
        r.errors[0].error,
        Phase1Error::InsufficientCollateral { total_collateral: 1_000_000, required_collateral: 1_500_000 }
    ));
    assert!(matches!(
        r.errors[1].error,
        Phase1Error::IncorrectTotalCollateralField { declared_total: 1_000_000, actual_sum: 5_000_000 }
    ));
    assert_eq!(r.errors[1].locations, vec!["transaction.body.total_collateral".to_string()]);
}

#[test]
fn collateral_is_unnecessary_without_redeemers() {
    let mut tx = facts(vec![0]);
    tx.redeemer_count = 0;
    let r = collateral(&tx);
    assert!(r.errors.is_empty());
    assert_eq!(r.warnings.len(), 1);
    assert!(matches!(r.warnings[0].warning, Phase1Warning::CollateralIsUnnecessary));
}

#[test]
fn collateral_locked_by_script() {
    let r = collateral(&facts(vec![0, 1]));
    assert_eq!(r.errors.len(), 1);
    match &r.errors[0].error {
        Phase1Error::CollateralIsLockedByScript { invalid_collateral } => assert_eq!(invalid_collateral, "aa#1"),
        e => panic!("unexpected {:?}", e),
    }
    assert_eq!(r.errors[0].locations, vec!["transaction.body.collateral.1".to_string()]);
}

#[test]
fn collateral_at_reward_address_warns() {
    let r = collateral(&facts(vec![2, 0]));
    assert!(r.errors.is_empty());
    assert_eq!(r.warnings.len(), 1);
    match &r.warnings[0].warning {
        Phase1Warning::CollateralInputUsesRewardAddress { invalid_collateral } => {
            assert_eq!(invalid_collateral, "aa#2")
        },
        w => panic!("unexpected {:?}", w),
    }
    assert_eq!(r.warnings[0].locations, vec!["transaction.body.collateral.0".to_string()]);
}

#[test]
fn collateral_input_with_tokens() {
    let r = collateral(&facts(vec![3]));
    assert_eq!(r.errors.len(), 1);
    match &r.errors[0].error {
        Phase1Error::CollateralInputContainsNonAdaAssets { collateral_input } => assert_eq!(collateral_input, "aa#3"),
        e => panic!("unexpected {:?}", e),
    }
}

#[test]
fn collateral_return_checks() {
    let mut tx = facts(vec![3]);
    let (cbor, min) = encoded_output(1_000_000);
    tx.collateral_return = Some(CollateralReturnFacts {
        amount: CslValueFacts { coin: 1_000_000, multiasset: None },
        output_cbor: cbor,
    });
    let r = collateral(&tx);
    assert_eq!(r.errors.len(), 1);
    assert!(matches!(r.errors[0].error, Phase1Error::CalculatedCollateralContainsNonAdaAssets));
    assert!(1_000_000 >= min as i128);
    assert_eq!(r.warnings.len(), 1);
    assert!(matches!(r.warnings[0].warning, Phase1Warning::TotalCollateralIsNotDeclared));
}

#[test]
fn collateral_return_subtracts_its_tokens() {
    let mut tx = facts(vec![3]);
    tx.fee = 500_000;
    tx.total_collateral = Some(1_000_000);
    tx.collateral_return = Some(CollateralReturnFacts {
        amount: CslValueFacts {
            coin: 1_000_000,
            multiasset: Some(vec![CslPolicyAssets {
                policy_hex: "policy".to_string(),
                assets: vec![CslAssetQuantity { name_hex: "name".to_string(), quantity: 10 }],
            }]),
        },
        output_cbor: encoded_output(1_000_000).0,
    });
    let v = CollateralValidator::new(&tx, &context());
    assert!(!v.actual_collateral.has_assets());
    let r = v.validate();
    assert!(r.errors.is_empty());
    assert!(r.warnings.is_empty());
}

#[test]
fn output_checks() {
    let (big, _) = encoded_output(5_000_000);
    let (small, min) = encoded_output(100_000);
    let outputs = vec![
        OutputFacts { value_size: 6000, coin: 5_000_000, output_cbor: big },
        OutputFacts { value_size: 100, coin: 100_000, output_cbor: small },
        OutputFacts { value_size: 100, coin: 1, output_cbor: vec![0xff] },
    ];
    let r = OutputValidator::new(&outputs, &context()).validate();
    assert_eq!(r.errors.len(), 2);
    assert!(matches!(r.errors[0].error, Phase1Error::OutputTooBigUTxO { actual_size: 6000, max_size: 5000 }));
    assert_eq!(r.errors[0].locations, vec!["transaction.body.outputs.0".to_string()]);
    match r.errors[1].error {
        Phase1Error::OutputTooSmallUTxO { output_amount, min_amount } => {
            assert_eq!(output_amount, 100_000);
            assert_eq!(min_amount, min as i128);
            assert!(min_amount > 100_000);
        },
        ref e => panic!("unexpected {:?}", e),
    }
    assert_eq!(r.errors[1].locations, vec!["transaction.body.outputs.1".to_string()]);
    assert!(r.warnings.is_empty());
}

#[test]
fn collateral_return_below_its_minimum() {
    let mut tx = facts(vec![4]);
    tx.fee = 100_000;
    tx.total_collateral = Some(400_000);
    let (cbor, min) = encoded_output(100_000);
    assert!(min > 100_000);
    tx.collateral_return = Some(CollateralReturnFacts {
        amount: CslValueFacts { coin: 100_000, multiasset: None },
        output_cbor: cbor,
    });
    let r = collateral(&tx);
    assert_eq!(r.errors.len(), 1);
    match r.errors[0].error {
        Phase1Error::CollateralReturnTooSmall { output_amount, min_amount } => {
            assert_eq!(output_amount, 100_000);
            assert_eq!(min_amount, min as i128);
        },
        ref e => panic!("unexpected {:?}", e),
    }
    assert_eq!(r.errors[0].locations, vec!["transaction.body.collateral_return".to_string()]);
    assert!(r.warnings.is_empty());
}

#[test]
fn addresses_in_bech32_hex_or_neither() {
    let hex = key_address();
    let bech32 = csl::Address::from_hex(&hex).unwrap().to_bech32(None).unwrap();
    let a = string_to_csl_address(&bech32).unwrap();
    let b = string_to_csl_address(&hex).unwrap();
    assert_eq!(a.payment_cred, b.payment_cred);
    assert_eq!(a.payment_cred, Some(cquisitor_lib::validators::phase_1::common::LocalCredential::KeyHash(vec![0x11; 28])));
    let r = string_to_csl_address(&"nonsense".to_string());
    assert!(r.unwrap_err().starts_with("Error converting address nonsense: "));
    let reward = string_to_csl_address(&reward_address()).unwrap();
    assert_eq!(reward.kind, cquisitor_lib::validators::phase_1::helpers::AddressKind::Reward);
}

#[test]
fn auxiliary_data_hash_checks() {
    let aux = vec![0xa0u8];
    let good = cryptoxide::hashing::blake2b_256(&aux).to_vec();
    let ok = AuxiliaryDataValidationContext::new(Some(aux.clone()), Some(good.clone())).validate();
    assert!(ok.errors.is_empty());

    let missing = AuxiliaryDataValidationContext::new(Some(aux.clone()), None).validate();
    assert_eq!(missing.errors.len(), 1);
    assert!(matches!(missing.errors[0].error, Phase1Error::AuxiliaryDataHashMissing));
    assert_eq!(missing.errors[0].locations, vec!["transaction.body.auxiliary_data_hash".to_string()]);

    let wrong = vec![0u8; 32];
    let mismatch = AuxiliaryDataValidationContext::new(Some(aux.clone()), Some(wrong.clone())).validate();
    assert_eq!(mismatch.errors.len(), 1);
    match &mismatch.errors[0].error {
        Phase1Error::AuxiliaryDataHashMismatch { expected_hash, actual_hash } => {
            assert_eq!(expected_hash, &hex_encode(&good));
            assert_eq!(actual_hash, &Some("00".repeat(32)));
        },
        e => panic!("unexpected {:?}", e),
    }

    let absent = AuxiliaryDataValidationContext::new(None, Some(good)).validate();
    assert_eq!(absent.errors.len(), 1);
    assert!(matches!(absent.errors[0].error, Phase1Error::AuxiliaryDataHashPresentButNotExpected));
}

#[test]
fn reward_address_of_a_key_hash_on_each_network() {
    let hash: Vec<u8> = (0u8..28).collect();
    let credential = LocalCredential::KeyHash(hash.clone());
    let mainnet = credential_to_bech32_reward_address(&credential, &NetworkType::Mainnet);
    let testnet = credential_to_bech32_reward_address(&credential, &NetworkType::Testnet);
    assert!(mainnet.starts_with("stake1"));
    assert!(testnet.starts_with("stake_test1"));
    let read = csl::RewardAddress::from_address(&csl::Address::from_bech32(&mainnet).unwrap()).unwrap();
    assert_eq!(read.network_id(), 1);
    assert_eq!(read.payment_cred().to_keyhash().unwrap().to_bytes(), hash);
    let read = csl::RewardAddress::from_address(&csl::Address::from_bech32(&testnet).unwrap()).unwrap();
    assert_eq!(read.network_id(), 0);
}

#[test]
fn reward_address_of_a_script_hash() {
    let hash: Vec<u8> = vec![7u8; 28];
    let text = credential_to_bech32_reward_address(&LocalCredential::ScriptHash(hash.clone()), &NetworkType::Mainnet);
    let read = csl::RewardAddress::from_address(&csl::Address::from_bech32(&text).unwrap()).unwrap();
    assert_eq!(read.payment_cred().to_scripthash().unwrap().to_bytes(), hash);
    assert!(read.payment_cred().to_keyhash().is_none());
}

#[test]
fn script_transaction_without_collateral_inputs() {
    let r = collateral(&facts(vec![]));
    assert_eq!(r.errors.len(), 2);
    assert!(matches!(r.errors[0].error, Phase1Error::NoCollateralInputs));
    assert_eq!(r.errors[0].locations, vec!["transaction.body.collateral".to_string()]);
    assert!(matches!(
        r.errors[1].error,
        Phase1Error::InsufficientCollateral { total_collateral: 0, required_collateral: 1_500_000 }
    ));
}

#[test]
fn collateral_return_counts_its_own_lovelace() {
    let mut tx = facts(vec![0]);
    tx.total_collateral = Some(4_900_000);
    let (cbor, min) = encoded_output(100_000);
    tx.collateral_return = Some(CollateralReturnFacts {
        amount: CslValueFacts { coin: 100_000, multiasset: None },
        output_cbor: cbor,
    });
    let v = CollateralValidator::new(&tx, &context());
    assert_eq!(v.actual_number_of_inputs, 1);
    assert_eq!(v.collateral_return.as_ref().unwrap().coins, 100_000);
    assert_eq!(v.actual_collateral.coins, 4_900_000);
    let r = v.validate();
    assert_eq!(r.errors.len(), 1);
    match r.errors[0].error {
        Phase1Error::CollateralReturnTooSmall { output_amount, min_amount } => {
            assert_eq!(output_amount, 100_000);
            assert_eq!(min_amount, min as i128);
        },
        ref e => panic!("unexpected {:?}", e),
    }
}

#[test]
fn auxiliary_data_hash_without_auxiliary_data() {
    let r = AuxiliaryDataValidationContext::new(None, Some(vec![1u8; 32])).validate();
    assert_eq!(r.errors.len(), 1);
    assert!(matches!(r.errors[0].error, Phase1Error::AuxiliaryDataHashPresentButNotExpected));
    assert_eq!(r.errors[0].locations, vec!["transaction.body.auxiliary_data_hash".to_string()]);
    assert!(AuxiliaryDataValidationContext::new(None, None).validate().errors.is_empty());
}
