use cardano_serialization_lib as csl;
use cardano_serialization_lib::PrivateKey;
use cquisitor_lib::common::{Asset, CostModels, ExUnitPrices, ExUnits, SubCoin, TxInput, TxOutput, UTxO};
use cquisitor_lib::text::hex_encode;
use cquisitor_lib::validators::phase_1::common::{GovernanceActionType, LocalCredential, NetworkType, Voter};
use cquisitor_lib::validators::phase_1::errors::{Phase1Error, ValidationResult};
use cquisitor_lib::validators::phase_1::input_contexts::{CommitteeInputContext, UtxoInputContext, ValidationInputContext};
use cquisitor_lib::validators::phase_1::protocol_params::{ProtocolParameters, VersionPair};
use cquisitor_lib::validators::phase_1::validation::native_script_executor::NativeScript;
use cquisitor_lib::validators::phase_1::validation::witness::{
    redeemer_tag_to_string, NativeScriptWitness, ProposalFacts, RedeemerTag, TxCertificate, WitnessTxFacts,
    WitnessValidator,
};

fn params() -> ProtocolParameters {
    ProtocolParameters {
        min_fee_coefficient_a: 44,
        min_fee_constant_b: 155381,
        max_block_body_size: 90112,
        max_transaction_size: 16384,
        max_block_header_size: 1100,
        stake_key_deposit: 2000000,
        stake_pool_deposit: 500000000,
        max_epoch_for_pool_retirement: 18,
        protocol_version: VersionPair(10, 0),
        min_pool_cost: 170000000,
        ada_per_utxo_byte: 4310,
        cost_models: CostModels { plutus_v1: None, plutus_v2: None, plutus_v3: None },
        execution_prices: ExUnitPrices {
            mem_price: SubCoin { numerator: 577, denominator: 10000 },
            step_price: SubCoin { numerator: 721, denominator: 10000000 },
        },
        max_tx_execution_units: ExUnits { mem: 14000000, steps: 10000000000 },
        max_block_execution_units: ExUnits { mem: 62000000, steps: 20000000000 },
        max_value_size: 5000,
        collateral_percentage: 150,
        max_collateral_inputs: 3,
        governance_action_deposit: 100000000000,
        drep_deposit: 500000000,
        reference_script_cost_per_byte: SubCoin { numerator: 15, denominator: 1 },
    }
}


fn public_key() -> Vec<u8> {
    PrivateKey::from_normal_bytes(&[0x42; 32]).unwrap().to_public().as_bytes()
}

const BODY: [u8; 3] = [0xa1, 0x02, 0x00];

fn tx_hash() -> Vec<u8> {
    cryptoxide::hashing::blake2b_256(&BODY).to_vec()
}

fn signature_of(message: &[u8]) -> Vec<u8> {
    PrivateKey::from_normal_bytes(&[0x42; 32]).unwrap().sign(message).to_bytes()
}

fn native_unsuccessful(e: &Phase1Error) -> Option<String> {
    match e {
        Phase1Error::NativeScriptIsUnsuccessful { native_script_hash } => Some(native_script_hash.clone()),
        _ => None,
    }
}

fn key_hash() -> Vec<u8> {
    cardano_serialization_lib::PublicKey::from_bytes(&public_key()).unwrap().hash().to_bytes()
}

/// A native script held as a script reference, its hash, and an inline datum with its hash.
fn referenced() -> (String, Vec<u8>, String, Vec<u8>) {
    let script = csl::NativeScript::new_timelock_start(&csl::TimelockStart::new_timelockstart(&csl::BigNum::from(7u64)));
    let script_ref = csl::ScriptRef::new_native_script(&script);
    let datum = csl::PlutusData::new_integer(&csl::BigInt::from(5u64));
    (
        hex_encode(&script_ref.to_bytes()),
        script.hash().to_bytes(),
        hex_encode(&datum.to_bytes()),
        csl::hash_plutus_data(&datum).to_bytes(),
    )
}

fn utxo(index: u32, address: String, data_hash: Option<String>) -> UtxoInputContext {
    UtxoInputContext {
        utxo: UTxO {
            input: TxInput { output_index: index, tx_hash: "aa".to_string() },
            output: TxOutput {
                address,
                amount: vec![Asset { unit: "lovelace".to_string(), quantity: "1000000".to_string() }],
                data_hash,
                plutus_data: None,
                script_ref: None,
                script_hash: None,
            },
        },
        is_spent: false,
    }
}

fn script_hash(b: u8) -> Vec<u8> {
    vec![b; 28]
}

fn context() -> ValidationInputContext {
    ValidationInputContext::new(
        vec![
            utxo(0, format!("60{}", hex_encode(&key_hash())), None),
            utxo(1, format!("70{}", hex_encode(&script_hash(0x55))), Some("dd".repeat(32))),
            {
                let (script_ref, _, datum, _) = referenced();
                let mut u = utxo(2, format!("60{}", hex_encode(&key_hash())), None);
                u.utxo.output.script_ref = Some(script_ref);
                u.utxo.output.plutus_data = Some(datum);
                u
            },
        ],
        params(),
        0,
        vec![],
        vec![],
        vec![],
        vec![],
        vec![],
        0,
        NetworkType::Testnet,
        CommitteeInputContext {
            active_committee_members: vec![],
            potential_committee_members: vec![],
            resigned_committee_members: vec![],
        },
    )
}

fn input(index: u32) -> TxInput {
    TxInput { output_index: index, tx_hash: "aa".to_string() }
}

fn empty_tx() -> WitnessTxFacts {
    WitnessTxFacts {
        inputs: vec![],
        reference_inputs: vec![],
        collateral: vec![],
        output_datum_hashes: vec![],
        body_cbor: BODY.to_vec(),
        vkey_witnesses: vec![],
        vkey_signatures: vec![],
        native_scripts: vec![],
        plutus_script_hashes: vec![],
        plutus_data_hashes: vec![],
        redeemers: vec![],
        withdrawal_credentials: vec![],
        certificates: vec![],
        voting_proposals: vec![],
        voters: vec![],
        mint_policy_ids: vec![],
        required_signers: vec![],
        reference_native_scripts: vec![],
        script_data_hash: None,
        redeemers_cbor: None,
        plutus_data_cbor: None,
        plutus_languages: vec![],
    }
}

fn validate(tx: &WitnessTxFacts) -> ValidationResult {
    let ctx = context();
    WitnessValidator::new(tx, &ctx).validate()
}

fn missing_key(e: &Phase1Error) -> Option<String> {
    match e {
        Phase1Error::MissingVKeyWitnesses { missing_key_hash } => Some(missing_key_hash.clone()),
        _ => None,
    }
}

fn missing_script(e: &Phase1Error) -> Option<String> {
    match e {
        Phase1Error::MissingScriptWitnesses { missing_script_hash } => Some(missing_script_hash.clone()),
        _ => None,
    }
}

#[test]
fn signed_input_needs_nothing_more() {
    let mut tx = empty_tx();
    tx.inputs = vec![input(0)];
    tx.vkey_witnesses = vec![public_key()];
    tx.vkey_signatures = vec![signature_of(&tx_hash())];
    let r = validate(&tx);
    assert!(r.errors.is_empty());
    assert!(r.warnings.is_empty());
}

#[test]
fn unsigned_input_misses_its_key() {
    let mut tx = empty_tx();
    tx.inputs = vec![input(0)];
    let r = validate(&tx);
    assert_eq!(r.errors.len(), 1);
    assert_eq!(missing_key(&r.errors[0].error), Some(hex_encode(&key_hash())));
    assert_eq!(r.errors[0].locations, vec!["transaction.body.inputs.0".to_string()]);
}

#[test]
fn unknown_minting_policy_is_missing() {
    let mut tx = empty_tx();
    tx.mint_policy_ids = vec![script_hash(0x77)];
    let r = validate(&tx);
    assert_eq!(r.errors.len(), 1);
    assert_eq!(missing_script(&r.errors[0].error), Some(hex_encode(&script_hash(0x77))));
    assert_eq!(r.errors[0].locations, vec!["transaction.body.mint.0".to_string()]);
}

#[test]
fn plutus_minting_policy_needs_a_redeemer() {
    let mut tx = empty_tx();
    tx.mint_policy_ids = vec![script_hash(0x77)];
    tx.plutus_script_hashes = vec![script_hash(0x77)];
    let r = validate(&tx);
    assert_eq!(r.errors.len(), 1);
    match &r.errors[0].error {
        Phase1Error::MissingRedeemer { tag, index } => {
            assert_eq!(tag, "RedeemerTag(Mint)");
            assert_eq!(*index, 0);
        },
        e => panic!("unexpected {:?}", e),
    }
    tx.redeemers = vec![(RedeemerTag::Mint, 0)];
    assert!(validate(&tx).errors.is_empty());
    // an index beyond 32 bits provides nothing
    tx.redeemers = vec![(RedeemerTag::Mint, 1u64 << 32)];
    assert_eq!(validate(&tx).errors.len(), 1);
}

#[test]
fn script_input_needs_redeemer_and_datum() {
    let mut tx = empty_tx();
    tx.inputs = vec![input(1)];
    tx.plutus_script_hashes = vec![script_hash(0x55)];
    let r = validate(&tx);
    assert_eq!(r.errors.len(), 2);
    assert!(matches!(&r.errors[0].error, Phase1Error::MissingRedeemer { tag, index: 0 } if tag == "RedeemerTag(Spend)"));
    assert!(matches!(&r.errors[1].error, Phase1Error::MissingDatum { datum_hash } if *datum_hash == "dd".repeat(32)));
    assert_eq!(r.errors[1].locations, vec!["transaction.body.inputs.0".to_string()]);
    tx.redeemers = vec![(RedeemerTag::Spend, 0)];
    tx.plutus_data_hashes = vec![vec![0xdd; 32]];
    assert!(validate(&tx).errors.is_empty());
}

#[test]
fn unrequired_scripts_are_extraneous() {
    let mut tx = empty_tx();
    tx.plutus_script_hashes = vec![script_hash(0x01), script_hash(0x01)];
    tx.native_scripts = vec![NativeScriptWitness { hash: script_hash(0x02), script: NativeScript::TimelockStart(0) }];
    let r = validate(&tx);
    assert_eq!(r.errors.len(), 1);
    match &r.errors[0].error {
        Phase1Error::ExtraneousScriptWitnesses { extraneous_scripts } => {
            assert_eq!(extraneous_scripts, &vec![hex_encode(&script_hash(0x02)), hex_encode(&script_hash(0x01))]);
        },
        e => panic!("unexpected {:?}", e),
    }
    assert_eq!(r.errors[0].locations, vec!["transaction.witness_set".to_string()]);
}

#[test]
fn native_minting_policy_and_its_keys() {
    let mut tx = empty_tx();
    tx.mint_policy_ids = vec![script_hash(0x09)];
    tx.native_scripts = vec![NativeScriptWitness {
        hash: script_hash(0x09),
        script: NativeScript::ScriptAll(vec![
            NativeScript::ScriptPubkey(vec![1; 28]),
            NativeScript::ScriptAny(vec![NativeScript::ScriptPubkey(vec![2; 28])]),
        ]),
    }];
    let ctx = context();
    let v = WitnessValidator::new(&tx, &ctx);
    assert_eq!(v.required_native_script_witnesses.len(), 1);
    let mut candidates = v.native_scripts_signature_candidates.clone();
    candidates.sort();
    assert_eq!(candidates, vec![vec![1; 28], vec![2; 28]]);
    // no key witness: the script is not satisfied
    let r = v.validate();
    assert_eq!(r.errors.len(), 1);
    assert_eq!(native_unsuccessful(&r.errors[0].error), Some(hex_encode(&script_hash(0x09))));
    assert_eq!(r.errors[0].locations, vec!["transaction.body.mint.0".to_string()]);
}

#[test]
fn other_requirements_and_their_locations() {
    let mut tx = empty_tx();
    tx.withdrawal_credentials = vec![LocalCredential::ScriptHash(script_hash(0x31))];
    tx.certificates = vec![
        TxCertificate::PoolRegistration { operator: vec![0x41; 28], owners: vec![vec![0x42; 28]] },
        TxCertificate::GenesisKeyDelegation,
        TxCertificate::StakeDelegation(LocalCredential::KeyHash(vec![0x43; 28])),
    ];
    tx.voters = vec![Voter::DRepKeyHash(vec![0x44; 28])];
    tx.voting_proposals = vec![
        ProposalFacts { action_type: GovernanceActionType::InfoAction, policy_hash: Some(script_hash(0x45)) },
        ProposalFacts {
            action_type: GovernanceActionType::ParameterChangeAction,
            policy_hash: Some(script_hash(0x46)),
        },
    ];
    tx.required_signers = vec![vec![0x47; 28]];
    tx.output_datum_hashes = vec![Some(vec![1; 32]), None, Some(vec![1; 32])];
    let ctx = context();
    let v = WitnessValidator::new(&tx, &ctx);
    assert_eq!(v.output_datums_hashes, vec![vec![1u8; 32]]);
    let r = v.validate();
    let located: Vec<(Option<String>, Option<String>, Vec<String>)> = r
        .errors
        .iter()
        .map(|e| (missing_key(&e.error), missing_script(&e.error), e.locations.clone()))
        .collect();
    assert_eq!(
        located,
        vec![
            (Some(hex_encode(&[0x41; 28])), None, vec!["transaction.body.certs.0".to_string()]),
            (Some(hex_encode(&[0x42; 28])), None, vec!["transaction.body.certs.0".to_string()]),
            (Some(hex_encode(&[0x43; 28])), None, vec!["transaction.body.certs.2".to_string()]),
            (Some(hex_encode(&[0x44; 28])), None, vec!["transaction.body.voting_procedures.0".to_string()]),
            (Some(hex_encode(&[0x47; 28])), None, vec!["transaction.body.required_signers.0".to_string()]),
            (None, Some(hex_encode(&script_hash(0x31))), vec!["transaction.body.withdrawals.0".to_string()]),
            (None, Some(hex_encode(&script_hash(0x46))), vec!["transaction.body.voting_proposals.1".to_string()]),
        ]
    );
}

#[test]
fn redeemer_tags_are_written_as_debug_text() {
    assert_eq!(redeemer_tag_to_string(RedeemerTag::Spend), "RedeemerTag(Spend)");
    assert_eq!(redeemer_tag_to_string(RedeemerTag::VotingProposal), "RedeemerTag(VotingProposal)");
    assert_eq!(redeemer_tag_to_string(RedeemerTag::Reward), "RedeemerTag(Reward)");
}

#[test]
fn scripts_and_datums_of_reference_inputs() {
    let (_, native_hash, _, datum_hash) = referenced();
    let mut tx = empty_tx();
    tx.reference_inputs = vec![input(2)];
    let ctx = context();
    let v = WitnessValidator::new(&tx, &ctx);
    assert_eq!(v.native_script_sources.len(), 1);
    assert_eq!(v.native_script_sources[0].0, native_hash);
    assert_eq!(v.datum_sources.len(), 1);
    assert_eq!(v.datum_sources[0].0, datum_hash);
    // a referenced script that nothing requires is extraneous
    let r = v.validate();
    assert_eq!(r.errors.len(), 1);
    match &r.errors[0].error {
        Phase1Error::ExtraneousScriptWitnesses { extraneous_scripts } => {
            assert_eq!(extraneous_scripts, &vec![hex_encode(&native_hash)])
        },
        e => panic!("unexpected {:?}", e),
    }
    // minting under the referenced policy requires it, and nothing is missing
    tx.mint_policy_ids = vec![native_hash.clone()];
    tx.reference_native_scripts = vec![NativeScriptWitness {
        hash: native_hash,
        script: NativeScript::ScriptPubkey(vec![3; 28]),
    }];
    let v = WitnessValidator::new(&tx, &ctx);
    assert_eq!(v.native_scripts_signature_candidates, vec![vec![3u8; 28]]);
    let r = v.validate();
    assert_eq!(r.errors.len(), 1);
    assert!(native_unsuccessful(&r.errors[0].error).is_some());
}


#[test]
fn satisfied_native_script_gives_no_error() {
    let mut tx = empty_tx();
    tx.mint_policy_ids = vec![script_hash(0x09)];
    tx.native_scripts = vec![NativeScriptWitness {
        hash: script_hash(0x09),
        script: NativeScript::ScriptNOfK(
            1,
            vec![NativeScript::ScriptAll(vec![NativeScript::ScriptPubkey(key_hash())]), NativeScript::TimelockExpiry(0)],
        ),
    }];
    tx.vkey_witnesses = vec![public_key()];
    tx.vkey_signatures = vec![signature_of(&tx_hash())];
    let r = validate(&tx);
    assert!(r.errors.is_empty(), "{:?}", r.errors);
}

#[test]
fn bad_and_unneeded_signatures_are_reported() {
    let mut tx = empty_tx();
    tx.vkey_witnesses = vec![public_key()];
    tx.vkey_signatures = vec![signature_of(&[0x01])];
    let r = validate(&tx);
    assert_eq!(r.errors.len(), 2);
    let sig = hex_encode(&signature_of(&[0x01]));
    assert!(matches!(&r.errors[0].error, Phase1Error::InvalidSignature { invalid_signature } if *invalid_signature == sig));
    assert!(matches!(&r.errors[1].error, Phase1Error::ExtraneousSignature { extraneous_signature } if *extraneous_signature == sig));
    assert_eq!(r.errors[0].locations, vec!["transaction.witness_set.vkeys.0".to_string()]);
    assert_eq!(r.errors[1].locations, vec!["transaction.witness_set.vkeys.0".to_string()]);
}

#[test]
fn unneeded_datum_is_extraneous() {
    let mut tx = empty_tx();
    tx.plutus_data_hashes = vec![vec![0xee; 32], vec![1; 32]];
    tx.output_datum_hashes = vec![Some(vec![1; 32])];
    let r = validate(&tx);
    assert_eq!(r.errors.len(), 1);
    assert!(matches!(&r.errors[0].error, Phase1Error::ExtraneousDatumWitnesses { datum_hash } if *datum_hash == "ee".repeat(32)));
    assert_eq!(r.errors[0].locations, vec!["transaction.witness_set.plutus_data.0".to_string()]);
}

#[test]
fn script_data_hash_is_checked() {
    let mut tx = empty_tx();
    tx.script_data_hash = Some(vec![1; 32]);
    let r = validate(&tx);
    assert_eq!(r.errors.len(), 1);
    match &r.errors[0].error {
        Phase1Error::ScriptDataHashMismatch { expected_hash, provided_hash } => {
            assert_eq!(expected_hash, &None);
            assert_eq!(provided_hash, &Some("01".repeat(32)));
        },
        e => panic!("unexpected {:?}", e),
    }
    assert_eq!(r.errors[0].locations, vec!["transaction.body.script_data_hash".to_string()]);

    let mut datums = csl::PlutusList::new();
    datums.add(&csl::PlutusData::new_integer(&csl::BigInt::from(5u64)));
    let expected = csl::hash_script_data(&csl::Redeemers::new(), &csl::Costmdls::new(), Some(datums.clone())).to_bytes();
    let mut tx = empty_tx();
    tx.plutus_data_cbor = Some(datums.to_bytes());
    tx.script_data_hash = Some(expected.clone());
    assert!(validate(&tx).errors.is_empty());
    tx.script_data_hash = None;
    let r = validate(&tx);
    assert_eq!(r.errors.len(), 1);
    assert!(matches!(&r.errors[0].error, Phase1Error::ScriptDataHashMismatch { expected_hash: Some(h), provided_hash: None } if *h == hex_encode(&expected)));
}
