use cquisitor_lib::common::{Asset, ExUnitPrices, ExUnits, SubCoin, TxInput, TxOutput, UTxO, CostModels};
use cquisitor_lib::validators::phase_1::common::{GovernanceActionId, GovernanceActionType, LocalCredential, NetworkType};
use cquisitor_lib::validators::phase_1::input_contexts::{
    AccountInputContext, CommitteeInputContext, DrepInputContext, GovActionInputContext, PoolInputContext,
    UtxoInputContext, ValidationInputContext,
};
use cquisitor_lib::validators::phase_1::protocol_params::{ProtocolParameters, VersionPair};

fn params() -> ProtocolParameters {
    ProtocolParameters {
        min_fee_coefficient_a: 44,
        min_fee_constant_b: 155381,
        max_block_body_size: 90112,
        max_transaction_size: 16384,
        max_block_header_size: 1100,
        stake_key_deposit: 2000000,
        stake_pool_deposit: 500000000,
        max_epoch_for_pool_retirement: 18,
        protocol_version: VersionPair(10, 0),
        min_pool_cost: 170000000,
        ada_per_utxo_byte: 4310,
        cost_models: CostModels { plutus_v1: None, plutus_v2: None, plutus_v3: None },
        execution_prices: ExUnitPrices {
            mem_price: SubCoin { numerator: 577, denominator: 10000 },
            step_price: SubCoin { numerator: 721, denominator: 10000000 },
        },
        max_tx_execution_units: ExUnits { mem: 14000000, steps: 10000000000 },
        max_block_execution_units: ExUnits { mem: 62000000, steps: 20000000000 },
        max_value_size: 5000,
        collateral_percentage: 150,
        max_collateral_inputs: 3,
        governance_action_deposit: 100000000000,
        drep_deposit: 500000000,
        reference_script_cost_per_byte: SubCoin { numerator: 15, denominator: 1 },
    }
}

fn utxo(hash: &str, index: u32, spent: bool) -> UtxoInputContext {
    UtxoInputContext {
        utxo: UTxO {
            input: TxInput { output_index: index, tx_hash: hash.to_string() },
            output: TxOutput {
                address: "addr".to_string(),
                amount: vec![Asset { unit: "lovelace".to_string(), quantity: format!("{}", index) }],
                data_hash: None,
                plutus_data: None,
                script_ref: None,
                script_hash: None,
            },
        },
        is_spent: spent,
    }
}

fn context() -> ValidationInputContext {
    ValidationInputContext::new(
        vec![utxo("aa", 0, false), utxo("aa", 1, true), utxo("aa", 1, false), utxo("bb", 0, false)],
        params(),
        100,
        vec![AccountInputContext {
            bech32_address: "stake1".to_string(),
            is_registered: true,
            payed_deposit: Some(2000000),
            delegated_to_drep: None,
            delegated_to_pool: None,
            balance: Some(5),
        }],
        vec![DrepInputContext { bech32_drep: "drep1".to_string(), is_registered: true, payed_deposit: None }],
        vec![PoolInputContext { pool_id: "pool1".to_string(), is_registered: false, retirement_epoch: Some(9) }],
        vec![GovActionInputContext {
            action_id: GovernanceActionId { tx_hash: vec![1, 2], index: 3 },
            action_type: GovernanceActionType::InfoAction,
            is_active: true,
        }],
        vec![GovActionInputContext {
            action_id: GovernanceActionId { tx_hash: vec![9], index: 0 },
            action_type: GovernanceActionType::NoConfidenceAction,
            is_active: false,
        }],
        0,
        NetworkType::Testnet,
        CommitteeInputContext {
            active_committee_members: vec![LocalCredential::KeyHash(vec![1])],
            potential_committee_members: vec![LocalCredential::ScriptHash(vec![2])],
            resigned_committee_members: vec![LocalCredential::KeyHash(vec![3])],
        },
    )
}

#[test]
fn find_utxo_returns_the_first_match() {
    let ctx = context();
    let u = ctx.find_utxo("aa".to_string(), 1).unwrap();
    assert!(u.is_spent);
    assert!(ctx.find_utxo("aa".to_string(), 2).is_none());
    assert!(ctx.find_utxo("cc".to_string(), 0).is_none());
    assert_eq!(ctx.find_utxo("bb".to_string(), 0).unwrap().utxo.input.tx_hash, "bb");
}

#[test]
fn find_contexts_by_key() {
    let ctx = context();
    assert_eq!(ctx.find_account_context(&"stake1".to_string()).unwrap().balance, Some(5));
    assert!(ctx.find_account_context(&"stake2".to_string()).is_none());
    assert!(ctx.find_drep_context(&"drep1".to_string()).is_some());
    assert!(ctx.find_drep_context(&"drep2".to_string()).is_none());
    assert_eq!(ctx.find_pool_context(&"pool1".to_string()).unwrap().retirement_epoch, Some(9));
    assert!(ctx
        .find_gov_action_context(GovernanceActionId { tx_hash: vec![1, 2], index: 3 })
        .is_some());
    assert!(ctx
        .find_gov_action_context(GovernanceActionId { tx_hash: vec![1, 2], index: 4 })
        .is_none());
    assert!(ctx.find_last_enacted_gov_action(GovernanceActionType::NoConfidenceAction).is_some());
    assert!(ctx.find_last_enacted_gov_action(GovernanceActionType::InfoAction).is_none());
}

#[test]
fn committee_membership() {
    let ctx = context();
    assert!(ctx.is_active_committee_member(&LocalCredential::KeyHash(vec![1])));
    assert!(!ctx.is_active_committee_member(&LocalCredential::ScriptHash(vec![1])));
    assert!(ctx.is_potential_committee_member(&LocalCredential::ScriptHash(vec![2])));
    assert!(ctx.is_resigned_committee_member(&LocalCredential::KeyHash(vec![3])));
    assert!(!ctx.is_resigned_committee_member(&LocalCredential::KeyHash(vec![1])));
    assert!(ctx.find_committee_member(&LocalCredential::KeyHash(vec![1])).is_some());
    assert!(ctx.find_potential_committee_member(&LocalCredential::KeyHash(vec![2])).is_none());
    assert!(ctx.find_resigned_committee_member(&LocalCredential::KeyHash(vec![3])).is_some());
}
