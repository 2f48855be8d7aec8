use cardano_serialization_lib as csl;
use cardano_serialization_lib::PrivateKey;
use cquisitor_lib::check_signatures::{
    block_check_result, block_or_tx_result, check_block_or_tx_signatures, check_block_txs_signatures,
    check_tx_signatures, check_block_txs_signatures_internal, check_body_signatures, check_tx_signature,
    check_tx_signatures_internal, extract_map_bytes, from_hex_string, get_catalyst_registration_hash,
    get_catalyst_witnesses, validate_bytes_signature, witnesses_list_to_signatures_list, AuxiliaryDataFacts,
    CheckResult, PubKeySignature, TxMetadatum, TxSignatureFacts,
};
use cquisitor_lib::text::hex_encode;

const SK1: [u8; 32] = [0x9d; 32];
const SK2: [u8; 32] = [0x07; 32];

struct Keys {
    pk1: String,
    sig1: String,
    pk2: String,
    sig2: String,
}

/// Key 1 signs the empty message, key 2 signs the byte 0x72.
fn keys() -> Keys {
    let sk1 = PrivateKey::from_normal_bytes(&SK1).unwrap();
    let sk2 = PrivateKey::from_normal_bytes(&SK2).unwrap();
    Keys {
        pk1: hex_encode(&sk1.to_public().as_bytes()),
        sig1: hex_encode(&sk1.sign(&[]).to_bytes()),
        pk2: hex_encode(&sk2.to_public().as_bytes()),
        sig2: hex_encode(&sk2.sign(&[0x72]).to_bytes()),
    }
}

fn bytes(h: &str) -> Vec<u8> {
    from_hex_string(h).unwrap()
}

fn witness(pk: &str, sig: &str) -> PubKeySignature {
    PubKeySignature { pub_key: bytes(pk), signature: bytes(sig) }
}

#[test]
fn single_signature_checks() {
    let k = keys();
    let (pk1, sig1, pk2, sig2) = (k.pk1.as_str(), k.sig1.as_str(), k.pk2.as_str(), k.sig2.as_str());
    let ok = check_tx_signature("", pk1, sig1).unwrap();
    assert!(ok.valid);
    assert_eq!(ok.tx_hash, Some("".to_string()));
    assert!(check_tx_signature("72", pk2, sig2).unwrap().valid);
    let bad = check_tx_signature("73", pk2, sig2).unwrap();
    assert!(!bad.valid);
    assert_eq!(bad.tx_hash, Some("73".to_string()));
}

#[test]
fn single_signature_errors() {
    let k = keys();
    let (pk1, sig1) = (k.pk1.as_str(), k.sig1.as_str());
    assert!(check_tx_signature("", "abc", sig1).is_err());
    assert_eq!(
        check_tx_signature("", "00", sig1).unwrap_err(),
        "Failed to decode PublicKey: JsError { msg: \"Invalid Public Key size\" }"
    );
    let e = check_tx_signature("", pk1, "00").unwrap_err();
    assert!(e.starts_with("Failed to decode Ed25519Signature: "));
    assert!(check_tx_signature("zz", pk1, sig1).is_err());
}

#[test]
fn invalid_witnesses_are_listed() {
    let k = keys();
    let (pk1, sig1, pk2, sig2) = (k.pk1.as_str(), k.sig1.as_str(), k.pk2.as_str(), k.sig2.as_str());
    let ws = vec![witness(pk2, sig2), witness(pk1, sig1)];
    let invalid = validate_bytes_signature(&Some(vec![0x72]), &ws);
    assert_eq!(invalid.len(), 1);
    assert_eq!(witnesses_list_to_signatures_list(&invalid), vec![sig1.to_string()]);
    assert!(validate_bytes_signature(&None, &ws).is_empty());
}

#[test]
fn transaction_check() {
    let k = keys();
    let (pk1, sig1, pk2, sig2) = (k.pk1.as_str(), k.sig1.as_str(), k.pk2.as_str(), k.sig2.as_str());
    let tx = TxSignatureFacts { tx_hash: vec![0x72], auxiliary_data: None, vkey_witnesses: vec![witness(pk2, sig2)] };
    let r = check_tx_signatures_internal(&tx);
    assert!(r.valid);
    assert_eq!(r.tx_hash, Some("72".to_string()));
    let tx_bad = TxSignatureFacts {
        tx_hash: vec![0x72],
        auxiliary_data: None,
        vkey_witnesses: vec![witness(pk2, sig2), witness(pk1, sig1)],
    };
    let r = check_tx_signatures_internal(&tx_bad);
    assert!(!r.valid);
    assert_eq!(r.invalidVkeyWitnesses, vec![sig1.to_string()]);
    assert!(r.invalidCatalystWitnesses.is_empty());
    let results = check_block_txs_signatures_internal(&[tx, tx_bad]);
    assert_eq!(results.len(), 2);
    assert!(results[0].valid && !results[1].valid);
}

fn map(entries: Vec<(TxMetadatum, TxMetadatum)>) -> TxMetadatum {
    TxMetadatum::MetadataMap(entries)
}

#[test]
fn metadata_map_bytes() {
    let m = map(vec![(TxMetadatum::Int(1), TxMetadatum::Text("x".to_string())), (TxMetadatum::Int(2), TxMetadatum::Bytes(vec![7]))]);
    assert_eq!(extract_map_bytes(&m, 2), Ok(vec![7]));
    assert_eq!(extract_map_bytes(&m, 1), Err("value not bytes".to_string()));
    assert_eq!(extract_map_bytes(&m, 3), Err("key not found in map".to_string()));
    assert_eq!(extract_map_bytes(&TxMetadatum::Int(5), 1), Err("not a map".to_string()));
}

#[test]
fn catalyst_registration_signature() {
    let k = keys();
    let (pk1, pk2, sig2) = (k.pk1.as_str(), k.pk2.as_str(), k.sig2.as_str());
    let registration_cbor = vec![0xa1, 0x01, 0x02];
    let hash = cryptoxide::hashing::blake2b_256(&registration_cbor).to_vec();
    let sk = PrivateKey::from_normal_bytes(&SK1).unwrap();
    let sig = sk.sign(&hash).to_bytes();
    let aux = AuxiliaryDataFacts {
        metadata: Some(vec![
            (61284, map(vec![(TxMetadatum::Int(2), TxMetadatum::Bytes(bytes(pk1)))])),
            (61285, map(vec![(TxMetadatum::Int(1), TxMetadatum::Bytes(sig.clone()))])),
        ]),
        registration_metadata_cbor: Some(registration_cbor.clone()),
    };
    let aux = Some(aux);
    assert_eq!(get_catalyst_registration_hash(&aux), Some(hash.clone()));
    let ws = get_catalyst_witnesses(&aux);
    assert_eq!(ws.len(), 1);
    assert_eq!(ws[0].signature, sig);
    let r = check_body_signatures(&vec![0x72], &aux, &vec![witness(pk2, sig2)]);
    assert!(r.valid);

    let mut bad_sig = sig.clone();
    bad_sig[0] ^= 1;
    let bad = Some(AuxiliaryDataFacts {
        metadata: Some(vec![
            (61284, map(vec![(TxMetadatum::Int(2), TxMetadatum::Bytes(bytes(pk1)))])),
            (61285, map(vec![(TxMetadatum::Int(1), TxMetadatum::Bytes(bad_sig.clone()))])),
        ]),
        registration_metadata_cbor: Some(registration_cbor),
    });
    let r = check_body_signatures(&vec![0x72], &bad, &vec![witness(pk2, sig2)]);
    assert!(!r.valid);
    assert_eq!(r.invalidCatalystWitnesses, vec![hex_encode(&bad_sig)]);
    assert_eq!(r.tx_hash, Some("72".to_string()));
    assert!(get_catalyst_witnesses(&None).is_empty());
    assert_eq!(get_catalyst_registration_hash(&None), None);
}

#[test]
fn block_result_is_first_invalid() {
    let a = CheckResult::valid("a");
    let b = CheckResult::invalid("b", vec!["x".to_string()], vec![]);
    let c = CheckResult::invalid("c", vec![], vec!["y".to_string()]);
    let r = block_check_result(vec![a.clone(), b, c]);
    assert!(!r.valid);
    assert_eq!(r.tx_hash, Some("b".to_string()));
    let all = block_check_result(vec![a.clone(), a]);
    assert!(all.valid);
    assert_eq!(all.tx_hash, Some("All block txs are valid".to_string()));
}

#[test]
fn block_or_transaction_outcome() {
    let k = keys();
    let (pk1, sig1, pk2, sig2) = (k.pk1.as_str(), k.sig1.as_str(), k.pk2.as_str(), k.sig2.as_str());
    let good = || TxSignatureFacts { tx_hash: vec![0x72], auxiliary_data: None, vkey_witnesses: vec![witness(pk2, sig2)] };
    let bad = || TxSignatureFacts { tx_hash: vec![0x01], auxiliary_data: None, vkey_witnesses: vec![witness(pk1, sig1)] };

    let r = block_or_tx_result(Some(vec![good(), bad(), bad()]), None).unwrap();
    assert!(!r.valid);
    assert_eq!(r.tx_hash, Some("01".to_string()));
    assert_eq!(r.invalidVkeyWitnesses, vec![sig1.to_string()]);

    let r = block_or_tx_result(Some(vec![good(), good()]), Some(bad())).unwrap();
    assert!(r.valid);
    assert_eq!(r.tx_hash, Some("All block txs are valid".to_string()));

    let r = block_or_tx_result(None, Some(good())).unwrap();
    assert!(r.valid);
    assert_eq!(r.tx_hash, Some("72".to_string()));

    let e = block_or_tx_result(None, None).unwrap_err();
    assert_eq!(e.as_string(), Some("cannot parse block or transaction from given hex".to_string()));
}

/// A transaction with one key witness made with `SK1` over `signed`, or
/// over its own hash when `signed` is `None`; with its hash.
fn signed_transaction(signed: Option<[u8; 32]>) -> (String, String) {
    let mut inputs = csl::TransactionInputs::new();
    let _ = inputs.add(&csl::TransactionInput::new(&csl::TransactionHash::from_bytes(vec![0; 32]).unwrap(), 0));
    let address = csl::Address::from_hex(&format!("60{}", "11".repeat(28))).unwrap();
    let mut outputs = csl::TransactionOutputs::new();
    outputs.add(&csl::TransactionOutput::new(&address, &csl::Value::new(&csl::BigNum::from(1_000_000u64))));
    let body = csl::TransactionBody::new_tx_body(&inputs, &outputs, &csl::BigNum::from(200_000u64));
    let hash = csl::FixedTransaction::new(&body.to_bytes(), &csl::TransactionWitnessSet::new().to_bytes(), true)
        .unwrap()
        .transaction_hash();
    let sk = PrivateKey::from_normal_bytes(&SK1).unwrap();
    let signed_hash = match signed {
        Some(h) => csl::TransactionHash::from_bytes(h.to_vec()).unwrap(),
        None => hash.clone(),
    };
    let mut vkeys = csl::Vkeywitnesses::new();
    let _ = vkeys.add(&csl::make_vkey_witness(&signed_hash, &sk));
    let mut witness_set = csl::TransactionWitnessSet::new();
    witness_set.set_vkeys(&vkeys);
    let tx = csl::Transaction::new(&body, &witness_set, None);
    (hex_encode(&tx.to_bytes()), hash.to_hex())
}

#[test]
fn transaction_given_in_hex() {
    let (tx_hex, hash) = signed_transaction(None);
    let r = check_tx_signatures(&tx_hex).unwrap();
    assert!(r.valid);
    assert_eq!(r.tx_hash, Some(hash.clone()));
    let (bad_hex, _) = signed_transaction(Some([9; 32]));
    let r = check_tx_signatures(&bad_hex).unwrap();
    assert!(!r.valid);
    assert_eq!(r.invalidVkeyWitnesses.len(), 1);
    assert!(check_tx_signatures("00").unwrap_err().starts_with("Cannot decode tx: "));
    let r = check_block_or_tx_signatures(&tx_hex).unwrap();
    assert!(r.valid);
    assert_eq!(r.tx_hash, Some(hash));
}

#[test]
fn neither_block_nor_transaction() {
    let e = check_block_or_tx_signatures("00").unwrap_err();
    assert_eq!(e.as_string(), Some("cannot parse block or transaction from given hex".to_string()));
    assert!(check_block_txs_signatures("zz").is_err());
    assert!(check_block_txs_signatures("00").unwrap_err().starts_with("Cannot decode block: "));
}

#[test]
fn text_that_is_not_hex_is_refused() {
    let e = check_tx_signatures("zz").unwrap_err();
    assert!(e.starts_with("Cannot decode tx: "));
    assert!(e.len() > "Cannot decode tx: ".len());
    assert!(check_tx_signatures("abc").unwrap_err().starts_with("Cannot decode tx: "));
    let e = check_block_or_tx_signatures("not hex").unwrap_err();
    assert_eq!(e.as_string(), Some("cannot parse block or transaction from given hex".to_string()));
}
