use cquisitor_lib::common::{Asset, TxOutput};
use cquisitor_lib::js_error::JsError;
use cquisitor_lib::js_value::{empty_js_value, JsValue};
use cquisitor_lib::plutus::models::Asset as PlutusAsset;
use cquisitor_lib::check_signatures::from_hex_string;
use cquisitor_lib::text::{hex_encode, parse_i128, parse_u64, u64_to_decimal};
use cquisitor_lib::validators::phase_1::validation::auxiliary_data::AuxiliaryDataValidationContext;

fn output(amount: Vec<Asset>) -> TxOutput {
    TxOutput {
        address: "addr".to_string(),
        amount,
        data_hash: None,
        plutus_data: None,
        script_ref: None,
        script_hash: None,
    }
}

fn asset(unit: &str, quantity: &str) -> Asset {
    Asset { unit: unit.to_string(), quantity: quantity.to_string() }
}

#[test]
fn find_ada_asset_finds_lovelace_or_empty_unit() {
    let o = output(vec![asset("abc", "1"), asset("lovelace", "2000000")]);
    assert_eq!(o.find_ada_asset().unwrap().quantity, "2000000");
    let o = output(vec![asset("", "5"), asset("lovelace", "7")]);
    assert_eq!(o.find_ada_asset().unwrap().quantity, "5");
    let o = output(vec![asset("abc", "1")]);
    assert!(o.find_ada_asset().is_none());
}

#[test]
fn has_non_ada_assets_detects_tokens() {
    assert!(!output(vec![asset("lovelace", "1")]).has_non_ada_assets());
    assert!(output(vec![asset("lovelace", "1"), asset("abc", "1")]).has_non_ada_assets());
    assert!(!output(vec![]).has_non_ada_assets());
}

#[test]
fn plutus_asset_splits_unit_at_policy_length() {
    let policy = "a".repeat(56);
    let unit = format!("{}{}", policy, "4e4654");
    let a = PlutusAsset::new(unit.clone(), "42".to_string());
    assert_eq!(a.unit(), unit);
    assert_eq!(a.policy(), policy);
    assert_eq!(a.name(), "4e4654");
    assert_eq!(a.quantity(), "42");
    assert_eq!(a.quantity_i128(), 42);
    assert_eq!(PlutusAsset::unit_to_tuple("lovelace"), ("".to_string(), "".to_string()));
    assert_eq!(PlutusAsset::unit_to_tuple(&unit), (policy.clone(), "4e4654".to_string()));
    let b = PlutusAsset::new_from_str("short", "-3");
    assert_eq!(b.policy(), "short");
    assert_eq!(b.name(), "");
    assert_eq!(b.quantity_i128(), -3);
}

#[test]
fn decimal_parsing_and_writing() {
    assert_eq!(parse_u64("18446744073709551615"), Some(u64::MAX));
    assert_eq!(parse_u64("18446744073709551616"), None);
    assert_eq!(parse_u64("12a"), None);
    assert_eq!(parse_u64(""), None);
    assert_eq!(parse_i128("-170141183460469231731687303715884105728"), Some(i128::MIN));
    assert_eq!(parse_i128("+5"), Some(5));
    assert_eq!(parse_i128("-"), None);
    assert_eq!(u64_to_decimal(0), "0");
    assert_eq!(u64_to_decimal(1234567890), "1234567890");
}

#[test]
fn hex_encoding_and_decoding() {
    assert_eq!(hex_encode(&[0x00, 0x0a, 0xff]), "000aff");
    assert_eq!(from_hex_string("0aFF").unwrap(), vec![0x0a, 0xff]);
    assert!(from_hex_string("abc").is_err());
    assert!(from_hex_string("zz").is_err());
    assert_eq!(from_hex_string("").unwrap(), Vec::<u8>::new());
}

#[test]
fn blake2b_256_of_empty_auxiliary_data() {
    let digest = from_hex_string("0e5751c026e543b2e8ab2eb06099daa1d1e5df47778f7787faab45cdf12fe3a8").unwrap();
    let ok = AuxiliaryDataValidationContext::new(Some(vec![]), Some(digest)).validate();
    assert!(ok.errors.is_empty());
    let wrong = AuxiliaryDataValidationContext::new(Some(vec![]), Some(vec![])).validate();
    assert_eq!(wrong.errors.len(), 1);
}

#[test]
fn js_values_and_errors_hold_their_text() {
    assert_eq!(JsValue::new("{\"a\":1}").as_string(), Some("{\"a\":1}".to_string()));
    assert_eq!(empty_js_value().as_string(), Some("{}".to_string()));
    assert_eq!(JsError::new("boom").as_string(), Some("boom".to_string()));
}
