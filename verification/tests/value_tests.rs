use cquisitor_lib::common::Asset;
use cquisitor_lib::validators::phase_1::value::{
    AssetField, AssetFieldError, AssetFields, CslAssetQuantity, CslPolicyAssets, CslValueFacts,
    MultiAsset, ValidatorAsset, Value,
};

fn entries(m: &MultiAsset) -> Vec<(String, i128)> {
    m.iter().iter().map(|a| (a.unit.clone(), a.quantity)).collect()
}

fn value(coins: i128, assets: &[(&str, i128)]) -> Value {
    let mut v = Value::new_from_coins(coins);
    for (u, q) in assets {
        v.add_asset(u.to_string(), *q);
    }
    v
}

#[test]
fn zero_value_has_no_assets() {
    let v = Value::zero();
    assert_eq!(v.coins, 0);
    assert!(!v.has_assets());
    assert!(v.is_positive());
}

#[test]
fn add_asset_merges_units_and_drops_zero() {
    let mut m = MultiAsset::new();
    m.add_asset("p1.a".to_string(), 5);
    m.add_asset("p1.b".to_string(), 3);
    m.add_asset("p1.a".to_string(), 2);
    assert_eq!(entries(&m), vec![("p1.a".to_string(), 7), ("p1.b".to_string(), 3)]);
    m.add_asset("p1.a".to_string(), -7);
    assert_eq!(entries(&m), vec![("p1.b".to_string(), 3)]);
    m.add_asset("p1.c".to_string(), 0);
    assert_eq!(entries(&m), vec![("p1.b".to_string(), 3)]);
}

#[test]
fn set_asset_replaces_quantity() {
    let mut m = MultiAsset::new();
    m.add_asset("x".to_string(), 5);
    m.add_asset("y".to_string(), 1);
    m.set_asset("x".to_string(), 9);
    assert_eq!(entries(&m), vec![("y".to_string(), 1), ("x".to_string(), 9)]);
    m.set_asset("y".to_string(), 0);
    assert_eq!(entries(&m), vec![("x".to_string(), 9)]);
}

#[test]
fn add_values_adds_coins_and_quantities() {
    let mut a = value(10, &[("p.a", 5)]);
    let b = value(3, &[("p.a", 2), ("p.b", 1)]);
    a.add(&b);
    assert_eq!(a.coins, 13);
    assert_eq!(entries(&a.assets), vec![("p.a".to_string(), 7), ("p.b".to_string(), 1)]);
}

#[test]
fn subtract_undoes_add() {
    let original = value(10, &[("p.a", 5), ("p.c", 4)]);
    let b = value(3, &[("p.a", 2), ("p.b", 1)]);
    let mut v = original.duplicate();
    v.add_ref(&b);
    v.subtract_ref(&b);
    assert_eq!(v.coins, original.coins);
    assert_eq!(entries(&v.assets), entries(&original.assets));
}

#[test]
fn add_commutes_on_quantities() {
    let a = value(1, &[("u1", 2), ("u2", 3)]);
    let b = value(4, &[("u2", 5), ("u3", 6)]);
    let mut ab = a.duplicate();
    ab.add(&b);
    let mut ba = b.duplicate();
    ba.add(&a);
    assert_eq!(ab.coins, ba.coins);
    let mut x = entries(&ab.assets);
    let mut y = entries(&ba.assets);
    x.sort();
    y.sort();
    assert_eq!(x, y);
}

#[test]
fn empty_is_neutral() {
    let a = value(7, &[("u1", 2)]);
    let mut v = a.duplicate();
    v.add(&Value::zero());
    assert_eq!(v.coins, 7);
    assert_eq!(entries(&v.assets), entries(&a.assets));
}

#[test]
fn difference_and_positivity() {
    let a = value(10, &[("u1", 2)]);
    let b = value(4, &[("u1", 5)]);
    let d = a.difference(&b);
    assert_eq!(d.coins, 6);
    assert_eq!(entries(&d.assets), vec![("u1".to_string(), -3)]);
    assert!(!d.is_positive());
    assert!(!d.assets.is_positive());
    let e = b.difference(&a);
    assert_eq!(e.coins, -6);
    assert!(!e.is_positive());
    assert!(a.is_positive());
    assert!(a.has_assets());
}

#[test]
fn subtract_multiasset_and_add_multiasset() {
    let mut v = value(1, &[("u1", 4)]);
    let mut m = MultiAsset::new();
    m.add_asset("u1".to_string(), 4);
    m.add_asset("u2".to_string(), 1);
    v.subtract_multiasset(&m);
    assert_eq!(entries(&v.assets), vec![("u2".to_string(), -1)]);
    v.add_multiasset(&m);
    assert_eq!(entries(&v.assets), vec![("u1".to_string(), 4)]);
    v.add_coins(5);
    assert_eq!(v.coins, 6);
}

#[test]
fn sum_of_values() {
    let vs = vec![value(1, &[("a", 1)]), value(2, &[("b", 2)]), value(3, &[("a", -1)])];
    let s = Value::sum(&vs);
    assert_eq!(s.coins, 6);
    assert_eq!(entries(&s.assets), vec![("b".to_string(), 2)]);
    let empty = Value::sum(&[]);
    assert_eq!(empty.coins, 0);
    assert!(empty.assets.is_empty());
}

#[test]
fn value_from_common_assets() {
    let assets = vec![
        Asset { unit: "lovelace".to_string(), quantity: "1500000".to_string() },
        Asset { unit: "policy1name".to_string(), quantity: "10".to_string() },
        Asset { unit: "lovelace".to_string(), quantity: "500000".to_string() },
        Asset { unit: "policy1name".to_string(), quantity: "-4".to_string() },
    ];
    let v = Value::new_from_common_assets(&assets);
    assert_eq!(v.coins, 2_000_000);
    assert_eq!(entries(&v.assets), vec![("policy1name".to_string(), 6)]);
}

#[test]
fn value_from_csl_value_sets_assets_and_keeps_zero_coins() {
    let facts = CslValueFacts {
        coin: 5_000_000,
        multiasset: Some(vec![CslPolicyAssets {
            policy_hex: "aa".to_string(),
            assets: vec![
                CslAssetQuantity { name_hex: "4101".to_string(), quantity: 3 },
                CslAssetQuantity { name_hex: "4102".to_string(), quantity: 0 },
            ],
        }]),
    };
    let v = Value::new_from_csl_value(&facts);
    assert_eq!(v.coins, 0);
    assert_eq!(entries(&v.assets), vec![("aa4101".to_string(), 3)]);
    let m = MultiAsset::new_from_csl_multiasset(facts.multiasset.as_ref().unwrap());
    assert_eq!(entries(&m), vec![("aa4101".to_string(), 3)]);
}

#[test]
fn set_asset_on_value() {
    let mut v = value(0, &[("u", 1)]);
    v.set_asset("u".to_string(), 5);
    assert_eq!(entries(&v.assets), vec![("u".to_string(), 5)]);
    let mut w = v.duplicate();
    w.subtract(&value(0, &[("u", 5)]));
    assert!(!w.has_assets());
}

const POLICY: &str = "a0028f350aaabe0545fdcb56b039bfb08e4bb4d8c4d7c3c7d481c235";

#[test]
fn asset_unit_splits_after_the_policy_id() {
    let a = ValidatorAsset { unit: format!("{}{}", POLICY, "484f534b59"), quantity: 7 };
    let (p, n) = a.policy_id_and_name();
    assert_eq!(p, POLICY);
    assert_eq!(n, "484f534b59");
    let bare = ValidatorAsset { unit: POLICY.to_string(), quantity: 1 };
    assert_eq!(bare.policy_id_and_name(), (POLICY.to_string(), String::new()));
}

#[test]
fn asset_field_names() {
    assert_eq!(AssetField::PolicyId.name(), "policy_id");
    assert_eq!(AssetField::AssetName.name(), "asset_name");
    assert_eq!(AssetField::Quantity.name(), "quantity");
}

#[test]
fn asset_fields_make_an_asset() {
    let mut f = AssetFields::new();
    assert_eq!(f.accept(AssetField::Quantity), Ok(()));
    f.quantity = Some(-5);
    assert_eq!(f.accept(AssetField::AssetName), Ok(()));
    f.asset_name = Some("4e4654".to_string());
    assert_eq!(f.accept(AssetField::PolicyId), Ok(()));
    f.policy_id = Some(POLICY.to_string());
    let a = f.finish().unwrap();
    assert_eq!(a.unit, format!("{}4e4654", POLICY));
    assert_eq!(a.quantity, -5);
}

#[test]
fn asset_field_given_twice_is_refused() {
    let mut f = AssetFields::new();
    f.asset_name = Some(String::new());
    assert_eq!(
        f.accept(AssetField::AssetName),
        Err(AssetFieldError::DuplicateField(AssetField::AssetName))
    );
    assert_eq!(f.accept(AssetField::PolicyId), Ok(()));
}

#[test]
fn first_missing_asset_field_is_reported() {
    let mut f = AssetFields::new();
    f.quantity = Some(1);
    assert_eq!(f.clone().finish(), Err(AssetFieldError::MissingField(AssetField::PolicyId)));
    f.policy_id = Some(POLICY.to_string());
    assert_eq!(f.clone().finish(), Err(AssetFieldError::MissingField(AssetField::AssetName)));
    f.quantity = None;
    f.asset_name = Some(String::new());
    assert_eq!(f.finish(), Err(AssetFieldError::MissingField(AssetField::Quantity)));
}

#[test]
fn subtract_after_add_at_the_edge_of_range() {
    let original = value(0, &[("u", i128::MAX - 1), ("w", i128::MIN + 1)]);
    let b = value(0, &[("u", 1), ("w", -1), ("x", i128::MAX)]);
    let mut v = original.duplicate();
    v.add_ref(&b);
    assert_eq!(entries(&v.assets), vec![("u".to_string(), i128::MAX), ("w".to_string(), i128::MIN), ("x".to_string(), i128::MAX)]);
    v.subtract_ref(&b);
    assert_eq!(entries(&v.assets), entries(&original.assets));
}
