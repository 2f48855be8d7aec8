use cquisitor_lib::common::Asset;
use cquisitor_lib::validators::phase_1::converter::{
    assets_quantities_readable, find_single_dot, value_parts_from_assets,
};

fn asset(unit: &str, quantity: &str) -> Asset {
    Asset { unit: unit.to_string(), quantity: quantity.to_string() }
}

fn part(policy: &str, name: &str, quantity: u64) -> (String, String, u64) {
    (policy.to_string(), name.to_string(), quantity)
}

#[test]
fn single_dot_is_found() {
    assert_eq!(find_single_dot("abc.def"), Some(3));
    assert_eq!(find_single_dot(".x"), Some(0));
    assert_eq!(find_single_dot("abcdef"), None);
    assert_eq!(find_single_dot("a.b.c"), None);
    assert_eq!(find_single_dot(""), None);
}

#[test]
fn single_lovelace_amount_is_the_coin() {
    let parts = value_parts_from_assets(&vec![asset("lovelace", "2000000")]);
    assert_eq!(parts.coin, 2_000_000);
    assert!(parts.assets.is_empty());
    let parts = value_parts_from_assets(&vec![asset("", "17")]);
    assert_eq!(parts.coin, 17);
}

#[test]
fn dotted_units_are_native_assets_and_others_are_skipped() {
    let assets = vec![
        asset("pol1.6e616d65", "5"),
        asset("lovelace", "10"),
        asset("nodot", "not a number"),
        asset("a.b.c", "x"),
        asset("", "y"),
        asset("pol2.", "+7"),
        asset("lovelace", "30"),
    ];
    assert!(assets_quantities_readable(&assets));
    let parts = value_parts_from_assets(&assets);
    assert_eq!(parts.coin, 30);
    assert_eq!(parts.assets, vec![part("pol1", "6e616d65", 5), part("pol2", "", 7)]);
}

#[test]
fn no_lovelace_amount_gives_no_coin() {
    let parts = value_parts_from_assets(&vec![asset("p.n", "1"), asset("q.m", "2")]);
    assert_eq!(parts.coin, 0);
    assert_eq!(parts.assets, vec![part("p", "n", 1), part("q", "m", 2)]);
    let parts = value_parts_from_assets(&vec![]);
    assert_eq!(parts.coin, 0);
    assert!(parts.assets.is_empty());
}

#[test]
fn unreadable_quantities_are_detected() {
    assert!(!assets_quantities_readable(&vec![asset("lovelace", "-1")]));
    assert!(!assets_quantities_readable(&vec![asset("", "abc")]));
    assert!(!assets_quantities_readable(&vec![asset("p.n", "1"), asset("lovelace", "18446744073709551616")]));
    assert!(!assets_quantities_readable(&vec![asset("p.n", "")]));
    assert!(assets_quantities_readable(&vec![asset("p.n", "1"), asset("", "junk")]));
}
