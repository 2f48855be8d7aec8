//! Reading a list of asset amounts as the parts of a value: the lovelace
//! coin and the native assets, each as policy id, asset name and quantity.
use vstd::prelude::*;

use crate::common::{is_ada, is_ada_unit, is_lovelace, lovelace_chars, Asset};
use crate::text::{parse_u64, parse_u64_spec, skip_chars, take_chars};

verus! {

/// `p` is the position of the only dot of `u`.
pub open spec fn single_dot_at(u: Seq<char>, p: int) -> bool {
    &&& 0 <= p < u.len()
    &&& u[p] == '.'
    &&& forall|j: int| 0 <= j < u.len() && j != p ==> u[j] != '.'
}

/// `u` holds exactly one dot.
pub open spec fn has_single_dot(u: Seq<char>) -> bool {
    exists|p: int| single_dot_at(u, p)
}

/// A unit of the form `<policy id>.<asset name>`: the two parts around its
/// only dot.
pub open spec fn dot_split(u: Seq<char>) -> Option<(Seq<char>, Seq<char>)> {
    if has_single_dot(u) {
        let p = choose|p: int| single_dot_at(u, p);
        Some((u.take(p), u.skip(p + 1)))
    } else {
        None
    }
}

/// The amounts are one amount of lovelace (unit `"lovelace"` or empty).
pub open spec fn single_coin(assets: Seq<Asset>) -> bool {
    assets.len() == 1 && is_ada_unit(assets[0].unit@)
}

/// Whether the amount is read: lovelace amounts and amounts whose unit holds
/// exactly one dot; the others are skipped.
pub open spec fn is_read(a: Asset) -> bool {
    a.unit@ == lovelace_chars() || has_single_dot(a.unit@)
}

/// Every quantity that is read is a `u64` in decimal.
pub open spec fn quantities_readable(assets: Seq<Asset>) -> bool {
    if single_coin(assets) {
        parse_u64_spec(assets[0].quantity@) is Some
    } else {
        forall|i: int| 0 <= i < assets.len() && is_read(#[trigger] assets[i]) ==> parse_u64_spec(
            assets[i].quantity@,
        ) is Some
    }
}

/// The lovelace coin: the quantity of the last `"lovelace"` amount, 0 when
/// there is none.
pub open spec fn last_coin(assets: Seq<Asset>) -> u64
    decreases assets.len(),
{
    if assets.len() == 0 {
        0
    } else if assets.last().unit@ == lovelace_chars() {
        parse_u64_spec(assets.last().quantity@).unwrap()
    } else {
        last_coin(assets.drop_last())
    }
}

/// The native assets, in order: the parts of each unit with a single dot and
/// the quantity.
pub open spec fn dotted_assets(assets: Seq<Asset>) -> Seq<(Seq<char>, Seq<char>, u64)>
    decreases assets.len(),
{
    if assets.len() == 0 {
        Seq::empty()
    } else {
        let prev = dotted_assets(assets.drop_last());
        let a = assets.last();
        if a.unit@ == lovelace_chars() {
            prev
        } else {
            match dot_split(a.unit@) {
                Some(parts) => prev.push((parts.0, parts.1, parse_u64_spec(a.quantity@).unwrap())),
                None => prev,
            }
        }
    }
}

/// The parts of a value read from asset amounts.
#[derive(Debug, Clone, PartialEq)]
pub struct ValueParts {
    pub coin: u64,
    /// Policy id (hex), asset name (hex) and quantity of each native asset,
    /// in the order of the amounts.
    pub assets: Vec<(String, String, u64)>,
}

/// The parts of a value as plain values.
pub open spec fn value_parts_view(v: ValueParts) -> (u64, Seq<(Seq<char>, Seq<char>, u64)>) {
    (v.coin, v.assets@.map_values(|e: (String, String, u64)| (e.0@, e.1@, e.2)))
}

/// What the amounts make: a single lovelace amount is the coin alone;
/// otherwise the coin of the last `"lovelace"` amount and the dotted assets.
pub open spec fn value_parts_of(assets: Seq<Asset>) -> (u64, Seq<(Seq<char>, Seq<char>, u64)>) {
    if single_coin(assets) {
        (parse_u64_spec(assets[0].quantity@).unwrap(), Seq::empty())
    } else {
        (last_coin(assets), dotted_assets(assets))
    }
}

/// The position of the only dot of `u`, if it holds exactly one.
pub fn find_single_dot(u: &str) -> (r: Option<usize>)
    ensures
        match r {
            Some(p) => single_dot_at(u@, p as int),
            None => !has_single_dot(u@),
        },
{
    let n = u.unicode_len();
    let mut first: Option<usize> = None;
    let mut second: Option<usize> = None;
    let mut i: usize = 0;
    while i < n
        invariant
            n == u@.len(),
            i <= n,
            first is None ==> forall|j: int| 0 <= j < i ==> u@[j] != '.',
            first is None ==> second is None,
            first matches Some(p) ==> p < i && u@[p as int] == '.',
            first is Some && second is None ==> forall|j: int|
                0 <= j < i && j != first->Some_0 ==> u@[j] != '.',
            second matches Some(q) ==> q < i && u@[q as int] == '.' && first->Some_0 != q,
        decreases n - i,
    {
        if u.get_char(i) == '.' {
            if first.is_none() {
                first = Some(i);
            } else if second.is_none() {
                second = Some(i);
            }
        }
        i += 1;
    }
    match (first, second) {
        (Some(p), None) => Some(p),
        (Some(p), Some(q)) => {
            proof {
                assert forall|x: int| !single_dot_at(u@, x) by {
                    if single_dot_at(u@, x) {
                        if x != p as int {
                            assert(u@[p as int] == '.');
                        } else {
                            assert(u@[q as int] == '.');
                        }
                    }
                }
            }
            None
        },
        _ => None,
    }
}

/// Splits a unit with a single dot into the parts around it.
fn split_at_dot(u: &String) -> (r: Option<(String, String)>)
    ensures
        match r {
            Some(parts) => dot_split(u@) == Some((parts.0@, parts.1@)),
            None => dot_split(u@) is None,
        },
{
    let n = u.as_str().unicode_len();
    match find_single_dot(u.as_str()) {
        Some(p) => {
            assert(p < n);
            proof {
                let c = choose|c: int| single_dot_at(u@, c);
                assert(u@[c] == '.');
                assert(c == p as int);
            }
            Some((take_chars(u.as_str(), p), skip_chars(u.as_str(), p + 1)))
        },
        None => None,
    }
}

/// Whether every quantity that `value_parts_from_assets` reads is a `u64` in
/// decimal.
pub fn assets_quantities_readable(assets: &Vec<Asset>) -> (r: bool)
    ensures
        r == quantities_readable(assets@),
{
    if assets.len() == 1 && is_ada(&assets[0].unit) {
        return parse_u64(assets[0].quantity.as_str()).is_some();
    }
    let n = assets.len();
    let mut i: usize = 0;
    while i < n
        invariant
            n == assets@.len(),
            i <= n,
            !single_coin(assets@),
            forall|j: int| 0 <= j < i && is_read(#[trigger] assets@[j]) ==> parse_u64_spec(
                assets@[j].quantity@,
            ) is Some,
        decreases n - i,
    {
        let a = &assets[i];
        let read = is_lovelace(&a.unit) || find_single_dot(a.unit.as_str()).is_some();
        if read && parse_u64(a.quantity.as_str()).is_none() {
            assert(is_read(assets@[i as int]));
            return false;
        }
        i += 1;
    }
    true
}

/// Reads asset amounts as the parts of a value.  A single amount of
/// `"lovelace"` (or of the empty unit) is the coin; otherwise the last
/// `"lovelace"` amount gives the coin, every amount whose unit is
/// `<policy id>.<asset name>` gives a native asset, and other amounts are
/// skipped.
pub fn value_parts_from_assets(assets: &Vec<Asset>) -> (r: ValueParts)
    requires
        quantities_readable(assets@),
    ensures
        value_parts_view(r) == value_parts_of(assets@),
{
    if assets.len() == 1 && is_ada(&assets[0].unit) {
        let coin = parse_u64(assets[0].quantity.as_str()).unwrap();
        let r = ValueParts { coin, assets: Vec::new() };
        assert(value_parts_view(r).1 =~= Seq::<(Seq<char>, Seq<char>, u64)>::empty());
        return r;
    }
    let n = assets.len();
    let mut coin: u64 = 0;
    let mut parts: Vec<(String, String, u64)> = Vec::new();
    let mut i: usize = 0;
    while i < n
        invariant
            n == assets@.len(),
            i <= n,
            !single_coin(assets@),
            quantities_readable(assets@),
            coin == last_coin(assets@.take(i as int)),
            parts@.map_values(|e: (String, String, u64)| (e.0@, e.1@, e.2)) == dotted_assets(
                assets@.take(i as int),
            ),
        decreases n - i,
    {
        let ghost before = parts@;
        proof {
            assert(assets@.take(i + 1).drop_last() =~= assets@.take(i as int));
            assert(assets@.take(i + 1).last() == assets@[i as int]);
        }
        let a = &assets[i];
        if is_lovelace(&a.unit) {
            assert(is_read(assets@[i as int]));
            coin = parse_u64(a.quantity.as_str()).unwrap();
        } else {
            match split_at_dot(&a.unit) {
                Some((policy, name)) => {
                    proof {
                        let p = choose|p: int| single_dot_at(a.unit@, p);
                        assert(single_dot_at(a.unit@, p));
                        assert(is_read(assets@[i as int]));
                    }
                    let q = parse_u64(a.quantity.as_str()).unwrap();
                    let ghost entry = (policy@, name@, q);
                    parts.push((policy, name, q));
                    assert(parts@.map_values(|e: (String, String, u64)| (e.0@, e.1@, e.2)) =~= before.map_values(
                        |e: (String, String, u64)| (e.0@, e.1@, e.2),
                    ).push(entry));
                },
                None => {},
            }
        }
        i += 1;
    }
    assert(assets@.take(n as int) =~= assets@);
    ValueParts { coin, assets: parts }
}

} // verus!
