//! Multi-asset values: lovelace coins plus a bundle of native assets.
//!
//! A bundle is an ordered list of `(unit, quantity)` entries.  The quantity held
//! of a unit is the sum of the quantities of the entries carrying that unit;
//! every operation keeps the list free of zero entries and of repeated units.
use vstd::prelude::*;

use crate::common::{is_lovelace, lovelace_chars, Asset};
use crate::text::{parse_i128, parse_i128_spec, push_str, skip_chars, string_of, take_chars};

verus! {

/// One entry of an asset bundle: the unit (policy id followed by the asset
/// name, both hex) and a signed quantity.
#[derive(Debug, Clone, PartialEq, Eq, Hash)]
pub struct ValidatorAsset {
    pub unit: String,
    pub quantity: i128,
}

/// A bundle of native assets.
#[derive(Debug, Clone, PartialEq, Eq, Hash)]
pub struct MultiAsset {
    assets: Vec<ValidatorAsset>,
}

/// Lovelace coins together with a bundle of native assets.
#[derive(Debug, Clone, PartialEq, Eq, Hash)]
pub struct Value {
    pub assets: MultiAsset,
    pub coins: i128,
}

/// An entry as plain values: the characters of the unit and the quantity.
pub type AssetEntry = (Seq<char>, i128);

/// The entries of a list of assets as plain values.
pub open spec fn entries_of(v: Seq<ValidatorAsset>) -> Seq<AssetEntry> {
    v.map_values(|a: ValidatorAsset| (a.unit@, a.quantity))
}

impl View for MultiAsset {
    type V = Seq<AssetEntry>;

    closed spec fn view(&self) -> Seq<AssetEntry> {
        entries_of(self.assets@)
    }
}

// ---------------------------------------------------------------------------
// Specification of bundles
// ---------------------------------------------------------------------------

/// What the entry `a` contributes to the quantity of unit `u`.
pub open spec fn contribution(a: AssetEntry, u: Seq<char>) -> int {
    if a.0 == u {
        a.1 as int
    } else {
        0
    }
}

/// The quantity of unit `u` held by the entries `s`.
pub open spec fn unit_quantity(s: Seq<AssetEntry>, u: Seq<char>) -> int
    decreases s.len(),
{
    if s.len() == 0 {
        0
    } else {
        unit_quantity(s.drop_last(), u) + contribution(s.last(), u)
    }
}

/// `i` is the first position of `s` whose unit is `u`.
pub open spec fn is_first_unit_index(s: Seq<AssetEntry>, u: Seq<char>, i: int) -> bool {
    &&& 0 <= i < s.len()
    &&& s[i].0 == u
    &&& forall|j: int| 0 <= j < i ==> s[j].0 != u
}

/// Some entry of `s` carries the unit `u`.
pub open spec fn has_unit(s: Seq<AssetEntry>, u: Seq<char>) -> bool {
    exists|i: int| 0 <= i < s.len() && s[i].0 == u
}

/// The entries of `s` whose quantity is not zero, in their order.
pub open spec fn nonzero_entries(s: Seq<AssetEntry>) -> Seq<AssetEntry>
    decreases s.len(),
{
    if s.len() == 0 {
        s
    } else {
        let rest = nonzero_entries(s.drop_last());
        if s.last().1 != 0 {
            rest.push(s.last())
        } else {
            rest
        }
    }
}

/// The entries of `s` whose unit is not `u`, in their order.
pub open spec fn entries_without_unit(s: Seq<AssetEntry>, u: Seq<char>) -> Seq<AssetEntry>
    decreases s.len(),
{
    if s.len() == 0 {
        s
    } else {
        let rest = entries_without_unit(s.drop_last(), u);
        if s.last().0 != u {
            rest.push(s.last())
        } else {
            rest
        }
    }
}

/// Adding `q` of `unit` to `s` does not leave the range of `i128`.
pub open spec fn add_asset_fits(s: Seq<AssetEntry>, u: Seq<char>, q: int) -> bool {
    forall|i: int|
        is_first_unit_index(s, u, i) ==> i128::MIN <= s[i].1 + q <= i128::MAX
}

/// The entries after adding `q` of `unit`: the first entry with that unit has
/// its quantity increased, or a new entry is appended when there is none and
/// `q` is not zero; then every zero entry is dropped.
pub open spec fn added_entries(s: Seq<AssetEntry>, unit: Seq<char>, q: int) -> Seq<AssetEntry> {
    if exists|i: int| is_first_unit_index(s, unit, i) {
        let i = choose|i: int| is_first_unit_index(s, unit, i);
        nonzero_entries(
            s.update(i, (s[i].0, (s[i].1 + q) as i128)),
        )
    } else if q != 0 {
        nonzero_entries(s.push((unit, q as i128)))
    } else {
        nonzero_entries(s)
    }
}

/// `q` when `negate` is false, `-q` otherwise.
pub open spec fn signed_quantity(q: i128, negate: bool) -> int {
    if negate {
        -(q as int)
    } else {
        q as int
    }
}

/// The entries after adding (or, with `negate`, subtracting) every entry of
/// `others` in turn.
pub open spec fn added_all(s: Seq<AssetEntry>, others: Seq<AssetEntry>, negate: bool) -> Seq<AssetEntry>
    decreases others.len(),
{
    if others.len() == 0 {
        s
    } else {
        added_entries(
            added_all(s, others.drop_last(), negate),
            others.last().0,
            signed_quantity(others.last().1, negate),
        )
    }
}

/// No step of `added_all(s, others, negate)` leaves the range of `i128`.
pub open spec fn add_all_fits(s: Seq<AssetEntry>, others: Seq<AssetEntry>, negate: bool) -> bool
    decreases others.len(),
{
    if others.len() == 0 {
        true
    } else {
        &&& add_all_fits(s, others.drop_last(), negate)
        &&& (negate ==> others.last().1 != i128::MIN)
        &&& add_asset_fits(
            added_all(s, others.drop_last(), negate),
            others.last().0,
            signed_quantity(others.last().1, negate),
        )
    }
}

/// No quantity is zero and no unit occurs twice.
pub open spec fn entries_wf(s: Seq<AssetEntry>) -> bool {
    &&& forall|i: int| 0 <= i < s.len() ==> #[trigger] s[i].1 != 0
    &&& forall|i: int, j: int| 0 <= i < j < s.len() ==> s[i].0 != s[j].0
}

/// No unit occurs twice.
pub open spec fn units_distinct(s: Seq<AssetEntry>) -> bool {
    forall|i: int, j: int| 0 <= i < j < s.len() ==> s[i].0 != s[j].0
}

// ---------------------------------------------------------------------------
// Lemmas on bundles
// ---------------------------------------------------------------------------

pub proof fn lemma_quantity_push(s: Seq<AssetEntry>, a: AssetEntry, u: Seq<char>)
    ensures
        unit_quantity(s.push(a), u) == unit_quantity(s, u) + contribution(a, u),
{
    assert(s.push(a).drop_last() =~= s);
}

pub proof fn lemma_quantity_nonzero(s: Seq<AssetEntry>, u: Seq<char>)
    ensures
        unit_quantity(nonzero_entries(s), u) == unit_quantity(s, u),
    decreases s.len(),
{
    if s.len() > 0 {
        lemma_quantity_nonzero(s.drop_last(), u);
        let rest = nonzero_entries(s.drop_last());
        lemma_quantity_push(rest, s.last(), u);
    }
}

pub proof fn lemma_quantity_update(s: Seq<AssetEntry>, i: int, a: AssetEntry, u: Seq<char>)
    requires
        0 <= i < s.len(),
    ensures
        unit_quantity(s.update(i, a), u) == unit_quantity(s, u) - contribution(s[i], u)
            + contribution(a, u),
    decreases s.len(),
{
    let t = s.update(i, a);
    if i == s.len() - 1 {
        assert(t.drop_last() =~= s.drop_last());
    } else {
        assert(t.drop_last() =~= s.drop_last().update(i, a));
        lemma_quantity_update(s.drop_last(), i, a, u);
    }
}

pub proof fn lemma_quantity_absent(s: Seq<AssetEntry>, u: Seq<char>)
    requires
        !has_unit(s, u),
    ensures
        unit_quantity(s, u) == 0,
    decreases s.len(),
{
    if s.len() > 0 {
        assert(!has_unit(s.drop_last(), u)) by {
            if has_unit(s.drop_last(), u) {
                let k = choose|k: int| 0 <= k < s.drop_last().len() && s.drop_last()[k].0 == u;
                assert(s[k].0 == u);
            }
        }
        lemma_quantity_absent(s.drop_last(), u);
    }
}

/// With distinct units, the quantity of a unit is that of its only entry.
pub proof fn lemma_quantity_single(s: Seq<AssetEntry>, i: int, u: Seq<char>)
    requires
        units_distinct(s),
        0 <= i < s.len(),
        s[i].0 == u,
    ensures
        unit_quantity(s, u) == s[i].1,
    decreases s.len(),
{
    if i == s.len() - 1 {
        assert(!has_unit(s.drop_last(), u)) by {
            if has_unit(s.drop_last(), u) {
                let k = choose|k: int| 0 <= k < s.drop_last().len() && s.drop_last()[k].0 == u;
                assert(s[k].0 == s[i].0);
            }
        }
        lemma_quantity_absent(s.drop_last(), u);
    } else {
        lemma_quantity_single(s.drop_last(), i, u);
        assert(s.last().0 != u);
    }
}

/// The first index of a unit is unique.
pub proof fn lemma_first_index_unique(s: Seq<AssetEntry>, u: Seq<char>, i: int, j: int)
    requires
        is_first_unit_index(s, u, i),
        is_first_unit_index(s, u, j),
    ensures
        i == j,
{
    if i < j {
        assert(s[i].0 != u);
    }
    if j < i {
        assert(s[j].0 != u);
    }
}

/// A unit present in `s` has a first index.
pub proof fn lemma_first_index_exists(s: Seq<AssetEntry>, u: Seq<char>)
    requires
        has_unit(s, u),
    ensures
        exists|i: int| is_first_unit_index(s, u, i),
    decreases s.len(),
{
    if has_unit(s.drop_last(), u) {
        lemma_first_index_exists(s.drop_last(), u);
        let i = choose|i: int| is_first_unit_index(s.drop_last(), u, i);
        assert forall|j: int| 0 <= j < i implies s[j].0 != u by {
            assert(s[j] == s.drop_last()[j]);
        }
        assert(s[i] == s.drop_last()[i]);
        assert(is_first_unit_index(s, u, i));
    } else {
        let k = choose|k: int| 0 <= k < s.len() && s[k].0 == u;
        assert(k == s.len() - 1) by {
            if k < s.len() - 1 {
                assert(s.drop_last()[k].0 == u);
            }
        }
        assert forall|j: int| 0 <= j < k implies s[j].0 != u by {
            if s[j].0 == u {
                assert(s.drop_last()[j].0 == u);
            }
        }
        assert(is_first_unit_index(s, u, k));
    }
}

/// Adding `q` of `unit` changes the quantity of `unit` by `q` and no other.
pub proof fn lemma_quantity_added_entries(s: Seq<AssetEntry>, unit: Seq<char>, q: int, u: Seq<char>)
    requires
        add_asset_fits(s, unit, q),
        i128::MIN <= q <= i128::MAX,
    ensures
        unit_quantity(added_entries(s, unit, q), u) == unit_quantity(s, u) + (if unit == u {
            q
        } else {
            0
        }),
{
    if exists|i: int| is_first_unit_index(s, unit, i) {
        let i = choose|i: int| is_first_unit_index(s, unit, i);
        let a = (s[i].0, (s[i].1 + q) as i128);
        lemma_quantity_update(s, i, a, u);
        lemma_quantity_nonzero(s.update(i, a), u);
    } else if q != 0 {
        let a = (unit, q as i128);
        lemma_quantity_push(s, a, u);
        lemma_quantity_nonzero(s.push(a), u);
    } else {
        lemma_quantity_nonzero(s, u);
    }
}

/// Every entry of `nonzero_entries(s)` is an entry of `s`.
pub proof fn lemma_nonzero_subset(s: Seq<AssetEntry>)
    ensures
        forall|k: int|
            0 <= k < nonzero_entries(s).len() ==> exists|j: int|
                0 <= j < s.len() && #[trigger] nonzero_entries(s)[k] == s[j],
        forall|k: int|
            0 <= k < nonzero_entries(s).len() ==> #[trigger] nonzero_entries(s)[k].1 != 0,
    decreases s.len(),
{
    if s.len() > 0 {
        lemma_nonzero_subset(s.drop_last());
        let rest = nonzero_entries(s.drop_last());
        let r = nonzero_entries(s);
        assert forall|k: int| 0 <= k < r.len() implies exists|j: int|
            0 <= j < s.len() && #[trigger] r[k] == s[j] by {
            if k < rest.len() {
                assert(r[k] == rest[k]);
                let j = choose|j: int| 0 <= j < s.drop_last().len() && rest[k] == s.drop_last()[j];
                assert(r[k] == s[j]);
            } else {
                assert(r[k] == s[s.len() - 1]);
            }
        }
        assert forall|k: int| 0 <= k < r.len() implies #[trigger] r[k].1 != 0 by {
            if k < rest.len() {
                assert(r[k] == rest[k]);
            }
        }
    }
}

/// Dropping zero entries keeps the units distinct.
pub proof fn lemma_nonzero_wf(s: Seq<AssetEntry>)
    requires
        units_distinct(s),
    ensures
        entries_wf(nonzero_entries(s)),
    decreases s.len(),
{
    lemma_nonzero_subset(s);
    if s.len() > 0 {
        assert(units_distinct(s.drop_last()));
        lemma_nonzero_wf(s.drop_last());
        lemma_nonzero_subset(s.drop_last());
        let rest = nonzero_entries(s.drop_last());
        let r = nonzero_entries(s);
        if s.last().1 != 0 {
            assert forall|i: int, j: int| 0 <= i < j < r.len() implies r[i].0 != r[j].0 by {
                if j < rest.len() {
                    assert(r[i] == rest[i]);
                    assert(r[j] == rest[j]);
                } else {
                    assert(r[i] == rest[i]);
                    let k = choose|k: int|
                        0 <= k < s.drop_last().len() && rest[i] == s.drop_last()[k];
                    assert(r[i] == s[k]);
                    assert(r[j] == s[s.len() - 1]);
                }
            }
        }
    }
}

/// Adding to a bundle with distinct units gives a well-formed bundle.
pub proof fn lemma_added_entries_wf(s: Seq<AssetEntry>, unit: Seq<char>, q: int)
    requires
        units_distinct(s),
    ensures
        entries_wf(added_entries(s, unit, q)),
{
    if exists|i: int| is_first_unit_index(s, unit, i) {
        let i = choose|i: int| is_first_unit_index(s, unit, i);
        let a = (s[i].0, (s[i].1 + q) as i128);
        let t = s.update(i, a);
        assert(units_distinct(t)) by {
            assert forall|k: int, l: int| 0 <= k < l < t.len() implies t[k].0 != t[l].0 by {
                assert(t[k].0 == s[k].0);
                assert(t[l].0 == s[l].0);
            }
        }
        lemma_nonzero_wf(t);
    } else if q != 0 {
        let a = (unit, q as i128);
        let t = s.push(a);
        assert(units_distinct(t)) by {
            assert forall|k: int, l: int| 0 <= k < l < t.len() implies t[k].0 != t[l].0 by {
                if l == s.len() {
                    if s[k].0 == unit {
                        lemma_first_index_exists(s, unit);
                    }
                } else {
                    assert(t[k] == s[k]);
                    assert(t[l] == s[l]);
                }
            }
        }
        lemma_nonzero_wf(t);
    } else {
        lemma_nonzero_wf(s);
    }
}

/// Adding or subtracting a whole bundle changes every quantity by the other
/// bundle's quantity.
pub proof fn lemma_quantity_added_all(
    s: Seq<AssetEntry>,
    others: Seq<AssetEntry>,
    negate: bool,
    u: Seq<char>,
)
    requires
        add_all_fits(s, others, negate),
    ensures
        unit_quantity(added_all(s, others, negate), u) == unit_quantity(s, u) + (if negate {
            -unit_quantity(others, u)
        } else {
            unit_quantity(others, u)
        }),
    decreases others.len(),
{
    if others.len() > 0 {
        lemma_quantity_added_all(s, others.drop_last(), negate, u);
        let prev = added_all(s, others.drop_last(), negate);
        lemma_quantity_added_entries(
            prev,
            others.last().0,
            signed_quantity(others.last().1, negate),
            u,
        );
    }
}

/// Adding a whole bundle to a bundle with distinct units keeps its units
/// distinct, and a well-formed bundle well formed.
pub proof fn lemma_added_all_wf(s: Seq<AssetEntry>, others: Seq<AssetEntry>, negate: bool)
    requires
        units_distinct(s),
    ensures
        units_distinct(added_all(s, others, negate)),
        entries_wf(s) ==> entries_wf(added_all(s, others, negate)),
    decreases others.len(),
{
    if others.len() > 0 {
        lemma_added_all_wf(s, others.drop_last(), negate);
        lemma_added_entries_wf(
            added_all(s, others.drop_last(), negate),
            others.last().0,
            signed_quantity(others.last().1, negate),
        );
    }
}

/// The fit condition of a sequence of additions holds for each of its prefixes.
pub proof fn lemma_add_all_fits_prefix(
    s: Seq<AssetEntry>,
    others: Seq<AssetEntry>,
    negate: bool,
    k: int,
)
    requires
        add_all_fits(s, others, negate),
        0 <= k <= others.len(),
    ensures
        add_all_fits(s, others.take(k), negate),
    decreases others.len(),
{
    if k == others.len() {
        assert(others.take(k) =~= others);
    } else {
        assert(others.take(k) =~= others.drop_last().take(k));
        lemma_add_all_fits_prefix(s, others.drop_last(), negate, k);
    }
}

// ---------------------------------------------------------------------------
// Executable helpers
// ---------------------------------------------------------------------------

/// A copy of an entry.
fn copy_asset(a: &ValidatorAsset) -> (r: ValidatorAsset)
    ensures
        r == *a,
{
    ValidatorAsset { unit: a.unit.clone(), quantity: a.quantity }
}

/// The first position whose unit is `unit`, if any.
fn find_unit_index(v: &Vec<ValidatorAsset>, unit: &String) -> (r: Option<usize>)
    ensures
        match r {
            Some(i) => is_first_unit_index(entries_of(v@), unit@, i as int),
            None => !has_unit(entries_of(v@), unit@),
        },
{
    let ghost e = entries_of(v@);
    let n = v.len();
    let mut i: usize = 0;
    while i < n
        invariant
            n == v@.len(),
            e == entries_of(v@),
            i <= n,
            forall|j: int| 0 <= j < i ==> e[j].0 != unit@,
        decreases n - i,
    {
        if v[i].unit == *unit {
            return Some(i);
        }
        i += 1;
    }
    None
}

/// The entries of `v` with a nonzero quantity.
fn keep_nonzero(v: &Vec<ValidatorAsset>) -> (r: Vec<ValidatorAsset>)
    ensures
        entries_of(r@) == nonzero_entries(entries_of(v@)),
{
    let n = v.len();
    let mut r: Vec<ValidatorAsset> = Vec::new();
    let mut i: usize = 0;
    while i < n
        invariant
            n == v@.len(),
            i <= n,
            entries_of(r@) == nonzero_entries(entries_of(v@.take(i as int))),
        decreases n - i,
    {
        assert(entries_of(v@.take(i + 1)).drop_last() =~= entries_of(v@.take(i as int)));
        assert(entries_of(v@.take(i + 1)).last() == (v@[i as int].unit@, v@[i as int].quantity));
        if v[i].quantity != 0 {
            let ghost prev = r@;
            r.push(copy_asset(&v[i]));
            assert(entries_of(r@) =~= entries_of(prev).push((v@[i as int].unit@, v@[i as int].quantity)));
        }
        i += 1;
    }
    assert(v@.take(n as int) =~= v@);
    r
}

/// The entries of `v` whose unit is not `unit`.
fn drop_unit(v: &Vec<ValidatorAsset>, unit: &String) -> (r: Vec<ValidatorAsset>)
    ensures
        entries_of(r@) == entries_without_unit(entries_of(v@), unit@),
{
    let n = v.len();
    let mut r: Vec<ValidatorAsset> = Vec::new();
    let mut i: usize = 0;
    while i < n
        invariant
            n == v@.len(),
            i <= n,
            entries_of(r@) == entries_without_unit(entries_of(v@.take(i as int)), unit@),
        decreases n - i,
    {
        assert(entries_of(v@.take(i + 1)).drop_last() =~= entries_of(v@.take(i as int)));
        assert(entries_of(v@.take(i + 1)).last() == (v@[i as int].unit@, v@[i as int].quantity));
        if v[i].unit != *unit {
            let ghost prev = r@;
            r.push(copy_asset(&v[i]));
            assert(entries_of(r@) =~= entries_of(prev).push((v@[i as int].unit@, v@[i as int].quantity)));
        }
        i += 1;
    }
    assert(v@.take(n as int) =~= v@);
    r
}

// ---------------------------------------------------------------------------
// Further specification: entries without a unit, sums of values
// ---------------------------------------------------------------------------

pub proof fn lemma_without_unit(s: Seq<AssetEntry>, u: Seq<char>, x: Seq<char>)
    ensures
        !has_unit(entries_without_unit(s, u), u),
        unit_quantity(entries_without_unit(s, u), x) == (if x == u {
            0
        } else {
            unit_quantity(s, x)
        }),
    decreases s.len(),
{
    if s.len() > 0 {
        lemma_without_unit(s.drop_last(), u, x);
        let rest = entries_without_unit(s.drop_last(), u);
        if s.last().0 != u {
            lemma_quantity_push(rest, s.last(), x);
            assert(!has_unit(rest.push(s.last()), u)) by {
                if has_unit(rest.push(s.last()), u) {
                    let k = choose|k: int|
                        0 <= k < rest.push(s.last()).len() && rest.push(s.last())[k].0 == u;
                    if k < rest.len() {
                        assert(rest.push(s.last())[k] == rest[k]);
                    }
                }
            }
        }
    }
}

/// The lovelace coins of `values`, summed.
pub open spec fn sum_coins(values: Seq<Value>) -> int
    decreases values.len(),
{
    if values.len() == 0 {
        0
    } else {
        sum_coins(values.drop_last()) + values.last().coins
    }
}

/// The entries obtained by adding the bundles of `values` in turn, starting
/// from an empty bundle.
pub open spec fn summed_entries(values: Seq<Value>) -> Seq<AssetEntry>
    decreases values.len(),
{
    if values.len() == 0 {
        Seq::empty()
    } else {
        added_all(summed_entries(values.drop_last()), values.last().assets@, false)
    }
}

/// No step of summing `values` leaves the range of `i128`.
pub open spec fn sum_fits(values: Seq<Value>) -> bool
    decreases values.len(),
{
    if values.len() == 0 {
        true
    } else {
        &&& sum_fits(values.drop_last())
        &&& i128::MIN <= sum_coins(values) <= i128::MAX
        &&& add_all_fits(summed_entries(values.drop_last()), values.last().assets@, false)
    }
}

/// The quantity of unit `u` over all of `values`, summed.
pub open spec fn sum_unit_quantity(values: Seq<Value>, u: Seq<char>) -> int
    decreases values.len(),
{
    if values.len() == 0 {
        0
    } else {
        sum_unit_quantity(values.drop_last(), u) + unit_quantity(values.last().assets@, u)
    }
}

/// The quantity of unit `u` in a value.
pub open spec fn quantity_of(v: Value, u: Seq<char>) -> int {
    unit_quantity(v.assets@, u)
}

pub proof fn lemma_sum_fits_prefix(values: Seq<Value>, k: int)
    requires
        sum_fits(values),
        0 <= k <= values.len(),
    ensures
        sum_fits(values.take(k)),
    decreases values.len(),
{
    if k == values.len() {
        assert(values.take(k) =~= values);
    } else {
        assert(values.take(k) =~= values.drop_last().take(k));
        lemma_sum_fits_prefix(values.drop_last(), k);
    }
}

// ---------------------------------------------------------------------------
// Bundles
// ---------------------------------------------------------------------------

impl MultiAsset {
    /// An empty bundle.
    pub fn new() -> (r: Self)
        ensures
            r@ == Seq::<AssetEntry>::empty(),
    {
        MultiAsset { assets: Vec::new() }
    }

    /// A copy of the bundle, entry for entry.
    pub fn duplicate(&self) -> (r: Self)
        ensures
            r@ == self@,
    {
        let n = self.assets.len();
        let mut v: Vec<ValidatorAsset> = Vec::new();
        let mut i: usize = 0;
        while i < n
            invariant
                n == self.assets@.len(),
                i <= n,
                v@ =~= self.assets@.take(i as int),
            decreases n - i,
        {
            v.push(copy_asset(&self.assets[i]));
            i += 1;
        }
        MultiAsset { assets: v }
    }

    /// Adds `quantity` of `unit`: the first entry with that unit has its
    /// quantity increased, or a new entry is appended when there is none and
    /// the quantity is not zero; entries that end at zero are dropped.
    pub fn add_asset(&mut self, unit: String, quantity: i128)
        requires
            add_asset_fits(old(self)@, unit@, quantity as int),
        ensures
            final(self)@ == added_entries(old(self)@, unit@, quantity as int),
    {
        let ghost s = self@;
        let idx = find_unit_index(&self.assets, &unit);
        match idx {
            Some(i) => {
                let q = self.assets[i].quantity + quantity;
                let u = self.assets[i].unit.clone();
                let ghost before = self.assets@;
                self.assets.set(i, ValidatorAsset { unit: u, quantity: q });
                proof {
                    assert(entries_of(self.assets@) =~= entries_of(before).update(
                        i as int,
                        (s[i as int].0, (s[i as int].1 + quantity) as i128),
                    ));
                    let c = choose|c: int| is_first_unit_index(s, unit@, c);
                    lemma_first_index_unique(s, unit@, c, i as int);
                }
            },
            None => {
                proof {
                    if exists|c: int| is_first_unit_index(s, unit@, c) {
                        let c = choose|c: int| is_first_unit_index(s, unit@, c);
                        assert(has_unit(s, unit@));
                    }
                }
                if quantity != 0 {
                    let ghost before = self.assets@;
                    let ghost u = unit@;
                    self.assets.push(ValidatorAsset { unit, quantity });
                    assert(entries_of(self.assets@) =~= entries_of(before).push((u, quantity)));
                }
            },
        }
        self.assets = keep_nonzero(&self.assets);
    }

    /// Replaces whatever is held of `unit` by `quantity` (an entry of zero is
    /// not kept).
    pub fn set_asset(&mut self, unit: String, quantity: i128)
        ensures
            final(self)@ == added_entries(
                entries_without_unit(old(self)@, unit@),
                unit@,
                quantity as int,
            ),
    {
        self.assets = drop_unit(&self.assets, &unit);
        proof {
            lemma_without_unit(old(self)@, unit@, unit@);
        }
        self.add_asset(unit, quantity);
    }

    /// Adds every entry of `other`, in its order.
    pub fn add(&mut self, other: &MultiAsset)
        requires
            add_all_fits(old(self)@, other@, false),
        ensures
            final(self)@ == added_all(old(self)@, other@, false),
    {
        self.add_all_signed(other, false);
    }

    /// Subtracts every entry of `other`, in its order.
    pub fn subtract(&mut self, other: &MultiAsset)
        requires
            add_all_fits(old(self)@, other@, true),
        ensures
            final(self)@ == added_all(old(self)@, other@, true),
    {
        self.add_all_signed(other, true);
    }

    fn add_all_signed(&mut self, other: &MultiAsset, negate: bool)
        requires
            add_all_fits(old(self)@, other@, negate),
        ensures
            final(self)@ == added_all(old(self)@, other@, negate),
    {
        let ghost s = self@;
        let n = other.assets.len();
        assert(n == other@.len());
        let mut i: usize = 0;
        while i < n
            invariant
                n == other@.len(),
                n == other.assets@.len(),
                i <= n,
                add_all_fits(s, other@, negate),
                self@ == added_all(s, other@.take(i as int), negate),
            decreases n - i,
        {
            proof {
                lemma_add_all_fits_prefix(s, other@, negate, i + 1);
                assert(other@.take(i + 1).drop_last() =~= other@.take(i as int));
                assert(other@.take(i + 1).last() == other@[i as int]);
                assert(other@[i as int] == (other.assets@[i as int].unit@, other.assets@[i as int].quantity));
            }
            let q = other.assets[i].quantity;
            let amount = if negate {
                -q
            } else {
                q
            };
            self.add_asset(other.assets[i].unit.clone(), amount);
            i += 1;
        }
        assert(other@.take(n as int) =~= other@);
    }

    /// Whether the bundle has no entry.
    pub fn is_empty(&self) -> (r: bool)
        ensures
            r == (self@.len() == 0),
    {
        self.assets.is_empty()
    }

    /// Whether no entry is negative.
    pub fn is_positive(&self) -> (r: bool)
        ensures
            r == (forall|i: int| 0 <= i < self@.len() ==> self@[i].1 >= 0),
    {
        let n = self.assets.len();
        let mut i: usize = 0;
        while i < n
            invariant
                n == self@.len(),
                n == self.assets@.len(),
                i <= n,
                forall|j: int| 0 <= j < i ==> self@[j].1 >= 0,
            decreases n - i,
        {
            if self.assets[i].quantity < 0 {
                assert(self@[i as int].1 < 0);
                return false;
            }
            i += 1;
        }
        true
    }

    /// The entries, in their order.
    pub fn iter(&self) -> (r: &[ValidatorAsset])
        ensures
            entries_of(r@) == self@,
    {
        self.assets.as_slice()
    }
}


// ---------------------------------------------------------------------------
// Values
// ---------------------------------------------------------------------------

impl Value {
    /// The empty value: no coins, no assets.
    pub fn zero() -> (r: Self)
        ensures
            r.coins == 0,
            r.assets@ == Seq::<AssetEntry>::empty(),
    {
        Value { assets: MultiAsset::new(), coins: 0 }
    }

    /// A value made of lovelace coins only.
    pub fn new_from_coins(coins: i128) -> (r: Self)
        ensures
            r.coins == coins,
            r.assets@ == Seq::<AssetEntry>::empty(),
    {
        Value { assets: MultiAsset::new(), coins }
    }

    /// A copy of the value.
    pub fn duplicate(&self) -> (r: Self)
        ensures
            r.coins == self.coins,
            r.assets@ == self.assets@,
    {
        Value { assets: self.assets.duplicate(), coins: self.coins }
    }

    /// Adds lovelace coins.
    pub fn add_coins(&mut self, coins: i128)
        requires
            i128::MIN <= old(self).coins + coins <= i128::MAX,
        ensures
            final(self).coins == old(self).coins + coins,
            final(self).assets@ == old(self).assets@,
    {
        self.coins = self.coins + coins;
    }

    /// Adds another value: its coins, then each of its entries in turn.
    pub fn add_ref(&mut self, other: &Value)
        requires
            i128::MIN <= old(self).coins + other.coins <= i128::MAX,
            add_all_fits(old(self).assets@, other.assets@, false),
        ensures
            final(self).coins == old(self).coins + other.coins,
            final(self).assets@ == added_all(old(self).assets@, other.assets@, false),
    {
        self.coins = self.coins + other.coins;
        self.assets.add(&other.assets);
    }

    /// Adds another value (same as `add_ref`).
    pub fn add(&mut self, other: &Value)
        requires
            i128::MIN <= old(self).coins + other.coins <= i128::MAX,
            add_all_fits(old(self).assets@, other.assets@, false),
        ensures
            final(self).coins == old(self).coins + other.coins,
            final(self).assets@ == added_all(old(self).assets@, other.assets@, false),
    {
        self.add_ref(other);
    }

    /// Adds `quantity` of the asset `unit`.
    pub fn add_asset(&mut self, unit: String, quantity: i128)
        requires
            add_asset_fits(old(self).assets@, unit@, quantity as int),
        ensures
            final(self).coins == old(self).coins,
            final(self).assets@ == added_entries(old(self).assets@, unit@, quantity as int),
    {
        self.assets.add_asset(unit, quantity);
    }

    /// Adds every entry of a bundle.
    pub fn add_multiasset(&mut self, other: &MultiAsset)
        requires
            add_all_fits(old(self).assets@, other@, false),
        ensures
            final(self).coins == old(self).coins,
            final(self).assets@ == added_all(old(self).assets@, other@, false),
    {
        self.assets.add(other);
    }

    /// Replaces whatever is held of the asset `unit` by `quantity`.
    pub fn set_asset(&mut self, unit: String, quantity: i128)
        ensures
            final(self).coins == old(self).coins,
            final(self).assets@ == added_entries(
                entries_without_unit(old(self).assets@, unit@),
                unit@,
                quantity as int,
            ),
    {
        self.assets.set_asset(unit, quantity);
    }

    /// Subtracts another value: its coins, then each of its entries in turn.
    pub fn subtract_ref(&mut self, other: &Value)
        requires
            i128::MIN <= old(self).coins - other.coins <= i128::MAX,
            add_all_fits(old(self).assets@, other.assets@, true),
        ensures
            final(self).coins == old(self).coins - other.coins,
            final(self).assets@ == added_all(old(self).assets@, other.assets@, true),
    {
        self.coins = self.coins - other.coins;
        self.assets.subtract(&other.assets);
    }

    /// Subtracts another value (same as `subtract_ref`).
    pub fn subtract(&mut self, other: &Value)
        requires
            i128::MIN <= old(self).coins - other.coins <= i128::MAX,
            add_all_fits(old(self).assets@, other.assets@, true),
        ensures
            final(self).coins == old(self).coins - other.coins,
            final(self).assets@ == added_all(old(self).assets@, other.assets@, true),
    {
        self.subtract_ref(other);
    }

    /// Subtracts every entry of a bundle.
    pub fn subtract_multiasset(&mut self, other: &MultiAsset)
        requires
            add_all_fits(old(self).assets@, other@, true),
        ensures
            final(self).coins == old(self).coins,
            final(self).assets@ == added_all(old(self).assets@, other@, true),
    {
        self.assets.subtract(other);
    }

    /// This value minus `other`.
    pub fn difference(&self, other: &Value) -> (r: Value)
        requires
            i128::MIN <= self.coins - other.coins <= i128::MAX,
            add_all_fits(self.assets@, other.assets@, true),
        ensures
            r.coins == self.coins - other.coins,
            r.assets@ == added_all(self.assets@, other.assets@, true),
    {
        let mut result = self.duplicate();
        result.subtract_ref(other);
        result
    }

    /// Whether the value holds any native asset entry.
    pub fn has_assets(&self) -> (r: bool)
        ensures
            r == (self.assets@.len() != 0),
    {
        !self.assets.is_empty()
    }

    /// Whether neither the coins nor any asset entry are negative.
    pub fn is_positive(&self) -> (r: bool)
        ensures
            r == (self.coins >= 0 && forall|i: int|
                0 <= i < self.assets@.len() ==> self.assets@[i].1 >= 0),
    {
        if self.coins < 0 {
            return false;
        }
        self.assets.is_positive()
    }

    /// The sum of `values`, added in their order to the empty value.
    pub fn sum(values: &[Value]) -> (r: Value)
        requires
            sum_fits(values@),
        ensures
            r.coins == sum_coins(values@),
            r.assets@ == summed_entries(values@),
    {
        let n = values.len();
        let mut result = Value::zero();
        let mut i: usize = 0;
        while i < n
            invariant
                n == values@.len(),
                i <= n,
                sum_fits(values@),
                result.coins == sum_coins(values@.take(i as int)),
                result.assets@ == summed_entries(values@.take(i as int)),
            decreases n - i,
        {
            proof {
                lemma_sum_fits_prefix(values@, i + 1);
                assert(values@.take(i + 1).drop_last() =~= values@.take(i as int));
                assert(values@.take(i + 1).last() == values@[i as int]);
            }
            result.add_ref(&values[i]);
            i += 1;
        }
        assert(values@.take(n as int) =~= values@);
        result
    }
}


// ---------------------------------------------------------------------------
// Laws
// ---------------------------------------------------------------------------

/// Adding a bundle adds its quantity of every unit, and keeps a well-formed
/// bundle well formed.
pub proof fn law_add_adds_quantities(s: Seq<AssetEntry>, o: Seq<AssetEntry>, u: Seq<char>)
    requires
        add_all_fits(s, o, false),
    ensures
        unit_quantity(added_all(s, o, false), u) == unit_quantity(s, u) + unit_quantity(o, u),
        entries_wf(s) ==> entries_wf(added_all(s, o, false)),
{
    lemma_quantity_added_all(s, o, false, u);
    if entries_wf(s) {
        lemma_added_all_wf(s, o, false);
    }
}

/// Subtracting a bundle subtracts its quantity of every unit, and keeps a
/// well-formed bundle well formed.
pub proof fn law_subtract_subtracts_quantities(
    s: Seq<AssetEntry>,
    o: Seq<AssetEntry>,
    u: Seq<char>,
)
    requires
        add_all_fits(s, o, true),
    ensures
        unit_quantity(added_all(s, o, true), u) == unit_quantity(s, u) - unit_quantity(o, u),
        entries_wf(s) ==> entries_wf(added_all(s, o, true)),
{
    lemma_quantity_added_all(s, o, true, u);
    if entries_wf(s) {
        lemma_added_all_wf(s, o, true);
    }
}

/// Subtracting a bundle after adding it gives back the quantity of every unit.
pub proof fn law_subtract_undoes_add(s: Seq<AssetEntry>, o: Seq<AssetEntry>, u: Seq<char>)
    requires
        add_all_fits(s, o, false),
        add_all_fits(added_all(s, o, false), o, true),
    ensures
        unit_quantity(added_all(added_all(s, o, false), o, true), u) == unit_quantity(s, u),
{
    lemma_quantity_added_all(s, o, false, u);
    lemma_quantity_added_all(added_all(s, o, false), o, true, u);
}

/// Adding a value and then subtracting it again restores the value: when
/// each of the two values names every unit at most once and no quantity of
/// the value subtracted is `i128::MIN`, the subtraction is always in range,
/// the coins come back, and so does the quantity of every unit.
pub proof fn law_add_then_subtract_restores(v: Value, o: Value, u: Seq<char>)
    requires
        units_distinct(v.assets@),
        units_distinct(o.assets@),
        forall|i: int| 0 <= i < o.assets@.len() ==> o.assets@[i].1 != i128::MIN,
        i128::MIN <= v.coins + o.coins <= i128::MAX,
        add_all_fits(v.assets@, o.assets@, false),
    ensures
        add_all_fits(added_all(v.assets@, o.assets@, false), o.assets@, true),
        (v.coins + o.coins) - o.coins == v.coins,
        unit_quantity(added_all(added_all(v.assets@, o.assets@, false), o.assets@, true), u) == unit_quantity(
            v.assets@,
            u,
        ),
{
    let s = v.assets@;
    let b = o.assets@;
    let a = added_all(s, b, false);
    lemma_added_all_wf(s, b, false);
    assert forall|x: Seq<char>|
        i128::MIN <= #[trigger] unit_quantity(a, x) + (if true {
            -unit_quantity(b, x)
        } else {
            unit_quantity(b, x)
        }) <= i128::MAX by {
        lemma_quantity_added_all(s, b, false, x);
        if has_unit(s, x) {
            let i = choose|i: int| 0 <= i < s.len() && s[i].0 == x;
            lemma_quantity_single(s, i, x);
        } else {
            lemma_quantity_absent(s, x);
        }
    }
    law_add_all_fits_when_sums_fit(a, b, true);
    lemma_quantity_added_all(s, b, false, u);
    lemma_quantity_added_all(a, b, true, u);
}

/// Adding `a` to `b` and `b` to `a` hold the same quantity of every unit.
pub proof fn law_add_commutes(a: Seq<AssetEntry>, b: Seq<AssetEntry>, u: Seq<char>)
    requires
        add_all_fits(a, b, false),
        add_all_fits(b, a, false),
    ensures
        unit_quantity(added_all(a, b, false), u) == unit_quantity(added_all(b, a, false), u),
{
    lemma_quantity_added_all(a, b, false, u);
    lemma_quantity_added_all(b, a, false, u);
}

/// Adding an empty bundle changes nothing; adding a bundle to an empty one
/// holds the quantities of that bundle.
pub proof fn law_empty_is_neutral(s: Seq<AssetEntry>, u: Seq<char>)
    requires
        add_all_fits(Seq::empty(), s, false),
    ensures
        added_all(s, Seq::empty(), false) == s,
        unit_quantity(added_all(Seq::empty(), s, false), u) == unit_quantity(s, u),
{
    lemma_quantity_added_all(Seq::empty(), s, false, u);
}

/// Adding `q` of `unit` changes the quantity of `unit` by `q`, leaves the
/// other units alone, and keeps a well-formed bundle well formed.
pub proof fn law_add_asset_quantity(s: Seq<AssetEntry>, unit: Seq<char>, q: i128, u: Seq<char>)
    requires
        add_asset_fits(s, unit, q as int),
    ensures
        unit_quantity(added_entries(s, unit, q as int), u) == unit_quantity(s, u) + (if unit
            == u {
            q as int
        } else {
            0
        }),
        entries_wf(s) ==> entries_wf(added_entries(s, unit, q as int)),
{
    lemma_quantity_added_entries(s, unit, q as int, u);
    if entries_wf(s) {
        lemma_added_entries_wf(s, unit, q as int);
    }
}

/// Setting the quantity of `unit` makes it `q` and leaves the other units
/// alone.
pub proof fn law_set_asset_quantity(s: Seq<AssetEntry>, unit: Seq<char>, q: i128, u: Seq<char>)
    ensures
        unit_quantity(added_entries(entries_without_unit(s, unit), unit, q as int), u) == (if unit
            == u {
            q as int
        } else {
            unit_quantity(s, u)
        }),
{
    lemma_without_unit(s, unit, unit);
    lemma_without_unit(s, unit, u);
    lemma_quantity_added_entries(entries_without_unit(s, unit), unit, q as int, u);
}

/// A well-formed bundle has no entry exactly when it holds nothing of any unit.
pub proof fn law_empty_iff_holds_nothing(s: Seq<AssetEntry>)
    requires
        entries_wf(s),
    ensures
        (s.len() == 0) <==> (forall|u: Seq<char>| unit_quantity(s, u) == 0),
{
    if s.len() > 0 {
        lemma_quantity_single(s, 0, s[0].0);
        assert(unit_quantity(s, s[0].0) != 0);
    }
}

/// A well-formed bundle has no negative entry exactly when no unit has a
/// negative quantity.
pub proof fn law_positive_iff_quantities_nonnegative(s: Seq<AssetEntry>)
    requires
        entries_wf(s),
    ensures
        (forall|i: int| 0 <= i < s.len() ==> s[i].1 >= 0) <==> (forall|u: Seq<char>|
            unit_quantity(s, u) >= 0),
{
    assert forall|i: int| 0 <= i < s.len() implies unit_quantity(s, s[i].0)
        == s[i].1 by {
        lemma_quantity_single(s, i, s[i].0);
    }
    if forall|i: int| 0 <= i < s.len() ==> s[i].1 >= 0 {
        assert forall|u: Seq<char>| unit_quantity(s, u) >= 0 by {
            if has_unit(s, u) {
                let i = choose|i: int| 0 <= i < s.len() && s[i].0 == u;
                lemma_quantity_single(s, i, u);
            } else {
                lemma_quantity_absent(s, u);
            }
        }
    }
    if forall|u: Seq<char>| unit_quantity(s, u) >= 0 {
        assert forall|i: int| 0 <= i < s.len() implies s[i].1 >= 0 by {
            lemma_quantity_single(s, i, s[i].0);
            assert(unit_quantity(s, s[i].0) >= 0);
        }
    }
}

/// The sum of values holds, of every unit, the sum of their quantities, and
/// its bundle is well formed.
pub proof fn law_sum_quantities(values: Seq<Value>, u: Seq<char>)
    requires
        sum_fits(values),
    ensures
        unit_quantity(summed_entries(values), u) == sum_unit_quantity(values, u),
        entries_wf(summed_entries(values)),
    decreases values.len(),
{
    if values.len() > 0 {
        law_sum_quantities(values.drop_last(), u);
        lemma_quantity_added_all(summed_entries(values.drop_last()), values.last().assets@, false, u);
        lemma_added_all_wf(summed_entries(values.drop_last()), values.last().assets@, false);
    }
}

/// With bundles whose units are distinct, adding (or subtracting) stays in
/// range exactly when every resulting quantity does.
pub proof fn law_add_all_fits_when_sums_fit(
    s: Seq<AssetEntry>,
    o: Seq<AssetEntry>,
    negate: bool,
)
    requires
        units_distinct(s),
        units_distinct(o),
        negate ==> forall|i: int| 0 <= i < o.len() ==> o[i].1 != i128::MIN,
        forall|u: Seq<char>|
            i128::MIN <= #[trigger] unit_quantity(s, u) + (if negate {
                -unit_quantity(o, u)
            } else {
                unit_quantity(o, u)
            }) <= i128::MAX,
    ensures
        add_all_fits(s, o, negate),
    decreases o.len(),
{
    if o.len() > 0 {
        let p = o.drop_last();
        let last = o.last();
        assert(units_distinct(p)) by {
            assert forall|i: int, j: int| 0 <= i < j < p.len() implies p[i].0 != p[j].0 by {
                assert(p[i] == o[i]);
                assert(p[j] == o[j]);
            }
        }
        assert forall|u: Seq<char>|
            i128::MIN <= #[trigger] unit_quantity(s, u) + (if negate {
                -unit_quantity(p, u)
            } else {
                unit_quantity(p, u)
            }) <= i128::MAX by {
            assert(i128::MIN <= unit_quantity(s, u) + (if negate {
                -unit_quantity(o, u)
            } else {
                unit_quantity(o, u)
            }) <= i128::MAX);
            if has_unit(p, u) {
                let i = choose|i: int| 0 <= i < p.len() && p[i].0 == u;
                lemma_quantity_single(p, i, u);
                lemma_quantity_single(o, i, u);
                assert(p[i] == o[i]);
                assert(last.0 != u);
            } else {
                lemma_quantity_absent(p, u);
                if has_unit(s, u) {
                    let i = choose|i: int| 0 <= i < s.len() && s[i].0 == u;
                    lemma_quantity_single(s, i, u);
                } else {
                    lemma_quantity_absent(s, u);
                }
            }
        }
        law_add_all_fits_when_sums_fit(s, p, negate);
        let prev = added_all(s, p, negate);
        lemma_added_all_wf(s, p, negate);
        let lu = last.0;
        assert(!has_unit(p, lu)) by {
            if has_unit(p, lu) {
                let i = choose|i: int| 0 <= i < p.len() && p[i].0 == lu;
                assert(p[i] == o[i]);
            }
        }
        lemma_quantity_absent(p, lu);
        lemma_quantity_single(o, o.len() - 1, lu);
        lemma_quantity_added_all(s, p, negate, lu);
        assert forall|i: int| is_first_unit_index(prev, lu, i) implies i128::MIN <= prev[i].1
            + signed_quantity(last.1, negate) <= i128::MAX by {
            lemma_quantity_single(prev, i, lu);
            assert(i128::MIN <= unit_quantity(s, lu) + (if negate {
                -unit_quantity(o, lu)
            } else {
                unit_quantity(o, lu)
            }) <= i128::MAX);
        }
    }
}


// ---------------------------------------------------------------------------
// Values from a list of amounts
// ---------------------------------------------------------------------------

/// The quantity written in an amount (meaningful when it parses).
pub open spec fn amount_quantity(a: Asset) -> int {
    parse_i128_spec(a.quantity@).unwrap() as int
}

/// The lovelace of a list of amounts: the sum of the quantities whose unit is
/// `"lovelace"`.
pub open spec fn amounts_coins(assets: Seq<Asset>) -> int
    decreases assets.len(),
{
    if assets.len() == 0 {
        0
    } else {
        amounts_coins(assets.drop_last()) + if assets.last().unit@ == lovelace_chars() {
            amount_quantity(assets.last())
        } else {
            0
        }
    }
}

/// The bundle of a list of amounts: every amount of another unit added in
/// turn.
pub open spec fn amounts_entries(assets: Seq<Asset>) -> Seq<AssetEntry>
    decreases assets.len(),
{
    if assets.len() == 0 {
        Seq::empty()
    } else if assets.last().unit@ == lovelace_chars() {
        amounts_entries(assets.drop_last())
    } else {
        added_entries(
            amounts_entries(assets.drop_last()),
            assets.last().unit@,
            amount_quantity(assets.last()),
        )
    }
}

/// Every quantity of the list parses and no partial sum leaves the range of
/// `i128`.
pub open spec fn amounts_fit(assets: Seq<Asset>) -> bool
    decreases assets.len(),
{
    if assets.len() == 0 {
        true
    } else {
        &&& amounts_fit(assets.drop_last())
        &&& parse_i128_spec(assets.last().quantity@) is Some
        &&& i128::MIN <= amounts_coins(assets) <= i128::MAX
        &&& (assets.last().unit@ != lovelace_chars() ==> add_asset_fits(
            amounts_entries(assets.drop_last()),
            assets.last().unit@,
            amount_quantity(assets.last()),
        ))
    }
}

proof fn lemma_amounts_fit_prefix(assets: Seq<Asset>, k: int)
    requires
        amounts_fit(assets),
        0 <= k <= assets.len(),
    ensures
        amounts_fit(assets.take(k)),
    decreases assets.len(),
{
    if k == assets.len() {
        assert(assets.take(k) =~= assets);
    } else {
        assert(assets.take(k) =~= assets.drop_last().take(k));
        lemma_amounts_fit_prefix(assets.drop_last(), k);
    }
}

/// The bundle of amounts is well formed.
pub proof fn lemma_amounts_entries_wf(assets: Seq<Asset>)
    ensures
        entries_wf(amounts_entries(assets)),
    decreases assets.len(),
{
    if assets.len() > 0 {
        lemma_amounts_entries_wf(assets.drop_last());
        if assets.last().unit@ != lovelace_chars() {
            lemma_added_entries_wf(
                amounts_entries(assets.drop_last()),
                assets.last().unit@,
                amount_quantity(assets.last()),
            );
        }
    }
}

impl Value {
    /// The value of a list of amounts: quantities of `"lovelace"` are added to
    /// the coins, any other unit (the empty one included) to the bundle.
    pub fn new_from_common_assets(assets: &Vec<Asset>) -> (r: Value)
        requires
            amounts_fit(assets@),
        ensures
            r.coins == amounts_coins(assets@),
            r.assets@ == amounts_entries(assets@),
    {
        let n = assets.len();
        let mut value = Value::zero();
        let mut i: usize = 0;
        while i < n
            invariant
                n == assets@.len(),
                i <= n,
                amounts_fit(assets@),
                value.coins == amounts_coins(assets@.take(i as int)),
                value.assets@ == amounts_entries(assets@.take(i as int)),
            decreases n - i,
        {
            proof {
                lemma_amounts_fit_prefix(assets@, i + 1);
                assert(assets@.take(i + 1).drop_last() =~= assets@.take(i as int));
                assert(assets@.take(i + 1).last() == assets@[i as int]);
            }
            let asset = &assets[i];
            let q = match parse_i128(asset.quantity.as_str()) {
                Some(q) => q,
                None => {
                    assert(false);
                    0
                },
            };
            if is_lovelace(&asset.unit) {
                value.add_coins(q);
            } else {
                value.add_asset(asset.unit.clone(), q);
            }
            i += 1;
        }
        assert(assets@.take(n as int) =~= assets@);
        value
    }
}


// ---------------------------------------------------------------------------
// Values as cardano_serialization_lib holds them
// ---------------------------------------------------------------------------

/// An asset of one policy: the hex text `AssetName::to_hex` gives for its
/// name, and its quantity.
#[derive(Debug, Clone)]
pub struct CslAssetQuantity {
    pub name_hex: String,
    pub quantity: u64,
}

/// The assets of one policy: the hex text of the policy id, and its assets.
#[derive(Debug, Clone)]
pub struct CslPolicyAssets {
    pub policy_hex: String,
    pub assets: Vec<CslAssetQuantity>,
}

/// A value as `cardano_serialization_lib` holds it: lovelace and, when there
/// are native assets, the assets of each policy.
#[derive(Debug, Clone)]
pub struct CslValueFacts {
    pub coin: u64,
    pub multiasset: Option<Vec<CslPolicyAssets>>,
}

/// The entries after setting, in turn, each asset of one policy; the unit of
/// an asset is the policy's hex followed by the name's hex.
pub open spec fn set_names(s: Seq<AssetEntry>, policy: Seq<char>, names: Seq<CslAssetQuantity>) -> Seq<
    AssetEntry,
>
    decreases names.len(),
{
    if names.len() == 0 {
        s
    } else {
        let prev = set_names(s, policy, names.drop_last());
        let u = policy + names.last().name_hex@;
        added_entries(entries_without_unit(prev, u), u, names.last().quantity as int)
    }
}

/// The entries after setting every asset of every policy, in turn.
pub open spec fn set_policies(s: Seq<AssetEntry>, ps: Seq<CslPolicyAssets>) -> Seq<AssetEntry>
    decreases ps.len(),
{
    if ps.len() == 0 {
        s
    } else {
        set_names(set_policies(s, ps.drop_last()), ps.last().policy_hex@, ps.last().assets@)
    }
}

/// The entries after adding, in turn, each asset of one policy.
pub open spec fn add_names(s: Seq<AssetEntry>, policy: Seq<char>, names: Seq<CslAssetQuantity>) -> Seq<
    AssetEntry,
>
    decreases names.len(),
{
    if names.len() == 0 {
        s
    } else {
        added_entries(
            add_names(s, policy, names.drop_last()),
            policy + names.last().name_hex@,
            names.last().quantity as int,
        )
    }
}

/// No step of `add_names` leaves the range of `i128`.
pub open spec fn add_names_fit(s: Seq<AssetEntry>, policy: Seq<char>, names: Seq<CslAssetQuantity>) -> bool
    decreases names.len(),
{
    if names.len() == 0 {
        true
    } else {
        &&& add_names_fit(s, policy, names.drop_last())
        &&& add_asset_fits(
            add_names(s, policy, names.drop_last()),
            policy + names.last().name_hex@,
            names.last().quantity as int,
        )
    }
}

/// The entries after adding every asset of every policy, in turn.
pub open spec fn add_policies(s: Seq<AssetEntry>, ps: Seq<CslPolicyAssets>) -> Seq<AssetEntry>
    decreases ps.len(),
{
    if ps.len() == 0 {
        s
    } else {
        add_names(add_policies(s, ps.drop_last()), ps.last().policy_hex@, ps.last().assets@)
    }
}

/// No step of `add_policies` leaves the range of `i128`.
pub open spec fn add_policies_fit(s: Seq<AssetEntry>, ps: Seq<CslPolicyAssets>) -> bool
    decreases ps.len(),
{
    if ps.len() == 0 {
        true
    } else {
        &&& add_policies_fit(s, ps.drop_last())
        &&& add_names_fit(add_policies(s, ps.drop_last()), ps.last().policy_hex@, ps.last().assets@)
    }
}

proof fn lemma_add_names_fit_prefix(s: Seq<AssetEntry>, policy: Seq<char>, names: Seq<CslAssetQuantity>, k: int)
    requires
        add_names_fit(s, policy, names),
        0 <= k <= names.len(),
    ensures
        add_names_fit(s, policy, names.take(k)),
    decreases names.len(),
{
    if k == names.len() {
        assert(names.take(k) =~= names);
    } else {
        assert(names.take(k) =~= names.drop_last().take(k));
        lemma_add_names_fit_prefix(s, policy, names.drop_last(), k);
    }
}

proof fn lemma_add_policies_fit_prefix(s: Seq<AssetEntry>, ps: Seq<CslPolicyAssets>, k: int)
    requires
        add_policies_fit(s, ps),
        0 <= k <= ps.len(),
    ensures
        add_policies_fit(s, ps.take(k)),
    decreases ps.len(),
{
    if k == ps.len() {
        assert(ps.take(k) =~= ps);
    } else {
        assert(ps.take(k) =~= ps.drop_last().take(k));
        lemma_add_policies_fit_prefix(s, ps.drop_last(), k);
    }
}

/// The unit of an asset: the policy's hex followed by the name's hex.
fn csl_unit(policy_hex: &String, name_hex: &String) -> (r: String)
    ensures
        r@ == policy_hex@ + name_hex@,
{
    let mut u = string_of(policy_hex.as_str());
    push_str(&mut u, name_hex.as_str());
    u
}

impl MultiAsset {
    /// The bundle holding every asset of every policy, added in turn.
    pub fn new_from_csl_multiasset(multiasset: &Vec<CslPolicyAssets>) -> (r: Self)
        requires
            add_policies_fit(Seq::empty(), multiasset@),
        ensures
            r@ == add_policies(Seq::empty(), multiasset@),
    {
        let mut result = MultiAsset::new();
        let n = multiasset.len();
        let mut i: usize = 0;
        while i < n
            invariant
                n == multiasset@.len(),
                i <= n,
                add_policies_fit(Seq::empty(), multiasset@),
                result@ == add_policies(Seq::empty(), multiasset@.take(i as int)),
            decreases n - i,
        {
            proof {
                lemma_add_policies_fit_prefix(Seq::empty(), multiasset@, i + 1);
                assert(multiasset@.take(i + 1).drop_last() =~= multiasset@.take(i as int));
                assert(multiasset@.take(i + 1).last() == multiasset@[i as int]);
            }
            let policy = &multiasset[i];
            let ghost start = result@;
            let m = policy.assets.len();
            let mut j: usize = 0;
            while j < m
                invariant
                    m == policy.assets@.len(),
                    j <= m,
                    add_names_fit(start, policy.policy_hex@, policy.assets@),
                    result@ == add_names(start, policy.policy_hex@, policy.assets@.take(j as int)),
                decreases m - j,
            {
                proof {
                    lemma_add_names_fit_prefix(start, policy.policy_hex@, policy.assets@, j + 1);
                    assert(policy.assets@.take(j + 1).drop_last() =~= policy.assets@.take(j as int));
                    assert(policy.assets@.take(j + 1).last() == policy.assets@[j as int]);
                }
                let asset = &policy.assets[j];
                let unit = csl_unit(&policy.policy_hex, &asset.name_hex);
                result.add_asset(unit, asset.quantity as i128);
                j += 1;
            }
            assert(policy.assets@.take(m as int) =~= policy.assets@);
            i += 1;
        }
        assert(multiasset@.take(n as int) =~= multiasset@);
        result
    }
}

impl Value {
    /// The value of the native assets of a `cardano_serialization_lib` value:
    /// each asset of each policy is set in turn; the lovelace is not taken
    /// over (the coins stay zero).
    pub fn new_from_csl_value(value: &CslValueFacts) -> (r: Value)
        ensures
            r.coins == 0,
            r.assets@ == match value.multiasset {
                Some(ps) => set_policies(Seq::empty(), ps@),
                None => Seq::empty(),
            },
    {
        let mut new_value = Value::zero();
        if let Some(multiasset) = &value.multiasset {
            let n = multiasset.len();
            let mut i: usize = 0;
            while i < n
                invariant
                    n == multiasset@.len(),
                    i <= n,
                    new_value.coins == 0,
                    new_value.assets@ == set_policies(Seq::empty(), multiasset@.take(i as int)),
                decreases n - i,
            {
                proof {
                    assert(multiasset@.take(i + 1).drop_last() =~= multiasset@.take(i as int));
                    assert(multiasset@.take(i + 1).last() == multiasset@[i as int]);
                }
                let policy = &multiasset[i];
                let ghost start = new_value.assets@;
                let m = policy.assets.len();
                let mut j: usize = 0;
                while j < m
                    invariant
                        m == policy.assets@.len(),
                        j <= m,
                        new_value.coins == 0,
                        new_value.assets@ == set_names(start, policy.policy_hex@, policy.assets@.take(j as int)),
                    decreases m - j,
                {
                    proof {
                        assert(policy.assets@.take(j + 1).drop_last() =~= policy.assets@.take(j as int));
                        assert(policy.assets@.take(j + 1).last() == policy.assets@[j as int]);
                    }
                    let asset = &policy.assets[j];
                    let unit = csl_unit(&policy.policy_hex, &asset.name_hex);
                    new_value.set_asset(unit, asset.quantity as i128);
                    j += 1;
                }
                assert(policy.assets@.take(m as int) =~= policy.assets@);
                i += 1;
            }
            assert(multiasset@.take(n as int) =~= multiasset@);
        }
        new_value
    }
}

// ---------------------------------------------------------------------------
// An asset as it is written out: policy id, asset name and quantity
// ---------------------------------------------------------------------------

impl ValidatorAsset {
    /// The unit split into the policy id (its first 56 characters) and the
    /// asset name (the rest).
    pub fn policy_id_and_name(&self) -> (r: (String, String))
        requires
            self.unit@.len() >= 56,
        ensures
            r.0@ == self.unit@.take(56),
            r.1@ == self.unit@.skip(56),
            r.0@ + r.1@ == self.unit@,
    {
        let p = take_chars(self.unit.as_str(), 56);
        let n = skip_chars(self.unit.as_str(), 56);
        assert(self.unit@.take(56) + self.unit@.skip(56) =~= self.unit@);
        (p, n)
    }
}

/// A field of an asset as it is written out.
#[derive(Debug, Clone, Copy, PartialEq, Eq, Structural)]
pub enum AssetField {
    PolicyId,
    AssetName,
    Quantity,
}

impl AssetField {
    /// The field's name as it is written.
    pub fn name(&self) -> (r: &'static str)
        ensures
            r@ == (match *self {
                AssetField::PolicyId => "policy_id"@,
                AssetField::AssetName => "asset_name"@,
                AssetField::Quantity => "quantity"@,
            }),
    {
        match self {
            AssetField::PolicyId => "policy_id",
            AssetField::AssetName => "asset_name",
            AssetField::Quantity => "quantity",
        }
    }
}

/// Why the fields read do not make an asset.
#[derive(Debug, Clone, Copy, PartialEq, Eq, Structural)]
pub enum AssetFieldError {
    /// The field was given twice.
    DuplicateField(AssetField),
    /// The field was not given.
    MissingField(AssetField),
}

/// The fields of an asset read so far.
#[derive(Debug, Clone, PartialEq)]
pub struct AssetFields {
    pub policy_id: Option<String>,
    pub asset_name: Option<String>,
    pub quantity: Option<i128>,
}

impl AssetFields {
    /// Whether `field` has been read.
    pub open spec fn has(&self, field: AssetField) -> bool {
        match field {
            AssetField::PolicyId => self.policy_id is Some,
            AssetField::AssetName => self.asset_name is Some,
            AssetField::Quantity => self.quantity is Some,
        }
    }

    /// No field read yet.
    pub fn new() -> (r: Self)
        ensures
            r.policy_id is None,
            r.asset_name is None,
            r.quantity is None,
    {
        AssetFields { policy_id: None, asset_name: None, quantity: None }
    }

    /// Whether `field` may be read now: an error when it was read before.
    pub fn accept(&self, field: AssetField) -> (r: Result<(), AssetFieldError>)
        ensures
            r == (if self.has(field) {
                Err(AssetFieldError::DuplicateField(field))
            } else {
                Ok::<(), AssetFieldError>(())
            }),
    {
        let seen = match field {
            AssetField::PolicyId => self.policy_id.is_some(),
            AssetField::AssetName => self.asset_name.is_some(),
            AssetField::Quantity => self.quantity.is_some(),
        };
        if seen {
            Err(AssetFieldError::DuplicateField(field))
        } else {
            Ok(())
        }
    }

    /// The asset the fields make: its unit is the policy id followed by the
    /// asset name.  The first field missing, in the order policy id, asset
    /// name, quantity, is the error.
    pub fn finish(self) -> (r: Result<ValidatorAsset, AssetFieldError>)
        ensures
            self.policy_id is None ==> r == Err::<ValidatorAsset, AssetFieldError>(
                AssetFieldError::MissingField(AssetField::PolicyId),
            ),
            self.policy_id is Some && self.asset_name is None ==> r == Err::<
                ValidatorAsset,
                AssetFieldError,
            >(AssetFieldError::MissingField(AssetField::AssetName)),
            self.policy_id is Some && self.asset_name is Some && self.quantity is None ==> r
                == Err::<ValidatorAsset, AssetFieldError>(
                AssetFieldError::MissingField(AssetField::Quantity),
            ),
            self.policy_id is Some && self.asset_name is Some && self.quantity is Some ==> {
                &&& r is Ok
                &&& r->Ok_0.unit@ == self.policy_id->Some_0@ + self.asset_name->Some_0@
                &&& r->Ok_0.quantity == self.quantity->Some_0
            },
    {
        match self.policy_id {
            None => Err(AssetFieldError::MissingField(AssetField::PolicyId)),
            Some(policy_id) => match self.asset_name {
                None => Err(AssetFieldError::MissingField(AssetField::AssetName)),
                Some(asset_name) => match self.quantity {
                    None => Err(AssetFieldError::MissingField(AssetField::Quantity)),
                    Some(quantity) => {
                        let mut unit = policy_id;
                        push_str(&mut unit, asset_name.as_str());
                        Ok(ValidatorAsset { unit, quantity })
                    },
                },
            },
        }
    }
}

} // verus!
