//! Plain transaction data shared by the validators: assets, inputs, outputs,
//! UTxOs and the price and budget records of the protocol parameters.
use vstd::prelude::*;

use crate::text::str_equal;

verus! {

/// An amount of one asset: the unit (`"lovelace"`, or the policy id followed
/// by the asset name) and the quantity written in decimal.
#[derive(Clone, Debug, PartialEq, Eq, Hash)]
pub struct Asset {
    pub unit: String,
    pub quantity: String,
}

/// A reference to a transaction output.
#[derive(Clone, Debug, PartialEq, Eq, Hash)]
pub struct TxInput {
    pub output_index: u32,
    pub tx_hash: String,
}

/// A transaction output.
#[derive(Clone, Debug, PartialEq, Eq, Hash)]
pub struct TxOutput {
    pub address: String,
    pub amount: Vec<Asset>,
    pub data_hash: Option<String>,
    pub plutus_data: Option<String>,
    pub script_ref: Option<String>,
    pub script_hash: Option<String>,
}

/// An unspent output together with its reference.
#[derive(Clone, Debug, PartialEq, Eq, Hash)]
pub struct UTxO {
    pub input: TxInput,
    pub output: TxOutput,
}

/// Cost models of the Plutus language versions.
#[derive(Debug, Clone)]
pub struct CostModels {
    pub plutus_v1: Option<Vec<u64>>,
    pub plutus_v2: Option<Vec<u64>>,
    pub plutus_v3: Option<Vec<u64>>,
}

/// Prices of memory and steps.
#[derive(Debug, Clone)]
pub struct ExUnitPrices {
    pub mem_price: SubCoin,
    pub step_price: SubCoin,
}

/// A fraction of a lovelace.
#[derive(Debug, Clone, Copy)]
pub struct SubCoin {
    pub numerator: u64,
    pub denominator: u64,
}

/// An execution budget.
#[derive(Debug, Clone, Copy, PartialEq, Eq)]
pub struct ExUnits {
    pub mem: u64,
    pub steps: u64,
}

/// The characters of `"lovelace"`.
pub open spec fn lovelace_chars() -> Seq<char> {
    seq!['l', 'o', 'v', 'e', 'l', 'a', 'c', 'e']
}

/// The unit names the lovelace coin: `"lovelace"` or the empty unit.
pub open spec fn is_ada_unit(u: Seq<char>) -> bool {
    u == lovelace_chars() || u.len() == 0
}

/// Whether `u` is exactly `"lovelace"`.
pub fn is_lovelace(u: &String) -> (r: bool)
    ensures
        r == (u@ == lovelace_chars()),
{
    let r = str_equal(u.as_str(), "lovelace");
    proof {
        reveal_strlit("lovelace");
        assert("lovelace"@ =~= lovelace_chars());
    }
    r
}

/// Whether `u` names the lovelace coin.
pub fn is_ada(u: &String) -> (r: bool)
    ensures
        r == is_ada_unit(u@),
{
    is_lovelace(u) || u.as_str().unicode_len() == 0
}

impl TxOutput {
    /// The first amount whose unit names the lovelace coin.
    pub fn find_ada_asset(&self) -> (r: Option<&Asset>)
        ensures
            match r {
                Some(a) => exists|i: int|
                    0 <= i < self.amount@.len() && *a == self.amount@[i] && is_ada_unit(
                        self.amount@[i].unit@,
                    ) && forall|j: int| 0 <= j < i ==> !is_ada_unit(self.amount@[j].unit@),
                None => forall|i: int|
                    0 <= i < self.amount@.len() ==> !is_ada_unit(self.amount@[i].unit@),
            },
    {
        let n = self.amount.len();
        let mut i: usize = 0;
        while i < n
            invariant
                n == self.amount@.len(),
                i <= n,
                forall|j: int| 0 <= j < i ==> !is_ada_unit(self.amount@[j].unit@),
            decreases n - i,
        {
            if is_ada(&self.amount[i].unit) {
                return Some(&self.amount[i]);
            }
            i += 1;
        }
        None
    }

    /// Whether some amount is of a unit other than the lovelace coin.
    pub fn has_non_ada_assets(&self) -> (r: bool)
        ensures
            r == exists|i: int|
                0 <= i < self.amount@.len() && !is_ada_unit(self.amount@[i].unit@),
    {
        let n = self.amount.len();
        let mut i: usize = 0;
        while i < n
            invariant
                n == self.amount@.len(),
                i <= n,
                forall|j: int| 0 <= j < i ==> is_ada_unit(self.amount@[j].unit@),
            decreases n - i,
        {
            if !is_ada(&self.amount[i].unit) {
                return true;
            }
            i += 1;
        }
        false
    }
}

} // verus!
