//! Asset and output records as the Plutus tooling reads them.
use vstd::prelude::*;

use crate::common::lovelace_chars;
use crate::text::{is_lovelace_str, parse_i128, parse_i128_spec, skip_chars, string_of, take_chars};

verus! {

/// Length in characters of a policy id written in hex.
pub open spec fn policy_len() -> int {
    56
}

/// The first 56 characters of `u` (all of them when shorter).
pub open spec fn policy_part(u: Seq<char>) -> Seq<char> {
    if u.len() <= 56 {
        u
    } else {
        u.take(56)
    }
}

/// The characters of `u` after the first 56 (none when shorter).
pub open spec fn name_part(u: Seq<char>) -> Seq<char> {
    if u.len() <= 56 {
        Seq::empty()
    } else {
        u.skip(56)
    }
}

/// An amount of one asset.
#[derive(Clone, Debug, PartialEq)]
pub struct Asset {
    unit: String,
    quantity: String,
}

impl Asset {
    /// Splits a unit into policy id and asset name; `"lovelace"` splits into
    /// two empty parts.
    pub fn unit_to_tuple(unit: &str) -> (r: (String, String))
        ensures
            unit@ == lovelace_chars() ==> r.0@.len() == 0 && r.1@.len() == 0,
            unit@ != lovelace_chars() ==> r.0@ == policy_part(unit@) && r.1@ == name_part(unit@),
    {
        if is_lovelace_str(unit) {
            (String::new(), String::new())
        } else {
            (take_chars(unit, 56), skip_chars(unit, 56))
        }
    }

    pub fn new(unit: String, quantity: String) -> (r: Self)
        ensures
            r.spec_unit() == unit@,
            r.spec_quantity() == quantity@,
    {
        Asset { unit, quantity }
    }

    pub fn new_from_str(unit: &str, quantity: &str) -> (r: Self)
        ensures
            r.spec_unit() == unit@,
            r.spec_quantity() == quantity@,
    {
        Asset { unit: string_of(unit), quantity: string_of(quantity) }
    }

    pub fn unit(&self) -> (r: String)
        ensures
            r@ == self.spec_unit(),
    {
        self.unit.clone()
    }

    /// The policy id: the first 56 characters of the unit.
    pub fn policy(&self) -> (r: String)
        ensures
            r@ == policy_part(self.spec_unit()),
    {
        take_chars(self.unit.as_str(), 56)
    }

    /// The asset name: the unit after its first 56 characters.
    pub fn name(&self) -> (r: String)
        ensures
            r@ == name_part(self.spec_unit()),
    {
        skip_chars(self.unit.as_str(), 56)
    }

    pub fn quantity(&self) -> (r: String)
        ensures
            r@ == self.spec_quantity(),
    {
        self.quantity.clone()
    }

    /// The quantity read as a decimal integer.
    pub fn quantity_i128(&self) -> (r: i128)
        requires
            parse_i128_spec(self.spec_quantity()) is Some,
        ensures
            Some(r) == parse_i128_spec(self.spec_quantity()),
    {
        match parse_i128(self.quantity.as_str()) {
            Some(q) => q,
            None => 0,
        }
    }

    pub closed spec fn spec_unit(&self) -> Seq<char> {
        self.unit@
    }

    pub closed spec fn spec_quantity(&self) -> Seq<char> {
        self.quantity@
    }
}

/// A reference to a transaction output.
#[derive(Clone, Debug, PartialEq)]
pub struct TxInput {
    pub output_index: u32,
    pub tx_hash: String,
}

/// A transaction output.
#[derive(Clone, Debug, PartialEq)]
pub struct TxOutput {
    pub address: String,
    pub amount: Vec<Asset>,
    pub data_hash: Option<String>,
    pub plutus_data: Option<String>,
    pub script_ref: Option<String>,
    pub script_hash: Option<String>,
}

/// An unspent output together with its reference.
#[derive(Clone, Debug, PartialEq)]
pub struct UTxO {
    pub input: TxInput,
    pub output: TxOutput,
}

/// Cost models of the Plutus language versions.
#[derive(Debug, Clone)]
pub struct CostModels {
    pub plutus_v1: Option<Vec<i64>>,
    pub plutus_v2: Option<Vec<i64>>,
    pub plutus_v3: Option<Vec<i64>>,
}

} // verus!
