//! Plain records of the phase-1 rules: credentials, voters, governance
//! action identifiers and kinds.
use vstd::prelude::*;

use crate::text::{push_char, push_hex, hex_encode_spec};

verus! {

#[derive(Debug, Clone, Copy, PartialEq, Eq, Hash, Structural)]
pub enum GovernanceActionType {
    ParameterChangeAction,
    HardForkInitiationAction,
    TreasuryWithdrawalsAction,
    NoConfidenceAction,
    UpdateCommitteeAction,
    NewConstitutionAction,
    InfoAction,
}

#[derive(Debug, Clone, Copy, PartialEq, Eq, Hash, Structural)]
pub enum NetworkType {
    Mainnet,
    Testnet,
}

#[derive(Debug, Clone, Copy, PartialEq, Eq, Hash, Structural)]
pub struct FeeDecomposition {
    pub tx_size_fee: u64,
    pub reference_scripts_fee: u64,
    pub execution_units_fee: u64,
}

/// A credential: the hash of a verification key or of a script.
#[derive(Debug, Clone, PartialEq, Eq, Hash)]
pub enum LocalCredential {
    KeyHash(Vec<u8>),
    ScriptHash(Vec<u8>),
}

/// Who casts a vote.
#[derive(Debug, Clone, PartialEq, Eq, Hash)]
pub enum Voter {
    ConstitutionalCommitteeHotScriptHash(Vec<u8>),
    ConstitutionalCommitteeHotKeyHash(Vec<u8>),
    DRepScriptHash(Vec<u8>),
    DRepKeyHash(Vec<u8>),
    StakingPoolKeyHash(Vec<u8>),
}

/// A governance action: the transaction that proposed it and its position.
#[derive(Debug, Clone, PartialEq, Eq, Hash)]
pub struct GovernanceActionId {
    pub tx_hash: Vec<u8>,
    pub index: u32,
}

#[derive(Debug, Clone, Copy, PartialEq, Eq, Hash, Structural)]
pub struct ProtocolVersion {
    pub major: u64,
    pub minor: u64,
}

/// A credential as plain values: whether it is a script hash, and the hash.
pub open spec fn credential_view(c: LocalCredential) -> (bool, Seq<u8>) {
    match c {
        LocalCredential::KeyHash(h) => (false, h@),
        LocalCredential::ScriptHash(h) => (true, h@),
    }
}

/// A governance action id as plain values.
pub open spec fn action_id_view(a: GovernanceActionId) -> (Seq<u8>, u32) {
    (a.tx_hash@, a.index)
}

/// Two byte strings are equal.
pub fn bytes_equal(a: &[u8], b: &[u8]) -> (r: bool)
    ensures
        r == (a@ == b@),
{
    if a.len() != b.len() {
        return false;
    }
    let n = a.len();
    let mut i: usize = 0;
    while i < n
        invariant
            n == a@.len(),
            n == b@.len(),
            i <= n,
            forall|j: int| 0 <= j < i ==> a@[j] == b@[j],
        decreases n - i,
    {
        if a[i] != b[i] {
            return false;
        }
        i += 1;
    }
    assert(a@ =~= b@);
    true
}

/// Two credentials are equal (same kind, same hash).
pub fn same_credential(a: &LocalCredential, b: &LocalCredential) -> (r: bool)
    ensures
        r == (credential_view(*a) == credential_view(*b)),
{
    match (a, b) {
        (LocalCredential::KeyHash(x), LocalCredential::KeyHash(y)) => bytes_equal(x.as_slice(), y.as_slice()),
        (LocalCredential::ScriptHash(x), LocalCredential::ScriptHash(y)) => bytes_equal(x.as_slice(), y.as_slice()),
        _ => false,
    }
}

/// Two governance action ids are equal.
pub fn same_action_id(a: &GovernanceActionId, b: &GovernanceActionId) -> (r: bool)
    ensures
        r == (action_id_view(*a) == action_id_view(*b)),
{
    bytes_equal(a.tx_hash.as_slice(), b.tx_hash.as_slice()) && a.index == b.index
}

/// The display text of a credential: `KeyHash(<hex>)` or `ScriptHash(<hex>)`.
pub open spec fn credential_text(c: LocalCredential) -> Seq<char> {
    match c {
        LocalCredential::KeyHash(h) => seq!['K', 'e', 'y', 'H', 'a', 's', 'h', '('] + hex_encode_spec(h@)
            + seq![')'],
        LocalCredential::ScriptHash(h) => seq!['S', 'c', 'r', 'i', 'p', 't', 'H', 'a', 's', 'h', '(']
            + hex_encode_spec(h@) + seq![')'],
    }
}

impl LocalCredential {
    /// The display text of the credential.
    pub fn to_display_string(&self) -> (r: String)
        ensures
            r@ == credential_text(*self),
    {
        let mut s = String::new();
        match self {
            LocalCredential::KeyHash(h) => {
                push_char(&mut s, 'K');
                push_char(&mut s, 'e');
                push_char(&mut s, 'y');
                push_char(&mut s, 'H');
                push_char(&mut s, 'a');
                push_char(&mut s, 's');
                push_char(&mut s, 'h');
                push_char(&mut s, '(');
                push_hex(&mut s, h.as_slice());
                push_char(&mut s, ')');
            },
            LocalCredential::ScriptHash(h) => {
                push_char(&mut s, 'S');
                push_char(&mut s, 'c');
                push_char(&mut s, 'r');
                push_char(&mut s, 'i');
                push_char(&mut s, 'p');
                push_char(&mut s, 't');
                push_char(&mut s, 'H');
                push_char(&mut s, 'a');
                push_char(&mut s, 's');
                push_char(&mut s, 'h');
                push_char(&mut s, '(');
                push_hex(&mut s, h.as_slice());
                push_char(&mut s, ')');
            },
        }
        assert(s@ =~= credential_text(*self));
        s
    }
}

} // verus!
