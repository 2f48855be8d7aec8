//! Reading addresses and writing input references.
use vstd::prelude::*;

use cardano_serialization_lib as csl;

use crate::common::TxInput;
use crate::text::{decimal, push_char, push_decimal, push_str, string_of};
use crate::validators::phase_1::common::{credential_view, LocalCredential, NetworkType};

verus! {

/// The kinds of address.
#[derive(Debug, Clone, Copy, PartialEq, Eq, Structural)]
pub enum AddressKind {
    Base,
    Pointer,
    Enterprise,
    Reward,
    Byron,
    Malformed,
}

/// What the rules read of an address: its kind and its payment credential
/// (none for Byron and malformed addresses).
#[derive(Debug, Clone)]
pub struct AddressFacts {
    pub kind: AddressKind,
    pub payment_cred: Option<LocalCredential>,
}

/// Address facts as plain values.
pub open spec fn address_facts_view(a: AddressFacts) -> (AddressKind, Option<(bool, Seq<u8>)>) {
    (
        a.kind,
        match a.payment_cred {
            Some(c) => Some(credential_view(c)),
            None => None,
        },
    )
}

/// What `Address::from_bech32` reads in a string, when it reads an address.
pub uninterp spec fn bech32_address(s: Seq<char>) -> Option<(AddressKind, Option<(bool, Seq<u8>)>)>;

/// What `Address::from_hex` reads in a string, when it reads an address.
pub uninterp spec fn hex_address(s: Seq<char>) -> Option<(AddressKind, Option<(bool, Seq<u8>)>)>;

/// What `ByronAddress::from_base58` reads in a string: the address, or the
/// text of its error.
pub uninterp spec fn base58_address(s: Seq<char>) -> Result<
    (AddressKind, Option<(bool, Seq<u8>)>),
    Seq<char>,
>;

/// The kind numbered `code` by `AddressKind as u8`: the order in which the
/// serialization library declares its address kinds.
pub open spec fn address_kind_of_code(code: u8) -> AddressKind {
    if code == 0 {
        AddressKind::Base
    } else if code == 1 {
        AddressKind::Pointer
    } else if code == 2 {
        AddressKind::Enterprise
    } else if code == 3 {
        AddressKind::Reward
    } else if code == 4 {
        AddressKind::Byron
    } else {
        AddressKind::Malformed
    }
}

/// An address as read by the serialization library (kind code, and whether
/// the payment credential is a script hash with the hash) as plain values.
pub open spec fn raw_address_view(r: (u8, Option<(bool, Vec<u8>)>)) -> (AddressKind, Option<(bool, Seq<u8>)>) {
    (
        address_kind_of_code(r.0),
        match r.1 {
            Some(c) => Some((c.0, c.1@)),
            None => None,
        },
    )
}

/// `Address::from_bech32`: the kind and payment credential of the address
/// read from a bech32 string, when the string is one; nothing more is
/// claimed than that the result depends on the string alone.
#[verifier::external_body]
fn address_from_bech32(s: &str) -> (r: Option<(u8, Option<(bool, Vec<u8>)>)>)
    ensures
        match r {
            Some(x) => bech32_address(s@) == Some(raw_address_view(x)),
            None => bech32_address(s@) is None,
        },
{
    csl::Address::from_bech32(s).ok().map(|a| (a.kind() as u8, a.payment_cred().map(|c| (
        c.has_script_hash(),
        c.to_scripthash().map(|h| h.to_bytes()).or(c.to_keyhash().map(|h| h.to_bytes())).unwrap_or_default(),
    ))))
}

/// `Address::from_hex`: the kind and payment credential of the address read
/// from a hex string, when the string is one; the result depends on the
/// string alone.
#[verifier::external_body]
fn address_from_hex(s: &str) -> (r: Option<(u8, Option<(bool, Vec<u8>)>)>)
    ensures
        match r {
            Some(x) => hex_address(s@) == Some(raw_address_view(x)),
            None => hex_address(s@) is None,
        },
{
    csl::Address::from_hex(s).ok().map(|a| (a.kind() as u8, a.payment_cred().map(|c| (
        c.has_script_hash(),
        c.to_scripthash().map(|h| h.to_bytes()).or(c.to_keyhash().map(|h| h.to_bytes())).unwrap_or_default(),
    ))))
}

/// `ByronAddress::from_base58` then `to_address`: the kind and payment
/// credential of the address read from a base58 string, or the debug text of
/// the error; the result depends on the string alone.
#[verifier::external_body]
fn address_from_base58(s: &str) -> (r: Result<(u8, Option<(bool, Vec<u8>)>), String>)
    ensures
        match r {
            Ok(x) => base58_address(s@) == Ok::<(AddressKind, Option<(bool, Seq<u8>)>), Seq<char>>(raw_address_view(x)),
            Err(e) => base58_address(s@) == Err::<(AddressKind, Option<(bool, Seq<u8>)>), Seq<char>>(e@),
        },
{
    csl::ByronAddress::from_base58(s).map(|b| b.to_address()).map(|a| (a.kind() as u8, a.payment_cred().map(|c| (
        c.has_script_hash(),
        c.to_scripthash().map(|h| h.to_bytes()).or(c.to_keyhash().map(|h| h.to_bytes())).unwrap_or_default(),
    )))).map_err(|e| format!("{:?}", e))
}

/// The address facts of a raw reading.
fn facts_of_raw(raw: (u8, Option<(bool, Vec<u8>)>)) -> (r: AddressFacts)
    ensures
        address_facts_view(r) == raw_address_view(raw),
{
    let kind = if raw.0 == 0 {
        AddressKind::Base
    } else if raw.0 == 1 {
        AddressKind::Pointer
    } else if raw.0 == 2 {
        AddressKind::Enterprise
    } else if raw.0 == 3 {
        AddressKind::Reward
    } else if raw.0 == 4 {
        AddressKind::Byron
    } else {
        AddressKind::Malformed
    };
    let payment_cred = match raw.1 {
        Some((true, h)) => Some(LocalCredential::ScriptHash(h)),
        Some((false, h)) => Some(LocalCredential::KeyHash(h)),
        None => None,
    };
    AddressFacts { kind, payment_cred }
}

/// What `string_to_csl_address` gives: the address read as bech32, else as
/// hex, else as base58, else an error naming the string.
pub open spec fn address_reading(s: Seq<char>) -> Result<(AddressKind, Option<(bool, Seq<u8>)>), Seq<char>> {
    match bech32_address(s) {
        Some(a) => Ok(a),
        None => match hex_address(s) {
            Some(a) => Ok(a),
            None => match base58_address(s) {
                Ok(a) => Ok(a),
                Err(e) => Err("Error converting address "@ + s + ": "@ + e),
            },
        },
    }
}

/// Reads an address written in bech32, in hex, or (Byron) in base58.
pub fn string_to_csl_address(address_str: &String) -> (r: Result<AddressFacts, String>)
    ensures
        match r {
            Ok(f) => address_reading(address_str@) == Ok::<(AddressKind, Option<(bool, Seq<u8>)>), Seq<char>>(address_facts_view(f)),
            Err(e) => address_reading(address_str@) == Err::<(AddressKind, Option<(bool, Seq<u8>)>), Seq<char>>(e@),
        },
{
    match address_from_bech32(address_str.as_str()) {
        Some(a) => Ok(facts_of_raw(a)),
        None => match address_from_hex(address_str.as_str()) {
            Some(a) => Ok(facts_of_raw(a)),
            None => match address_from_base58(address_str.as_str()) {
                Ok(a) => Ok(facts_of_raw(a)),
                Err(e) => {
                    let mut msg = string_of("Error converting address ");
                    push_str(&mut msg, address_str.as_str());
                    push_str(&mut msg, ": ");
                    push_str(&mut msg, e.as_str());
                    Err(msg)
                },
            },
        },
    }
}

/// The text of an input reference: the transaction hash, `#`, the index.
pub open spec fn tx_input_text(i: TxInput) -> Seq<char> {
    i.tx_hash@ + seq!['#'] + decimal(i.output_index as nat)
}

/// Writes an input reference as `<hash>#<index>`.
pub fn csl_tx_input_to_string(tx_input: &TxInput) -> (r: String)
    ensures
        r@ == tx_input_text(*tx_input),
{
    let mut s = string_of(tx_input.tx_hash.as_str());
    push_char(&mut s, '#');
    push_decimal(&mut s, tx_input.output_index as u128);
    assert(s@ =~= tx_input_text(*tx_input));
    s
}

// ---------------------------------------------------------------------------
// Reward addresses
// ---------------------------------------------------------------------------

/// What `RewardAddress::new(network_id, credential).to_address().to_bech32(None)`
/// gives for the credential of `hash` (a script hash when `is_script`, else a
/// key hash): the bech32 text, or nothing when the encoding fails.
pub uninterp spec fn reward_address_bech32(network_id: u8, is_script: bool, hash: Seq<u8>) -> Option<Seq<char>>;

/// `NetworkInfo::mainnet().network_id()`, which the library's source sets to 1.
#[verifier::external_body]
fn mainnet_network_id() -> (r: u8)
    ensures
        r == 1,
{
    csl::NetworkInfo::mainnet().network_id()
}

/// `NetworkInfo::testnet_preprod().network_id()`, which the library's source
/// sets to 0.
#[verifier::external_body]
fn testnet_preprod_network_id() -> (r: u8)
    ensures
        r == 0,
{
    csl::NetworkInfo::testnet_preprod().network_id()
}

/// The bech32 reward address of a key hash of 28 bytes (see
/// `reward_address_bech32`); nothing is claimed of the text beyond that it
/// depends on the network id and the hash alone.
#[verifier::external_body]
fn key_reward_address_bech32(network_id: u8, hash: &Vec<u8>) -> (r: Option<String>)
    requires
        hash@.len() == 28,
    ensures
        match r {
            Some(s) => reward_address_bech32(network_id, false, hash@) == Some(s@),
            None => reward_address_bech32(network_id, false, hash@) is None,
        },
{
    let key_hash = csl::Ed25519KeyHash::from_bytes(hash.clone()).unwrap();
    let credential = csl::Credential::from_keyhash(&key_hash);
    csl::RewardAddress::new(network_id, &credential).to_address().to_bech32(None).ok()
}

/// The bech32 reward address of a script hash of 28 bytes (see
/// `reward_address_bech32`); nothing is claimed of the text beyond that it
/// depends on the network id and the hash alone.
#[verifier::external_body]
fn script_reward_address_bech32(network_id: u8, hash: &Vec<u8>) -> (r: Option<String>)
    requires
        hash@.len() == 28,
    ensures
        match r {
            Some(s) => reward_address_bech32(network_id, true, hash@) == Some(s@),
            None => reward_address_bech32(network_id, true, hash@) is None,
        },
{
    let script_hash = csl::ScriptHash::from_bytes(hash.clone()).unwrap();
    let credential = csl::Credential::from_scripthash(&script_hash);
    csl::RewardAddress::new(network_id, &credential).to_address().to_bech32(None).ok()
}

/// The network id of a network: 1 for mainnet, 0 for the test network.
pub open spec fn network_id_of(network_type: NetworkType) -> u8 {
    match network_type {
        NetworkType::Mainnet => 1,
        NetworkType::Testnet => 0,
    }
}

/// The bech32 reward address of a credential on a network, or the empty text
/// when it cannot be written.
pub open spec fn reward_address_text(credential: (bool, Seq<u8>), network_type: NetworkType) -> Seq<char> {
    match reward_address_bech32(network_id_of(network_type), credential.0, credential.1) {
        Some(s) => s,
        None => Seq::empty(),
    }
}

/// Writes the reward address of a credential (a hash of 28 bytes) on the
/// given network in bech32; the text is empty when it cannot be written.
pub fn credential_to_bech32_reward_address(credential: &LocalCredential, network_type: &NetworkType) -> (r: String)
    requires
        credential_view(*credential).1.len() == 28,
    ensures
        r@ == reward_address_text(credential_view(*credential), *network_type),
{
    let network_id = match network_type {
        NetworkType::Mainnet => mainnet_network_id(),
        NetworkType::Testnet => testnet_preprod_network_id(),
    };
    let address = match credential {
        LocalCredential::KeyHash(h) => key_reward_address_bech32(network_id, h),
        LocalCredential::ScriptHash(h) => script_reward_address_bech32(network_id, h),
    };
    match address {
        Some(a) => a,
        None => String::new(),
    }
}

} // verus!
