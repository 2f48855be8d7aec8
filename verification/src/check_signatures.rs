//! Checking the signatures of a transaction, or of every transaction of a
//! block: the key witnesses against the transaction hash, and a Catalyst
//! registration's signature against the registration's hash.
use vstd::prelude::*;

use crate::crypto::{blake2b_256, blake2b_256_digest};
use crate::js_error::JsError;
use crate::text::{
    copy_bytes, decode_hex, hex_decode_error, hex_decode_spec, hex_encode, hex_encode_spec, is_hex_text,
    push_str, string_of,
};
use crate::validators::phase_1::errors::strings_view;

verus! {

/// The outcome of a signature check: whether every signature holds, the
/// transaction hash (hex), and the signatures (hex) that do not hold.
#[allow(non_snake_case)]
#[derive(Debug, Clone)]
pub struct CheckResult {
    pub valid: bool,
    pub tx_hash: Option<String>,
    pub invalidCatalystWitnesses: Vec<String>,
    pub invalidVkeyWitnesses: Vec<String>,
}

/// The optional text is present and equal to `t`.
pub open spec fn has_text(o: Option<String>, t: Seq<char>) -> bool {
    match o {
        Some(h) => h@ == t,
        None => false,
    }
}

impl CheckResult {
    /// Every signature of the transaction holds.
    pub fn valid(tx_hash: &str) -> (r: Self)
        ensures
            r.valid,
            has_text(r.tx_hash, tx_hash@),
            r.invalidCatalystWitnesses@.len() == 0,
            r.invalidVkeyWitnesses@.len() == 0,
    {
        CheckResult {
            valid: true,
            tx_hash: Some(string_of(tx_hash)),
            invalidCatalystWitnesses: Vec::new(),
            invalidVkeyWitnesses: Vec::new(),
        }
    }

    /// Some signatures of the transaction do not hold.
    pub fn invalid(tx_hash: &str, invalid_catalyst: Vec<String>, invalid_vkeys: Vec<String>) -> (r: Self)
        ensures
            !r.valid,
            has_text(r.tx_hash, tx_hash@),
            r.invalidCatalystWitnesses == invalid_catalyst,
            r.invalidVkeyWitnesses == invalid_vkeys,
    {
        CheckResult {
            valid: false,
            tx_hash: Some(string_of(tx_hash)),
            invalidCatalystWitnesses: invalid_catalyst,
            invalidVkeyWitnesses: invalid_vkeys,
        }
    }
}

// ---------------------------------------------------------------------------
// Ed25519, by the serialization library
// ---------------------------------------------------------------------------

/// Whether `signature` is a valid Ed25519 signature of `data` under
/// `public_key`.
pub uninterp spec fn ed25519_verifies(public_key: Seq<u8>, data: Seq<u8>, signature: Seq<u8>) -> bool;

/// The debug text of the error refusing `bytes` as a signature.
pub uninterp spec fn signature_decode_error(bytes: Seq<u8>) -> Seq<char>;

/// The debug text of the error refusing a public key of the wrong size.
pub open spec fn public_key_size_error() -> Seq<char> {
    "JsError { msg: \"Invalid Public Key size\" }"@
}

/// Reads an Ed25519 public key (`PublicKey::from_bytes`): it accepts exactly
/// 32 bytes and keeps them; otherwise its error's debug text.
#[verifier::external_body]
fn public_key_from_bytes(bytes: &[u8]) -> (r: Result<Vec<u8>, String>)
    ensures
        r is Ok <==> bytes@.len() == 32,
        r matches Ok(k) ==> k@ == bytes@,
        r matches Err(e) ==> e@ == public_key_size_error(),
{
    match cardano_serialization_lib::PublicKey::from_bytes(bytes) {
        Ok(k) => Ok(k.as_bytes()),
        Err(e) => Err(format!("{:?}", e)),
    }
}

/// Reads an Ed25519 signature (`Ed25519Signature::from_bytes`): it accepts
/// exactly 64 bytes and keeps them; otherwise its error's debug text.
#[verifier::external_body]
fn signature_from_bytes(bytes: Vec<u8>) -> (r: Result<Vec<u8>, String>)
    ensures
        r is Ok <==> bytes@.len() == 64,
        r matches Ok(s) ==> s@ == bytes@,
        r matches Err(e) ==> e@ == signature_decode_error(bytes@),
{
    let input = bytes;
    match cardano_serialization_lib::Ed25519Signature::from_bytes(input) {
        Ok(s) => Ok(s.to_bytes()),
        Err(e) => Err(format!("{:?}", e)),
    }
}

/// Checks an Ed25519 signature (`PublicKey::verify`), key and signature
/// given as their bytes.
#[verifier::external_body]
pub(crate) fn verify_signature(public_key: &[u8], data: &[u8], signature: &[u8]) -> (r: bool)
    requires
        public_key@.len() == 32,
        signature@.len() == 64,
    ensures
        r == ed25519_verifies(public_key@, data@, signature@),
{
    match (
        cardano_serialization_lib::PublicKey::from_bytes(public_key),
        cardano_serialization_lib::Ed25519Signature::from_bytes(signature.to_vec()),
    ) {
        (Ok(k), Ok(s)) => k.verify(data, &s),
        _ => false,
    }
}

// ---------------------------------------------------------------------------
// One signature given as hex
// ---------------------------------------------------------------------------

/// Decodes hex text.
pub fn from_hex_string(hex_str: &str) -> (r: Result<Vec<u8>, String>)
    ensures
        r is Ok <==> is_hex_text(hex_str@),
        r matches Ok(v) ==> v@ == hex_decode_spec(hex_str@),
        r matches Err(e) ==> e@ == hex_decode_error(hex_str@),
{
    decode_hex(hex_str)
}

/// What checking one signature gives: whether it holds, or the error.
pub open spec fn tx_signature_outcome(tx_hash: Seq<char>, pub_key_hex: Seq<char>, signature_hex: Seq<char>) -> Result<
    bool,
    Seq<char>,
> {
    let pk = hex_decode_spec(pub_key_hex);
    let sig = hex_decode_spec(signature_hex);
    if !is_hex_text(pub_key_hex) {
        Err(hex_decode_error(pub_key_hex))
    } else if pk.len() != 32 {
        Err("Failed to decode PublicKey: "@ + public_key_size_error())
    } else if !is_hex_text(signature_hex) {
        Err(hex_decode_error(signature_hex))
    } else if sig.len() != 64 {
        Err("Failed to decode Ed25519Signature: "@ + signature_decode_error(sig))
    } else if !is_hex_text(tx_hash) {
        Err(hex_decode_error(tx_hash))
    } else {
        Ok(ed25519_verifies(pk, hex_decode_spec(tx_hash), sig))
    }
}

fn prefixed_error(prefix: &str, e: String) -> (r: String)
    ensures
        r@ == prefix@ + e@,
{
    let mut s = string_of(prefix);
    push_str(&mut s, e.as_str());
    s
}

/// Checks a signature, key and signature in hex, of a transaction hash in
/// hex.
pub fn check_tx_signature(tx_hash: &str, pub_key_hex: &str, signature_hex: &str) -> (r: Result<CheckResult, String>)
    ensures
        match r {
            Ok(c) => tx_signature_outcome(tx_hash@, pub_key_hex@, signature_hex@) == Ok::<bool, Seq<char>>(c.valid)
                && has_text(c.tx_hash, tx_hash@) && c.invalidCatalystWitnesses@.len() == 0
                && c.invalidVkeyWitnesses@.len() == 0,
            Err(e) => tx_signature_outcome(tx_hash@, pub_key_hex@, signature_hex@) == Err::<bool, Seq<char>>(e@),
        },
{
    let pub_key_bytes = match from_hex_string(pub_key_hex) {
        Ok(b) => b,
        Err(e) => return Err(e),
    };
    let pub_key = match public_key_from_bytes(pub_key_bytes.as_slice()) {
        Ok(k) => k,
        Err(e) => return Err(prefixed_error("Failed to decode PublicKey: ", e)),
    };
    let signature_bytes = match from_hex_string(signature_hex) {
        Ok(b) => b,
        Err(e) => return Err(e),
    };
    let ghost sig_view = signature_bytes@;
    let signature = match signature_from_bytes(signature_bytes) {
        Ok(s) => s,
        Err(e) => return Err(prefixed_error("Failed to decode Ed25519Signature: ", e)),
    };
    let tx_hash_bytes = match from_hex_string(tx_hash) {
        Ok(b) => b,
        Err(e) => return Err(e),
    };
    let is_valid = verify_signature(pub_key.as_slice(), tx_hash_bytes.as_slice(), signature.as_slice());
    Ok(
        CheckResult {
            valid: is_valid,
            tx_hash: Some(string_of(tx_hash)),
            invalidCatalystWitnesses: Vec::new(),
            invalidVkeyWitnesses: Vec::new(),
        },
    )
}

// ---------------------------------------------------------------------------
// Witnesses of a transaction
// ---------------------------------------------------------------------------

/// A public key and a signature made with it.
#[derive(Debug, Clone)]
pub struct PubKeySignature {
    pub pub_key: Vec<u8>,
    pub signature: Vec<u8>,
}

impl View for PubKeySignature {
    type V = (Seq<u8>, Seq<u8>);

    open spec fn view(&self) -> (Seq<u8>, Seq<u8>) {
        (self.pub_key@, self.signature@)
    }
}

/// A 32-byte key and a 64-byte signature.
pub open spec fn signature_wf(w: (Seq<u8>, Seq<u8>)) -> bool {
    w.0.len() == 32 && w.1.len() == 64
}

/// The views of a list of witnesses.
pub open spec fn witnesses_view(s: Seq<PubKeySignature>) -> Seq<(Seq<u8>, Seq<u8>)> {
    s.map_values(|w: PubKeySignature| w@)
}

/// Every witness has a 32-byte key and a 64-byte signature.
pub open spec fn witnesses_wf(s: Seq<(Seq<u8>, Seq<u8>)>) -> bool {
    forall|i: int| 0 <= i < s.len() ==> signature_wf(#[trigger] s[i])
}

/// The witnesses whose signature of `data` does not hold; none when there
/// is nothing to check.
pub open spec fn invalid_witnesses(data: Option<Seq<u8>>, s: Seq<(Seq<u8>, Seq<u8>)>) -> Seq<(Seq<u8>, Seq<u8>)> {
    match data {
        Some(d) => s.filter(|w: (Seq<u8>, Seq<u8>)| !ed25519_verifies(w.0, d, w.1)),
        None => Seq::empty(),
    }
}

fn copy_witness(w: &PubKeySignature) -> (r: PubKeySignature)
    ensures
        r@ == w@,
{
    PubKeySignature { pub_key: copy_bytes(&w.pub_key), signature: copy_bytes(&w.signature) }
}

/// The witnesses whose signature of the given bytes does not hold.
pub fn validate_bytes_signature(bytes_to_verify_opt: &Option<Vec<u8>>, witnesses: &Vec<PubKeySignature>) -> (r: Vec<
    PubKeySignature,
>)
    requires
        witnesses_wf(witnesses_view(witnesses@)),
    ensures
        witnesses_view(r@) == invalid_witnesses(
            match bytes_to_verify_opt {
                Some(b) => Some(b@),
                None => None,
            },
            witnesses_view(witnesses@),
        ),
{
    let mut invalid: Vec<PubKeySignature> = Vec::new();
    match bytes_to_verify_opt {
        None => {
            assert(witnesses_view(invalid@) =~= Seq::<(Seq<u8>, Seq<u8>)>::empty());
            invalid
        },
        Some(bytes_to_verify) => {
            let ghost d = bytes_to_verify@;
            let ghost f = |w: (Seq<u8>, Seq<u8>)| !ed25519_verifies(w.0, d, w.1);
            let ghost all = witnesses_view(witnesses@);
            let n = witnesses.len();
            let mut i: usize = 0;
            while i < n
                invariant
                    n == witnesses@.len(),
                    i <= n,
                    d == bytes_to_verify@,
                    all == witnesses_view(witnesses@),
                    witnesses_wf(all),
                    f == (|w: (Seq<u8>, Seq<u8>)| !ed25519_verifies(w.0, d, w.1)),
                    witnesses_view(invalid@) == all.take(i as int).filter(f),
                decreases n - i,
            {
                let w = &witnesses[i];
                proof {
                    assert(all.take(i + 1) =~= all.take(i as int).push(all[i as int]));
                    all.take(i as int).lemma_filter_push(all[i as int], f);
                    assert(signature_wf(all[i as int]));
                }
                if !verify_signature(w.pub_key.as_slice(), bytes_to_verify.as_slice(), w.signature.as_slice()) {
                    let ghost prev = invalid@;
                    invalid.push(copy_witness(w));
                    assert(witnesses_view(invalid@) =~= witnesses_view(prev).push(all[i as int]));
                }
                i += 1;
            }
            assert(all.take(n as int) =~= all);
            invalid
        },
    }
}

/// The hex of each signature.
pub open spec fn signature_texts(s: Seq<(Seq<u8>, Seq<u8>)>) -> Seq<Seq<char>> {
    s.map_values(|w: (Seq<u8>, Seq<u8>)| hex_encode_spec(w.1))
}

/// The signatures of the witnesses, in hex.
pub fn witnesses_list_to_signatures_list(witnesses: &Vec<PubKeySignature>) -> (r: Vec<String>)
    ensures
        strings_view(r@) == signature_texts(witnesses_view(witnesses@)),
{
    let mut r: Vec<String> = Vec::new();
    let n = witnesses.len();
    let mut i: usize = 0;
    while i < n
        invariant
            n == witnesses@.len(),
            i <= n,
            strings_view(r@) =~= signature_texts(witnesses_view(witnesses@).take(i as int)),
        decreases n - i,
    {
        let t = hex_encode(witnesses[i].signature.as_slice());
        let ghost prev = r@;
        r.push(t);
        assert(strings_view(r@) =~= strings_view(prev).push(t@));
        assert(witnesses_view(witnesses@).take(i + 1) =~= witnesses_view(witnesses@).take(i as int).push(
            witnesses@[i as int]@,
        ));
        i += 1;
    }
    assert(witnesses_view(witnesses@).take(n as int) =~= witnesses_view(witnesses@));
    r
}

// ---------------------------------------------------------------------------
// Transaction metadata and the Catalyst registration
// ---------------------------------------------------------------------------

/// A transaction metadatum.
#[derive(Debug)]
pub enum TxMetadatum {
    MetadataMap(Vec<(TxMetadatum, TxMetadatum)>),
    MetadataList(Vec<TxMetadatum>),
    Int(i128),
    Bytes(Vec<u8>),
    Text(String),
}

/// What the signature check reads of a transaction's auxiliary data: its
/// metadata (label and metadatum), and the encoding of the metadata holding
/// the registration label alone, when that label is present.
#[derive(Debug)]
pub struct AuxiliaryDataFacts {
    pub metadata: Option<Vec<(u64, TxMetadatum)>>,
    pub registration_metadata_cbor: Option<Vec<u8>>,
}

/// The label of a Catalyst registration.
pub open spec fn registration_label() -> u64 {
    61284
}

/// The label of a Catalyst registration's signature.
pub open spec fn registration_signature_label() -> u64 {
    61285
}

/// The metadatum under `label`: that of its first entry.
pub open spec fn metadata_entry(entries: Seq<(u64, TxMetadatum)>, label: u64) -> Option<TxMetadatum>
    decreases entries.len(),
{
    if entries.len() == 0 {
        None
    } else if entries[0].0 == label {
        Some(entries[0].1)
    } else {
        metadata_entry(entries.drop_first(), label)
    }
}

/// The value under the integer key `k` of a metadata map: that of its first
/// entry.
pub open spec fn map_entry(entries: Seq<(TxMetadatum, TxMetadatum)>, k: i32) -> Option<TxMetadatum>
    decreases entries.len(),
{
    if entries.len() == 0 {
        None
    } else if entries[0].0 == TxMetadatum::Int(k as i128) {
        Some(entries[0].1)
    } else {
        map_entry(entries.drop_first(), k)
    }
}

/// The bytes under the integer key `k` of a metadata map, or why there are
/// none.
pub open spec fn map_bytes(m: TxMetadatum, k: i32) -> Result<Seq<u8>, Seq<char>> {
    match m {
        TxMetadatum::MetadataMap(entries) => match map_entry(entries@, k) {
            Some(TxMetadatum::Bytes(b)) => Ok(b@),
            Some(_) => Err("value not bytes"@),
            None => Err("key not found in map"@),
        },
        _ => Err("not a map"@),
    }
}

/// The label holds exactly when its encoding is given.
pub open spec fn auxiliary_data_wf(a: Option<AuxiliaryDataFacts>) -> bool {
    a matches Some(facts) ==> (facts.metadata matches Some(m) && metadata_entry(m@, registration_label()) is Some)
        == (facts.registration_metadata_cbor is Some)
}

fn find_label(entries: &Vec<(u64, TxMetadatum)>, label: u64) -> (r: Option<&TxMetadatum>)
    ensures
        r is Some == metadata_entry(entries@, label) is Some,
        r matches Some(m) ==> metadata_entry(entries@, label) == Some(*m),
{
    let n = entries.len();
    let mut i: usize = 0;
    assert(entries@.skip(0) =~= entries@);
    while i < n
        invariant
            n == entries@.len(),
            i <= n,
            metadata_entry(entries@, label) == metadata_entry(entries@.skip(i as int), label),
        decreases n - i,
    {
        assert(entries@.skip(i as int).drop_first() =~= entries@.skip(i + 1));
        if entries[i].0 == label {
            return Some(&entries[i].1);
        }
        i += 1;
    }
    None
}

/// The bytes under the integer key `int_key` of a metadata map.
pub fn extract_map_bytes(meta_datum: &TxMetadatum, int_key: i32) -> (r: Result<Vec<u8>, String>)
    ensures
        match r {
            Ok(b) => map_bytes(*meta_datum, int_key) == Ok::<Seq<u8>, Seq<char>>(b@),
            Err(e) => map_bytes(*meta_datum, int_key) == Err::<Seq<u8>, Seq<char>>(e@),
        },
{
    match meta_datum {
        TxMetadatum::MetadataMap(entries) => {
            let n = entries.len();
            let mut i: usize = 0;
            assert(entries@.skip(0) =~= entries@);
            while i < n
                invariant
                    n == entries@.len(),
                    i <= n,
                    map_entry(entries@, int_key) == map_entry(entries@.skip(i as int), int_key),
                    *meta_datum == TxMetadatum::MetadataMap(*entries),
                decreases n - i,
            {
                assert(entries@.skip(i as int).drop_first() =~= entries@.skip(i + 1));
                let is_key = match &entries[i].0 {
                    TxMetadatum::Int(v) => *v == int_key as i128,
                    _ => false,
                };
                assert(entries@.skip(i as int)[0] == entries@[i as int]);
                if is_key {
                    assert(entries@[i as int].0 == TxMetadatum::Int(int_key as i128));
                    assert(map_entry(entries@.skip(i as int), int_key) == Some(entries@[i as int].1));
                    assert(map_entry(entries@, int_key) == Some(entries@[i as int].1));
                    return match &entries[i].1 {
                        TxMetadatum::Bytes(b) => {
                            let v = copy_bytes(b);
                            assert(map_bytes(*meta_datum, int_key) == Ok::<Seq<u8>, Seq<char>>(v@));
                            Ok(v)
                        },
                        _ => {
                            let e = string_of("value not bytes");
                            assert(map_bytes(*meta_datum, int_key) == Err::<Seq<u8>, Seq<char>>(e@));
                            Err(e)
                        },
                    };
                }
                i += 1;
            }
            Err(string_of("key not found in map"))
        },
        _ => Err(string_of("not a map")),
    }
}

/// The hash signed by a Catalyst registration: that of the metadata holding
/// the registration label alone.
pub open spec fn registration_hash(aux: Option<AuxiliaryDataFacts>) -> Option<Seq<u8>> {
    match aux {
        Some(a) => match a.metadata {
            Some(m) => if metadata_entry(m@, registration_label()) is Some {
                Some(blake2b_256_digest(a.registration_metadata_cbor->0@))
            } else {
                None
            },
            None => None,
        },
        None => None,
    }
}

/// The stake key and signature of a Catalyst registration, when both are
/// present and well formed.
pub open spec fn catalyst_witnesses(aux: Option<AuxiliaryDataFacts>) -> Seq<(Seq<u8>, Seq<u8>)> {
    match aux {
        Some(a) => match a.metadata {
            Some(m) => match (metadata_entry(m@, registration_label()), metadata_entry(m@, registration_signature_label())) {
                (Some(reg), Some(sig)) => match (map_bytes(reg, 2), map_bytes(sig, 1)) {
                    (Ok(pk), Ok(s)) => if pk.len() == 32 && s.len() == 64 {
                        seq![(pk, s)]
                    } else {
                        Seq::empty()
                    },
                    _ => Seq::empty(),
                },
                _ => Seq::empty(),
            },
            None => Seq::empty(),
        },
        None => Seq::empty(),
    }
}

/// The first entry under `label` gives the metadatum under it.
proof fn lemma_first_label_entry(entries: Seq<(u64, TxMetadatum)>, label: u64, r: int)
    requires
        0 <= r < entries.len(),
        entries[r].0 == label,
        forall|x: int| 0 <= x < r ==> (#[trigger] entries[x]).0 != label,
    ensures
        metadata_entry(entries, label) == Some(entries[r].1),
    decreases r,
{
    if r > 0 {
        assert(entries[0].0 != label);
        assert forall|x: int| 0 <= x < r - 1 implies (#[trigger] entries.drop_first()[x]).0 != label by {
            assert(entries.drop_first()[x] == entries[x + 1]);
        }
        lemma_first_label_entry(entries.drop_first(), label, r - 1);
    }
}

/// The first entry under the integer key `k` gives the value under it.
proof fn lemma_first_key_entry(entries: Seq<(TxMetadatum, TxMetadatum)>, k: i32, r: int)
    requires
        0 <= r < entries.len(),
        entries[r].0 == TxMetadatum::Int(k as i128),
        forall|x: int| 0 <= x < r ==> (#[trigger] entries[x]).0 != TxMetadatum::Int(k as i128),
    ensures
        map_entry(entries, k) == Some(entries[r].1),
    decreases r,
{
    if r > 0 {
        assert(entries[0].0 != TxMetadatum::Int(k as i128));
        assert forall|x: int| 0 <= x < r - 1 implies (#[trigger] entries.drop_first()[x]).0 != TxMetadatum::Int(
            k as i128,
        ) by {
            assert(entries.drop_first()[x] == entries[x + 1]);
        }
        lemma_first_key_entry(entries.drop_first(), k, r - 1);
    }
}

/// The Catalyst witness is the stake key of the registration, the bytes
/// under key 2 of the metadatum under label 61284, with the signature, the
/// bytes under key 1 of the metadatum under label 61285; whatever else the
/// registration holds, such as the voting key under key 1.
pub proof fn law_catalyst_witness_is_the_stake_key(
    aux: Option<AuxiliaryDataFacts>,
    md: Seq<(u64, TxMetadatum)>,
    r: int,
    reg: Seq<(TxMetadatum, TxMetadatum)>,
    t: int,
    sig: Seq<(TxMetadatum, TxMetadatum)>,
    a: int,
    stake_key: Seq<u8>,
    b: int,
    signature: Seq<u8>,
)
    requires
        aux matches Some(facts) && facts.metadata matches Some(m) && m@ == md,
        0 <= r < md.len(),
        md[r].0 == 61284,
        md[r].1 matches TxMetadatum::MetadataMap(es) && es@ == reg,
        forall|x: int| 0 <= x < r ==> (#[trigger] md[x]).0 != 61284,
        0 <= t < md.len(),
        md[t].0 == 61285,
        md[t].1 matches TxMetadatum::MetadataMap(es) && es@ == sig,
        forall|x: int| 0 <= x < t ==> (#[trigger] md[x]).0 != 61285,
        0 <= a < reg.len(),
        reg[a].0 == TxMetadatum::Int(2),
        reg[a].1 matches TxMetadatum::Bytes(v) && v@ == stake_key,
        forall|x: int| 0 <= x < a ==> (#[trigger] reg[x]).0 != TxMetadatum::Int(2),
        0 <= b < sig.len(),
        sig[b].0 == TxMetadatum::Int(1),
        sig[b].1 matches TxMetadatum::Bytes(v) && v@ == signature,
        forall|x: int| 0 <= x < b ==> (#[trigger] sig[x]).0 != TxMetadatum::Int(1),
        stake_key.len() == 32,
        signature.len() == 64,
    ensures
        catalyst_witnesses(aux) == seq![(stake_key, signature)],
{
    lemma_first_label_entry(md, 61284, r);
    lemma_first_label_entry(md, 61285, t);
    lemma_first_key_entry(reg, 2, a);
    lemma_first_key_entry(sig, 1, b);
}

/// The hash a Catalyst registration signs, if the auxiliary data holds one.
pub fn get_catalyst_registration_hash(aux_data_opt: &Option<AuxiliaryDataFacts>) -> (r: Option<Vec<u8>>)
    requires
        auxiliary_data_wf(*aux_data_opt),
    ensures
        match r {
            Some(h) => registration_hash(*aux_data_opt) == Some(h@),
            None => registration_hash(*aux_data_opt) is None,
        },
{
    match aux_data_opt {
        None => None,
        Some(aux_data) => match &aux_data.metadata {
            None => None,
            Some(metadata) => match find_label(metadata, 61284) {
                None => None,
                Some(_) => match &aux_data.registration_metadata_cbor {
                    Some(cbor) => Some(blake2b_256(cbor.as_slice())),
                    None => None,
                },
            },
        },
    }
}

/// The stake key and signature of a Catalyst registration, if present.
pub fn get_catalyst_witnesses(aux_data_opt: &Option<AuxiliaryDataFacts>) -> (r: Vec<PubKeySignature>)
    ensures
        witnesses_view(r@) == catalyst_witnesses(*aux_data_opt),
{
    let empty: Vec<PubKeySignature> = Vec::new();
    assert(witnesses_view(empty@) =~= Seq::<(Seq<u8>, Seq<u8>)>::empty());
    let aux_data = match aux_data_opt {
        None => return empty,
        Some(a) => a,
    };
    let metadata = match &aux_data.metadata {
        None => return empty,
        Some(md) => md,
    };
    let catalyst_meta = find_label(metadata, 61284);
    let catalyst_meta_sign = find_label(metadata, 61285);
    let (meta, meta_sign) = match (catalyst_meta, catalyst_meta_sign) {
        (Some(m), Some(s)) => (m, s),
        _ => return empty,
    };
    let stake_pub_key_bytes = match extract_map_bytes(meta, 2) {
        Ok(b) => b,
        Err(_) => return empty,
    };
    let signature_bytes = match extract_map_bytes(meta_sign, 1) {
        Ok(b) => b,
        Err(_) => return empty,
    };
    let stake_pub_key = match public_key_from_bytes(stake_pub_key_bytes.as_slice()) {
        Ok(pk) => pk,
        Err(_) => return empty,
    };
    let signature = match signature_from_bytes(signature_bytes) {
        Ok(sig) => sig,
        Err(_) => return empty,
    };
    let mut r = Vec::new();
    r.push(PubKeySignature { pub_key: stake_pub_key, signature });
    assert(witnesses_view(r@) =~= catalyst_witnesses(*aux_data_opt));
    r
}

// ---------------------------------------------------------------------------
// Whole transactions and blocks
// ---------------------------------------------------------------------------

/// What the signature check reads of a transaction: its hash, its auxiliary
/// data, and its key witnesses.
#[derive(Debug)]
pub struct TxSignatureFacts {
    pub tx_hash: Vec<u8>,
    pub auxiliary_data: Option<AuxiliaryDataFacts>,
    pub vkey_witnesses: Vec<PubKeySignature>,
}

/// The facts are coherent: the registration encoding is given with its
/// label, and every key witness has the sizes of Ed25519.
pub open spec fn tx_facts_wf(tx: TxSignatureFacts) -> bool {
    auxiliary_data_wf(tx.auxiliary_data) && witnesses_wf(witnesses_view(tx.vkey_witnesses@))
}

/// The Catalyst signatures that do not hold.
pub open spec fn invalid_catalyst(aux: Option<AuxiliaryDataFacts>) -> Seq<(Seq<u8>, Seq<u8>)> {
    invalid_witnesses(registration_hash(aux), catalyst_witnesses(aux))
}

/// The key witnesses that do not sign the transaction hash.
pub open spec fn invalid_vkeys(tx_hash: Seq<u8>, ws: Seq<PubKeySignature>) -> Seq<(Seq<u8>, Seq<u8>)> {
    invalid_witnesses(Some(tx_hash), witnesses_view(ws))
}

/// What checking a transaction's signatures gives.
pub open spec fn body_check(r: CheckResult, tx_hash: Seq<u8>, aux: Option<AuxiliaryDataFacts>, ws: Seq<PubKeySignature>) -> bool {
    let ic = invalid_catalyst(aux);
    let iv = invalid_vkeys(tx_hash, ws);
    &&& r.valid == (ic.len() == 0 && iv.len() == 0)
    &&& has_text(r.tx_hash, hex_encode_spec(tx_hash))
    &&& strings_view(r.invalidCatalystWitnesses@) == signature_texts(ic)
    &&& strings_view(r.invalidVkeyWitnesses@) == signature_texts(iv)
}

/// Checks the key witnesses against the transaction hash and a Catalyst
/// registration's signature against the registration hash.
pub fn check_body_signatures(
    tx_hash: &Vec<u8>,
    auxiliary_data: &Option<AuxiliaryDataFacts>,
    vkey_witnesses: &Vec<PubKeySignature>,
) -> (r: CheckResult)
    requires
        auxiliary_data_wf(*auxiliary_data),
        witnesses_wf(witnesses_view(vkey_witnesses@)),
    ensures
        body_check(r, tx_hash@, *auxiliary_data, vkey_witnesses@),
{
    let catalyst_registration_hash = get_catalyst_registration_hash(auxiliary_data);
    let catalyst_witnesses = get_catalyst_witnesses(auxiliary_data);
    assert(witnesses_wf(witnesses_view(catalyst_witnesses@)));
    let invalid_catalyst_witnesses = validate_bytes_signature(&catalyst_registration_hash, &catalyst_witnesses);
    let invalid_vkey_witnesses = validate_bytes_signature(&Some(copy_bytes(tx_hash)), vkey_witnesses);
    let tx_hash_hex = hex_encode(tx_hash.as_slice());
    if invalid_catalyst_witnesses.len() > 0 || invalid_vkey_witnesses.len() > 0 {
        return CheckResult::invalid(
            tx_hash_hex.as_str(),
            witnesses_list_to_signatures_list(&invalid_catalyst_witnesses),
            witnesses_list_to_signatures_list(&invalid_vkey_witnesses),
        );
    }
    let r = CheckResult::valid(tx_hash_hex.as_str());
    assert(strings_view(r.invalidCatalystWitnesses@) =~= signature_texts(witnesses_view(invalid_catalyst_witnesses@)));
    assert(strings_view(r.invalidVkeyWitnesses@) =~= signature_texts(witnesses_view(invalid_vkey_witnesses@)));
    r
}

/// Checks the signatures of one transaction.
pub fn check_tx_signatures_internal(tx: &TxSignatureFacts) -> (r: CheckResult)
    requires
        tx_facts_wf(*tx),
    ensures
        body_check(r, tx.tx_hash@, tx.auxiliary_data, tx.vkey_witnesses@),
{
    check_body_signatures(&tx.tx_hash, &tx.auxiliary_data, &tx.vkey_witnesses)
}

/// Checks the signatures of every transaction of a block, in order.
pub fn check_block_txs_signatures_internal(txs: &[TxSignatureFacts]) -> (r: Vec<CheckResult>)
    requires
        forall|i: int| 0 <= i < txs@.len() ==> tx_facts_wf(#[trigger] txs@[i]),
    ensures
        r@.len() == txs@.len(),
        forall|i: int|
            0 <= i < txs@.len() ==> body_check(
                #[trigger] r@[i],
                txs@[i].tx_hash@,
                txs@[i].auxiliary_data,
                txs@[i].vkey_witnesses@,
            ),
{
    let mut results: Vec<CheckResult> = Vec::new();
    let n = txs.len();
    let mut i: usize = 0;
    while i < n
        invariant
            n == txs@.len(),
            i <= n,
            results@.len() == i,
            forall|k: int| 0 <= k < txs@.len() ==> tx_facts_wf(#[trigger] txs@[k]),
            forall|k: int|
                0 <= k < i ==> body_check(
                    #[trigger] results@[k],
                    txs@[k].tx_hash@,
                    txs@[k].auxiliary_data,
                    txs@[k].vkey_witnesses@,
                ),
        decreases n - i,
    {
        let check = check_tx_signatures_internal(&txs[i]);
        results.push(check);
        i += 1;
    }
    results
}

/// The outcome for a whole block: its first transaction whose signatures do
/// not hold, or a valid result when all hold.
pub fn block_check_result(results: Vec<CheckResult>) -> (r: CheckResult)
    ensures
        (exists|i: int| 0 <= i < results@.len() && !(#[trigger] results@[i]).valid) ==> exists|i: int|
            0 <= i < results@.len() && r == results@[i] && !r.valid && forall|j: int|
                0 <= j < i ==> (#[trigger] results@[j]).valid,
        (forall|i: int| 0 <= i < results@.len() ==> (#[trigger] results@[i]).valid) ==> r.valid && has_text(r.tx_hash, "All block txs are valid"@) && r.invalidCatalystWitnesses@.len() == 0
            && r.invalidVkeyWitnesses@.len() == 0,
{
    let ghost all = results@;
    let n = results.len();
    let mut i: usize = 0;
    while i < n && results[i].valid
        invariant
            n == all.len(),
            results@ == all,
            i <= n,
            forall|j: int| 0 <= j < i ==> (#[trigger] all[j]).valid,
        decreases n - i,
    {
        i += 1;
    }
    if i < n {
        let mut rest = results;
        let r = rest.swap_remove(i);
        assert(0 <= i < all.len() && r == all[i as int] && !r.valid);
        return r;
    }
    CheckResult::valid("All block txs are valid")
}

/// All signatures of a transaction hold.
pub open spec fn tx_signatures_hold(t: TxSignatureFacts) -> bool {
    invalid_catalyst(t.auxiliary_data).len() == 0 && invalid_vkeys(t.tx_hash@, t.vkey_witnesses@).len() == 0
}

/// What checking a block gives: the check of its first transaction whose
/// signatures do not hold, or a valid result naming the whole block.
pub open spec fn block_check(r: CheckResult, txs: Seq<TxSignatureFacts>) -> bool {
    &&& (exists|i: int| 0 <= i < txs.len() && !tx_signatures_hold(#[trigger] txs[i])) ==> exists|i: int|
        0 <= i < txs.len() && !tx_signatures_hold(#[trigger] txs[i]) && (forall|j: int|
            0 <= j < i ==> tx_signatures_hold(#[trigger] txs[j])) && body_check(
            r,
            txs[i].tx_hash@,
            txs[i].auxiliary_data,
            txs[i].vkey_witnesses@,
        )
    &&& (forall|i: int| 0 <= i < txs.len() ==> tx_signatures_hold(#[trigger] txs[i])) ==> r.valid && has_text(
        r.tx_hash,
        "All block txs are valid"@,
    ) && r.invalidCatalystWitnesses@.len() == 0 && r.invalidVkeyWitnesses@.len() == 0
}

/// The message when hex reads as neither a block nor a transaction.
pub open spec fn unreadable_hex_message() -> Seq<char> {
    "cannot parse block or transaction from given hex"@
}

/// Checks a block, or else a transaction.  `block` holds the facts of the
/// transactions of the block that the hex reads as, when it reads as one;
/// `tx` those of the transaction it reads as, which only count when it does
/// not read as a block.  When it reads as neither, the error.
pub fn block_or_tx_result(block: Option<Vec<TxSignatureFacts>>, tx: Option<TxSignatureFacts>) -> (r: Result<
    CheckResult,
    JsError,
>)
    requires
        match block {
            Some(txs) => forall|i: int| 0 <= i < txs@.len() ==> tx_facts_wf(#[trigger] txs@[i]),
            None => match tx {
                Some(t) => tx_facts_wf(t),
                None => true,
            },
        },
    ensures
        match block {
            Some(txs) => r matches Ok(c) && block_check(c, txs@),
            None => match tx {
                Some(t) => r matches Ok(c) && body_check(c, t.tx_hash@, t.auxiliary_data, t.vkey_witnesses@),
                None => r matches Err(e) && e@ == unreadable_hex_message(),
            },
        },
{
    match block {
        Some(txs) => {
            let results = check_block_txs_signatures_internal(txs.as_slice());
            let ghost rs = results@;
            let c = block_check_result(results);
            proof {
                if exists|i: int| 0 <= i < txs@.len() && !tx_signatures_hold(#[trigger] txs@[i]) {
                    let i = choose|i: int| 0 <= i < txs@.len() && !tx_signatures_hold(#[trigger] txs@[i]);
                    assert(!rs[i].valid);
                    let k = choose|k: int|
                        0 <= k < rs.len() && c == rs[k] && !c.valid && forall|j: int|
                            0 <= j < k ==> (#[trigger] rs[j]).valid;
                    assert(body_check(rs[k], txs@[k].tx_hash@, txs@[k].auxiliary_data, txs@[k].vkey_witnesses@));
                    assert forall|j: int| 0 <= j < k implies tx_signatures_hold(#[trigger] txs@[j]) by {
                        assert(rs[j].valid);
                    }
                } else {
                    assert forall|i: int| 0 <= i < rs.len() implies (#[trigger] rs[i]).valid by {
                        assert(tx_signatures_hold(txs@[i]));
                    }
                }
            }
            Ok(c)
        },
        None => match tx {
            Some(t) => Ok(check_tx_signatures_internal(&t)),
            None => {
                let e = JsError::new("cannot parse block or transaction from given hex");
                Err(e)
            },
        },
    }
}

// ---------------------------------------------------------------------------
// Transactions and blocks given in hex
// ---------------------------------------------------------------------------

/// The kind of metadatum that `TransactionMetadatum::from_bytes` reads of an
/// encoding, numbered in the order the library declares them (map, list,
/// integer, bytes, text); nothing when it reads none.
pub uninterp spec fn metadatum_kind_reading(cbor: Seq<u8>) -> Option<u8>;

/// The entries of the metadata map read of an encoding, each key and value
/// encoded again (none when it is not a map).
pub uninterp spec fn metadatum_map_reading(cbor: Seq<u8>) -> Seq<(Seq<u8>, Seq<u8>)>;

/// The items of the metadata list read of an encoding, each encoded again
/// (none when it is not a list).
pub uninterp spec fn metadatum_list_reading(cbor: Seq<u8>) -> Seq<Seq<u8>>;

/// The integer read of an encoding, when it is one that fits `i128`.
pub uninterp spec fn metadatum_int_reading(cbor: Seq<u8>) -> Option<i128>;

/// The bytes read of an encoding (none when it holds no bytes).
pub uninterp spec fn metadatum_bytes_reading(cbor: Seq<u8>) -> Seq<u8>;

/// The text read of an encoding (empty when it holds no text).
pub uninterp spec fn metadatum_text_reading(cbor: Seq<u8>) -> Seq<char>;

/// `TransactionMetadatum::from_bytes`, then `kind` (see
/// `metadatum_kind_reading`).
#[verifier::external_body]
fn metadatum_kind(cbor: &[u8]) -> (r: Option<u8>)
    ensures
        r == metadatum_kind_reading(cbor@),
{
    cardano_serialization_lib::TransactionMetadatum::from_bytes(cbor.to_vec()).ok().map(|m| m.kind() as u8)
}

/// `TransactionMetadatum::from_bytes`, then `as_map`, each key and value
/// encoded (see `metadatum_map_reading`).
#[verifier::external_body]
fn metadatum_map_parts(cbor: &[u8]) -> (r: Vec<(Vec<u8>, Vec<u8>)>)
    ensures
        r@.map_values(|e: (Vec<u8>, Vec<u8>)| (e.0@, e.1@)) == metadatum_map_reading(cbor@),
{
    let map = cardano_serialization_lib::TransactionMetadatum::from_bytes(cbor.to_vec()).ok().and_then(|m| m.as_map().ok());
    map.map(|m| (0..m.keys().len()).map(|i| (m.keys().get(i).to_bytes(), m.get(&m.keys().get(i)).unwrap().to_bytes())).collect()).unwrap_or_default()
}

/// `TransactionMetadatum::from_bytes`, then `as_list`, each item encoded (see
/// `metadatum_list_reading`).
#[verifier::external_body]
fn metadatum_list_parts(cbor: &[u8]) -> (r: Vec<Vec<u8>>)
    ensures
        r@.map_values(|e: Vec<u8>| e@) == metadatum_list_reading(cbor@),
{
    let list = cardano_serialization_lib::TransactionMetadatum::from_bytes(cbor.to_vec()).ok().and_then(|m| m.as_list().ok());
    list.map(|l| (0..l.len()).map(|i| l.get(i).to_bytes()).collect()).unwrap_or_default()
}

/// `TransactionMetadatum::from_bytes`, then `as_int`, as `i128` (see
/// `metadatum_int_reading`).
#[verifier::external_body]
fn metadatum_int(cbor: &[u8]) -> (r: Option<i128>)
    ensures
        r == metadatum_int_reading(cbor@),
{
    let m = cardano_serialization_lib::TransactionMetadatum::from_bytes(cbor.to_vec()).ok()?;
    m.as_int().ok()?.to_str().parse::<i128>().ok()
}

/// `TransactionMetadatum::from_bytes`, then `as_bytes` (see
/// `metadatum_bytes_reading`).
#[verifier::external_body]
fn metadatum_bytes(cbor: &[u8]) -> (r: Vec<u8>)
    ensures
        r@ == metadatum_bytes_reading(cbor@),
{
    cardano_serialization_lib::TransactionMetadatum::from_bytes(cbor.to_vec()).ok().and_then(|m| m.as_bytes().ok()).unwrap_or_default()
}

/// `TransactionMetadatum::from_bytes`, then `as_text` (see
/// `metadatum_text_reading`).
#[verifier::external_body]
fn metadatum_text(cbor: &[u8]) -> (r: String)
    ensures
        r@ == metadatum_text_reading(cbor@),
{
    cardano_serialization_lib::TransactionMetadatum::from_bytes(cbor.to_vec()).ok().and_then(|m| m.as_text().ok()).unwrap_or_default()
}

/// The encoding reads, down to `depth` levels, as a metadatum: a map or a
/// list whose members all read, an integer that fits `i128`, bytes or text.
pub open spec fn metadatum_decodes(cbor: Seq<u8>, depth: nat) -> bool
    decreases depth,
{
    depth > 0 && match metadatum_kind_reading(cbor) {
        Some(0) => forall|i: int|
            0 <= i < metadatum_map_reading(cbor).len() ==> metadatum_decodes(
                (#[trigger] metadatum_map_reading(cbor)[i]).0,
                (depth - 1) as nat,
            ) && metadatum_decodes(metadatum_map_reading(cbor)[i].1, (depth - 1) as nat),
        Some(1) => forall|i: int|
            0 <= i < metadatum_list_reading(cbor).len() ==> metadatum_decodes(
                #[trigger] metadatum_list_reading(cbor)[i],
                (depth - 1) as nat,
            ),
        Some(2) => metadatum_int_reading(cbor) is Some,
        Some(3) | Some(4) => true,
        _ => false,
    }
}

/// `m` is the metadatum read of the encoding, down to `depth` levels.
pub open spec fn metadatum_read(cbor: Seq<u8>, depth: nat, m: TxMetadatum) -> bool
    decreases depth,
{
    depth > 0 && match metadatum_kind_reading(cbor) {
        Some(0) => m matches TxMetadatum::MetadataMap(entries) && entries@.len() == metadatum_map_reading(cbor).len()
            && forall|i: int|
            0 <= i < entries@.len() ==> metadatum_read(
                metadatum_map_reading(cbor)[i].0,
                (depth - 1) as nat,
                (#[trigger] entries@[i]).0,
            ) && metadatum_read(metadatum_map_reading(cbor)[i].1, (depth - 1) as nat, entries@[i].1),
        Some(1) => m matches TxMetadatum::MetadataList(items) && items@.len() == metadatum_list_reading(cbor).len()
            && forall|i: int|
            0 <= i < items@.len() ==> metadatum_read(
                metadatum_list_reading(cbor)[i],
                (depth - 1) as nat,
                #[trigger] items@[i],
            ),
        Some(2) => metadatum_int_reading(cbor) == Some(m->Int_0) && m is Int,
        Some(3) => m matches TxMetadatum::Bytes(b) && b@ == metadatum_bytes_reading(cbor),
        Some(4) => m matches TxMetadatum::Text(t) && t@ == metadatum_text_reading(cbor),
        _ => false,
    }
}

/// Reads a metadatum from its encoding, down to `depth` levels.
fn read_metadatum(cbor: &[u8], depth: usize) -> (r: Option<TxMetadatum>)
    ensures
        r is Some == metadatum_decodes(cbor@, depth as nat),
        r matches Some(m) ==> metadatum_read(cbor@, depth as nat, m),
    decreases depth,
{
    if depth == 0 {
        return None;
    }
    let kind = metadatum_kind(cbor);
    if kind == Some(0u8) {
        let parts = metadatum_map_parts(cbor);
        let ghost pv = metadatum_map_reading(cbor@);
        let mut entries: Vec<(TxMetadatum, TxMetadatum)> = Vec::new();
        let mut i: usize = 0;
        while i < parts.len()
            invariant
                depth > 0,
                metadatum_kind_reading(cbor@) == Some(0u8),
                pv == metadatum_map_reading(cbor@),
                pv == parts@.map_values(|e: (Vec<u8>, Vec<u8>)| (e.0@, e.1@)),
                i <= parts@.len(),
                entries@.len() == i,
                forall|j: int| 0 <= j < i ==> metadatum_decodes((#[trigger] pv[j]).0, (depth - 1) as nat)
                    && metadatum_decodes(pv[j].1, (depth - 1) as nat),
                forall|j: int| 0 <= j < i ==> metadatum_read(pv[j].0, (depth - 1) as nat, (#[trigger] entries@[j]).0)
                    && metadatum_read(pv[j].1, (depth - 1) as nat, entries@[j].1),
            decreases parts@.len() - i,
        {
            let k = read_metadatum(parts[i].0.as_slice(), depth - 1);
            let v = read_metadatum(parts[i].1.as_slice(), depth - 1);
            match (k, v) {
                (Some(k), Some(v)) => entries.push((k, v)),
                _ => {
                    assert(!metadatum_decodes(cbor@, depth as nat)) by {
                        assert(pv[i as int] == (parts@[i as int].0@, parts@[i as int].1@));
                        assert(metadatum_map_reading(cbor@)[i as int] == pv[i as int]);
                    }
                    return None;
                },
            }
            i += 1;
        }
        let r = TxMetadatum::MetadataMap(entries);
        return Some(r);
    } else if kind == Some(1u8) {
        let parts = metadatum_list_parts(cbor);
        let ghost pv = metadatum_list_reading(cbor@);
        let mut items: Vec<TxMetadatum> = Vec::new();
        let mut i: usize = 0;
        while i < parts.len()
            invariant
                depth > 0,
                metadatum_kind_reading(cbor@) == Some(1u8),
                pv == metadatum_list_reading(cbor@),
                pv == parts@.map_values(|e: Vec<u8>| e@),
                i <= parts@.len(),
                items@.len() == i,
                forall|j: int| 0 <= j < i ==> metadatum_decodes(#[trigger] pv[j], (depth - 1) as nat),
                forall|j: int| 0 <= j < i ==> metadatum_read(pv[j], (depth - 1) as nat, #[trigger] items@[j]),
            decreases parts@.len() - i,
        {
            match read_metadatum(parts[i].as_slice(), depth - 1) {
                Some(item) => items.push(item),
                None => {
                    assert(!metadatum_decodes(cbor@, depth as nat)) by {
                        assert(pv[i as int] == parts@[i as int]@);
                        assert(metadatum_list_reading(cbor@)[i as int] == pv[i as int]);
                    }
                    return None;
                },
            }
            i += 1;
        }
        return Some(TxMetadatum::MetadataList(items));
    } else if kind == Some(2u8) {
        return match metadatum_int(cbor) {
            Some(n) => Some(TxMetadatum::Int(n)),
            None => None,
        };
    } else if kind == Some(3u8) {
        return Some(TxMetadatum::Bytes(metadatum_bytes(cbor)));
    } else if kind == Some(4u8) {
        return Some(TxMetadatum::Text(metadatum_text(cbor)));
    }
    None
}

/// The metadata holding the metadatum encoded as `cbor` under `label`
/// alone, encoded again.
pub uninterp spec fn registration_metadata_reading(label: u64, cbor: Seq<u8>) -> Seq<u8>;

/// `TransactionMetadatum::from_bytes`, inserted under `label` into a new
/// `GeneralTransactionMetadata`, then `to_bytes` (see
/// `registration_metadata_reading`); the encoding reads as a metadatum.
#[verifier::external_body]
fn registration_metadata_cbor(label: u64, cbor: &[u8]) -> (r: Vec<u8>)
    requires
        metadatum_kind_reading(cbor@) is Some,
    ensures
        r@ == registration_metadata_reading(label, cbor@),
{
    let m = cardano_serialization_lib::TransactionMetadatum::from_bytes(cbor.to_vec()).unwrap();
    let mut general = cardano_serialization_lib::GeneralTransactionMetadata::new();
    general.insert(&cardano_serialization_lib::BigNum::from(label), &m);
    general.to_bytes()
}

/// What the serialization library reads of a transaction, as plain values:
/// its hash; each key witness (public key, signature); and, when it has
/// auxiliary data, the metadata when there is any, each label with the
/// encoding of its metadatum.
pub type RawTxSignatures = (Seq<u8>, Seq<(Seq<u8>, Seq<u8>)>, Option<Option<Seq<(u64, Seq<u8>)>>>);

/// A reading as the library gets it.
pub type RawTx = (Vec<u8>, Vec<(Vec<u8>, Vec<u8>)>, Option<Option<Vec<(u64, Vec<u8>)>>>);

/// The hash of the transaction `FixedTransaction::from_hex` reads of hex
/// text; the debug text of its error otherwise.
pub uninterp spec fn tx_hash_reading(tx_hex: Seq<char>) -> Result<Seq<u8>, Seq<char>>;

/// The key witnesses (public key, signature) of the transaction read of hex
/// text (none when none is read).
pub uninterp spec fn tx_vkeys_reading(tx_hex: Seq<char>) -> Seq<(Seq<u8>, Seq<u8>)>;

/// The metadata of the transaction read of hex text: nothing without
/// auxiliary data; otherwise the metadata, when there is any, each label
/// with its metadatum encoded.
pub uninterp spec fn tx_metadata_reading(tx_hex: Seq<char>) -> Option<Option<Seq<(u64, Seq<u8>)>>>;

/// The number of transactions of the block `FixedBlock::from_bytes` reads of
/// bytes; the debug text of its error otherwise.
pub uninterp spec fn block_size_reading(block_bytes: Seq<u8>) -> Result<nat, Seq<char>>;

/// The number of transaction witness sets of the block read of bytes.
pub uninterp spec fn block_witness_count_reading(block_bytes: Seq<u8>) -> nat;

/// The hash of the `i`-th transaction of the block read of bytes.
pub uninterp spec fn block_tx_hash_reading(block_bytes: Seq<u8>, i: nat) -> Seq<u8>;

/// The key witnesses of the `i`-th transaction of the block read of bytes.
pub uninterp spec fn block_tx_vkeys_reading(block_bytes: Seq<u8>, i: nat) -> Seq<(Seq<u8>, Seq<u8>)>;

/// The metadata of the `i`-th transaction of the block read of bytes, as for
/// a transaction.
pub uninterp spec fn block_tx_metadata_reading(block_bytes: Seq<u8>, i: nat) -> Option<Option<Seq<(u64, Seq<u8>)>>>;

/// What the library reads of a transaction given in hex.
pub open spec fn fixed_tx_reading(tx_hex: Seq<char>) -> Result<RawTxSignatures, Seq<char>> {
    match tx_hash_reading(tx_hex) {
        Ok(h) => Ok((h, tx_vkeys_reading(tx_hex), tx_metadata_reading(tx_hex))),
        Err(e) => Err(e),
    }
}

/// What the library reads of the `i`-th transaction of a block.
pub open spec fn block_tx_reading(block_bytes: Seq<u8>, i: nat) -> RawTxSignatures {
    (block_tx_hash_reading(block_bytes, i), block_tx_vkeys_reading(block_bytes, i), block_tx_metadata_reading(block_bytes, i))
}

/// The key witness views of a reading.
pub open spec fn pairs_view(ws: Seq<(Vec<u8>, Vec<u8>)>) -> Seq<(Seq<u8>, Seq<u8>)> {
    ws.map_values(|w: (Vec<u8>, Vec<u8>)| (w.0@, w.1@))
}

/// The metadata views of a reading.
pub open spec fn md_view(md: Option<Option<Vec<(u64, Vec<u8>)>>>) -> Option<Option<Seq<(u64, Seq<u8>)>>> {
    match md {
        Some(Some(m)) => Some(Some(m@.map_values(|e: (u64, Vec<u8>)| (e.0, e.1@)))),
        Some(None) => Some(None),
        None => None,
    }
}

/// A reading as plain values.
pub open spec fn raw_view(t: RawTx) -> RawTxSignatures {
    (t.0@, pairs_view(t.1@), md_view(t.2))
}

/// Keys of 32 bytes and signatures of 64.
pub open spec fn raw_keys_wf(t: RawTxSignatures) -> bool {
    forall|i: int| 0 <= i < t.1.len() ==> (#[trigger] t.1[i]).0.len() == 32 && t.1[i].1.len() == 64
}

/// `FixedTransaction::from_hex`, then `transaction_hash` (see
/// `tx_hash_reading`); `from_hex` panics on text that is not hex.
#[verifier::external_body]
fn tx_hash_from_hex(tx_hex: &str) -> (r: Result<Vec<u8>, String>)
    requires
        is_hex_text(tx_hex@),
    ensures
        match r {
            Ok(h) => tx_hash_reading(tx_hex@) == Ok::<Seq<u8>, Seq<char>>(h@),
            Err(e) => tx_hash_reading(tx_hex@) == Err::<Seq<u8>, Seq<char>>(e@),
        },
{
    cardano_serialization_lib::FixedTransaction::from_hex(tx_hex).map(|tx| tx.transaction_hash().to_bytes()).map_err(|e| format!("{:?}", e))
}

/// `FixedTransaction::from_hex`, then the public key and signature of each
/// key witness (see `tx_vkeys_reading`); the library's types hold keys of
/// 32 bytes and signatures of 64.
#[verifier::external_body]
fn tx_vkeys_from_hex(tx_hex: &str) -> (r: Vec<(Vec<u8>, Vec<u8>)>)
    requires
        is_hex_text(tx_hex@),
    ensures
        pairs_view(r@) == tx_vkeys_reading(tx_hex@),
        forall|i: int| 0 <= i < r@.len() ==> (#[trigger] r@[i]).0@.len() == 32 && r@[i].1@.len() == 64,
{
    let vkeys = cardano_serialization_lib::FixedTransaction::from_hex(tx_hex).ok().and_then(|tx| tx.witness_set().vkeys());
    vkeys.map(|v| (0..v.len()).map(|i| (v.get(i).vkey().public_key().as_bytes(), v.get(i).signature().to_bytes())).collect()).unwrap_or_default()
}

/// `FixedTransaction::from_hex`, then the metadata of its auxiliary data,
/// each label with its metadatum encoded (see `tx_metadata_reading`).
#[verifier::external_body]
fn tx_metadata_from_hex(tx_hex: &str) -> (r: Option<Option<Vec<(u64, Vec<u8>)>>>)
    requires
        is_hex_text(tx_hex@),
    ensures
        md_view(r) == tx_metadata_reading(tx_hex@),
{
    let aux = cardano_serialization_lib::FixedTransaction::from_hex(tx_hex).ok().and_then(|tx| tx.auxiliary_data());
    aux.map(|a| a.metadata().map(|m| (0..m.keys().len()).map(|i| (u64::from(m.keys().get(i)), m.get(&m.keys().get(i)).unwrap().to_bytes())).collect()))
}

/// `FixedBlock::from_bytes`, then the number of its transaction bodies (see
/// `block_size_reading`).
#[verifier::external_body]
fn block_size(block_bytes: &[u8]) -> (r: Result<usize, String>)
    ensures
        match r {
            Ok(n) => block_size_reading(block_bytes@) == Ok::<nat, Seq<char>>(n as nat),
            Err(e) => block_size_reading(block_bytes@) == Err::<nat, Seq<char>>(e@),
        },
{
    cardano_serialization_lib::FixedBlock::from_bytes(block_bytes.to_vec()).map(|b| b.transaction_bodies().len()).map_err(|e| format!("{:?}", e))
}

/// `FixedBlock::from_bytes`, then the number of its transaction witness
/// sets (see `block_witness_count_reading`).
#[verifier::external_body]
fn block_witness_count(block_bytes: &[u8]) -> (r: usize)
    requires
        block_size_reading(block_bytes@) is Ok,
    ensures
        r as nat == block_witness_count_reading(block_bytes@),
{
    cardano_serialization_lib::FixedBlock::from_bytes(block_bytes.to_vec()).unwrap().transaction_witness_sets().len()
}

/// `FixedBlock::from_bytes`, then the hash of the `i`-th transaction body
/// (see `block_tx_hash_reading`).
#[verifier::external_body]
fn block_tx_hash(block_bytes: &[u8], i: usize) -> (r: Vec<u8>)
    requires
        block_size_reading(block_bytes@) matches Ok(n) && i < n,
    ensures
        r@ == block_tx_hash_reading(block_bytes@, i as nat),
{
    let block = cardano_serialization_lib::FixedBlock::from_bytes(block_bytes.to_vec()).unwrap();
    block.transaction_bodies().get(i).tx_hash().to_bytes()
}

/// `FixedBlock::from_bytes`, then the key witnesses of the `i`-th witness set
/// (see `block_tx_vkeys_reading`); keys of 32 bytes, signatures of 64. The
/// witness sets are indexed directly, so `i` stays below their number.
#[verifier::external_body]
fn block_tx_vkeys(block_bytes: &[u8], i: usize) -> (r: Vec<(Vec<u8>, Vec<u8>)>)
    requires
        block_size_reading(block_bytes@) matches Ok(n) && i < n,
        i < block_witness_count_reading(block_bytes@),
    ensures
        pairs_view(r@) == block_tx_vkeys_reading(block_bytes@, i as nat),
        forall|j: int| 0 <= j < r@.len() ==> (#[trigger] r@[j]).0@.len() == 32 && r@[j].1@.len() == 64,
{
    let block = cardano_serialization_lib::FixedBlock::from_bytes(block_bytes.to_vec()).unwrap();
    let vkeys = block.transaction_witness_sets().get(i).vkeys();
    vkeys.map(|v| (0..v.len()).map(|j| (v.get(j).vkey().public_key().as_bytes(), v.get(j).signature().to_bytes())).collect()).unwrap_or_default()
}

/// `FixedBlock::from_bytes`, then the metadata of the `i`-th transaction's
/// auxiliary data (see `block_tx_metadata_reading`).
#[verifier::external_body]
fn block_tx_metadata(block_bytes: &[u8], i: usize) -> (r: Option<Option<Vec<(u64, Vec<u8>)>>>)
    requires
        block_size_reading(block_bytes@) matches Ok(n) && i < n,
    ensures
        md_view(r) == block_tx_metadata_reading(block_bytes@, i as nat),
{
    let block = cardano_serialization_lib::FixedBlock::from_bytes(block_bytes.to_vec()).unwrap();
    let aux = block.auxiliary_data_set().get(i as u32);
    aux.map(|a| a.metadata().map(|m| (0..m.keys().len()).map(|k| (u64::from(m.keys().get(k)), m.get(&m.keys().get(k)).unwrap().to_bytes())).collect()))
}

/// The error of a block with fewer witness sets than transaction bodies.
pub open spec fn witness_sets_message() -> Seq<char> {
    "fewer transaction witness sets than transaction bodies"@
}

/// What the library reads of a block's bytes, transaction by transaction; a
/// block with fewer witness sets than transaction bodies does not read.
pub open spec fn fixed_block_reading(block_bytes: Seq<u8>) -> Result<Seq<RawTxSignatures>, Seq<char>> {
    match block_size_reading(block_bytes) {
        Ok(n) => if block_witness_count_reading(block_bytes) < n {
            Err(witness_sets_message())
        } else {
            Ok(Seq::new(n, |i: int| block_tx_reading(block_bytes, i as nat)))
        },
        Err(e) => Err(e),
    }
}

proof fn lemma_pairs_wf(ws: Seq<(Vec<u8>, Vec<u8>)>)
    requires
        forall|i: int| 0 <= i < ws.len() ==> (#[trigger] ws[i]).0@.len() == 32 && ws[i].1@.len() == 64,
    ensures
        forall|i: int| 0 <= i < pairs_view(ws).len() ==> (#[trigger] pairs_view(ws)[i]).0.len() == 32
            && pairs_view(ws)[i].1.len() == 64,
{
    assert forall|i: int| 0 <= i < pairs_view(ws).len() implies (#[trigger] pairs_view(ws)[i]).0.len() == 32
        && pairs_view(ws)[i].1.len() == 64 by {
        assert(pairs_view(ws)[i] == (ws[i].0@, ws[i].1@));
    }
}

/// Reads a transaction given in hex (see `fixed_tx_reading`).
fn read_fixed_tx(tx_hex: &str) -> (r: Result<RawTx, String>)
    requires
        is_hex_text(tx_hex@),
    ensures
        match r {
            Ok(t) => fixed_tx_reading(tx_hex@) == Ok::<RawTxSignatures, Seq<char>>(raw_view(t)) && raw_keys_wf(raw_view(t)),
            Err(e) => fixed_tx_reading(tx_hex@) == Err::<RawTxSignatures, Seq<char>>(e@),
        },
{
    let h = tx_hash_from_hex(tx_hex)?;
    let ws = tx_vkeys_from_hex(tx_hex);
    let md = tx_metadata_from_hex(tx_hex);
    proof {
        lemma_pairs_wf(ws@);
    }
    Ok((h, ws, md))
}

/// Reads every transaction of a block given as bytes (see
/// `fixed_block_reading`).
fn read_fixed_block(block_bytes: Vec<u8>) -> (r: Result<Vec<RawTx>, String>)
    ensures
        match r {
            Ok(txs) => fixed_block_reading(block_bytes@) == Ok::<Seq<RawTxSignatures>, Seq<char>>(
                txs@.map_values(|t: RawTx| raw_view(t)),
            ) && forall|i: int| 0 <= i < txs@.len() ==> raw_keys_wf(raw_view(#[trigger] txs@[i])),
            Err(e) => fixed_block_reading(block_bytes@) == Err::<Seq<RawTxSignatures>, Seq<char>>(e@),
        },
{
    let n = block_size(block_bytes.as_slice())?;
    if block_witness_count(block_bytes.as_slice()) < n {
        return Err(string_of("fewer transaction witness sets than transaction bodies"));
    }
    let mut txs: Vec<RawTx> = Vec::new();
    let mut i: usize = 0;
    while i < n
        invariant
            block_size_reading(block_bytes@) == Ok::<nat, Seq<char>>(n as nat),
            n <= block_witness_count_reading(block_bytes@),
            i <= n,
            txs@.len() == i,
            forall|j: int| 0 <= j < i ==> raw_view(#[trigger] txs@[j]) == block_tx_reading(block_bytes@, j as nat)
                && raw_keys_wf(raw_view(txs@[j])),
        decreases n - i,
    {
        let h = block_tx_hash(block_bytes.as_slice(), i);
        let ws = block_tx_vkeys(block_bytes.as_slice(), i);
        let md = block_tx_metadata(block_bytes.as_slice(), i);
        proof {
            lemma_pairs_wf(ws@);
        }
        txs.push((h, ws, md));
        i += 1;
    }
    assert(fixed_block_reading(block_bytes@)->Ok_0 =~= txs@.map_values(|t: RawTx| raw_view(t)));
    Ok(txs)
}

/// The first encoding under `label`.
pub open spec fn raw_entry(md: Seq<(u64, Seq<u8>)>, label: u64) -> Option<Seq<u8>>
    decreases md.len(),
{
    if md.len() == 0 {
        None
    } else if md[0].0 == label {
        Some(md[0].1)
    } else {
        raw_entry(md.drop_first(), label)
    }
}

/// Every metadatum of the reading decodes.
pub open spec fn raw_decodes(t: RawTxSignatures) -> bool {
    t.2 matches Some(Some(md)) ==> forall|i: int|
        0 <= i < md.len() ==> metadatum_decodes((#[trigger] md[i]).1, md[i].1.len())
}

/// The metadata entries are those read, label by label.
pub open spec fn metadata_of_raw(m: Seq<(u64, TxMetadatum)>, md: Seq<(u64, Seq<u8>)>) -> bool {
    &&& m.len() == md.len()
    &&& forall|i: int| 0 <= i < md.len() ==> (#[trigger] m[i]).0 == md[i].0 && metadatum_read(md[i].1, md[i].1.len(), m[i].1)
}

/// The facts are those of the reading: the hash, the key witnesses, and the
/// metadata read entry by entry, with the encoding of the registration
/// alone when the registration label is present.
pub open spec fn facts_of_raw(f: TxSignatureFacts, t: RawTxSignatures) -> bool {
    &&& f.tx_hash@ == t.0
    &&& witnesses_view(f.vkey_witnesses@) == t.1
    &&& match t.2 {
        None => f.auxiliary_data is None,
        Some(None) => f.auxiliary_data matches Some(a) && a.metadata is None && a.registration_metadata_cbor is None,
        Some(Some(md)) => f.auxiliary_data matches Some(a) && a.metadata matches Some(m) && metadata_of_raw(m@, md)
            && match raw_entry(md, registration_label()) {
            Some(c) => a.registration_metadata_cbor matches Some(b) && b@ == registration_metadata_reading(registration_label(), c),
            None => a.registration_metadata_cbor is None,
        },
    }
}

proof fn lemma_entries_agree(m: Seq<(u64, TxMetadatum)>, md: Seq<(u64, Seq<u8>)>, label: u64)
    requires
        metadata_of_raw(m, md),
    ensures
        metadata_entry(m, label) is Some == raw_entry(md, label) is Some,
    decreases md.len(),
{
    if md.len() > 0 {
        assert(m[0].0 == md[0].0);
        assert(metadata_of_raw(m.drop_first(), md.drop_first())) by {
            assert forall|i: int| 0 <= i < md.drop_first().len() implies (#[trigger] m.drop_first()[i]).0
                == md.drop_first()[i].0 && metadatum_read(md.drop_first()[i].1, md.drop_first()[i].1.len(), m.drop_first()[i].1) by {
                assert(m.drop_first()[i] == m[i + 1]);
                assert(md.drop_first()[i] == md[i + 1]);
            }
        }
        lemma_entries_agree(m.drop_first(), md.drop_first(), label);
    }
}

proof fn lemma_raw_entry_member(md: Seq<(u64, Seq<u8>)>, label: u64)
    ensures
        raw_entry(md, label) matches Some(c) ==> exists|x: int| 0 <= x < md.len() && (#[trigger] md[x]).1 == c,
    decreases md.len(),
{
    if md.len() > 0 && md[0].0 != label {
        lemma_raw_entry_member(md.drop_first(), label);
        if let Some(c) = raw_entry(md, label) {
            let x = choose|x: int| 0 <= x < md.drop_first().len() && (#[trigger] md.drop_first()[x]).1 == c;
            assert(md[x + 1] == md.drop_first()[x]);
        }
    }
}

fn find_raw_entry(md: &Vec<(u64, Vec<u8>)>, label: u64) -> (r: Option<&Vec<u8>>)
    ensures
        match r {
            Some(c) => raw_entry(md@.map_values(|e: (u64, Vec<u8>)| (e.0, e.1@)), label) == Some(c@),
            None => raw_entry(md@.map_values(|e: (u64, Vec<u8>)| (e.0, e.1@)), label) is None,
        },
{
    let ghost v = md@.map_values(|e: (u64, Vec<u8>)| (e.0, e.1@));
    let n = md.len();
    let mut i: usize = 0;
    assert(v.skip(0) =~= v);
    while i < n
        invariant
            n == md@.len(),
            v == md@.map_values(|e: (u64, Vec<u8>)| (e.0, e.1@)),
            i <= n,
            raw_entry(v, label) == raw_entry(v.skip(i as int), label),
        decreases n - i,
    {
        assert(v.skip(i as int).drop_first() =~= v.skip(i + 1));
        assert(v.skip(i as int)[0] == v[i as int]);
        if md[i].0 == label {
            return Some(&md[i].1);
        }
        i += 1;
    }
    None
}

/// The signature facts of a reading; nothing when a metadatum of it does not
/// decode.
pub fn facts_from_raw(t: RawTx) -> (r: Option<TxSignatureFacts>)
    requires
        raw_keys_wf(raw_view(t)),
    ensures
        r is Some == raw_decodes(raw_view(t)),
        r matches Some(f) ==> facts_of_raw(f, raw_view(t)) && tx_facts_wf(f),
{
    let ghost tv = raw_view(t);
    let (tx_hash, ws, md) = t;
    let mut witnesses: Vec<PubKeySignature> = Vec::new();
    let n = ws.len();
    let mut i: usize = 0;
    while i < n
        invariant
            n == ws@.len(),
            i <= n,
            tv.1 == ws@.map_values(|w: (Vec<u8>, Vec<u8>)| (w.0@, w.1@)),
            witnesses_view(witnesses@) =~= tv.1.take(i as int),
        decreases n - i,
    {
        let ghost before = witnesses_view(witnesses@);
        witnesses.push(PubKeySignature { pub_key: copy_bytes(&ws[i].0), signature: copy_bytes(&ws[i].1) });
        assert(witnesses_view(witnesses@) =~= before.push((ws@[i as int].0@, ws@[i as int].1@)));
        assert(tv.1.take(i + 1) =~= tv.1.take(i as int).push(tv.1[i as int]));
        i += 1;
    }
    assert(tv.1.take(n as int) =~= tv.1);
    let auxiliary_data = match md {
        None => None,
        Some(None) => Some(AuxiliaryDataFacts { metadata: None, registration_metadata_cbor: None }),
        Some(Some(entries)) => {
            let ghost mv = entries@.map_values(|e: (u64, Vec<u8>)| (e.0, e.1@));
            assert(tv.2 == Some(Some(mv)));
            let mut metadata: Vec<(u64, TxMetadatum)> = Vec::new();
            let k = entries.len();
            let mut j: usize = 0;
            while j < k
                invariant
                    k == entries@.len(),
                    j <= k,
                    mv == entries@.map_values(|e: (u64, Vec<u8>)| (e.0, e.1@)),
                    tv.2 == Some(Some(mv)),
                    tv == raw_view(t),
                    metadata_of_raw(metadata@, mv.take(j as int)),
                    forall|x: int| 0 <= x < j ==> metadatum_decodes((#[trigger] mv[x]).1, mv[x].1.len()),
                decreases k - j,
            {
                let depth = entries[j].1.len();
                assert(mv[j as int].1 == entries@[j as int].1@);
                match read_metadatum(entries[j].1.as_slice(), depth) {
                    Some(m) => {
                        let ghost before = metadata@;
                        metadata.push((entries[j].0, m));
                        assert(metadata_of_raw(metadata@, mv.take(j + 1))) by {
                            assert forall|x: int| 0 <= x < j + 1 implies (#[trigger] metadata@[x]).0 == mv.take(j + 1)[x].0
                                && metadatum_read(mv.take(j + 1)[x].1, mv.take(j + 1)[x].1.len(), metadata@[x].1) by {
                                if x < j {
                                    assert(metadata@[x] == before[x]);
                                    assert(mv.take(j + 1)[x] == mv.take(j as int)[x]);
                                }
                            }
                        }
                    },
                    None => {
                        assert(mv[j as int].1 == entries@[j as int].1@);
                        assert(depth as nat == mv[j as int].1.len());
                        assert(!metadatum_decodes(mv[j as int].1, mv[j as int].1.len()));
                        assert(0 <= j < mv.len());
                        assert(tv.2 == Some(Some(mv)));
                        assert(!raw_decodes(tv)) by {
                            if raw_decodes(tv) {
                                let md = tv.2->Some_0->Some_0;
                                assert(md == mv);
                                assert(metadatum_decodes(md[j as int].1, md[j as int].1.len()));
                            }
                        }
                        return None;
                    },
                }
                j += 1;
            }
            assert(mv.take(k as int) =~= mv);
            let registration_metadata_cbor = match find_raw_entry(&entries, 61284) {
                Some(c) => {
                    proof {
                        lemma_entries_agree(metadata@, mv, 61284);
                    }
                    assert(metadatum_kind_reading(c@) is Some) by {
                        lemma_raw_entry_member(mv, 61284);
                        let x = choose|x: int| 0 <= x < mv.len() && (#[trigger] mv[x]).1 == c@;
                        assert(metadatum_decodes(mv[x].1, mv[x].1.len()));
                    }
                    Some(registration_metadata_cbor(61284, c.as_slice()))
                },
                None => {
                    proof {
                        lemma_entries_agree(metadata@, mv, 61284);
                    }
                    None
                },
            };
            Some(AuxiliaryDataFacts { metadata: Some(metadata), registration_metadata_cbor })
        },
    };
    Some(TxSignatureFacts { tx_hash, auxiliary_data, vkey_witnesses: witnesses })
}

/// The error of a transaction that does not decode.
pub open spec fn tx_decode_message(e: Seq<char>) -> Seq<char> {
    "Cannot decode tx: "@ + e
}

/// The error of a block that does not decode.
pub open spec fn block_decode_message(e: Seq<char>) -> Seq<char> {
    "Cannot decode block: "@ + e
}

/// The error when a metadatum read does not decode again.
pub open spec fn metadatum_message() -> Seq<char> {
    "undecodable metadatum"@
}

/// Every transaction of a block reading has its metadata decoding.
pub open spec fn all_decode(txs: Seq<RawTxSignatures>) -> bool {
    forall|i: int| 0 <= i < txs.len() ==> raw_decodes(#[trigger] txs[i])
}

/// The facts are those of the block's transactions, one by one.
pub open spec fn block_facts_of_raw(fs: Seq<TxSignatureFacts>, txs: Seq<RawTxSignatures>) -> bool {
    fs.len() == txs.len() && forall|i: int| 0 <= i < txs.len() ==> facts_of_raw(#[trigger] fs[i], txs[i])
}

/// Reads the signature facts of a transaction given in hex.
fn read_tx_facts(tx_hex: &str) -> (r: Result<TxSignatureFacts, (bool, String)>)
    ensures
        !is_hex_text(tx_hex@) ==> (r matches Err(m) && !m.0 && m.1@ == tx_decode_message(hex_decode_error(tx_hex@))),
        is_hex_text(tx_hex@) ==> match fixed_tx_reading(tx_hex@) {
            Err(e) => r matches Err(m) && !m.0 && m.1@ == tx_decode_message(e),
            Ok(t) => if raw_decodes(t) {
                r matches Ok(f) && facts_of_raw(f, t) && tx_facts_wf(f)
            } else {
                r matches Err(m) && m.0 && m.1@ == tx_decode_message(metadatum_message())
            },
        },
{
    match from_hex_string(tx_hex) {
        Err(e) => {
            let mut m = string_of("Cannot decode tx: ");
            push_str(&mut m, e.as_str());
            return Err((false, m));
        },
        Ok(_) => {},
    }
    match read_fixed_tx(tx_hex) {
        Err(e) => {
            let mut m = string_of("Cannot decode tx: ");
            push_str(&mut m, e.as_str());
            Err((false, m))
        },
        Ok(t) => {
            let ghost tv = raw_view(t);
            match facts_from_raw(t) {
                Some(f) => Ok(f),
                None => {
                    let mut m = string_of("Cannot decode tx: ");
                    push_str(&mut m, "undecodable metadatum");
                    Err((true, m))
                },
            }
        },
    }
}

/// Reads the signature facts of every transaction of a block given in hex.
fn read_block_facts(block_hex: &str) -> (r: Result<Vec<TxSignatureFacts>, (bool, String)>)
    ensures
        !is_hex_text(block_hex@) ==> (r matches Err(m) && !m.0 && m.1@ == hex_decode_error(block_hex@)),
        is_hex_text(block_hex@) ==> match fixed_block_reading(hex_decode_spec(block_hex@)) {
            Err(e) => r matches Err(m) && !m.0 && m.1@ == block_decode_message(e),
            Ok(txs) => if all_decode(txs) {
                r matches Ok(fs) && block_facts_of_raw(fs@, txs) && forall|i: int|
                    0 <= i < fs@.len() ==> tx_facts_wf(#[trigger] fs@[i])
            } else {
                r matches Err(m) && m.0 && m.1@ == block_decode_message(metadatum_message())
            },
        },
{
    let bytes = match from_hex_string(block_hex) {
        Ok(b) => b,
        Err(e) => return Err((false, e)),
    };
    let ghost bv = bytes@;
    match read_fixed_block(bytes) {
        Err(e) => {
            let mut m = string_of("Cannot decode block: ");
            push_str(&mut m, e.as_str());
            Err((false, m))
        },
        Ok(raws) => {
            let ghost txs = raws@.map_values(|t: RawTx| raw_view(t));
            let mut raws = raws;
            let mut fs: Vec<TxSignatureFacts> = Vec::new();
            let n = raws.len();
            let mut i: usize = 0;
            while i < n
                invariant
                    is_hex_text(block_hex@),
                    bv == hex_decode_spec(block_hex@),
                    fixed_block_reading(bv) == Ok::<Seq<RawTxSignatures>, Seq<char>>(txs),
                    n == txs.len(),
                    raws@.len() == n - i,
                    i <= n,
                    forall|j: int| 0 <= j < raws@.len() ==> raw_view(#[trigger] raws@[j]) == txs[j + i],
                    forall|j: int| 0 <= j < n ==> raw_keys_wf(#[trigger] txs[j]),
                    fs@.len() == i,
                    forall|j: int| 0 <= j < i ==> facts_of_raw(#[trigger] fs@[j], txs[j]) && tx_facts_wf(fs@[j]),
                    forall|j: int| 0 <= j < i ==> raw_decodes(#[trigger] txs[j]),
                decreases n - i,
            {
                let t = raws.remove(0);
                assert(raw_view(t) == txs[i as int]);
                match facts_from_raw(t) {
                    Some(f) => fs.push(f),
                    None => {
                        assert(!all_decode(txs));
                        let mut m = string_of("Cannot decode block: ");
                        push_str(&mut m, "undecodable metadatum");
                        return Err((true, m));
                    },
                }
                i += 1;
            }
            Ok(fs)
        },
    }
}

/// Checks the signatures of a transaction given in hex; text that is not
/// hex is refused with the hex decoding error.
pub fn check_tx_signatures(tx_hex: &str) -> (r: Result<CheckResult, String>)
    ensures
        !is_hex_text(tx_hex@) ==> (r matches Err(m) && m@ == tx_decode_message(hex_decode_error(tx_hex@))),
        is_hex_text(tx_hex@) ==> match fixed_tx_reading(tx_hex@) {
            Err(e) => r matches Err(m) && m@ == tx_decode_message(e),
            Ok(t) => if raw_decodes(t) {
                r matches Ok(c) && exists|f: TxSignatureFacts|
                    #[trigger] facts_of_raw(f, t) && body_check(c, f.tx_hash@, f.auxiliary_data, f.vkey_witnesses@)
            } else {
                r matches Err(m) && m@ == tx_decode_message(metadatum_message())
            },
        },
{
    match read_tx_facts(tx_hex) {
        Ok(f) => Ok(check_tx_signatures_internal(&f)),
        Err(m) => Err(m.1),
    }
}

/// Checks the signatures of every transaction of a block given in hex.
pub fn check_block_txs_signatures(block_hex: &str) -> (r: Result<Vec<CheckResult>, String>)
    ensures
        !is_hex_text(block_hex@) ==> (r matches Err(m) && m@ == hex_decode_error(block_hex@)),
        is_hex_text(block_hex@) ==> match fixed_block_reading(hex_decode_spec(block_hex@)) {
            Err(e) => r matches Err(m) && m@ == block_decode_message(e),
            Ok(txs) => if all_decode(txs) {
                r matches Ok(cs) && exists|fs: Seq<TxSignatureFacts>|
                    #[trigger] block_facts_of_raw(fs, txs) && cs@.len() == fs.len() && forall|i: int|
                        0 <= i < fs.len() ==> body_check(
                            #[trigger] cs@[i],
                            fs[i].tx_hash@,
                            fs[i].auxiliary_data,
                            fs[i].vkey_witnesses@,
                        )
            } else {
                r matches Err(m) && m@ == block_decode_message(metadatum_message())
            },
        },
{
    match read_block_facts(block_hex) {
        Ok(fs) => {
            let cs = check_block_txs_signatures_internal(fs.as_slice());
            Ok(cs)
        },
        Err(m) => Err(m.1),
    }
}

/// The error when hex reads as neither a block nor a transaction.
pub open spec fn neither_message() -> Seq<char> {
    "cannot parse block or transaction from given hex"@
}

/// The hex reads as a block.
pub open spec fn reads_as_block(hex: Seq<char>) -> bool {
    is_hex_text(hex) && fixed_block_reading(hex_decode_spec(hex)) is Ok
}

/// Checks a block given in hex, or else a transaction: for a block, the
/// check of its first transaction whose signatures do not hold, or a valid
/// result; for a transaction, its check; when the hex reads as neither, the
/// error.
pub fn check_block_or_tx_signatures(hex_str: &str) -> (r: Result<CheckResult, JsError>)
    ensures
        !is_hex_text(hex_str@) ==> (r matches Err(e) && e@ == neither_message()),
        reads_as_block(hex_str@) ==> {
            let txs = fixed_block_reading(hex_decode_spec(hex_str@))->Ok_0;
            if all_decode(txs) {
                r matches Ok(c) && exists|fs: Seq<TxSignatureFacts>| #[trigger] block_facts_of_raw(fs, txs) && block_check(c, fs)
            } else {
                r matches Err(e) && e@ == block_decode_message(metadatum_message())
            }
        },
        !reads_as_block(hex_str@) && is_hex_text(hex_str@) ==> match fixed_tx_reading(hex_str@) {
            Ok(t) => if raw_decodes(t) {
                r matches Ok(c) && exists|f: TxSignatureFacts|
                    #[trigger] facts_of_raw(f, t) && body_check(c, f.tx_hash@, f.auxiliary_data, f.vkey_witnesses@)
            } else {
                r matches Err(e) && e@ == tx_decode_message(metadatum_message())
            },
            Err(_) => r matches Err(e) && e@ == neither_message(),
        },
{
    match read_block_facts(hex_str) {
        Ok(fs) => {
            let ghost fv = fs@;
            let c = block_or_tx_result(Some(fs), None)?;
            assert(block_facts_of_raw(fv, fixed_block_reading(hex_decode_spec(hex_str@))->Ok_0));
            Ok(c)
        },
        Err(m) => {
            if m.0 {
                return Err(JsError::new(m.1.as_str()));
            }
            match read_tx_facts(hex_str) {
                Ok(f) => Ok(check_tx_signatures_internal(&f)),
                Err(m) => if m.0 {
                    Err(JsError::new(m.1.as_str()))
                } else {
                    Err(JsError::new("cannot parse block or transaction from given hex"))
                },
            }
        },
    }
}

// ---------------------------------------------------------------------------
// Laws
// ---------------------------------------------------------------------------

/// A transaction's check holds exactly when it lists no signature that
/// does not hold.
pub proof fn law_valid_iff_nothing_invalid(
    r: CheckResult,
    tx_hash: Seq<u8>,
    aux: Option<AuxiliaryDataFacts>,
    ws: Seq<PubKeySignature>,
)
    requires
        body_check(r, tx_hash, aux, ws),
    ensures
        r.valid <==> (r.invalidCatalystWitnesses@.len() == 0 && r.invalidVkeyWitnesses@.len() == 0),
{
    assert(strings_view(r.invalidCatalystWitnesses@).len() == r.invalidCatalystWitnesses@.len());
    assert(strings_view(r.invalidVkeyWitnesses@).len() == r.invalidVkeyWitnesses@.len());
}

/// When every key witness signs the transaction hash and there is no
/// Catalyst registration, the check holds; when some key witness does not,
/// the check fails and lists its signature.
pub proof fn law_signed_transaction_is_valid(
    r: CheckResult,
    tx_hash: Seq<u8>,
    aux: Option<AuxiliaryDataFacts>,
    ws: Seq<PubKeySignature>,
    k: int,
)
    requires
        body_check(r, tx_hash, aux, ws),
        registration_hash(aux) is None,
        0 <= k < ws.len(),
    ensures
        (forall|i: int| 0 <= i < ws.len() ==> ed25519_verifies(ws[i].pub_key@, tx_hash, ws[i].signature@)) ==> r.valid,
        !ed25519_verifies(ws[k].pub_key@, tx_hash, ws[k].signature@) ==> !r.valid && strings_view(
            r.invalidVkeyWitnesses@,
        ).contains(hex_encode_spec(ws[k].signature@)),
{
    let wv = witnesses_view(ws);
    let f = |w: (Seq<u8>, Seq<u8>)| !ed25519_verifies(w.0, tx_hash, w.1);
    assert(invalid_catalyst(aux) =~= Seq::<(Seq<u8>, Seq<u8>)>::empty());
    if forall|i: int| 0 <= i < ws.len() ==> ed25519_verifies(ws[i].pub_key@, tx_hash, ws[i].signature@) {
        assert forall|i: int| 0 <= i < wv.len() implies !f(wv[i]) by {
            assert(wv[i] == ws[i]@);
        }
        assert(wv.all(|x: (Seq<u8>, Seq<u8>)| !f(x)));
        wv.lemma_all_neg_filter_empty(f);
        assert(strings_view(r.invalidVkeyWitnesses@).len() == r.invalidVkeyWitnesses@.len());
        assert(strings_view(r.invalidCatalystWitnesses@).len() == r.invalidCatalystWitnesses@.len());
    }
    if !ed25519_verifies(ws[k].pub_key@, tx_hash, ws[k].signature@) {
        assert(wv[k] == ws[k]@);
        assert(f(wv[k]));
        wv.filter_lemma(f);
        assert(wv.filter(f).contains(wv[k]));
        let j = choose|j: int| 0 <= j < wv.filter(f).len() && wv.filter(f)[j] == wv[k];
        assert(signature_texts(wv.filter(f))[j] == hex_encode_spec(ws[k].signature@));
    }
}

} // verus!
