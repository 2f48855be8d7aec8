//! Witnesses: which key signatures, scripts, redeemers and datums a
//! transaction asks for, which it provides, and what is missing or extra.
use vstd::prelude::*;

use crate::check_signatures::{ed25519_verifies, verify_signature};
use crate::common::{CostModels, TxInput};
use crate::crypto::{blake2b_256, blake2b_256_digest};
use crate::text::{copy_bytes, decimal, hex_encode, hex_encode_spec, string_of};
use crate::validators::phase_1::common::{bytes_equal, GovernanceActionType, LocalCredential, Voter};
use crate::validators::phase_1::errors::{
    errors_view, push_error, strings_view, Phase1Error, Phase1ErrorView, ValidationPhase1Error,
    ValidationResult,
};
use crate::validators::phase_1::helpers::{address_reading, string_to_csl_address};
use crate::validators::phase_1::input_contexts::{found_utxo, UtxoInputContext, ValidationInputContext};
use crate::validators::phase_1::validation::native_script_executor::{
    native_script_satisfied, satisfied, signers_view, NativeScript,
};
use crate::validators::phase_1::validation::collateral::copy_tx_input;
use crate::validators::phase_1::validation::output::indexed_location;

verus! {

/// What a redeemer points at.
#[derive(Debug, Clone, Copy, PartialEq, Eq, Structural)]
pub enum RedeemerTag {
    Spend,
    Mint,
    Cert,
    Reward,
    Vote,
    VotingProposal,
}

/// A witness that the transaction needs.
#[derive(Debug, Clone)]
pub enum WitnessRequirement {
    /// Verification key signature required
    VKeySignature(Vec<u8>),
    /// Native script required
    NativeScript(Vec<u8>),
    /// Plutus script required
    PlutusScript(Vec<u8>),
    /// Redeemer required
    Redeemer { tag: RedeemerTag, index: u32 },
    /// Datum required
    Datum(Vec<u8>),
    /// Unknown script type (not found in provided witnesses)
    UnknownScript(Vec<u8>),
}

/// Where a script or datum is provided.
#[derive(Debug, Clone)]
pub enum WitnessSource {
    /// Witness provided in witness set
    WitnessSet,
    /// Script available through reference input
    ReferenceInput(TxInput),
}

#[derive(Debug, Clone)]
pub struct RequiredVKeyWitness {
    pub key_hash: Vec<u8>,
    pub location: String,
    pub entity_index: u32,
}

#[derive(Debug, Clone)]
pub struct RequiredScriptWitness {
    pub script_hash: Vec<u8>,
    pub location: String,
    pub entity_index: u32,
}

#[derive(Debug, Clone)]
pub struct RequiredRedeemerWitness {
    pub tag: RedeemerTag,
    pub index: u32,
    pub location: String,
    pub entity_index: u32,
}

#[derive(Debug, Clone)]
pub struct RequiredDatumWitness {
    pub datum_hash: Vec<u8>,
    pub location: String,
    pub entity_index: u32,
}

impl View for RequiredVKeyWitness {
    type V = (Seq<u8>, Seq<char>, u32);

    open spec fn view(&self) -> (Seq<u8>, Seq<char>, u32) {
        (self.key_hash@, self.location@, self.entity_index)
    }
}

impl View for RequiredScriptWitness {
    type V = (Seq<u8>, Seq<char>, u32);

    open spec fn view(&self) -> (Seq<u8>, Seq<char>, u32) {
        (self.script_hash@, self.location@, self.entity_index)
    }
}

impl View for RequiredRedeemerWitness {
    type V = (RedeemerTag, u32, Seq<char>, u32);

    open spec fn view(&self) -> (RedeemerTag, u32, Seq<char>, u32) {
        (self.tag, self.index, self.location@, self.entity_index)
    }
}

impl View for RequiredDatumWitness {
    type V = (Seq<u8>, Seq<char>, u32);

    open spec fn view(&self) -> (Seq<u8>, Seq<char>, u32) {
        (self.datum_hash@, self.location@, self.entity_index)
    }
}

/// A native script of the witness set, with its hash.
#[derive(Debug)]
pub struct NativeScriptWitness {
    pub hash: Vec<u8>,
    pub script: NativeScript,
}

/// A governance proposal as the witness rules read it: its kind and, for a
/// parameter change, the hash of its guardrail script.
#[derive(Debug, Clone)]
pub struct ProposalFacts {
    pub action_type: GovernanceActionType,
    pub policy_hash: Option<Vec<u8>>,
}

/// A certificate as the witness rules read it: its kind and the credential
/// or keys that must authorise it.
#[derive(Debug, Clone)]
pub enum TxCertificate {
    StakeRegistration(LocalCredential),
    StakeDeregistration(LocalCredential),
    StakeDelegation(LocalCredential),
    PoolRegistration { operator: Vec<u8>, owners: Vec<Vec<u8>> },
    PoolRetirement(Vec<u8>),
    GenesisKeyDelegation,
    MoveInstantaneousRewardsCert,
    CommitteeHotAuth(LocalCredential),
    CommitteeColdResign(LocalCredential),
    DRepDeregistration(LocalCredential),
    DRepRegistration(LocalCredential),
    DRepUpdate(LocalCredential),
    StakeAndVoteDelegation(LocalCredential),
    StakeRegistrationAndDelegation(LocalCredential),
    StakeVoteRegistrationAndDelegation(LocalCredential),
    VoteDelegation(LocalCredential),
    VoteRegistrationAndDelegation(LocalCredential),
}

/// What the witness rules read of a transaction.
#[derive(Debug)]
pub struct WitnessTxFacts {
    pub inputs: Vec<TxInput>,
    pub reference_inputs: Vec<TxInput>,
    pub collateral: Vec<TxInput>,
    /// The datum hash of each output, if it has one.
    pub output_datum_hashes: Vec<Option<Vec<u8>>>,
    /// The encoded transaction body; its BLAKE2b-256 digest is the
    /// transaction hash, which the key witnesses sign.
    pub body_cbor: Vec<u8>,
    /// The public keys of the key witnesses.
    pub vkey_witnesses: Vec<Vec<u8>>,
    /// The signatures of the key witnesses, in the same order.
    pub vkey_signatures: Vec<Vec<u8>>,
    pub native_scripts: Vec<NativeScriptWitness>,
    pub plutus_script_hashes: Vec<Vec<u8>>,
    pub plutus_data_hashes: Vec<Vec<u8>>,
    /// The tag and index of each redeemer.
    pub redeemers: Vec<(RedeemerTag, u64)>,
    /// The credential of each withdrawal's reward address.
    pub withdrawal_credentials: Vec<LocalCredential>,
    pub certificates: Vec<TxCertificate>,
    pub voting_proposals: Vec<ProposalFacts>,
    pub voters: Vec<Voter>,
    pub mint_policy_ids: Vec<Vec<u8>>,
    pub required_signers: Vec<Vec<u8>>,
    /// The native scripts held by the script references of the UTxOs that
    /// the transaction reads, with their hashes.
    pub reference_native_scripts: Vec<NativeScriptWitness>,
    /// The script data hash the body declares.
    pub script_data_hash: Option<Vec<u8>>,
    /// The encoding of the witness set's redeemers, when it has the field.
    pub redeemers_cbor: Option<Vec<u8>>,
    /// The encoding of the witness set's datums, when it has the field.
    pub plutus_data_cbor: Option<Vec<u8>>,
    /// The language (0 for Plutus V1, 1 for V2, 2 for V3) of each Plutus
    /// script the transaction provides, in its witness set or by a script
    /// reference it reads.
    pub plutus_languages: Vec<u8>,
}

pub struct WitnessValidator<'a> {
    /// Required VKey witnesses
    pub required_vkey_witnesses: Vec<RequiredVKeyWitness>,
    /// Required native script witnesses
    pub required_native_script_witnesses: Vec<RequiredScriptWitness>,
    /// Required plutus script witnesses
    pub required_plutus_script_witnesses: Vec<RequiredScriptWitness>,
    /// Required redeemer witnesses
    pub required_redeemer_witnesses: Vec<RequiredRedeemerWitness>,
    /// Required datum witnesses
    pub required_datum_witnesses: Vec<RequiredDatumWitness>,
    /// Required unknown script witnesses
    pub required_unknown_script_witnesses: Vec<RequiredScriptWitness>,
    /// Key hashes of the provided VKey witnesses
    pub provided_vkey_witnesses: Vec<Vec<u8>>,
    /// Native script hashes and their sources
    pub native_script_sources: Vec<(Vec<u8>, WitnessSource)>,
    pub native_scripts_signature_candidates: Vec<Vec<u8>>,
    /// Plutus script hashes and their sources
    pub plutus_script_sources: Vec<(Vec<u8>, WitnessSource)>,
    /// Datum hashes and their sources
    pub datum_sources: Vec<(Vec<u8>, WitnessSource)>,
    pub output_datums_hashes: Vec<Vec<u8>>,
    /// Provided redeemers by (tag, index)
    pub provided_redeemers: Vec<(RedeemerTag, u32)>,
    /// Validation context
    pub validation_input_context: &'a ValidationInputContext,
    /// The transaction the witnesses belong to
    pub transaction: &'a WitnessTxFacts,
}

// ---------------------------------------------------------------------------
// Requirements as plain values
// ---------------------------------------------------------------------------

/// A witness that one part of the transaction asks for: a key signature, or
/// a script (with the redeemer tag and datum hash it would need as a Plutus
/// script).
pub enum RequirementEvent {
    VKey(Seq<u8>, Seq<char>, u32),
    Script(Seq<u8>, Seq<char>, u32, Option<RedeemerTag>, Option<Seq<u8>>),
}

/// The required witnesses, as plain values.
pub struct RequirementsView {
    pub vkeys: Seq<(Seq<u8>, Seq<char>, u32)>,
    pub natives: Seq<(Seq<u8>, Seq<char>, u32)>,
    pub plutus: Seq<(Seq<u8>, Seq<char>, u32)>,
    pub redeemers: Seq<(RedeemerTag, u32, Seq<char>, u32)>,
    pub datums: Seq<(Seq<u8>, Seq<char>, u32)>,
    pub unknown: Seq<(Seq<u8>, Seq<char>, u32)>,
}

/// The hashes and sources as plain values.
pub open spec fn entries_view(s: Seq<(Vec<u8>, WitnessSource)>) -> Seq<(Seq<u8>, WitnessSource)> {
    s.map_values(|e: (Vec<u8>, WitnessSource)| (e.0@, e.1))
}

/// The hashes that some entry provides.
pub open spec fn entry_keys(s: Seq<(Seq<u8>, WitnessSource)>) -> Set<Seq<u8>> {
    Set::new(|k: Seq<u8>| exists|i: int| 0 <= i < s.len() && (#[trigger] s[i]).0 == k)
}

/// A requirement recorded: a key signature; a script known as native; a
/// script known as Plutus, with its redeemer and datum when asked; or a
/// script of unknown kind.
pub open spec fn apply_event(
    st: RequirementsView,
    e: RequirementEvent,
    natives: Set<Seq<u8>>,
    plutus: Set<Seq<u8>>,
) -> RequirementsView {
    match e {
        RequirementEvent::VKey(k, loc, idx) => RequirementsView { vkeys: st.vkeys.push((k, loc, idx)), ..st },
        RequirementEvent::Script(h, loc, idx, tag, datum) => if natives.contains(h) {
            RequirementsView { natives: st.natives.push((h, loc, idx)), ..st }
        } else if plutus.contains(h) {
            RequirementsView {
                plutus: st.plutus.push((h, loc, idx)),
                redeemers: match tag {
                    Some(t) => st.redeemers.push((t, idx, loc, idx)),
                    None => st.redeemers,
                },
                datums: match datum {
                    Some(d) => st.datums.push((d, loc, idx)),
                    None => st.datums,
                },
                ..st
            }
        } else {
            RequirementsView { unknown: st.unknown.push((h, loc, idx)), ..st }
        },
    }
}

/// The requirements recorded in turn.
pub open spec fn apply_all(
    st: RequirementsView,
    es: Seq<RequirementEvent>,
    natives: Set<Seq<u8>>,
    plutus: Set<Seq<u8>>,
) -> RequirementsView
    decreases es.len(),
{
    if es.len() == 0 {
        st
    } else {
        apply_event(apply_all(st, es.drop_last(), natives, plutus), es.last(), natives, plutus)
    }
}

pub proof fn lemma_apply_all_concat(
    st: RequirementsView,
    a: Seq<RequirementEvent>,
    b: Seq<RequirementEvent>,
    natives: Set<Seq<u8>>,
    plutus: Set<Seq<u8>>,
)
    ensures
        apply_all(st, a + b, natives, plutus) == apply_all(apply_all(st, a, natives, plutus), b, natives, plutus),
    decreases b.len(),
{
    if b.len() == 0 {
        assert(a + b =~= a);
    } else {
        assert((a + b).drop_last() =~= a + b.drop_last());
        lemma_apply_all_concat(st, a, b.drop_last(), natives, plutus);
    }
}

pub proof fn lemma_apply_all_push(
    st: RequirementsView,
    a: Seq<RequirementEvent>,
    e: RequirementEvent,
    natives: Set<Seq<u8>>,
    plutus: Set<Seq<u8>>,
)
    ensures
        apply_all(st, a.push(e), natives, plutus) == apply_event(apply_all(st, a, natives, plutus), e, natives, plutus),
{
    assert(a.push(e).drop_last() =~= a);
}

impl<'a> WitnessValidator<'a> {
    /// The required witnesses as plain values.
    pub open spec fn requirements(&self) -> RequirementsView {
        RequirementsView {
            vkeys: self.required_vkey_witnesses@.map_values(|w: RequiredVKeyWitness| w@),
            natives: self.required_native_script_witnesses@.map_values(|w: RequiredScriptWitness| w@),
            plutus: self.required_plutus_script_witnesses@.map_values(|w: RequiredScriptWitness| w@),
            redeemers: self.required_redeemer_witnesses@.map_values(|w: RequiredRedeemerWitness| w@),
            datums: self.required_datum_witnesses@.map_values(|w: RequiredDatumWitness| w@),
            unknown: self.required_unknown_script_witnesses@.map_values(|w: RequiredScriptWitness| w@),
        }
    }

    /// The hashes of the native scripts provided.
    pub open spec fn native_keys(&self) -> Set<Seq<u8>> {
        entry_keys(entries_view(self.native_script_sources@))
    }

    /// The hashes of the Plutus scripts provided.
    pub open spec fn plutus_keys(&self) -> Set<Seq<u8>> {
        entry_keys(entries_view(self.plutus_script_sources@))
    }

    /// Everything but the required witnesses is the same in both.
    pub open spec fn same_provided(&self, other: &Self) -> bool {
        &&& self.provided_vkey_witnesses == other.provided_vkey_witnesses
        &&& self.native_script_sources == other.native_script_sources
        &&& self.native_scripts_signature_candidates == other.native_scripts_signature_candidates
        &&& self.plutus_script_sources == other.plutus_script_sources
        &&& self.datum_sources == other.datum_sources
        &&& self.output_datums_hashes == other.output_datums_hashes
        &&& self.provided_redeemers == other.provided_redeemers
        &&& self.validation_input_context == other.validation_input_context
    }
}

// ---------------------------------------------------------------------------
// What each part of the transaction asks for
// ---------------------------------------------------------------------------

/// A key credential asks for a signature; a script credential for a script,
/// with the given redeemer tag.
pub open spec fn credential_event(c: LocalCredential, loc: Seq<char>, idx: u32, tag: RedeemerTag) -> RequirementEvent {
    match c {
        LocalCredential::KeyHash(h) => RequirementEvent::VKey(h@, loc, idx),
        LocalCredential::ScriptHash(h) => RequirementEvent::Script(h@, loc, idx, Some(tag), None),
    }
}

/// The datum hash written in hex in a UTxO, when it is a valid hash.
pub open spec fn datum_hash_reading(data_hash: Option<String>) -> Option<Seq<u8>> {
    match data_hash {
        Some(h) => if crate::text::is_hex_text(h@) && crate::text::hex_decode_spec(h@).len() == 32 {
            Some(crate::text::hex_decode_spec(h@))
        } else {
            None
        },
        None => None,
    }
}

/// What spending input `i` asks for: the signature or the script (with a
/// spending redeemer and the UTxO's datum) of its address's payment
/// credential, when the UTxO is known and its address readable.
pub open spec fn input_event(input: TxInput, i: int, utxos: Seq<UtxoInputContext>) -> Seq<RequirementEvent> {
    let loc = "transaction.body.inputs."@ + decimal(i as nat);
    match found_utxo(utxos, input.tx_hash@, input.output_index) {
        Some(u) => match address_reading(u.utxo.output.address@) {
            Ok(a) => match a.1 {
                Some(c) => if c.0 {
                    seq![
                        RequirementEvent::Script(
                            c.1,
                            loc,
                            i as u32,
                            Some(RedeemerTag::Spend),
                            datum_hash_reading(u.utxo.output.data_hash),
                        ),
                    ]
                } else {
                    seq![RequirementEvent::VKey(c.1, loc, i as u32)]
                },
                None => Seq::empty(),
            },
            Err(_) => Seq::empty(),
        },
        None => Seq::empty(),
    }
}

pub open spec fn input_events(inputs: Seq<TxInput>, utxos: Seq<UtxoInputContext>) -> Seq<RequirementEvent>
    decreases inputs.len(),
{
    if inputs.len() == 0 {
        Seq::empty()
    } else {
        input_events(inputs.drop_last(), utxos) + input_event(inputs.last(), inputs.len() - 1, utxos)
    }
}

/// What collateral input `i` asks for: the signature of its address's
/// payment key, when it has one.
pub open spec fn collateral_event(input: TxInput, i: int, utxos: Seq<UtxoInputContext>) -> Seq<RequirementEvent> {
    match found_utxo(utxos, input.tx_hash@, input.output_index) {
        Some(u) => match address_reading(u.utxo.output.address@) {
            Ok(a) => match a.1 {
                Some(c) => if !c.0 {
                    seq![RequirementEvent::VKey(c.1, "transaction.body.collateral."@ + decimal(i as nat), i as u32)]
                } else {
                    Seq::empty()
                },
                None => Seq::empty(),
            },
            Err(_) => Seq::empty(),
        },
        None => Seq::empty(),
    }
}

pub open spec fn collateral_events(inputs: Seq<TxInput>, utxos: Seq<UtxoInputContext>) -> Seq<RequirementEvent>
    decreases inputs.len(),
{
    if inputs.len() == 0 {
        Seq::empty()
    } else {
        collateral_events(inputs.drop_last(), utxos) + collateral_event(inputs.last(), inputs.len() - 1, utxos)
    }
}

pub open spec fn withdrawal_events(creds: Seq<LocalCredential>) -> Seq<RequirementEvent>
    decreases creds.len(),
{
    if creds.len() == 0 {
        Seq::empty()
    } else {
        let i = creds.len() - 1;
        withdrawal_events(creds.drop_last()).push(
            credential_event(creds.last(), "transaction.body.withdrawals."@ + decimal(i as nat), i as u32, RedeemerTag::Reward),
        )
    }
}

/// The signatures a pool registration asks for: the operator's, then each
/// owner's.
pub open spec fn pool_owner_events(owners: Seq<Vec<u8>>, loc: Seq<char>, index: u32) -> Seq<RequirementEvent>
    decreases owners.len(),
{
    if owners.len() == 0 {
        Seq::empty()
    } else {
        pool_owner_events(owners.drop_last(), loc, index).push(RequirementEvent::VKey(owners.last()@, loc, index))
    }
}

/// What certificate number `index` asks for.
pub open spec fn certificate_events(cert: TxCertificate, index: u32) -> Seq<RequirementEvent> {
    let loc = "transaction.body.certs."@ + decimal(index as nat);
    match cert {
        TxCertificate::StakeRegistration(c) => seq![credential_event(c, loc, index, RedeemerTag::Cert)],
        TxCertificate::StakeDeregistration(c) => seq![credential_event(c, loc, index, RedeemerTag::Cert)],
        TxCertificate::StakeDelegation(c) => seq![credential_event(c, loc, index, RedeemerTag::Cert)],
        TxCertificate::PoolRegistration { operator, owners } => seq![RequirementEvent::VKey(operator@, loc, index)]
            + pool_owner_events(owners@, loc, index),
        TxCertificate::PoolRetirement(k) => seq![RequirementEvent::VKey(k@, loc, index)],
        TxCertificate::DRepRegistration(c) => seq![credential_event(c, loc, index, RedeemerTag::Cert)],
        TxCertificate::DRepDeregistration(c) => seq![credential_event(c, loc, index, RedeemerTag::Cert)],
        TxCertificate::DRepUpdate(c) => seq![credential_event(c, loc, index, RedeemerTag::Cert)],
        TxCertificate::CommitteeHotAuth(c) => seq![credential_event(c, loc, index, RedeemerTag::Cert)],
        TxCertificate::CommitteeColdResign(c) => seq![credential_event(c, loc, index, RedeemerTag::Cert)],
        TxCertificate::StakeAndVoteDelegation(c) => seq![credential_event(c, loc, index, RedeemerTag::Cert)],
        TxCertificate::StakeRegistrationAndDelegation(c) => seq![credential_event(c, loc, index, RedeemerTag::Cert)],
        TxCertificate::StakeVoteRegistrationAndDelegation(c) => seq![
            credential_event(c, loc, index, RedeemerTag::Cert),
        ],
        TxCertificate::VoteDelegation(c) => seq![credential_event(c, loc, index, RedeemerTag::Cert)],
        TxCertificate::VoteRegistrationAndDelegation(c) => seq![credential_event(c, loc, index, RedeemerTag::Cert)],
        TxCertificate::GenesisKeyDelegation => Seq::empty(),
        TxCertificate::MoveInstantaneousRewardsCert => Seq::empty(),
    }
}

pub open spec fn certificates_events(certs: Seq<TxCertificate>) -> Seq<RequirementEvent>
    decreases certs.len(),
{
    if certs.len() == 0 {
        Seq::empty()
    } else {
        certificates_events(certs.drop_last()) + certificate_events(certs.last(), (certs.len() - 1) as u32)
    }
}

/// A parameter change with a guardrail script asks for that script.
pub open spec fn proposal_events(props: Seq<ProposalFacts>) -> Seq<RequirementEvent>
    decreases props.len(),
{
    if props.len() == 0 {
        Seq::empty()
    } else {
        let i = props.len() - 1;
        let p = props.last();
        proposal_events(props.drop_last()) + if p.action_type == GovernanceActionType::ParameterChangeAction
            && p.policy_hash is Some {
            seq![
                RequirementEvent::Script(
                    p.policy_hash->0@,
                    "transaction.body.voting_proposals."@ + decimal(i as nat),
                    i as u32,
                    Some(RedeemerTag::VotingProposal),
                    None,
                ),
            ]
        } else {
            Seq::empty()
        }
    }
}

/// What voter number `i` asks for.
pub open spec fn voter_event(v: Voter, i: int) -> RequirementEvent {
    let loc = "transaction.body.voting_procedures."@ + decimal(i as nat);
    match v {
        Voter::ConstitutionalCommitteeHotKeyHash(h) => RequirementEvent::VKey(h@, loc, i as u32),
        Voter::ConstitutionalCommitteeHotScriptHash(h) => RequirementEvent::Script(
            h@,
            loc,
            i as u32,
            Some(RedeemerTag::Vote),
            None,
        ),
        Voter::DRepKeyHash(h) => RequirementEvent::VKey(h@, loc, i as u32),
        Voter::DRepScriptHash(h) => RequirementEvent::Script(h@, loc, i as u32, Some(RedeemerTag::Vote), None),
        Voter::StakingPoolKeyHash(h) => RequirementEvent::VKey(h@, loc, i as u32),
    }
}

pub open spec fn vote_events(voters: Seq<Voter>) -> Seq<RequirementEvent>
    decreases voters.len(),
{
    if voters.len() == 0 {
        Seq::empty()
    } else {
        vote_events(voters.drop_last()).push(voter_event(voters.last(), voters.len() - 1))
    }
}

pub open spec fn mint_events(policies: Seq<Vec<u8>>) -> Seq<RequirementEvent>
    decreases policies.len(),
{
    if policies.len() == 0 {
        Seq::empty()
    } else {
        let i = policies.len() - 1;
        mint_events(policies.drop_last()).push(
            RequirementEvent::Script(
                policies.last()@,
                "transaction.body.mint."@ + decimal(i as nat),
                i as u32,
                Some(RedeemerTag::Mint),
                None,
            ),
        )
    }
}

pub open spec fn signer_events(signers: Seq<Vec<u8>>) -> Seq<RequirementEvent>
    decreases signers.len(),
{
    if signers.len() == 0 {
        Seq::empty()
    } else {
        let i = signers.len() - 1;
        signer_events(signers.drop_last()).push(
            RequirementEvent::VKey(signers.last()@, "transaction.body.required_signers."@ + decimal(i as nat), i as u32),
        )
    }
}

/// Everything the transaction asks for, in the order of the rules: inputs,
/// collateral, withdrawals, certificates, proposals, votes, minting, and
/// required signers.
pub open spec fn all_events(tx: &WitnessTxFacts, utxos: Seq<UtxoInputContext>) -> Seq<RequirementEvent> {
    input_events(tx.inputs@, utxos) + collateral_events(tx.collateral@, utxos) + withdrawal_events(
        tx.withdrawal_credentials@,
    ) + certificates_events(tx.certificates@) + proposal_events(tx.voting_proposals@) + vote_events(tx.voters@)
        + mint_events(tx.mint_policy_ids@) + signer_events(tx.required_signers@)
}

// ---------------------------------------------------------------------------
// Recording requirements
// ---------------------------------------------------------------------------

/// Whether some entry provides `key`.
pub fn entries_contain(entries: &Vec<(Vec<u8>, WitnessSource)>, key: &Vec<u8>) -> (r: bool)
    ensures
        r == entry_keys(entries_view(entries@)).contains(key@),
{
    let ghost v = entries_view(entries@);
    let n = entries.len();
    let mut i: usize = 0;
    while i < n
        invariant
            n == entries@.len(),
            v == entries_view(entries@),
            i <= n,
            forall|j: int| 0 <= j < i ==> v[j].0 != key@,
        decreases n - i,
    {
        if bytes_equal(entries[i].0.as_slice(), key.as_slice()) {
            assert(v[i as int].0 == key@);
            return true;
        }
        i += 1;
    }
    false
}

/// The datum hash written in hex, when it is 32 bytes of valid hex.
fn read_datum_hash(data_hash: &Option<String>) -> (r: Option<Vec<u8>>)
    ensures
        match r {
            Some(h) => datum_hash_reading(*data_hash) == Some(h@),
            None => datum_hash_reading(*data_hash) is None,
        },
{
    match data_hash {
        Some(h) => match crate::text::decode_hex(h.as_str()) {
            Ok(bytes) => if bytes.len() == 32 {
                Some(bytes)
            } else {
                None
            },
            Err(_) => None,
        },
        None => None,
    }
}

impl<'a> WitnessValidator<'a> {
    /// The kind of a script, by where its hash is provided: native first,
    /// then Plutus.
    fn determine_script_type(&self, script_hash: &Vec<u8>) -> (r: Option<WitnessRequirement>)
        ensures
            match r {
                Some(WitnessRequirement::NativeScript(h)) => h@ == script_hash@ && self.native_keys().contains(
                    script_hash@,
                ),
                Some(WitnessRequirement::PlutusScript(h)) => h@ == script_hash@ && !self.native_keys().contains(
                    script_hash@,
                ) && self.plutus_keys().contains(script_hash@),
                Some(_) => false,
                None => !self.native_keys().contains(script_hash@) && !self.plutus_keys().contains(script_hash@),
            },
    {
        if entries_contain(&self.native_script_sources, script_hash) {
            Some(WitnessRequirement::NativeScript(copy_bytes(script_hash)))
        } else if entries_contain(&self.plutus_script_sources, script_hash) {
            Some(WitnessRequirement::PlutusScript(copy_bytes(script_hash)))
        } else {
            None
        }
    }

    /// Records a required signature.
    fn add_vkey_requirement(&mut self, key_hash: Vec<u8>, location: String, entity_index: u32)
        ensures
            final(self).same_provided(old(self)),
            final(self).requirements() == apply_event(
                old(self).requirements(),
                RequirementEvent::VKey(key_hash@, location@, entity_index),
                old(self).native_keys(),
                old(self).plutus_keys(),
            ),
    {
        let ghost before = self.requirements();
        let w = RequiredVKeyWitness { key_hash, location, entity_index };
        self.required_vkey_witnesses.push(w);
        assert(self.requirements().vkeys =~= before.vkeys.push(w@));
    }

    /// Records what a script asks for: as a native script, or as a Plutus
    /// script with its redeemer and datum when given, or as a script of
    /// unknown kind.
    fn add_script_witness_requirement(
        &mut self,
        script_hash: Vec<u8>,
        location: String,
        entity_index: u32,
        redeemer_tag: Option<RedeemerTag>,
        datum_hash: Option<Vec<u8>>,
    )
        ensures
            final(self).same_provided(old(self)),
            final(self).requirements() == apply_event(
                old(self).requirements(),
                RequirementEvent::Script(
                    script_hash@,
                    location@,
                    entity_index,
                    redeemer_tag,
                    match datum_hash {
                        Some(d) => Some(d@),
                        None => None,
                    },
                ),
                old(self).native_keys(),
                old(self).plutus_keys(),
            ),
    {
        let ghost before = self.requirements();
        if let Some(script_type) = self.determine_script_type(&script_hash) {
            match script_type {
                WitnessRequirement::PlutusScript(_) => {
                    let w = RequiredScriptWitness {
                        script_hash,
                        location: location.clone(),
                        entity_index,
                    };
                    self.required_plutus_script_witnesses.push(w);
                    if let Some(tag) = redeemer_tag {
                        let rw = RequiredRedeemerWitness {
                            tag,
                            index: entity_index,
                            location: location.clone(),
                            entity_index,
                        };
                        self.required_redeemer_witnesses.push(rw);
                    }
                    if let Some(datum) = datum_hash {
                        let dw = RequiredDatumWitness { datum_hash: datum, location, entity_index };
                        self.required_datum_witnesses.push(dw);
                    }
                    assert(self.requirements().plutus =~= before.plutus.push(w@));
                    assert(self.requirements().redeemers =~= match redeemer_tag {
                        Some(t) => before.redeemers.push((t, entity_index, w@.1, entity_index)),
                        None => before.redeemers,
                    });
                    assert(self.requirements().datums =~= match datum_hash {
                        Some(d) => before.datums.push((d@, w@.1, entity_index)),
                        None => before.datums,
                    });
                },
                WitnessRequirement::NativeScript(_) => {
                    let w = RequiredScriptWitness { script_hash, location, entity_index };
                    self.required_native_script_witnesses.push(w);
                    assert(self.requirements().natives =~= before.natives.push(w@));
                },
                _ => {},
            }
        } else {
            let w = RequiredScriptWitness { script_hash, location, entity_index };
            self.required_unknown_script_witnesses.push(w);
            assert(self.requirements().unknown =~= before.unknown.push(w@));
        }
    }

    /// Records what a credential asks for: a signature, or a script with
    /// the given redeemer tag.
    fn add_credential_requirement(
        &mut self,
        credential: &LocalCredential,
        location: String,
        index: u32,
        tag: RedeemerTag,
    )
        ensures
            final(self).same_provided(old(self)),
            final(self).requirements() == apply_event(
                old(self).requirements(),
                credential_event(*credential, location@, index, tag),
                old(self).native_keys(),
                old(self).plutus_keys(),
            ),
    {
        match credential {
            LocalCredential::KeyHash(key_hash) => self.add_vkey_requirement(copy_bytes(key_hash), location, index),
            LocalCredential::ScriptHash(script_hash) => self.add_script_witness_requirement(
                copy_bytes(script_hash),
                location,
                index,
                Some(tag),
                None,
            ),
        }
    }

    /// What a certificate's credential asks for (a certificate script needs
    /// a certificate redeemer).
    fn add_certificate_credential_witness(&mut self, credential: &LocalCredential, location: String, index: u32)
        ensures
            final(self).same_provided(old(self)),
            final(self).requirements() == apply_event(
                old(self).requirements(),
                credential_event(*credential, location@, index, RedeemerTag::Cert),
                old(self).native_keys(),
                old(self).plutus_keys(),
            ),
    {
        self.add_credential_requirement(credential, location, index, RedeemerTag::Cert)
    }
}

/// Applying no event leaves the requirements as they are.
pub proof fn lemma_apply_none(st: RequirementsView, natives: Set<Seq<u8>>, plutus: Set<Seq<u8>>)
    ensures
        apply_all(st, Seq::empty(), natives, plutus) == st,
{
}

/// Applying one event is applying that event.
pub proof fn lemma_apply_single(st: RequirementsView, e: RequirementEvent, natives: Set<Seq<u8>>, plutus: Set<Seq<u8>>)
    ensures
        apply_all(st, seq![e], natives, plutus) == apply_event(st, e, natives, plutus),
        apply_all(st, Seq::empty(), natives, plutus) == st,
{
    reveal_with_fuel(apply_all, 2);
    assert(seq![e].drop_last() =~= Seq::<RequirementEvent>::empty());
    assert(seq![e].last() == e);
}

/// `prefix` followed by the decimal writing of `i`.
fn location_at(prefix: &str, i: usize) -> (r: String)
    ensures
        r@ == prefix@ + decimal(i as nat),
{
    indexed_location(prefix, i as u64)
}

impl<'a> WitnessValidator<'a> {
    /// What the spending inputs ask for.
    fn collect_input_witnesses(&mut self, tx: &WitnessTxFacts)
        ensures
            final(self).same_provided(old(self)),
            final(self).requirements() == apply_all(
                old(self).requirements(),
                input_events(tx.inputs@, old(self).validation_input_context.utxo_set@),
                old(self).native_keys(),
                old(self).plutus_keys(),
            ),
    {
        let ctx = self.validation_input_context;
        let ghost orig = *self;
        let ghost req0 = self.requirements();
        let ghost nk = self.native_keys();
        let ghost pk = self.plutus_keys();
        let n = tx.inputs.len();
        let mut i: usize = 0;
        proof {
            lemma_apply_none(req0, nk, pk);
            assert(tx.inputs@.take(0) =~= Seq::<TxInput>::empty());
        }
        while i < n
            invariant
                n == tx.inputs@.len(),
                i <= n,
                self.same_provided(&orig),
                ctx == orig.validation_input_context,
                nk == orig.native_keys(),
                pk == orig.plutus_keys(),
                self.requirements() == apply_all(req0, input_events(tx.inputs@.take(i as int), ctx.utxo_set@), nk, pk),
            decreases n - i,
        {
            let ghost prev = input_events(tx.inputs@.take(i as int), ctx.utxo_set@);
            let ghost ev = input_event(tx.inputs@[i as int], i as int, ctx.utxo_set@);
            proof {
                assert(tx.inputs@.take(i + 1).drop_last() =~= tx.inputs@.take(i as int));
                lemma_apply_all_concat(req0, prev, ev, nk, pk);
            }
            let ghost r_i = self.requirements();
            let input = &tx.inputs[i];
            #[verifier::truncate]
            let entity_index = i as u32;
            if let Some(utxo) = ctx.find_utxo(input.tx_hash.clone(), input.output_index) {
                if let Ok(address) = string_to_csl_address(&utxo.utxo.output.address) {
                    if let Some(payment_cred) = &address.payment_cred {
                        match payment_cred {
                            LocalCredential::KeyHash(key_hash) => {
                                let ghost e = RequirementEvent::VKey(
                                    key_hash@,
                                    "transaction.body.inputs."@ + decimal(i as nat),
                                    entity_index,
                                );
                                self.add_vkey_requirement(
                                    copy_bytes(key_hash),
                                    location_at("transaction.body.inputs.", i),
                                    entity_index,
                                );
                                proof {
                                    assert(ev == seq![e]);
                                    lemma_apply_single(r_i, e, nk, pk);
                                }
                            },
                            LocalCredential::ScriptHash(script_hash) => {
                                let datum_hash = read_datum_hash(&utxo.utxo.output.data_hash);
                                let ghost e = RequirementEvent::Script(
                                    script_hash@,
                                    "transaction.body.inputs."@ + decimal(i as nat),
                                    entity_index,
                                    Some(RedeemerTag::Spend),
                                    datum_hash_reading(utxo.utxo.output.data_hash),
                                );
                                self.add_script_witness_requirement(
                                    copy_bytes(script_hash),
                                    location_at("transaction.body.inputs.", i),
                                    entity_index,
                                    Some(RedeemerTag::Spend),
                                    datum_hash,
                                );
                                proof {
                                    assert(ev == seq![e]);
                                    lemma_apply_single(r_i, e, nk, pk);
                                }
                            },
                        }
                    } else {
                        proof { lemma_apply_none(r_i, nk, pk); }
                    }
                } else {
                    proof { lemma_apply_none(r_i, nk, pk); }
                }
            } else {
                proof { lemma_apply_none(r_i, nk, pk); }
            }
            i += 1;
        }
        assert(tx.inputs@.take(n as int) =~= tx.inputs@);
    }

    /// What the collateral inputs ask for.
    fn collect_collateral_witnesses(&mut self, tx: &WitnessTxFacts)
        ensures
            final(self).same_provided(old(self)),
            final(self).requirements() == apply_all(
                old(self).requirements(),
                collateral_events(tx.collateral@, old(self).validation_input_context.utxo_set@),
                old(self).native_keys(),
                old(self).plutus_keys(),
            ),
    {
        let ctx = self.validation_input_context;
        let ghost orig = *self;
        let ghost req0 = self.requirements();
        let ghost nk = self.native_keys();
        let ghost pk = self.plutus_keys();
        let n = tx.collateral.len();
        let mut i: usize = 0;
        proof {
            lemma_apply_none(req0, nk, pk);
            assert(tx.collateral@.take(0) =~= Seq::<TxInput>::empty());
        }
        while i < n
            invariant
                n == tx.collateral@.len(),
                i <= n,
                self.same_provided(&orig),
                ctx == orig.validation_input_context,
                nk == orig.native_keys(),
                pk == orig.plutus_keys(),
                self.requirements() == apply_all(
                    req0,
                    collateral_events(tx.collateral@.take(i as int), ctx.utxo_set@),
                    nk,
                    pk,
                ),
            decreases n - i,
        {
            let ghost prev = collateral_events(tx.collateral@.take(i as int), ctx.utxo_set@);
            let ghost ev = collateral_event(tx.collateral@[i as int], i as int, ctx.utxo_set@);
            proof {
                assert(tx.collateral@.take(i + 1).drop_last() =~= tx.collateral@.take(i as int));
                lemma_apply_all_concat(req0, prev, ev, nk, pk);
            }
            let ghost r_i = self.requirements();
            let input = &tx.collateral[i];
            #[verifier::truncate]
            let entity_index = i as u32;
            let mut recorded = false;
            if let Some(utxo) = ctx.find_utxo(input.tx_hash.clone(), input.output_index) {
                if let Ok(address) = string_to_csl_address(&utxo.utxo.output.address) {
                    if let Some(LocalCredential::KeyHash(key_hash)) = &address.payment_cred {
                        let ghost e = RequirementEvent::VKey(
                            key_hash@,
                            "transaction.body.collateral."@ + decimal(i as nat),
                            entity_index,
                        );
                        self.add_vkey_requirement(
                            copy_bytes(key_hash),
                            location_at("transaction.body.collateral.", i),
                            entity_index,
                        );
                        recorded = true;
                        proof {
                            assert(ev == seq![e]);
                            lemma_apply_single(r_i, e, nk, pk);
                        }
                    }
                }
            }
            if !recorded {
                proof {
                    assert(ev == Seq::<RequirementEvent>::empty());
                    lemma_apply_none(r_i, nk, pk);
                }
            }
            i += 1;
        }
        assert(tx.collateral@.take(n as int) =~= tx.collateral@);
    }

    /// What the withdrawals ask for: the reward credential's signature or
    /// script.
    fn collect_withdrawal_witnesses(&mut self, tx: &WitnessTxFacts)
        ensures
            final(self).same_provided(old(self)),
            final(self).requirements() == apply_all(
                old(self).requirements(),
                withdrawal_events(tx.withdrawal_credentials@),
                old(self).native_keys(),
                old(self).plutus_keys(),
            ),
    {
        let ghost orig = *self;
        let ghost req0 = self.requirements();
        let ghost nk = self.native_keys();
        let ghost pk = self.plutus_keys();
        let n = tx.withdrawal_credentials.len();
        let mut i: usize = 0;
        proof {
            lemma_apply_none(req0, nk, pk);
            assert(tx.withdrawal_credentials@.take(0) =~= Seq::<LocalCredential>::empty());
        }
        while i < n
            invariant
                n == tx.withdrawal_credentials@.len(),
                i <= n,
                self.same_provided(&orig),
                nk == orig.native_keys(),
                pk == orig.plutus_keys(),
                self.requirements() == apply_all(req0, withdrawal_events(tx.withdrawal_credentials@.take(i as int)), nk, pk),
            decreases n - i,
        {
            proof {
                assert(tx.withdrawal_credentials@.take(i + 1).drop_last() =~= tx.withdrawal_credentials@.take(i as int));
                lemma_apply_all_push(
                    req0,
                    withdrawal_events(tx.withdrawal_credentials@.take(i as int)),
                    credential_event(
                        tx.withdrawal_credentials@[i as int],
                        "transaction.body.withdrawals."@ + decimal(i as nat),
                        i as u32,
                        RedeemerTag::Reward,
                    ),
                    nk,
                    pk,
                );
            }
            #[verifier::truncate]
            let entity_index = i as u32;
            self.add_credential_requirement(
                &tx.withdrawal_credentials[i],
                location_at("transaction.body.withdrawals.", i),
                entity_index,
                RedeemerTag::Reward,
            );
            i += 1;
        }
        assert(tx.withdrawal_credentials@.take(n as int) =~= tx.withdrawal_credentials@);
    }

    /// What one certificate asks for.
    fn collect_certificate_witness(&mut self, cert: &TxCertificate, index: u32)
        ensures
            final(self).same_provided(old(self)),
            final(self).requirements() == apply_all(
                old(self).requirements(),
                certificate_events(*cert, index),
                old(self).native_keys(),
                old(self).plutus_keys(),
            ),
    {
        let ghost r0 = self.requirements();
        let ghost nk = self.native_keys();
        let ghost pk = self.plutus_keys();
        let ghost loc = "transaction.body.certs."@ + decimal(index as nat);
        proof {
            lemma_apply_none(r0, nk, pk);
        }
        match cert {
            TxCertificate::StakeRegistration(c) | TxCertificate::StakeDeregistration(c)
            | TxCertificate::StakeDelegation(c) | TxCertificate::DRepRegistration(c)
            | TxCertificate::DRepDeregistration(c) | TxCertificate::DRepUpdate(c)
            | TxCertificate::CommitteeHotAuth(c) | TxCertificate::CommitteeColdResign(c)
            | TxCertificate::StakeAndVoteDelegation(c) | TxCertificate::StakeRegistrationAndDelegation(c)
            | TxCertificate::StakeVoteRegistrationAndDelegation(c) | TxCertificate::VoteDelegation(c)
            | TxCertificate::VoteRegistrationAndDelegation(c) => {
                self.add_certificate_credential_witness(
                    c,
                    indexed_location("transaction.body.certs.", index as u64),
                    index,
                );
                proof {
                    lemma_apply_single(r0, credential_event(*c, loc, index, RedeemerTag::Cert), nk, pk);
                }
            },
            TxCertificate::PoolRegistration { operator, owners } => {
                self.add_vkey_requirement(
                    copy_bytes(operator),
                    indexed_location("transaction.body.certs.", index as u64),
                    index,
                );
                let ghost orig = *self;
                let ghost r1 = self.requirements();
                proof {
                    lemma_apply_single(r0, RequirementEvent::VKey(operator@, loc, index), nk, pk);
                    lemma_apply_all_concat(r0, seq![RequirementEvent::VKey(operator@, loc, index)], pool_owner_events(owners@, loc, index), nk, pk);
                    assert(owners@.take(0) =~= Seq::<Vec<u8>>::empty());
                }
                let n = owners.len();
                let mut k: usize = 0;
                while k < n
                    invariant
                        n == owners@.len(),
                        k <= n,
                        loc == "transaction.body.certs."@ + decimal(index as nat),
                        self.same_provided(&orig),
                        nk == orig.native_keys(),
                        pk == orig.plutus_keys(),
                        self.requirements() == apply_all(r1, pool_owner_events(owners@.take(k as int), loc, index), nk, pk),
                    decreases n - k,
                {
                    proof {
                        assert(owners@.take(k + 1).drop_last() =~= owners@.take(k as int));
                        assert(owners@.take(k + 1).last() == owners@[k as int]);
                        lemma_apply_all_push(
                            r1,
                            pool_owner_events(owners@.take(k as int), loc, index),
                            RequirementEvent::VKey(owners@[k as int]@, loc, index),
                            nk,
                            pk,
                        );
                    }
                    let ghost before = self.requirements();
                    let owner_location = indexed_location("transaction.body.certs.", index as u64);
                    assert(owner_location@ == loc);
                    let owner = copy_bytes(&owners[k]);
                    self.add_vkey_requirement(owner, owner_location, index);
                    assert(self.requirements() == apply_event(before, RequirementEvent::VKey(owners@[k as int]@, loc, index), nk, pk));
                    assert(pool_owner_events(owners@.take(k + 1), loc, index) == pool_owner_events(owners@.take(k as int), loc, index).push(RequirementEvent::VKey(owners@[k as int]@, loc, index)));
                    k += 1;
                }
                assert(owners@.take(n as int) =~= owners@);
            },
            TxCertificate::PoolRetirement(pool_keyhash) => {
                self.add_vkey_requirement(
                    copy_bytes(pool_keyhash),
                    indexed_location("transaction.body.certs.", index as u64),
                    index,
                );
                proof {
                    lemma_apply_single(r0, RequirementEvent::VKey(pool_keyhash@, loc, index), nk, pk);
                }
            },
            TxCertificate::GenesisKeyDelegation => {},
            TxCertificate::MoveInstantaneousRewardsCert => {},
        }
    }

    /// What the certificates ask for.
    fn collect_certificate_witnesses(&mut self, tx: &WitnessTxFacts)
        ensures
            final(self).same_provided(old(self)),
            final(self).requirements() == apply_all(
                old(self).requirements(),
                certificates_events(tx.certificates@),
                old(self).native_keys(),
                old(self).plutus_keys(),
            ),
    {
        let ghost orig = *self;
        let ghost req0 = self.requirements();
        let ghost nk = self.native_keys();
        let ghost pk = self.plutus_keys();
        let n = tx.certificates.len();
        let mut i: usize = 0;
        proof {
            lemma_apply_none(req0, nk, pk);
            assert(tx.certificates@.take(0) =~= Seq::<TxCertificate>::empty());
        }
        while i < n
            invariant
                n == tx.certificates@.len(),
                i <= n,
                self.same_provided(&orig),
                nk == orig.native_keys(),
                pk == orig.plutus_keys(),
                self.requirements() == apply_all(req0, certificates_events(tx.certificates@.take(i as int)), nk, pk),
            decreases n - i,
        {
            #[verifier::truncate]
            let index = i as u32;
            proof {
                assert(tx.certificates@.take(i + 1).drop_last() =~= tx.certificates@.take(i as int));
                lemma_apply_all_concat(
                    req0,
                    certificates_events(tx.certificates@.take(i as int)),
                    certificate_events(tx.certificates@[i as int], index),
                    nk,
                    pk,
                );
            }
            self.collect_certificate_witness(&tx.certificates[i], index);
            i += 1;
        }
        assert(tx.certificates@.take(n as int) =~= tx.certificates@);
    }
}

impl<'a> WitnessValidator<'a> {
    /// What the governance proposals ask for: the guardrail script of a
    /// parameter change.
    fn collect_voting_proposal_witnesses(&mut self, tx: &WitnessTxFacts)
        ensures
            final(self).same_provided(old(self)),
            final(self).requirements() == apply_all(
                old(self).requirements(),
                proposal_events(tx.voting_proposals@),
                old(self).native_keys(),
                old(self).plutus_keys(),
            ),
    {
        let ghost orig = *self;
        let ghost req0 = self.requirements();
        let ghost nk = self.native_keys();
        let ghost pk = self.plutus_keys();
        let n = tx.voting_proposals.len();
        let mut i: usize = 0;
        proof {
            lemma_apply_none(req0, nk, pk);
            assert(tx.voting_proposals@.take(0) =~= Seq::<ProposalFacts>::empty());
        }
        while i < n
            invariant
                n == tx.voting_proposals@.len(),
                i <= n,
                self.same_provided(&orig),
                nk == orig.native_keys(),
                pk == orig.plutus_keys(),
                self.requirements() == apply_all(req0, proposal_events(tx.voting_proposals@.take(i as int)), nk, pk),
            decreases n - i,
        {
            let ghost prev = proposal_events(tx.voting_proposals@.take(i as int));
            let ghost p = tx.voting_proposals@[i as int];
            let ghost ev = if p.action_type == GovernanceActionType::ParameterChangeAction && p.policy_hash is Some {
                seq![
                    RequirementEvent::Script(
                        p.policy_hash->0@,
                        "transaction.body.voting_proposals."@ + decimal(i as nat),
                        i as u32,
                        Some(RedeemerTag::VotingProposal),
                        None,
                    ),
                ]
            } else {
                Seq::empty()
            };
            proof {
                assert(tx.voting_proposals@.take(i + 1).drop_last() =~= tx.voting_proposals@.take(i as int));
                assert(tx.voting_proposals@.take(i + 1).last() == p);
                lemma_apply_all_concat(req0, prev, ev, nk, pk);
            }
            let ghost r_i = self.requirements();
            let proposal = &tx.voting_proposals[i];
            #[verifier::truncate]
            let entity_index = i as u32;
            let mut recorded = false;
            if proposal.action_type == GovernanceActionType::ParameterChangeAction {
                if let Some(script_hash) = &proposal.policy_hash {
                    self.add_script_witness_requirement(
                        copy_bytes(script_hash),
                        location_at("transaction.body.voting_proposals.", i),
                        entity_index,
                        Some(RedeemerTag::VotingProposal),
                        None,
                    );
                    recorded = true;
                    proof {
                        lemma_apply_single(r_i, ev[0], nk, pk);
                        assert(ev == seq![ev[0]]);
                    }
                }
            }
            if !recorded {
                proof {
                    lemma_apply_none(r_i, nk, pk);
                }
            }
            i += 1;
        }
        assert(tx.voting_proposals@.take(n as int) =~= tx.voting_proposals@);
    }

    /// What the voters ask for: a signature or a script with a vote
    /// redeemer.
    fn collect_vote_witnesses(&mut self, tx: &WitnessTxFacts)
        ensures
            final(self).same_provided(old(self)),
            final(self).requirements() == apply_all(
                old(self).requirements(),
                vote_events(tx.voters@),
                old(self).native_keys(),
                old(self).plutus_keys(),
            ),
    {
        let ghost orig = *self;
        let ghost req0 = self.requirements();
        let ghost nk = self.native_keys();
        let ghost pk = self.plutus_keys();
        let n = tx.voters.len();
        let mut i: usize = 0;
        proof {
            lemma_apply_none(req0, nk, pk);
            assert(tx.voters@.take(0) =~= Seq::<Voter>::empty());
        }
        while i < n
            invariant
                n == tx.voters@.len(),
                i <= n,
                self.same_provided(&orig),
                nk == orig.native_keys(),
                pk == orig.plutus_keys(),
                self.requirements() == apply_all(req0, vote_events(tx.voters@.take(i as int)), nk, pk),
            decreases n - i,
        {
            proof {
                assert(tx.voters@.take(i + 1).drop_last() =~= tx.voters@.take(i as int));
                assert(tx.voters@.take(i + 1).last() == tx.voters@[i as int]);
                lemma_apply_all_push(
                    req0,
                    vote_events(tx.voters@.take(i as int)),
                    voter_event(tx.voters@[i as int], i as int),
                    nk,
                    pk,
                );
            }
            #[verifier::truncate]
            let entity_index = i as u32;
            let location = location_at("transaction.body.voting_procedures.", i);
            match &tx.voters[i] {
                Voter::ConstitutionalCommitteeHotKeyHash(h) => self.add_vkey_requirement(
                    copy_bytes(h),
                    location,
                    entity_index,
                ),
                Voter::ConstitutionalCommitteeHotScriptHash(h) => self.add_script_witness_requirement(
                    copy_bytes(h),
                    location,
                    entity_index,
                    Some(RedeemerTag::Vote),
                    None,
                ),
                Voter::DRepKeyHash(h) => self.add_vkey_requirement(copy_bytes(h), location, entity_index),
                Voter::DRepScriptHash(h) => self.add_script_witness_requirement(
                    copy_bytes(h),
                    location,
                    entity_index,
                    Some(RedeemerTag::Vote),
                    None,
                ),
                Voter::StakingPoolKeyHash(h) => self.add_vkey_requirement(copy_bytes(h), location, entity_index),
            }
            i += 1;
        }
        assert(tx.voters@.take(n as int) =~= tx.voters@);
    }

    /// What minting asks for: each policy's script, with a minting redeemer.
    fn collect_mint_witnesses(&mut self, tx: &WitnessTxFacts)
        ensures
            final(self).same_provided(old(self)),
            final(self).requirements() == apply_all(
                old(self).requirements(),
                mint_events(tx.mint_policy_ids@),
                old(self).native_keys(),
                old(self).plutus_keys(),
            ),
    {
        let ghost orig = *self;
        let ghost req0 = self.requirements();
        let ghost nk = self.native_keys();
        let ghost pk = self.plutus_keys();
        let n = tx.mint_policy_ids.len();
        let mut i: usize = 0;
        proof {
            lemma_apply_none(req0, nk, pk);
            assert(tx.mint_policy_ids@.take(0) =~= Seq::<Vec<u8>>::empty());
        }
        while i < n
            invariant
                n == tx.mint_policy_ids@.len(),
                i <= n,
                self.same_provided(&orig),
                nk == orig.native_keys(),
                pk == orig.plutus_keys(),
                self.requirements() == apply_all(req0, mint_events(tx.mint_policy_ids@.take(i as int)), nk, pk),
            decreases n - i,
        {
            proof {
                assert(tx.mint_policy_ids@.take(i + 1).drop_last() =~= tx.mint_policy_ids@.take(i as int));
                assert(tx.mint_policy_ids@.take(i + 1).last() == tx.mint_policy_ids@[i as int]);
                lemma_apply_all_push(
                    req0,
                    mint_events(tx.mint_policy_ids@.take(i as int)),
                    RequirementEvent::Script(
                        tx.mint_policy_ids@[i as int]@,
                        "transaction.body.mint."@ + decimal(i as nat),
                        i as u32,
                        Some(RedeemerTag::Mint),
                        None,
                    ),
                    nk,
                    pk,
                );
            }
            #[verifier::truncate]
            let entity_index = i as u32;
            self.add_script_witness_requirement(
                copy_bytes(&tx.mint_policy_ids[i]),
                location_at("transaction.body.mint.", i),
                entity_index,
                Some(RedeemerTag::Mint),
                None,
            );
            i += 1;
        }
        assert(tx.mint_policy_ids@.take(n as int) =~= tx.mint_policy_ids@);
    }

    /// What the required signers ask for: their signatures.
    fn collect_required_signer_witnesses(&mut self, tx: &WitnessTxFacts)
        ensures
            final(self).same_provided(old(self)),
            final(self).requirements() == apply_all(
                old(self).requirements(),
                signer_events(tx.required_signers@),
                old(self).native_keys(),
                old(self).plutus_keys(),
            ),
    {
        let ghost orig = *self;
        let ghost req0 = self.requirements();
        let ghost nk = self.native_keys();
        let ghost pk = self.plutus_keys();
        let n = tx.required_signers.len();
        let mut i: usize = 0;
        proof {
            lemma_apply_none(req0, nk, pk);
            assert(tx.required_signers@.take(0) =~= Seq::<Vec<u8>>::empty());
        }
        while i < n
            invariant
                n == tx.required_signers@.len(),
                i <= n,
                self.same_provided(&orig),
                nk == orig.native_keys(),
                pk == orig.plutus_keys(),
                self.requirements() == apply_all(req0, signer_events(tx.required_signers@.take(i as int)), nk, pk),
            decreases n - i,
        {
            proof {
                assert(tx.required_signers@.take(i + 1).drop_last() =~= tx.required_signers@.take(i as int));
                assert(tx.required_signers@.take(i + 1).last() == tx.required_signers@[i as int]);
                lemma_apply_all_push(
                    req0,
                    signer_events(tx.required_signers@.take(i as int)),
                    RequirementEvent::VKey(
                        tx.required_signers@[i as int]@,
                        "transaction.body.required_signers."@ + decimal(i as nat),
                        i as u32,
                    ),
                    nk,
                    pk,
                );
            }
            #[verifier::truncate]
            let entity_index = i as u32;
            self.add_vkey_requirement(
                copy_bytes(&tx.required_signers[i]),
                location_at("transaction.body.required_signers.", i),
                entity_index,
            );
            i += 1;
        }
        assert(tx.required_signers@.take(n as int) =~= tx.required_signers@);
    }

    /// Everything the transaction asks for, in the order of the rules.
    fn collect_required_witnesses(&mut self, tx: &WitnessTxFacts)
        ensures
            final(self).same_provided(old(self)),
            final(self).requirements() == apply_all(
                old(self).requirements(),
                all_events(tx, old(self).validation_input_context.utxo_set@),
                old(self).native_keys(),
                old(self).plutus_keys(),
            ),
    {
        let ghost r0 = self.requirements();
        let ghost nk = self.native_keys();
        let ghost pk = self.plutus_keys();
        let ghost u = self.validation_input_context.utxo_set@;
        let ghost e1 = input_events(tx.inputs@, u);
        let ghost e2 = collateral_events(tx.collateral@, u);
        let ghost e3 = withdrawal_events(tx.withdrawal_credentials@);
        let ghost e4 = certificates_events(tx.certificates@);
        let ghost e5 = proposal_events(tx.voting_proposals@);
        let ghost e6 = vote_events(tx.voters@);
        let ghost e7 = mint_events(tx.mint_policy_ids@);
        let ghost e8 = signer_events(tx.required_signers@);
        self.collect_input_witnesses(tx);
        self.collect_collateral_witnesses(tx);
        self.collect_withdrawal_witnesses(tx);
        self.collect_certificate_witnesses(tx);
        self.collect_voting_proposal_witnesses(tx);
        self.collect_vote_witnesses(tx);
        self.collect_mint_witnesses(tx);
        self.collect_required_signer_witnesses(tx);
        proof {
            lemma_apply_all_concat(r0, e1, e2, nk, pk);
            lemma_apply_all_concat(r0, e1 + e2, e3, nk, pk);
            lemma_apply_all_concat(r0, e1 + e2 + e3, e4, nk, pk);
            lemma_apply_all_concat(r0, e1 + e2 + e3 + e4, e5, nk, pk);
            lemma_apply_all_concat(r0, e1 + e2 + e3 + e4 + e5, e6, nk, pk);
            lemma_apply_all_concat(r0, e1 + e2 + e3 + e4 + e5 + e6, e7, nk, pk);
            lemma_apply_all_concat(r0, e1 + e2 + e3 + e4 + e5 + e6 + e7, e8, nk, pk);
        }
    }
}

// ---------------------------------------------------------------------------
// Checking requirements against what is provided
// ---------------------------------------------------------------------------

/// The debug writing of a redeemer tag.
pub open spec fn redeemer_tag_text(t: RedeemerTag) -> Seq<char> {
    match t {
        RedeemerTag::Spend => "RedeemerTag(Spend)"@,
        RedeemerTag::Mint => "RedeemerTag(Mint)"@,
        RedeemerTag::Cert => "RedeemerTag(Cert)"@,
        RedeemerTag::Reward => "RedeemerTag(Reward)"@,
        RedeemerTag::Vote => "RedeemerTag(Vote)"@,
        RedeemerTag::VotingProposal => "RedeemerTag(VotingProposal)"@,
    }
}

/// Writes a redeemer tag as its debug text.
pub fn redeemer_tag_to_string(t: RedeemerTag) -> (r: String)
    ensures
        r@ == redeemer_tag_text(t),
{
    match t {
        RedeemerTag::Spend => string_of("RedeemerTag(Spend)"),
        RedeemerTag::Mint => string_of("RedeemerTag(Mint)"),
        RedeemerTag::Cert => string_of("RedeemerTag(Cert)"),
        RedeemerTag::Reward => string_of("RedeemerTag(Reward)"),
        RedeemerTag::Vote => string_of("RedeemerTag(Vote)"),
        RedeemerTag::VotingProposal => string_of("RedeemerTag(VotingProposal)"),
    }
}

/// One error per required signature whose key did not sign.
pub open spec fn key_errors(req: Seq<(Seq<u8>, Seq<char>, u32)>, provided: Seq<Seq<u8>>) -> Seq<
    (Phase1ErrorView, Seq<Seq<char>>),
>
    decreases req.len(),
{
    if req.len() == 0 {
        Seq::empty()
    } else {
        let r = req.last();
        key_errors(req.drop_last(), provided) + if provided.contains(r.0) {
            Seq::empty()
        } else {
            seq![(Phase1ErrorView::MissingVKeyWitnesses { missing_key_hash: hex_encode_spec(r.0) }, seq![r.1])]
        }
    }
}

/// One error per required hash that is not provided.
pub open spec fn hash_errors(req: Seq<(Seq<u8>, Seq<char>, u32)>, present: Set<Seq<u8>>) -> Seq<
    (Phase1ErrorView, Seq<Seq<char>>),
>
    decreases req.len(),
{
    if req.len() == 0 {
        Seq::empty()
    } else {
        let r = req.last();
        hash_errors(req.drop_last(), present) + if present.contains(r.0) {
            Seq::empty()
        } else {
            seq![(Phase1ErrorView::MissingScriptWitnesses { missing_script_hash: hex_encode_spec(r.0) }, seq![r.1])]
        }
    }
}

/// One error per required datum that is not provided.
pub open spec fn datum_errors(req: Seq<(Seq<u8>, Seq<char>, u32)>, present: Set<Seq<u8>>) -> Seq<
    (Phase1ErrorView, Seq<Seq<char>>),
>
    decreases req.len(),
{
    if req.len() == 0 {
        Seq::empty()
    } else {
        let r = req.last();
        datum_errors(req.drop_last(), present) + if present.contains(r.0) {
            Seq::empty()
        } else {
            seq![(Phase1ErrorView::MissingDatum { datum_hash: hex_encode_spec(r.0) }, seq![r.1])]
        }
    }
}

/// The native script provided with hash `h`: from the witness set, else
/// from a script reference the transaction reads.
pub open spec fn provided_native_script(tx: &WitnessTxFacts, h: Seq<u8>) -> Option<NativeScript> {
    match script_with_hash(tx.native_scripts@, h) {
        Some(s) => Some(s),
        None => script_with_hash(tx.reference_native_scripts@, h),
    }
}

/// One error per required native script that is provided and not satisfied
/// by the key witnesses at the slot.
pub open spec fn native_script_errors(
    req: Seq<(Seq<u8>, Seq<char>, u32)>,
    tx: &WitnessTxFacts,
    signers: Seq<Seq<u8>>,
    slot: u64,
) -> Seq<(Phase1ErrorView, Seq<Seq<char>>)>
    decreases req.len(),
{
    if req.len() == 0 {
        Seq::empty()
    } else {
        let r = req.last();
        native_script_errors(req.drop_last(), tx, signers, slot) + match provided_native_script(tx, r.0) {
            Some(script) => if satisfied(script, signers, slot) {
                Seq::empty()
            } else {
                seq![(Phase1ErrorView::NativeScriptIsUnsuccessful { native_script_hash: hex_encode_spec(r.0) }, seq![r.1])]
            },
            None => Seq::empty(),
        }
    }
}

/// The location of the `i`-th key witness.
pub open spec fn vkey_location(i: int) -> Seq<char> {
    "transaction.witness_set.vkeys."@ + decimal(i as nat)
}

/// For the first `n` key witnesses: an error when the signature does not
/// verify over the transaction hash, and an error when its key hash is
/// neither required nor named by a required native script.
pub open spec fn signature_errors(
    keys: Seq<Vec<u8>>,
    signatures: Seq<Vec<u8>>,
    key_hashes: Seq<Seq<u8>>,
    tx_hash: Seq<u8>,
    required: Seq<(Seq<u8>, Seq<char>, u32)>,
    candidates: Seq<Seq<u8>>,
    n: int,
) -> Seq<(Phase1ErrorView, Seq<Seq<char>>)>
    decreases n,
{
    if n <= 0 {
        Seq::empty()
    } else {
        let i = n - 1;
        signature_errors(keys, signatures, key_hashes, tx_hash, required, candidates, n - 1) + (if ed25519_verifies(
            keys[i]@,
            tx_hash,
            signatures[i]@,
        ) {
            Seq::empty()
        } else {
            seq![
                (
                    Phase1ErrorView::InvalidSignature { invalid_signature: hex_encode_spec(signatures[i]@) },
                    seq![vkey_location(i)],
                ),
            ]
        }) + (if required_hashes(required).contains(key_hashes[i]) || candidates.contains(key_hashes[i]) {
            Seq::empty()
        } else {
            seq![
                (
                    Phase1ErrorView::ExtraneousSignature { extraneous_signature: hex_encode_spec(signatures[i]@) },
                    seq![vkey_location(i)],
                ),
            ]
        })
    }
}

/// The location of the `i`-th datum of the witness set.
pub open spec fn datum_location(i: int) -> Seq<char> {
    "transaction.witness_set.plutus_data."@ + decimal(i as nat)
}

/// For the first `n` datums of the witness set: an error when no input
/// requires it and no output names its hash.
pub open spec fn extraneous_datum_errors(
    hashes: Seq<Vec<u8>>,
    required: Seq<(Seq<u8>, Seq<char>, u32)>,
    output_datums: Seq<Seq<u8>>,
    n: int,
) -> Seq<(Phase1ErrorView, Seq<Seq<char>>)>
    decreases n,
{
    if n <= 0 {
        Seq::empty()
    } else {
        let i = n - 1;
        extraneous_datum_errors(hashes, required, output_datums, n - 1) + if required_hashes(required).contains(
            hashes[i]@,
        ) || output_datums.contains(hashes[i]@) {
            Seq::empty()
        } else {
            seq![
                (
                    Phase1ErrorView::ExtraneousDatumWitnesses { datum_hash: hex_encode_spec(hashes[i]@) },
                    seq![datum_location(i)],
                ),
            ]
        }
    }
}

/// One error per required redeemer that is not provided.
pub open spec fn redeemer_errors(req: Seq<(RedeemerTag, u32, Seq<char>, u32)>, provided: Seq<(RedeemerTag, u32)>) -> Seq<
    (Phase1ErrorView, Seq<Seq<char>>),
>
    decreases req.len(),
{
    if req.len() == 0 {
        Seq::empty()
    } else {
        let r = req.last();
        redeemer_errors(req.drop_last(), provided) + if provided.contains((r.0, r.1)) {
            Seq::empty()
        } else {
            seq![(Phase1ErrorView::MissingRedeemer { tag: redeemer_tag_text(r.0), index: r.1 }, seq![r.2])]
        }
    }
}

/// The hashes that some requirement names.
pub open spec fn required_hashes(req: Seq<(Seq<u8>, Seq<char>, u32)>) -> Set<Seq<u8>> {
    Set::new(|h: Seq<u8>| exists|i: int| 0 <= i < req.len() && (#[trigger] req[i]).0 == h)
}

/// The provided scripts that nothing requires, in hex, each once, after
/// those already in `acc`.
pub open spec fn extraneous_from(
    acc: Seq<Seq<char>>,
    entries: Seq<(Seq<u8>, WitnessSource)>,
    required: Set<Seq<u8>>,
) -> Seq<Seq<char>>
    decreases entries.len(),
{
    if entries.len() == 0 {
        acc
    } else {
        let prev = extraneous_from(acc, entries.drop_last(), required);
        let h = entries.last().0;
        if !required.contains(h) && !prev.contains(hex_encode_spec(h)) {
            prev.push(hex_encode_spec(h))
        } else {
            prev
        }
    }
}

impl<'a> WitnessValidator<'a> {
    /// The provided scripts that no requirement asks for: native ones, then
    /// Plutus ones, in hex, each once.
    pub open spec fn extraneous(&self) -> Seq<Seq<char>> {
        let req = self.requirements();
        extraneous_from(
            extraneous_from(Seq::empty(), entries_view(self.native_script_sources@), required_hashes(req.natives)),
            entries_view(self.plutus_script_sources@),
            required_hashes(req.plutus),
        )
    }

    /// The errors of the witness rules, in their order.
    pub open spec fn witness_errors(&self) -> Seq<(Phase1ErrorView, Seq<Seq<char>>)> {
        let req = self.requirements();
        key_errors(req.vkeys, self.provided_vkey_witnesses@.map_values(|k: Vec<u8>| k@)) + hash_errors(
            req.natives,
            self.native_keys(),
        ) + hash_errors(req.plutus, self.plutus_keys()) + redeemer_errors(req.redeemers, self.provided_redeemers@)
            + datum_errors(req.datums, entry_keys(entries_view(self.datum_sources@))) + hash_errors(
            req.unknown,
            Set::empty(),
        ) + if self.extraneous().len() > 0 {
            seq![
                (
                    Phase1ErrorView::ExtraneousScriptWitnesses { extraneous_scripts: self.extraneous() },
                    seq!["transaction.witness_set"@],
                ),
            ]
        } else {
            Seq::empty()
        } + self.further_errors()
    }

    /// The native scripts not satisfied, the signatures that do not verify
    /// or that nothing asks for, and the datums that nothing needs.
    pub open spec fn further_errors(&self) -> Seq<(Phase1ErrorView, Seq<Seq<char>>)> {
        let req = self.requirements();
        let tx = self.transaction;
        native_script_errors(
            req.natives,
            tx,
            signers_view(self.provided_vkey_witnesses@),
            self.validation_input_context.slot,
        ) + signature_errors(
            tx.vkey_witnesses@,
            tx.vkey_signatures@,
            signers_view(self.provided_vkey_witnesses@),
            blake2b_256_digest(tx.body_cbor@),
            req.vkeys,
            signers_view(self.native_scripts_signature_candidates@),
            tx.vkey_witnesses@.len() as int,
        ) + extraneous_datum_errors(
            tx.plutus_data_hashes@,
            req.datums,
            signers_view(self.output_datums_hashes@),
            tx.plutus_data_hashes@.len() as int,
        ) + script_data_errors(tx, self.validation_input_context.protocol_parameters.cost_models)
    }
}

/// Whether one of the byte strings equals `key`.
fn keys_contain(keys: &Vec<Vec<u8>>, key: &Vec<u8>) -> (r: bool)
    ensures
        r == keys@.map_values(|k: Vec<u8>| k@).contains(key@),
{
    let ghost v = keys@.map_values(|k: Vec<u8>| k@);
    let n = keys.len();
    let mut i: usize = 0;
    while i < n
        invariant
            n == keys@.len(),
            v == keys@.map_values(|k: Vec<u8>| k@),
            i <= n,
            forall|j: int| 0 <= j < i ==> v[j] != key@,
        decreases n - i,
    {
        if bytes_equal(keys[i].as_slice(), key.as_slice()) {
            assert(v[i as int] == key@);
            return true;
        }
        i += 1;
    }
    false
}

/// Whether some requirement names `hash`.
fn requirements_name(req: &Vec<RequiredScriptWitness>, hash: &Vec<u8>) -> (r: bool)
    ensures
        r == required_hashes(req@.map_values(|w: RequiredScriptWitness| w@)).contains(hash@),
{
    let ghost v = req@.map_values(|w: RequiredScriptWitness| w@);
    let n = req.len();
    let mut i: usize = 0;
    while i < n
        invariant
            n == req@.len(),
            v == req@.map_values(|w: RequiredScriptWitness| w@),
            i <= n,
            forall|j: int| 0 <= j < i ==> v[j].0 != hash@,
        decreases n - i,
    {
        if bytes_equal(req[i].script_hash.as_slice(), hash.as_slice()) {
            assert(v[i as int].0 == hash@);
            return true;
        }
        i += 1;
    }
    false
}

/// Whether some required key witness names `hash`.
fn vkeys_require(req: &Vec<RequiredVKeyWitness>, hash: &Vec<u8>) -> (r: bool)
    ensures
        r == required_hashes(req@.map_values(|w: RequiredVKeyWitness| w@)).contains(hash@),
{
    let ghost v = req@.map_values(|w: RequiredVKeyWitness| w@);
    let n = req.len();
    let mut i: usize = 0;
    while i < n
        invariant
            n == req@.len(),
            v == req@.map_values(|w: RequiredVKeyWitness| w@),
            i <= n,
            forall|j: int| 0 <= j < i ==> v[j].0 != hash@,
        decreases n - i,
    {
        if bytes_equal(req[i].key_hash.as_slice(), hash.as_slice()) {
            assert(v[i as int].0 == hash@);
            return true;
        }
        i += 1;
    }
    false
}

/// Whether some required datum witness names `hash`.
fn datums_require(req: &Vec<RequiredDatumWitness>, hash: &Vec<u8>) -> (r: bool)
    ensures
        r == required_hashes(req@.map_values(|w: RequiredDatumWitness| w@)).contains(hash@),
{
    let ghost v = req@.map_values(|w: RequiredDatumWitness| w@);
    let n = req.len();
    let mut i: usize = 0;
    while i < n
        invariant
            n == req@.len(),
            v == req@.map_values(|w: RequiredDatumWitness| w@),
            i <= n,
            forall|j: int| 0 <= j < i ==> v[j].0 != hash@,
        decreases n - i,
    {
        if bytes_equal(req[i].datum_hash.as_slice(), hash.as_slice()) {
            assert(v[i as int].0 == hash@);
            return true;
        }
        i += 1;
    }
    false
}

/// Whether one of the texts equals `t`.
fn texts_contain(texts: &Vec<String>, t: &String) -> (r: bool)
    ensures
        r == strings_view(texts@).contains(t@),
{
    let n = texts.len();
    let mut i: usize = 0;
    while i < n
        invariant
            n == texts@.len(),
            i <= n,
            forall|j: int| 0 <= j < i ==> texts@[j]@ != t@,
        decreases n - i,
    {
        if crate::text::str_equal(texts[i].as_str(), t.as_str()) {
            assert(strings_view(texts@)[i as int] == t@);
            return true;
        }
        i += 1;
    }
    assert(!strings_view(texts@).contains(t@)) by {
        if strings_view(texts@).contains(t@) {
            let k = choose|k: int| 0 <= k < strings_view(texts@).len() && strings_view(texts@)[k] == t@;
            assert(texts@[k]@ == t@);
        }
    }
    false
}

/// Appends, in hex and each once, the provided scripts that no requirement
/// names.
fn add_extraneous(
    acc: &mut Vec<String>,
    entries: &Vec<(Vec<u8>, WitnessSource)>,
    required: &Vec<RequiredScriptWitness>,
)
    ensures
        strings_view(final(acc)@) == extraneous_from(
            strings_view(old(acc)@),
            entries_view(entries@),
            required_hashes(required@.map_values(|w: RequiredScriptWitness| w@)),
        ),
{
    let ghost start = strings_view(acc@);
    let ghost ev = entries_view(entries@);
    let ghost rh = required_hashes(required@.map_values(|w: RequiredScriptWitness| w@));
    let n = entries.len();
    let mut i: usize = 0;
    assert(ev.take(0) =~= Seq::<(Seq<u8>, WitnessSource)>::empty());
    while i < n
        invariant
            n == entries@.len(),
            ev == entries_view(entries@),
            rh == required_hashes(required@.map_values(|w: RequiredScriptWitness| w@)),
            i <= n,
            strings_view(acc@) == extraneous_from(start, ev.take(i as int), rh),
        decreases n - i,
    {
        proof {
            assert(ev.take(i + 1).drop_last() =~= ev.take(i as int));
            assert(ev.take(i + 1).last() == ev[i as int]);
        }
        let hash = &entries[i].0;
        if !requirements_name(required, hash) {
            let text = hex_encode(hash.as_slice());
            if !texts_contain(acc, &text) {
                let ghost prev = acc@;
                acc.push(text);
                assert(strings_view(acc@) =~= strings_view(prev).push(text@));
            }
        }
        i += 1;
    }
    assert(ev.take(n as int) =~= ev);
}

impl<'a> WitnessValidator<'a> {
    /// Checks every requirement against what is provided: missing
    /// signatures, scripts, redeemers and datums, scripts of unknown kind,
    /// provided scripts that nothing requires, required native scripts that
    /// the provided signers do not satisfy, signatures that do not verify or
    /// that nothing asks for, witness datums that nothing needs, and a
    /// declared script data hash that differs from the computed one; no
    /// warnings.
    pub fn validate(&self) -> (r: ValidationResult)
        requires
            witness_keys_wf(self.transaction),
            self.provided_vkey_witnesses@.len() == self.transaction.vkey_witnesses@.len(),
        ensures
            errors_view(r.errors@) == self.witness_errors(),
            r.warnings@.len() == 0,
    {
        let ghost req = self.requirements();
        let mut errors: Vec<ValidationPhase1Error> = Vec::new();
        let ghost provided = self.provided_vkey_witnesses@.map_values(|k: Vec<u8>| k@);

        // Signatures
        let n = self.required_vkey_witnesses.len();
        let mut i: usize = 0;
        assert(req.vkeys.take(0) =~= Seq::<(Seq<u8>, Seq<char>, u32)>::empty());
        while i < n
            invariant
                n == req.vkeys.len(),
                req == self.requirements(),
                provided == self.provided_vkey_witnesses@.map_values(|k: Vec<u8>| k@),
                i <= n,
                errors_view(errors@) == key_errors(req.vkeys.take(i as int), provided),
            decreases n - i,
        {
            proof {
                assert(req.vkeys.take(i + 1).drop_last() =~= req.vkeys.take(i as int));
                assert(req.vkeys.take(i + 1).last() == req.vkeys[i as int]);
            }
            let required = &self.required_vkey_witnesses[i];
            if !keys_contain(&self.provided_vkey_witnesses, &required.key_hash) {
                push_error(
                    &mut errors,
                    ValidationPhase1Error::new(
                        Phase1Error::MissingVKeyWitnesses { missing_key_hash: hex_encode(required.key_hash.as_slice()) },
                        required.location.clone(),
                    ),
                );
            }
            i += 1;
        }
        assert(req.vkeys.take(n as int) =~= req.vkeys);
        let ghost e1 = errors_view(errors@);

        // Native scripts
        let n = self.required_native_script_witnesses.len();
        let mut i: usize = 0;
        assert(req.natives.take(0) =~= Seq::<(Seq<u8>, Seq<char>, u32)>::empty());
        while i < n
            invariant
                n == req.natives.len(),
                req == self.requirements(),
                i <= n,
                errors_view(errors@) == e1 + hash_errors(req.natives.take(i as int), self.native_keys()),
            decreases n - i,
        {
            proof {
                assert(req.natives.take(i + 1).drop_last() =~= req.natives.take(i as int));
                assert(req.natives.take(i + 1).last() == req.natives[i as int]);
            }
            let required = &self.required_native_script_witnesses[i];
            if !entries_contain(&self.native_script_sources, &required.script_hash) {
                push_error(
                    &mut errors,
                    ValidationPhase1Error::new(
                        Phase1Error::MissingScriptWitnesses {
                            missing_script_hash: hex_encode(required.script_hash.as_slice()),
                        },
                        required.location.clone(),
                    ),
                );
            }
            i += 1;
        }
        assert(req.natives.take(n as int) =~= req.natives);
        let ghost e2 = errors_view(errors@);

        // Plutus scripts
        let n = self.required_plutus_script_witnesses.len();
        let mut i: usize = 0;
        assert(req.plutus.take(0) =~= Seq::<(Seq<u8>, Seq<char>, u32)>::empty());
        while i < n
            invariant
                n == req.plutus.len(),
                req == self.requirements(),
                i <= n,
                errors_view(errors@) == e2 + hash_errors(req.plutus.take(i as int), self.plutus_keys()),
            decreases n - i,
        {
            proof {
                assert(req.plutus.take(i + 1).drop_last() =~= req.plutus.take(i as int));
                assert(req.plutus.take(i + 1).last() == req.plutus[i as int]);
            }
            let required = &self.required_plutus_script_witnesses[i];
            if !entries_contain(&self.plutus_script_sources, &required.script_hash) {
                push_error(
                    &mut errors,
                    ValidationPhase1Error::new(
                        Phase1Error::MissingScriptWitnesses {
                            missing_script_hash: hex_encode(required.script_hash.as_slice()),
                        },
                        required.location.clone(),
                    ),
                );
            }
            i += 1;
        }
        assert(req.plutus.take(n as int) =~= req.plutus);
        let ghost e3 = errors_view(errors@);

        // Redeemers
        let n = self.required_redeemer_witnesses.len();
        let mut i: usize = 0;
        assert(req.redeemers.take(0) =~= Seq::<(RedeemerTag, u32, Seq<char>, u32)>::empty());
        while i < n
            invariant
                n == req.redeemers.len(),
                req == self.requirements(),
                i <= n,
                errors_view(errors@) == e3 + redeemer_errors(req.redeemers.take(i as int), self.provided_redeemers@),
            decreases n - i,
        {
            proof {
                assert(req.redeemers.take(i + 1).drop_last() =~= req.redeemers.take(i as int));
                assert(req.redeemers.take(i + 1).last() == req.redeemers[i as int]);
            }
            let required = &self.required_redeemer_witnesses[i];
            let m = self.provided_redeemers.len();
            let mut k: usize = 0;
            let mut found = false;
            while k < m
                invariant
                    m == self.provided_redeemers@.len(),
                    k <= m,
                    found == exists|j: int| 0 <= j < k && self.provided_redeemers@[j] == (required.tag, required.index),
                decreases m - k,
            {
                if self.provided_redeemers[k].0 == required.tag && self.provided_redeemers[k].1 == required.index {
                    found = true;
                }
                k += 1;
            }
            assert(found == self.provided_redeemers@.contains((required.tag, required.index)));
            if !found {
                push_error(
                    &mut errors,
                    ValidationPhase1Error::new(
                        Phase1Error::MissingRedeemer { tag: redeemer_tag_to_string(required.tag), index: required.index },
                        required.location.clone(),
                    ),
                );
            }
            i += 1;
        }
        assert(req.redeemers.take(n as int) =~= req.redeemers);
        let ghost e4 = errors_view(errors@);

        // Datums
        let n = self.required_datum_witnesses.len();
        let mut i: usize = 0;
        assert(req.datums.take(0) =~= Seq::<(Seq<u8>, Seq<char>, u32)>::empty());
        while i < n
            invariant
                n == req.datums.len(),
                req == self.requirements(),
                i <= n,
                errors_view(errors@) == e4 + datum_errors(
                    req.datums.take(i as int),
                    entry_keys(entries_view(self.datum_sources@)),
                ),
            decreases n - i,
        {
            proof {
                assert(req.datums.take(i + 1).drop_last() =~= req.datums.take(i as int));
                assert(req.datums.take(i + 1).last() == req.datums[i as int]);
            }
            let required = &self.required_datum_witnesses[i];
            if !entries_contain(&self.datum_sources, &required.datum_hash) {
                push_error(
                    &mut errors,
                    ValidationPhase1Error::new(
                        Phase1Error::MissingDatum { datum_hash: hex_encode(required.datum_hash.as_slice()) },
                        required.location.clone(),
                    ),
                );
            }
            i += 1;
        }
        assert(req.datums.take(n as int) =~= req.datums);
        let ghost e5 = errors_view(errors@);

        // Scripts of unknown kind
        let n = self.required_unknown_script_witnesses.len();
        let mut i: usize = 0;
        assert(req.unknown.take(0) =~= Seq::<(Seq<u8>, Seq<char>, u32)>::empty());
        while i < n
            invariant
                n == req.unknown.len(),
                req == self.requirements(),
                i <= n,
                errors_view(errors@) == e5 + hash_errors(req.unknown.take(i as int), Set::empty()),
            decreases n - i,
        {
            proof {
                assert(req.unknown.take(i + 1).drop_last() =~= req.unknown.take(i as int));
                assert(req.unknown.take(i + 1).last() == req.unknown[i as int]);
            }
            let required = &self.required_unknown_script_witnesses[i];
            push_error(
                &mut errors,
                ValidationPhase1Error::new(
                    Phase1Error::MissingScriptWitnesses {
                        missing_script_hash: hex_encode(required.script_hash.as_slice()),
                    },
                    required.location.clone(),
                ),
            );
            i += 1;
        }
        assert(req.unknown.take(n as int) =~= req.unknown);
        let ghost e6 = errors_view(errors@);

        // Scripts that nothing requires
        let mut extraneous_scripts: Vec<String> = Vec::new();
        assert(strings_view(extraneous_scripts@) =~= Seq::<Seq<char>>::empty());
        add_extraneous(&mut extraneous_scripts, &self.native_script_sources, &self.required_native_script_witnesses);
        add_extraneous(&mut extraneous_scripts, &self.plutus_script_sources, &self.required_plutus_script_witnesses);
        assert(strings_view(extraneous_scripts@) == self.extraneous());
        if extraneous_scripts.len() > 0 {
            push_error(
                &mut errors,
                ValidationPhase1Error::new(
                    Phase1Error::ExtraneousScriptWitnesses { extraneous_scripts },
                    string_of("transaction.witness_set"),
                ),
            );
        }
        let ghost e7 = errors_view(errors@);
        assert(e7 + self.further_errors() =~= self.witness_errors());
        let tx = self.transaction;
        let slot = self.validation_input_context.slot;
        let ghost signers = signers_view(self.provided_vkey_witnesses@);

        // Native scripts that are not satisfied
        let n = self.required_native_script_witnesses.len();
        let mut i: usize = 0;
        assert(req.natives.take(0) =~= Seq::<(Seq<u8>, Seq<char>, u32)>::empty());
        while i < n
            invariant
                n == req.natives.len(),
                req == self.requirements(),
                tx == self.transaction,
                slot == self.validation_input_context.slot,
                signers == signers_view(self.provided_vkey_witnesses@),
                i <= n,
                errors_view(errors@) == e7 + native_script_errors(req.natives.take(i as int), tx, signers, slot),
            decreases n - i,
        {
            proof {
                assert(req.natives.take(i + 1).drop_last() =~= req.natives.take(i as int));
                assert(req.natives.take(i + 1).last() == req.natives[i as int]);
            }
            let required = &self.required_native_script_witnesses[i];
            let script = match find_script_with_hash(&tx.native_scripts, &required.script_hash) {
                Some(found) => Some(found),
                None => find_script_with_hash(&tx.reference_native_scripts, &required.script_hash),
            };
            assert(match script {
                Some(found) => provided_native_script(tx, required.script_hash@) == Some(*found),
                None => provided_native_script(tx, required.script_hash@) is None,
            });
            if let Some(found) = script {
                if !native_script_satisfied(found, &self.provided_vkey_witnesses, slot) {
                    push_error(
                        &mut errors,
                        ValidationPhase1Error::new(
                            Phase1Error::NativeScriptIsUnsuccessful {
                                native_script_hash: hex_encode(required.script_hash.as_slice()),
                            },
                            required.location.clone(),
                        ),
                    );
                }
            }
            i += 1;
        }
        assert(req.natives.take(n as int) =~= req.natives);
        let ghost e8 = errors_view(errors@);

        // Signatures that do not verify, or that nothing asks for
        let tx_hash = blake2b_256(tx.body_cbor.as_slice());
        let n = tx.vkey_witnesses.len();
        let ghost candidates = signers_view(self.native_scripts_signature_candidates@);
        proof {
            assert(candidates =~= self.native_scripts_signature_candidates@.map_values(|k: Vec<u8>| k@));
        }
        let mut i: usize = 0;
        while i < n
            invariant
                n == tx.vkey_witnesses@.len(),
                req == self.requirements(),
                tx == self.transaction,
                witness_keys_wf(tx),
                self.provided_vkey_witnesses@.len() == n,
                signers == signers_view(self.provided_vkey_witnesses@),
                candidates == self.native_scripts_signature_candidates@.map_values(|k: Vec<u8>| k@),
                i <= n,
                tx_hash@ == blake2b_256_digest(tx.body_cbor@),
                errors_view(errors@) == e8 + signature_errors(
                    tx.vkey_witnesses@,
                    tx.vkey_signatures@,
                    signers,
                    tx_hash@,
                    req.vkeys,
                    candidates,
                    i as int,
                ),
            decreases n - i,
        {
            let key = &tx.vkey_witnesses[i];
            let signature = &tx.vkey_signatures[i];
            assert(key@.len() == 32);
            assert(signature@.len() == 64);
            if !verify_signature(key.as_slice(), tx_hash.as_slice(), signature.as_slice()) {
                push_error(
                    &mut errors,
                    ValidationPhase1Error::new(
                        Phase1Error::InvalidSignature { invalid_signature: hex_encode(signature.as_slice()) },
                        location_at("transaction.witness_set.vkeys.", i),
                    ),
                );
            }
            let key_hash = &self.provided_vkey_witnesses[i];
            assert(signers[i as int] == key_hash@);
            let allowed = vkeys_require(&self.required_vkey_witnesses, key_hash) || keys_contain(
                &self.native_scripts_signature_candidates,
                key_hash,
            );
            if !allowed {
                push_error(
                    &mut errors,
                    ValidationPhase1Error::new(
                        Phase1Error::ExtraneousSignature { extraneous_signature: hex_encode(signature.as_slice()) },
                        location_at("transaction.witness_set.vkeys.", i),
                    ),
                );
            }
            i += 1;
        }
        let ghost e9 = errors_view(errors@);

        // Datums of the witness set that nothing needs
        let n = tx.plutus_data_hashes.len();
        let ghost outputs = signers_view(self.output_datums_hashes@);
        proof {
            assert(outputs =~= self.output_datums_hashes@.map_values(|k: Vec<u8>| k@));
        }
        let mut i: usize = 0;
        while i < n
            invariant
                n == tx.plutus_data_hashes@.len(),
                req == self.requirements(),
                tx == self.transaction,
                outputs == self.output_datums_hashes@.map_values(|k: Vec<u8>| k@),
                i <= n,
                errors_view(errors@) == e9 + extraneous_datum_errors(tx.plutus_data_hashes@, req.datums, outputs, i as int),
            decreases n - i,
        {
            let hash = &tx.plutus_data_hashes[i];
            let allowed = datums_require(&self.required_datum_witnesses, hash) || keys_contain(
                &self.output_datums_hashes,
                hash,
            );
            if !allowed {
                push_error(
                    &mut errors,
                    ValidationPhase1Error::new(
                        Phase1Error::ExtraneousDatumWitnesses { datum_hash: hex_encode(hash.as_slice()) },
                        location_at("transaction.witness_set.plutus_data.", i),
                    ),
                );
            }
            i += 1;
        }
        let ghost e10 = errors_view(errors@);

        // The script data hash
        push_script_data_errors(tx, &self.validation_input_context.protocol_parameters.cost_models, &mut errors);
        let ghost cm = self.validation_input_context.protocol_parameters.cost_models;
        assert(errors_view(errors@) =~= e10 + script_data_errors(tx, cm));
        assert(errors_view(errors@) =~= self.witness_errors());
        ValidationResult::new(errors, Vec::new())
    }
}

// ---------------------------------------------------------------------------
// The script data hash
// ---------------------------------------------------------------------------

/// The encoding of the `Costmdls` holding, for each language (0 for Plutus
/// V1, 1 for V2, 2 for V3), the cost model given.
pub uninterp spec fn cost_models_encoding(models: Seq<(u8, Seq<u64>)>) -> Seq<u8>;

/// What `hash_script_data` gives for the redeemers (none: an empty list), the
/// datums and the cost models, each read from its encoding; nothing when an
/// encoding does not read.
pub uninterp spec fn script_data_hash_reading(
    redeemers: Option<Seq<u8>>,
    datums: Option<Seq<u8>>,
    cost_models: Seq<u8>,
) -> Option<Seq<u8>>;

/// The cost models as plain values.
pub open spec fn models_view(models: Seq<(u8, Vec<u64>)>) -> Seq<(u8, Seq<u64>)> {
    models.map_values(|m: (u8, Vec<u64>)| (m.0, m.1@))
}

/// A new `Costmdls` with the cost model of each language inserted, then
/// `to_bytes` (see `cost_models_encoding`).
#[verifier::external_body]
fn cost_models_cbor(models: &Vec<(u8, Vec<u64>)>) -> (r: Vec<u8>)
    requires
        forall|i: int| 0 <= i < models@.len() ==> (#[trigger] models@[i]).0 < 3,
    ensures
        r@ == cost_models_encoding(models_view(models@)),
{
    let mut cost_models = cardano_serialization_lib::Costmdls::new();
    for (language, costs) in models.iter() {
        let model = cardano_serialization_lib::CostModel::try_from(costs.iter().map(|c| *c as i128).collect::<Vec<i128>>()).unwrap();
        cost_models.insert(&cardano_serialization_lib::Language::from_bytes(vec![*language]).unwrap(), &model);
    }
    cost_models.to_bytes()
}

/// The optional bytes as plain values.
pub open spec fn opt_bytes(o: Option<Vec<u8>>) -> Option<Seq<u8>> {
    match o {
        Some(b) => Some(b@),
        None => None,
    }
}

/// `Redeemers::from_bytes` (or an empty list), `PlutusList::from_bytes` and
/// `Costmdls::from_bytes`, then `hash_script_data` (see
/// `script_data_hash_reading`).
#[verifier::external_body]
fn script_data_hash_of(redeemers: &Option<Vec<u8>>, datums: &Option<Vec<u8>>, cost_models: &[u8]) -> (r: Option<Vec<u8>>)
    ensures
        opt_bytes(r) == script_data_hash_reading(opt_bytes(*redeemers), opt_bytes(*datums), cost_models@),
{
    let rs = match redeemers {
        Some(b) => cardano_serialization_lib::Redeemers::from_bytes(b.clone()).ok()?,
        None => cardano_serialization_lib::Redeemers::new(),
    };
    let ds = match datums {
        Some(b) => Some(cardano_serialization_lib::PlutusList::from_bytes(b.clone()).ok()?),
        None => None,
    };
    let cms = cardano_serialization_lib::Costmdls::from_bytes(cost_models.to_vec()).ok()?;
    Some(cardano_serialization_lib::hash_script_data(&rs, &cms, ds).to_bytes())
}

/// The cost model the protocol parameters give for a language.
pub open spec fn model_of(cm: CostModels, language: u8) -> Option<Vec<u64>> {
    if language == 0 {
        cm.plutus_v1
    } else if language == 1 {
        cm.plutus_v2
    } else {
        cm.plutus_v3
    }
}

/// The language's cost model, when the transaction uses the language and the
/// parameters give one.
pub open spec fn used_model(languages: Seq<u8>, cm: CostModels, language: u8) -> Seq<(u8, Seq<u64>)> {
    if languages.contains(language) && model_of(cm, language) is Some {
        seq![(language, model_of(cm, language)->0@)]
    } else {
        Seq::empty()
    }
}

/// The cost models of the languages the transaction uses, in the order of
/// the languages.
pub open spec fn used_models(languages: Seq<u8>, cm: CostModels) -> Seq<(u8, Seq<u64>)> {
    used_model(languages, cm, 0) + used_model(languages, cm, 1) + used_model(languages, cm, 2)
}

/// The script data hash the transaction should declare: none without
/// redeemers and datums; otherwise the hash of its redeemers, datums and the
/// cost models of the languages it uses.
pub open spec fn expected_script_data_hash(tx: &WitnessTxFacts, cm: CostModels) -> Option<Seq<u8>> {
    if tx.redeemers_cbor is None && tx.plutus_data_cbor is None {
        None
    } else {
        script_data_hash_reading(
            opt_bytes(tx.redeemers_cbor),
            opt_bytes(tx.plutus_data_cbor),
            cost_models_encoding(used_models(tx.plutus_languages@, cm)),
        )
    }
}

/// The optional hash in hex.
pub open spec fn opt_hex(o: Option<Seq<u8>>) -> Option<Seq<char>> {
    match o {
        Some(h) => Some(hex_encode_spec(h)),
        None => None,
    }
}

/// A mismatch when the declared script data hash is not the expected one.
pub open spec fn script_data_errors(tx: &WitnessTxFacts, cm: CostModels) -> Seq<(Phase1ErrorView, Seq<Seq<char>>)> {
    let expected = expected_script_data_hash(tx, cm);
    if expected == opt_bytes(tx.script_data_hash) {
        Seq::empty()
    } else {
        seq![
            (
                Phase1ErrorView::ScriptDataHashMismatch {
                    expected_hash: opt_hex(expected),
                    provided_hash: opt_hex(opt_bytes(tx.script_data_hash)),
                },
                seq!["transaction.body.script_data_hash"@],
            ),
        ]
    }
}

/// Adds the script data hash mismatch, if any.
fn push_script_data_errors(tx: &WitnessTxFacts, cost_models: &CostModels, errors: &mut Vec<ValidationPhase1Error>)
    ensures
        errors_view(final(errors)@) == errors_view(old(errors)@) + script_data_errors(tx, *cost_models),
{
    let ghost e10 = errors_view(errors@);
    let expected = if tx.redeemers_cbor.is_none() && tx.plutus_data_cbor.is_none() {
        None
    } else {
        let models = used_cost_models(&tx.plutus_languages, cost_models);
        let encoded = cost_models_cbor(&models);
        script_data_hash_of(&tx.redeemers_cbor, &tx.plutus_data_cbor, encoded.as_slice())
    };
    let ghost cm = *cost_models;
    assert(opt_bytes(expected) == expected_script_data_hash(tx, cm));
    let same = match (&expected, &tx.script_data_hash) {
        (Some(a), Some(b)) => bytes_equal(a.as_slice(), b.as_slice()),
        (None, None) => true,
        _ => false,
    };
    assert(same == (opt_bytes(expected) == opt_bytes(tx.script_data_hash)));
    if !same {
        let expected_hash = match &expected {
            Some(h) => Some(hex_encode(h.as_slice())),
            None => None,
        };
        let provided_hash = match &tx.script_data_hash {
            Some(h) => Some(hex_encode(h.as_slice())),
            None => None,
        };
        push_error(
            errors,
            ValidationPhase1Error::new(
                Phase1Error::ScriptDataHashMismatch { expected_hash, provided_hash },
                string_of("transaction.body.script_data_hash"),
            ),
        );
    }
    assert(errors_view(errors@) =~= e10 + script_data_errors(tx, cm));
}

fn copy_costs(v: &Vec<u64>) -> (r: Vec<u64>)
    ensures
        r@ == v@,
{
    let mut r: Vec<u64> = Vec::new();
    let mut i: usize = 0;
    while i < v.len()
        invariant
            i <= v@.len(),
            r@ == v@.take(i as int),
        decreases v@.len() - i,
    {
        r.push(v[i]);
        assert(v@.take(i + 1) =~= v@.take(i as int).push(v@[i as int]));
        i += 1;
    }
    assert(v@.take(v@.len() as int) =~= v@);
    r
}

/// The cost models of the languages the transaction uses.
fn used_cost_models(languages: &Vec<u8>, cm: &CostModels) -> (r: Vec<(u8, Vec<u64>)>)
    ensures
        models_view(r@) == used_models(languages@, *cm),
        forall|i: int| 0 <= i < r@.len() ==> (#[trigger] r@[i]).0 < 3,
{
    let mut r: Vec<(u8, Vec<u64>)> = Vec::new();
    let mut language: u8 = 0;
    while language < 3
        invariant
            language <= 3,
            models_view(r@) == if language == 0 {
                Seq::<(u8, Seq<u64>)>::empty()
            } else if language == 1 {
                used_model(languages@, *cm, 0)
            } else if language == 2 {
                used_model(languages@, *cm, 0) + used_model(languages@, *cm, 1)
            } else {
                used_models(languages@, *cm)
            },
            forall|i: int| 0 <= i < r@.len() ==> (#[trigger] r@[i]).0 < 3,
        decreases 3 - language,
    {
        let ghost before = models_view(r@);
        let mut used = false;
        let mut i: usize = 0;
        while i < languages.len()
            invariant
                i <= languages@.len(),
                used == exists|j: int| 0 <= j < i && languages@[j] == language,
            decreases languages@.len() - i,
        {
            if languages[i] == language {
                used = true;
            }
            i += 1;
        }
        assert(used == languages@.contains(language));
        let model = if language == 0 {
            &cm.plutus_v1
        } else if language == 1 {
            &cm.plutus_v2
        } else {
            &cm.plutus_v3
        };
        assert(*model == model_of(*cm, language));
        if used {
            if let Some(costs) = model {
                r.push((language, copy_costs(costs)));
            }
        }
        assert(models_view(r@) =~= before + used_model(languages@, *cm, language));
        language += 1;
    }
    r
}

// ---------------------------------------------------------------------------
// What the transaction and the UTxOs it reads provide
// ---------------------------------------------------------------------------

/// The hash of an Ed25519 public key.
pub uninterp spec fn ed25519_key_hash(public_key: Seq<u8>) -> Seq<u8>;

/// What a script reference decodes to: whether it holds a native script,
/// and the script's hash; nothing when it does not decode.
pub uninterp spec fn script_ref_reading(bytes: Seq<u8>) -> Option<(bool, Seq<u8>)>;

/// The hash of the Plutus datum that the bytes encode, when they decode.
pub uninterp spec fn plutus_data_hash_reading(bytes: Seq<u8>) -> Option<Seq<u8>>;

/// The hash of a public key (`PublicKey::from_bytes`, then `hash`), for a
/// 32-byte key.
#[verifier::external_body]
fn public_key_hash(public_key: &[u8]) -> (r: Vec<u8>)
    requires
        public_key@.len() == 32,
    ensures
        r@ == ed25519_key_hash(public_key@),
{
    match cardano_serialization_lib::PublicKey::from_bytes(public_key) {
        Ok(k) => k.hash().to_bytes(),
        Err(_) => Vec::new(),
    }
}

/// Decodes a script reference (`ScriptRef::from_bytes`) and gives the kind
/// and hash of its script: native (`native_script`, `hash`), else Plutus
/// (`plutus_script`, `hash`).
#[verifier::external_body]
fn read_script_ref(bytes: Vec<u8>) -> (r: Option<(bool, Vec<u8>)>)
    ensures
        match r {
            Some(x) => script_ref_reading(bytes@) == Some((x.0, x.1@)),
            None => script_ref_reading(bytes@) is None,
        },
{
    let script_ref = cardano_serialization_lib::ScriptRef::from_bytes(bytes).ok()?;
    match (script_ref.native_script(), script_ref.plutus_script()) {
        (Some(native), _) => Some((true, native.hash().to_bytes())),
        (None, Some(plutus)) => Some((false, plutus.hash().to_bytes())),
        (None, None) => None,
    }
}

/// Decodes a Plutus datum (`PlutusData::from_bytes`) and gives its hash
/// (`hash_plutus_data`).
#[verifier::external_body]
fn read_plutus_data_hash(bytes: Vec<u8>) -> (r: Option<Vec<u8>>)
    ensures
        match r {
            Some(h) => plutus_data_hash_reading(bytes@) == Some(h@),
            None => plutus_data_hash_reading(bytes@) is None,
        },
{
    let datum = cardano_serialization_lib::PlutusData::from_bytes(bytes).ok()?;
    Some(cardano_serialization_lib::hash_plutus_data(&datum).to_bytes())
}

/// What the script reference of the UTxO an input reads decodes to.
pub open spec fn utxo_script_ref(input: TxInput, utxos: Seq<UtxoInputContext>) -> Option<(bool, Seq<u8>)> {
    match found_utxo(utxos, input.tx_hash@, input.output_index) {
        Some(u) => match u.utxo.output.script_ref {
            Some(h) => if crate::text::is_hex_text(h@) {
                script_ref_reading(crate::text::hex_decode_spec(h@))
            } else {
                None
            },
            None => None,
        },
        None => None,
    }
}

/// The hash of the inline datum of the UTxO an input reads.
pub open spec fn utxo_datum_hash(input: TxInput, utxos: Seq<UtxoInputContext>) -> Option<Seq<u8>> {
    match found_utxo(utxos, input.tx_hash@, input.output_index) {
        Some(u) => match u.utxo.output.plutus_data {
            Some(h) => if crate::text::is_hex_text(h@) {
                plutus_data_hash_reading(crate::text::hex_decode_spec(h@))
            } else {
                None
            },
            None => None,
        },
        None => None,
    }
}

/// The scripts (native ones, or Plutus ones) that the inputs' UTxOs hold
/// as references, with the input as their source.
pub open spec fn reference_script_entries(inputs: Seq<TxInput>, utxos: Seq<UtxoInputContext>, native: bool) -> Seq<
    (Seq<u8>, WitnessSource),
>
    decreases inputs.len(),
{
    if inputs.len() == 0 {
        Seq::empty()
    } else {
        let input = inputs.last();
        reference_script_entries(inputs.drop_last(), utxos, native) + match utxo_script_ref(input, utxos) {
            Some(r) => if r.0 == native {
                seq![(r.1, WitnessSource::ReferenceInput(input))]
            } else {
                Seq::empty()
            },
            None => Seq::empty(),
        }
    }
}

/// The inline datums that the inputs' UTxOs hold, with the input as their
/// source.
pub open spec fn reference_datum_entries(inputs: Seq<TxInput>, utxos: Seq<UtxoInputContext>) -> Seq<
    (Seq<u8>, WitnessSource),
>
    decreases inputs.len(),
{
    if inputs.len() == 0 {
        Seq::empty()
    } else {
        let input = inputs.last();
        reference_datum_entries(inputs.drop_last(), utxos) + match utxo_datum_hash(input, utxos) {
            Some(h) => seq![(h, WitnessSource::ReferenceInput(input))],
            None => Seq::empty(),
        }
    }
}

/// Hashes provided by the witness set.
pub open spec fn witness_set_entries(hashes: Seq<Seq<u8>>) -> Seq<(Seq<u8>, WitnessSource)> {
    hashes.map_values(|h: Seq<u8>| (h, WitnessSource::WitnessSet))
}

/// The redeemers whose index fits in 32 bits, by tag and index.
pub open spec fn provided_redeemers_spec(rs: Seq<(RedeemerTag, u64)>) -> Seq<(RedeemerTag, u32)>
    decreases rs.len(),
{
    if rs.len() == 0 {
        Seq::empty()
    } else {
        let r = rs.last();
        provided_redeemers_spec(rs.drop_last()) + if r.1 <= u32::MAX {
            seq![(r.0, r.1 as u32)]
        } else {
            Seq::empty()
        }
    }
}

/// Every key witness has a 32-byte key and a 64-byte signature.
pub open spec fn witness_keys_wf(tx: &WitnessTxFacts) -> bool {
    &&& forall|i: int| 0 <= i < tx.vkey_witnesses@.len() ==> (#[trigger] tx.vkey_witnesses@[i])@.len() == 32
    &&& tx.vkey_signatures@.len() == tx.vkey_witnesses@.len()
    &&& forall|i: int| 0 <= i < tx.vkey_signatures@.len() ==> (#[trigger] tx.vkey_signatures@[i])@.len() == 64
}

/// What the transaction provides: key witnesses (by key hash); native and
/// Plutus scripts and datums of the witness set, then those of the UTxOs its
/// inputs and reference inputs read; and its redeemers.
pub open spec fn provided_spec(v: &WitnessValidator, tx: &WitnessTxFacts) -> bool {
    let utxos = v.validation_input_context.utxo_set@;
    let read = tx.inputs@ + tx.reference_inputs@;
    &&& v.provided_vkey_witnesses@.map_values(|k: Vec<u8>| k@) == tx.vkey_witnesses@.map_values(
        |pk: Vec<u8>| ed25519_key_hash(pk@),
    )
    &&& entries_view(v.native_script_sources@) == witness_set_entries(
        tx.native_scripts@.map_values(|w: NativeScriptWitness| w.hash@),
    ) + reference_script_entries(read, utxos, true)
    &&& entries_view(v.plutus_script_sources@) == witness_set_entries(
        tx.plutus_script_hashes@.map_values(|h: Vec<u8>| h@),
    ) + reference_script_entries(read, utxos, false)
    &&& entries_view(v.datum_sources@) == witness_set_entries(tx.plutus_data_hashes@.map_values(|h: Vec<u8>| h@))
        + reference_datum_entries(read, utxos)
    &&& v.provided_redeemers@ == provided_redeemers_spec(tx.redeemers@)
}

fn push_entry(entries: &mut Vec<(Vec<u8>, WitnessSource)>, hash: Vec<u8>, source: WitnessSource)
    ensures
        entries_view(final(entries)@) == entries_view(old(entries)@).push((hash@, source)),
{
    let ghost prev = entries@;
    entries.push((hash, source));
    assert(entries_view(entries@) =~= entries_view(prev).push((hash@, source)));
}

fn witness_set_hashes(entries: &mut Vec<(Vec<u8>, WitnessSource)>, hashes: &Vec<Vec<u8>>)
    ensures
        entries_view(final(entries)@) == entries_view(old(entries)@) + witness_set_entries(
            hashes@.map_values(|h: Vec<u8>| h@),
        ),
{
    let ghost start = entries_view(entries@);
    let ghost hv = hashes@.map_values(|h: Vec<u8>| h@);
    let n = hashes.len();
    let mut i: usize = 0;
    while i < n
        invariant
            n == hashes@.len(),
            hv == hashes@.map_values(|h: Vec<u8>| h@),
            i <= n,
            entries_view(entries@) =~= start + witness_set_entries(hv.take(i as int)),
        decreases n - i,
    {
        push_entry(entries, copy_bytes(&hashes[i]), WitnessSource::WitnessSet);
        assert(witness_set_entries(hv.take(i + 1)) =~= witness_set_entries(hv.take(i as int)).push(
            (hv[i as int], WitnessSource::WitnessSet),
        ));
        i += 1;
    }
    assert(hv.take(n as int) =~= hv);
}

proof fn lemma_reference_entries_concat(a: Seq<TxInput>, b: Seq<TxInput>, utxos: Seq<UtxoInputContext>)
    ensures
        reference_script_entries(a + b, utxos, true) == reference_script_entries(a, utxos, true)
            + reference_script_entries(b, utxos, true),
        reference_script_entries(a + b, utxos, false) == reference_script_entries(a, utxos, false)
            + reference_script_entries(b, utxos, false),
        reference_datum_entries(a + b, utxos) == reference_datum_entries(a, utxos) + reference_datum_entries(b, utxos),
    decreases b.len(),
{
    if b.len() == 0 {
        assert(a + b =~= a);
        assert(reference_script_entries(a, utxos, true) + reference_script_entries(b, utxos, true) =~= reference_script_entries(a, utxos, true));
        assert(reference_script_entries(a, utxos, false) + reference_script_entries(b, utxos, false) =~= reference_script_entries(a, utxos, false));
        assert(reference_datum_entries(a, utxos) + reference_datum_entries(b, utxos) =~= reference_datum_entries(a, utxos));
    } else {
        assert((a + b).drop_last() =~= a + b.drop_last());
        assert((a + b).last() == b.last());
        lemma_reference_entries_concat(a, b.drop_last(), utxos);
        assert(reference_script_entries(a + b, utxos, true) =~= reference_script_entries(a, utxos, true)
            + reference_script_entries(b, utxos, true));
        assert(reference_script_entries(a + b, utxos, false) =~= reference_script_entries(a, utxos, false)
            + reference_script_entries(b, utxos, false));
        assert(reference_datum_entries(a + b, utxos) =~= reference_datum_entries(a, utxos) + reference_datum_entries(b, utxos));
    }
}

/// Appends the scripts and inline datums that the UTxOs read by `inputs`
/// hold, with the input as their source.
fn collect_reference_entries(
    ctx: &ValidationInputContext,
    inputs: &Vec<TxInput>,
    natives: &mut Vec<(Vec<u8>, WitnessSource)>,
    plutus: &mut Vec<(Vec<u8>, WitnessSource)>,
    datums: &mut Vec<(Vec<u8>, WitnessSource)>,
)
    ensures
        entries_view(final(natives)@) == entries_view(old(natives)@) + reference_script_entries(inputs@, ctx.utxo_set@, true),
        entries_view(final(plutus)@) == entries_view(old(plutus)@) + reference_script_entries(inputs@, ctx.utxo_set@, false),
        entries_view(final(datums)@) == entries_view(old(datums)@) + reference_datum_entries(inputs@, ctx.utxo_set@),
{
    let ghost utxos = ctx.utxo_set@;
    let ghost ns0 = entries_view(natives@);
    let ghost ps0 = entries_view(plutus@);
    let ghost ds0 = entries_view(datums@);
    let n = inputs.len();
    let mut k: usize = 0;
    assert(inputs@.take(0) =~= Seq::<TxInput>::empty());
    assert(ns0 + Seq::<(Seq<u8>, WitnessSource)>::empty() =~= ns0);
    assert(ps0 + Seq::<(Seq<u8>, WitnessSource)>::empty() =~= ps0);
    assert(ds0 + Seq::<(Seq<u8>, WitnessSource)>::empty() =~= ds0);
    while k < n
        invariant
            n == inputs@.len(),
            k <= n,
            utxos == ctx.utxo_set@,
            entries_view(natives@) == ns0 + reference_script_entries(inputs@.take(k as int), utxos, true),
            entries_view(plutus@) == ps0 + reference_script_entries(inputs@.take(k as int), utxos, false),
            entries_view(datums@) == ds0 + reference_datum_entries(inputs@.take(k as int), utxos),
        decreases n - k,
    {
        let input = &inputs[k];
        proof {
            assert(inputs@.take(k + 1).drop_last() =~= inputs@.take(k as int));
            assert(inputs@.take(k + 1).last() == inputs@[k as int]);
        }
        let ghost nsk = entries_view(natives@);
        let ghost psk = entries_view(plutus@);
        let ghost dsk = entries_view(datums@);
        let mut script_entry: Option<(bool, Vec<u8>)> = None;
        let mut datum_entry: Option<Vec<u8>> = None;
        match ctx.find_utxo(input.tx_hash.clone(), input.output_index) {
            Some(utxo) => {
                if let Some(script_ref_hex) = &utxo.utxo.output.script_ref {
                    if let Ok(script_ref_bytes) = crate::text::decode_hex(script_ref_hex.as_str()) {
                        script_entry = read_script_ref(script_ref_bytes);
                    }
                }
                if let Some(datum_hex) = &utxo.utxo.output.plutus_data {
                    if let Ok(datum_bytes) = crate::text::decode_hex(datum_hex.as_str()) {
                        datum_entry = read_plutus_data_hash(datum_bytes);
                    }
                }
            },
            None => {},
        }
        assert(match script_entry {
            Some(x) => utxo_script_ref(*input, utxos) == Some((x.0, x.1@)),
            None => utxo_script_ref(*input, utxos) is None,
        });
        assert(match datum_entry {
            Some(h) => utxo_datum_hash(*input, utxos) == Some(h@),
            None => utxo_datum_hash(*input, utxos) is None,
        });
        match script_entry {
            Some((is_native, script_hash)) => {
                if is_native {
                    push_entry(natives, script_hash, WitnessSource::ReferenceInput(copy_tx_input(input)));
                    assert(entries_view(plutus@) =~= psk + Seq::<(Seq<u8>, WitnessSource)>::empty());
                } else {
                    push_entry(plutus, script_hash, WitnessSource::ReferenceInput(copy_tx_input(input)));
                    assert(entries_view(natives@) =~= nsk + Seq::<(Seq<u8>, WitnessSource)>::empty());
                }
            },
            None => {
                assert(entries_view(natives@) =~= nsk + Seq::<(Seq<u8>, WitnessSource)>::empty());
                assert(entries_view(plutus@) =~= psk + Seq::<(Seq<u8>, WitnessSource)>::empty());
            },
        }
        match datum_entry {
            Some(datum_hash) => {
                push_entry(datums, datum_hash, WitnessSource::ReferenceInput(copy_tx_input(input)));
            },
            None => {
                assert(entries_view(datums@) =~= dsk + Seq::<(Seq<u8>, WitnessSource)>::empty());
            },
        }
        proof {
            assert(entries_view(natives@) =~= ns0 + reference_script_entries(inputs@.take(k + 1), utxos, true));
            assert(entries_view(plutus@) =~= ps0 + reference_script_entries(inputs@.take(k + 1), utxos, false));
            assert(entries_view(datums@) =~= ds0 + reference_datum_entries(inputs@.take(k + 1), utxos));
        }
        k += 1;
    }
    assert(inputs@.take(n as int) =~= inputs@);
}

impl<'a> WitnessValidator<'a> {
    /// Collects what the transaction and the UTxOs it reads provide.
    fn collect_provided_witnesses(&mut self, tx: &WitnessTxFacts)
        requires
            witness_keys_wf(tx),
        ensures
            provided_spec(final(self), tx),
            final(self).requirements() == old(self).requirements(),
            final(self).validation_input_context == old(self).validation_input_context,
            final(self).native_scripts_signature_candidates == old(self).native_scripts_signature_candidates,
            final(self).output_datums_hashes == old(self).output_datums_hashes,
    {
        let ctx = self.validation_input_context;

        // Key witnesses
        let mut keys: Vec<Vec<u8>> = Vec::new();
        let n = tx.vkey_witnesses.len();
        let mut i: usize = 0;
        while i < n
            invariant
                n == tx.vkey_witnesses@.len(),
                i <= n,
                witness_keys_wf(tx),
                keys@.map_values(|k: Vec<u8>| k@) =~= tx.vkey_witnesses@.take(i as int).map_values(
                    |pk: Vec<u8>| ed25519_key_hash(pk@),
                ),
            decreases n - i,
        {
            let key_hash = public_key_hash(tx.vkey_witnesses[i].as_slice());
            let ghost prev = keys@;
            keys.push(key_hash);
            assert(keys@.map_values(|k: Vec<u8>| k@) =~= prev.map_values(|k: Vec<u8>| k@).push(key_hash@));
            assert(tx.vkey_witnesses@.take(i + 1) =~= tx.vkey_witnesses@.take(i as int).push(tx.vkey_witnesses@[i as int]));
            i += 1;
        }
        assert(tx.vkey_witnesses@.take(n as int) =~= tx.vkey_witnesses@);

        // Native scripts of the witness set
        let mut natives: Vec<(Vec<u8>, WitnessSource)> = Vec::new();
        let n = tx.native_scripts.len();
        let mut i: usize = 0;
        let ghost nh = tx.native_scripts@.map_values(|w: NativeScriptWitness| w.hash@);
        assert(entries_view(natives@) =~= Seq::<(Seq<u8>, WitnessSource)>::empty());
        while i < n
            invariant
                n == tx.native_scripts@.len(),
                nh == tx.native_scripts@.map_values(|w: NativeScriptWitness| w.hash@),
                i <= n,
                entries_view(natives@) =~= witness_set_entries(nh.take(i as int)),
            decreases n - i,
        {
            push_entry(&mut natives, copy_bytes(&tx.native_scripts[i].hash), WitnessSource::WitnessSet);
            assert(witness_set_entries(nh.take(i + 1)) =~= witness_set_entries(nh.take(i as int)).push(
                (nh[i as int], WitnessSource::WitnessSet),
            ));
            i += 1;
        }
        assert(nh.take(n as int) =~= nh);

        // Plutus scripts and datums of the witness set
        let mut plutus: Vec<(Vec<u8>, WitnessSource)> = Vec::new();
        let mut datums: Vec<(Vec<u8>, WitnessSource)> = Vec::new();
        assert(entries_view(plutus@) =~= Seq::<(Seq<u8>, WitnessSource)>::empty());
        assert(entries_view(datums@) =~= Seq::<(Seq<u8>, WitnessSource)>::empty());
        witness_set_hashes(&mut plutus, &tx.plutus_script_hashes);
        witness_set_hashes(&mut datums, &tx.plutus_data_hashes);

        // Redeemers
        let mut redeemers: Vec<(RedeemerTag, u32)> = Vec::new();
        let n = tx.redeemers.len();
        let mut i: usize = 0;
        assert(tx.redeemers@.take(0) =~= Seq::<(RedeemerTag, u64)>::empty());
        while i < n
            invariant
                n == tx.redeemers@.len(),
                i <= n,
                redeemers@ == provided_redeemers_spec(tx.redeemers@.take(i as int)),
            decreases n - i,
        {
            proof {
                assert(tx.redeemers@.take(i + 1).drop_last() =~= tx.redeemers@.take(i as int));
                assert(tx.redeemers@.take(i + 1).last() == tx.redeemers@[i as int]);
            }
            let (tag, index) = tx.redeemers[i];
            let ghost prev = redeemers@;
            if index <= 0xffff_ffff {
                redeemers.push((tag, index as u32));
                assert(redeemers@ =~= prev + seq![(tag, index as u32)]);
            } else {
                assert(redeemers@ =~= prev + Seq::<(RedeemerTag, u32)>::empty());
            }
            i += 1;
        }
        assert(tx.redeemers@.take(n as int) =~= tx.redeemers@);

        // Scripts and datums of the UTxOs read by the inputs, then by the
        // reference inputs
        collect_reference_entries(ctx, &tx.inputs, &mut natives, &mut plutus, &mut datums);
        collect_reference_entries(ctx, &tx.reference_inputs, &mut natives, &mut plutus, &mut datums);
        proof {
            let u = ctx.utxo_set@;
            let read = tx.inputs@ + tx.reference_inputs@;
            lemma_reference_entries_concat(tx.inputs@, tx.reference_inputs@, u);
            assert(entries_view(natives@) =~= witness_set_entries(nh) + reference_script_entries(read, u, true));
            assert(entries_view(plutus@) =~= witness_set_entries(tx.plutus_script_hashes@.map_values(|h: Vec<u8>| h@))
                + reference_script_entries(read, u, false));
            assert(entries_view(datums@) =~= witness_set_entries(tx.plutus_data_hashes@.map_values(|h: Vec<u8>| h@))
                + reference_datum_entries(read, u));
        }
        self.provided_vkey_witnesses = keys;
        self.native_script_sources = natives;
        self.plutus_script_sources = plutus;
        self.datum_sources = datums;
        self.provided_redeemers = redeemers;
    }
}

// ---------------------------------------------------------------------------
// Keys named by native scripts, and datum hashes of outputs
// ---------------------------------------------------------------------------

/// The native script names the key hash `k` somewhere.
pub open spec fn script_has_key(s: NativeScript, k: Seq<u8>) -> bool
    decreases s,
{
    match s {
        NativeScript::ScriptPubkey(h) => h@ == k,
        NativeScript::ScriptAll(ch) => exists|i: int| 0 <= i < ch.len() && script_has_key(#[trigger] ch@[i], k),
        NativeScript::ScriptAny(ch) => exists|i: int| 0 <= i < ch.len() && script_has_key(#[trigger] ch@[i], k),
        NativeScript::ScriptNOfK(_, ch) => exists|i: int| 0 <= i < ch.len() && script_has_key(#[trigger] ch@[i], k),
        _ => false,
    }
}

/// The byte strings as a set.
pub open spec fn key_set(v: Seq<Vec<u8>>) -> Set<Seq<u8>> {
    Set::new(|k: Seq<u8>| exists|i: int| 0 <= i < v.len() && (#[trigger] v[i])@ == k)
}

/// No byte string occurs twice.
pub open spec fn no_duplicates(v: Seq<Vec<u8>>) -> bool {
    forall|i: int, j: int| 0 <= i < j < v.len() ==> (#[trigger] v[i])@ != (#[trigger] v[j])@
}

/// Adds a key to a set held without duplicates.
fn insert_key(keys: &mut Vec<Vec<u8>>, key: Vec<u8>)
    ensures
        key_set(final(keys)@) == key_set(old(keys)@).insert(key@),
        no_duplicates(old(keys)@) ==> no_duplicates(final(keys)@),
{
    let ghost prev = keys@;
    if !keys_contain(keys, &key) {
        keys.push(key);
        assert(forall|i: int| 0 <= i < prev.len() ==> keys@[i] == prev[i]);
        assert forall|k: Seq<u8>| key_set(keys@).contains(k) == key_set(prev).insert(key@).contains(k) by {
            if key_set(keys@).contains(k) {
                let i = choose|i: int| 0 <= i < keys@.len() && (#[trigger] keys@[i])@ == k;
                if i < prev.len() {
                    assert(prev[i]@ == k);
                }
            }
            if key_set(prev).contains(k) {
                let i = choose|i: int| 0 <= i < prev.len() && (#[trigger] prev[i])@ == k;
                assert(keys@[i]@ == k);
            }
            if k == key@ {
                assert(keys@[prev.len() as int]@ == k);
            }
        }
        assert(key_set(keys@) =~= key_set(prev).insert(key@));
        assert(!prev.map_values(|k: Vec<u8>| k@).contains(key@));
        assert forall|i: int| 0 <= i < prev.len() implies prev[i]@ != key@ by {
            assert(prev.map_values(|k: Vec<u8>| k@)[i] == prev[i]@);
        }
    } else {
        let ghost pv = prev.map_values(|k: Vec<u8>| k@);
        assert(pv.contains(key@));
        let ghost j = choose|j: int| 0 <= j < pv.len() && #[trigger] pv[j] == key@;
        assert(prev[j]@ == key@);
        assert(key_set(keys@) =~= key_set(prev).insert(key@));
    }
}

/// Adds the key hashes named by a native script.
fn get_native_script_key_hashes_internal(native_script: &NativeScript, key_hashes: &mut Vec<Vec<u8>>)
    ensures
        key_set(final(key_hashes)@) == key_set(old(key_hashes)@).union(
            Set::new(|k: Seq<u8>| script_has_key(*native_script, k)),
        ),
        no_duplicates(old(key_hashes)@) ==> no_duplicates(final(key_hashes)@),
    decreases native_script,
{
    let ghost start = key_set(key_hashes@);
    let ghost dup_free = no_duplicates(key_hashes@);
    match native_script {
        NativeScript::ScriptPubkey(key_hash) => {
            insert_key(key_hashes, copy_bytes(key_hash));
            assert(key_set(key_hashes@) =~= start.union(Set::new(|k: Seq<u8>| script_has_key(*native_script, k))));
        },
        NativeScript::ScriptAll(scripts) | NativeScript::ScriptAny(scripts) | NativeScript::ScriptNOfK(_, scripts) => {
            let n = scripts.len();
            let mut i: usize = 0;
            assert(key_set(key_hashes@) =~= start.union(
                Set::new(|k: Seq<u8>| exists|j: int| 0 <= j < 0 && script_has_key(#[trigger] scripts@[j], k)),
            ));
            while i < n
                invariant
                    n == scripts@.len(),
                    i <= n,
                    match *native_script {
                        NativeScript::ScriptAll(c) => c == *scripts,
                        NativeScript::ScriptAny(c) => c == *scripts,
                        NativeScript::ScriptNOfK(_, c) => c == *scripts,
                        _ => false,
                    },
                    key_set(key_hashes@) =~= start.union(
                        Set::new(|k: Seq<u8>| exists|j: int| 0 <= j < i && script_has_key(#[trigger] scripts@[j], k)),
                    ),
                    dup_free ==> no_duplicates(key_hashes@),
                decreases n - i,
            {
                let ghost before = key_set(key_hashes@);
                get_native_script_key_hashes_internal(&scripts[i], key_hashes);
                assert forall|k: Seq<u8>|
                    (exists|j: int| 0 <= j < i + 1 && script_has_key(#[trigger] scripts@[j], k)) == ((exists|j: int|
                        0 <= j < i && script_has_key(#[trigger] scripts@[j], k)) || script_has_key(scripts@[i as int], k)) by {
                    if exists|j: int| 0 <= j < i + 1 && script_has_key(#[trigger] scripts@[j], k) {
                        let j = choose|j: int| 0 <= j < i + 1 && script_has_key(#[trigger] scripts@[j], k);
                        if j < i {
                        }
                    }
                }
                i += 1;
            }
            assert(Set::new(|k: Seq<u8>| exists|j: int| 0 <= j < n && script_has_key(#[trigger] scripts@[j], k))
                =~= Set::new(|k: Seq<u8>| script_has_key(*native_script, k)));
        },
        NativeScript::TimelockStart(_) | NativeScript::TimelockExpiry(_) => {
            assert(key_set(key_hashes@) =~= start.union(Set::new(|k: Seq<u8>| script_has_key(*native_script, k))));
        },
    }
}

/// The key hashes a native script names, each once.
pub fn get_native_script_key_hashes(native_script: &NativeScript) -> (r: Vec<Vec<u8>>)
    ensures
        key_set(r@) == Set::new(|k: Seq<u8>| script_has_key(*native_script, k)),
        no_duplicates(r@),
{
    let mut key_hashes: Vec<Vec<u8>> = Vec::new();
    assert(key_set(key_hashes@) =~= Set::<Seq<u8>>::empty());
    get_native_script_key_hashes_internal(native_script, &mut key_hashes);
    assert(key_set(key_hashes@) =~= Set::new(|k: Seq<u8>| script_has_key(*native_script, k)));
    key_hashes
}

/// The first of the scripts with hash `h`.
pub open spec fn script_with_hash(ws: Seq<NativeScriptWitness>, h: Seq<u8>) -> Option<NativeScript>
    decreases ws.len(),
{
    if ws.len() == 0 {
        None
    } else if ws[0].hash@ == h {
        Some(ws[0].script)
    } else {
        script_with_hash(ws.drop_first(), h)
    }
}

/// The source of the last entry for `h` (the one a map keeps).
pub open spec fn last_source(entries: Seq<(Seq<u8>, WitnessSource)>, h: Seq<u8>) -> Option<WitnessSource>
    decreases entries.len(),
{
    if entries.len() == 0 {
        None
    } else if entries.last().0 == h {
        Some(entries.last().1)
    } else {
        last_source(entries.drop_last(), h)
    }
}

/// Some script with hash `h` names `k`.
pub open spec fn found_script_has_key(s: Option<NativeScript>, k: Seq<u8>) -> bool {
    match s {
        Some(script) => script_has_key(script, k),
        None => false,
    }
}

/// The required native script `h` names key `k`: the witness set's script
/// with that hash does, or, when the script comes from a reference input
/// whose UTxO holds it, the referenced script does.
pub open spec fn candidate_key(
    tx: &WitnessTxFacts,
    sources: Seq<(Seq<u8>, WitnessSource)>,
    utxos: Seq<UtxoInputContext>,
    h: Seq<u8>,
    k: Seq<u8>,
) -> bool {
    ||| found_script_has_key(script_with_hash(tx.native_scripts@, h), k)
    ||| match last_source(sources, h) {
        Some(WitnessSource::ReferenceInput(input)) => utxo_script_ref(input, utxos) == Some((true, h))
            && found_script_has_key(script_with_hash(tx.reference_native_scripts@, h), k),
        _ => false,
    }
}

/// The keys named by the required native scripts.
pub open spec fn candidate_keys(
    tx: &WitnessTxFacts,
    sources: Seq<(Seq<u8>, WitnessSource)>,
    utxos: Seq<UtxoInputContext>,
    required: Seq<(Seq<u8>, Seq<char>, u32)>,
) -> Set<Seq<u8>> {
    Set::new(|k: Seq<u8>| exists|i: int| 0 <= i < required.len() && candidate_key(tx, sources, utxos, (#[trigger] required[i]).0, k))
}

fn find_script_with_hash<'b>(ws: &'b Vec<NativeScriptWitness>, h: &Vec<u8>) -> (r: Option<&'b NativeScript>)
    ensures
        match r {
            Some(s) => script_with_hash(ws@, h@) == Some(*s),
            None => script_with_hash(ws@, h@) is None,
        },
{
    let n = ws.len();
    let mut i: usize = 0;
    assert(ws@.skip(0) =~= ws@);
    while i < n
        invariant
            n == ws@.len(),
            i <= n,
            script_with_hash(ws@, h@) == script_with_hash(ws@.skip(i as int), h@),
        decreases n - i,
    {
        assert(ws@.skip(i as int).drop_first() =~= ws@.skip(i + 1));
        assert(ws@.skip(i as int)[0] == ws@[i as int]);
        if bytes_equal(ws[i].hash.as_slice(), h.as_slice()) {
            return Some(&ws[i].script);
        }
        i += 1;
    }
    None
}

fn find_last_source<'b>(entries: &'b Vec<(Vec<u8>, WitnessSource)>, h: &Vec<u8>) -> (r: Option<&'b WitnessSource>)
    ensures
        match r {
            Some(s) => last_source(entries_view(entries@), h@) == Some(*s),
            None => last_source(entries_view(entries@), h@) is None,
        },
{
    let ghost ev = entries_view(entries@);
    let mut i: usize = entries.len();
    assert(ev.take(i as int) =~= ev);
    while i > 0
        invariant
            i <= entries@.len(),
            ev == entries_view(entries@),
            last_source(ev, h@) == last_source(ev.take(i as int), h@),
        decreases i,
    {
        assert(ev.take(i as int).drop_last() =~= ev.take(i - 1));
        assert(ev.take(i as int).last() == ev[i - 1]);
        if bytes_equal(entries[i - 1].0.as_slice(), h.as_slice()) {
            return Some(&entries[i - 1].1);
        }
        i -= 1;
    }
    None
}

/// Adds each key of `keys` to a set held without duplicates.
fn insert_keys(set: &mut Vec<Vec<u8>>, keys: Vec<Vec<u8>>)
    ensures
        key_set(final(set)@) == key_set(old(set)@).union(key_set(keys@)),
        no_duplicates(old(set)@) ==> no_duplicates(final(set)@),
{
    let ghost start = key_set(set@);
    let ghost dup_free = no_duplicates(set@);
    let n = keys.len();
    let mut i: usize = 0;
    assert(key_set(keys@.take(0)) =~= Set::<Seq<u8>>::empty());
    assert(key_set(set@) =~= start.union(key_set(keys@.take(0))));
    while i < n
        invariant
            n == keys@.len(),
            i <= n,
            key_set(set@) == start.union(key_set(keys@.take(i as int))),
            dup_free ==> no_duplicates(set@),
        decreases n - i,
    {
        insert_key(set, copy_bytes(&keys[i]));
        assert(key_set(keys@.take(i + 1)) =~= key_set(keys@.take(i as int)).insert(keys@[i as int]@)) by {
            assert forall|k: Seq<u8>| key_set(keys@.take(i + 1)).contains(k) implies key_set(keys@.take(i as int)).insert(keys@[i as int]@).contains(k) by {
                let j = choose|j: int| 0 <= j < keys@.take(i + 1).len() && (#[trigger] keys@.take(i + 1)[j])@ == k;
                if j < i {
                    assert(keys@.take(i as int)[j] == keys@.take(i + 1)[j]);
                }
            }
            assert forall|k: Seq<u8>| key_set(keys@.take(i as int)).insert(keys@[i as int]@).contains(k) implies key_set(keys@.take(i + 1)).contains(k) by {
                if k == keys@[i as int]@ {
                    assert(keys@.take(i + 1)[i as int] == keys@[i as int]);
                } else {
                    let j = choose|j: int| 0 <= j < keys@.take(i as int).len() && (#[trigger] keys@.take(i as int)[j])@ == k;
                    assert(keys@.take(i + 1)[j] == keys@.take(i as int)[j]);
                }
            }
        }
        assert(key_set(set@) =~= start.union(key_set(keys@.take(i + 1))));
        i += 1;
    }
    assert(keys@.take(n as int) =~= keys@);
}

/// The optional hash is present and equal to `h`.
pub open spec fn holds_hash(o: Option<Vec<u8>>, h: Seq<u8>) -> bool {
    match o {
        Some(d) => d@ == h,
        None => false,
    }
}

/// The datum hashes of the outputs.
pub open spec fn output_datum_set(hashes: Seq<Option<Vec<u8>>>) -> Set<Seq<u8>> {
    Set::new(|h: Seq<u8>| exists|i: int| 0 <= i < hashes.len() && holds_hash(#[trigger] hashes[i], h))
}

impl<'a> WitnessValidator<'a> {
    /// Collects the keys named by the required native scripts.
    fn collect_native_scripts_signature_candidates(&mut self, tx: &WitnessTxFacts)
        ensures
            key_set(final(self).native_scripts_signature_candidates@) == key_set(
                old(self).native_scripts_signature_candidates@,
            ).union(
                candidate_keys(
                    tx,
                    entries_view(old(self).native_script_sources@),
                    old(self).validation_input_context.utxo_set@,
                    old(self).requirements().natives,
                ),
            ),
            no_duplicates(old(self).native_scripts_signature_candidates@) ==> no_duplicates(
                final(self).native_scripts_signature_candidates@,
            ),
            final(self).requirements() == old(self).requirements(),
            final(self).native_script_sources == old(self).native_script_sources,
            final(self).plutus_script_sources == old(self).plutus_script_sources,
            final(self).datum_sources == old(self).datum_sources,
            final(self).provided_vkey_witnesses == old(self).provided_vkey_witnesses,
            final(self).provided_redeemers == old(self).provided_redeemers,
            final(self).output_datums_hashes == old(self).output_datums_hashes,
            final(self).validation_input_context == old(self).validation_input_context,
    {
        let ctx = self.validation_input_context;
        let ghost utxos = ctx.utxo_set@;
        let ghost sources = entries_view(self.native_script_sources@);
        let ghost req = self.requirements().natives;
        let mut candidates: Vec<Vec<u8>> = Vec::new();
        std::mem::swap(&mut candidates, &mut self.native_scripts_signature_candidates);
        let ghost start = key_set(candidates@);
        let ghost dup_free = no_duplicates(candidates@);
        let n = self.required_native_script_witnesses.len();
        let mut i: usize = 0;
        assert(key_set(candidates@) =~= start.union(candidate_keys(tx, sources, utxos, req.take(0))));
        while i < n
            invariant
                n == req.len(),
                i <= n,
                ctx == self.validation_input_context,
                utxos == ctx.utxo_set@,
                sources == entries_view(self.native_script_sources@),
                req == self.requirements().natives,
                key_set(candidates@) == start.union(candidate_keys(tx, sources, utxos, req.take(i as int))),
                dup_free ==> no_duplicates(candidates@),
            decreases n - i,
        {
            let script_hash = &self.required_native_script_witnesses[i].script_hash;
            let ghost h = script_hash@;
            assert(req[i as int].0 == h);
            let ghost before = key_set(candidates@);
            match find_script_with_hash(&tx.native_scripts, script_hash) {
                Some(native_script) => {
                    let key_hashes = get_native_script_key_hashes(native_script);
                    insert_keys(&mut candidates, key_hashes);
                },
                None => {},
            }
            let ghost mid = key_set(candidates@);
            let mut from_reference = false;
            match find_last_source(&self.native_script_sources, script_hash) {
                Some(WitnessSource::ReferenceInput(ref_input)) => {
                    match ctx.find_utxo(ref_input.tx_hash.clone(), ref_input.output_index) {
                        Some(utxo) => {
                            if let Some(script_ref_hex) = &utxo.utxo.output.script_ref {
                                if let Ok(script_ref_bytes) = crate::text::decode_hex(script_ref_hex.as_str()) {
                                    if let Some((true, hash)) = read_script_ref(script_ref_bytes) {
                                        if bytes_equal(hash.as_slice(), script_hash.as_slice()) {
                                            from_reference = true;
                                            match find_script_with_hash(&tx.reference_native_scripts, script_hash) {
                                                Some(native_script) => {
                                                    let key_hashes = get_native_script_key_hashes(native_script);
                                                    insert_keys(&mut candidates, key_hashes);
                                                },
                                                None => {},
                                            }
                                        }
                                    }
                                }
                            }
                        },
                        None => {},
                    }
                },
                _ => {},
            }
            proof {
                assert(mid == before.union(Set::new(|k: Seq<u8>| found_script_has_key(script_with_hash(tx.native_scripts@, h), k))));
                assert(from_reference == match last_source(sources, h) {
                    Some(WitnessSource::ReferenceInput(input)) => utxo_script_ref(input, utxos) == Some((true, h)),
                    _ => false,
                });
                assert(key_set(candidates@) =~= before.union(Set::new(|k: Seq<u8>| candidate_key(tx, sources, utxos, h, k))));
                assert(candidate_keys(tx, sources, utxos, req.take(i + 1)) =~= candidate_keys(tx, sources, utxos, req.take(i as int)).union(
                    Set::new(|k: Seq<u8>| candidate_key(tx, sources, utxos, h, k)),
                )) by {
                    assert forall|k: Seq<u8>| #[trigger] candidate_keys(tx, sources, utxos, req.take(i + 1)).contains(k) implies candidate_keys(tx, sources, utxos, req.take(i as int)).contains(k) || candidate_key(tx, sources, utxos, h, k) by {
                        let j = choose|j: int| 0 <= j < req.take(i + 1).len() && candidate_key(tx, sources, utxos, (#[trigger] req.take(i + 1)[j]).0, k);
                        if j < i {
                            assert(req.take(i as int)[j] == req.take(i + 1)[j]);
                        }
                    }
                    assert forall|k: Seq<u8>| candidate_keys(tx, sources, utxos, req.take(i as int)).contains(k) implies #[trigger] candidate_keys(tx, sources, utxos, req.take(i + 1)).contains(k) by {
                        let j = choose|j: int| 0 <= j < req.take(i as int).len() && candidate_key(tx, sources, utxos, (#[trigger] req.take(i as int)[j]).0, k);
                        assert(req.take(i + 1)[j] == req.take(i as int)[j]);
                    }
                    assert forall|k: Seq<u8>| candidate_key(tx, sources, utxos, h, k) implies #[trigger] candidate_keys(tx, sources, utxos, req.take(i + 1)).contains(k) by {
                        assert(req.take(i + 1)[i as int] == req[i as int]);
                    }
                }
            }
            i += 1;
        }
        assert(req.take(n as int) =~= req);
        std::mem::swap(&mut candidates, &mut self.native_scripts_signature_candidates);
    }

    /// Collects the datum hashes of the outputs.
    fn collect_output_datums_hashes(&mut self, tx: &WitnessTxFacts)
        ensures
            key_set(final(self).output_datums_hashes@) == key_set(old(self).output_datums_hashes@).union(
                output_datum_set(tx.output_datum_hashes@),
            ),
            no_duplicates(old(self).output_datums_hashes@) ==> no_duplicates(final(self).output_datums_hashes@),
            final(self).requirements() == old(self).requirements(),
            final(self).native_script_sources == old(self).native_script_sources,
            final(self).plutus_script_sources == old(self).plutus_script_sources,
            final(self).datum_sources == old(self).datum_sources,
            final(self).provided_vkey_witnesses == old(self).provided_vkey_witnesses,
            final(self).provided_redeemers == old(self).provided_redeemers,
            final(self).native_scripts_signature_candidates == old(self).native_scripts_signature_candidates,
            final(self).validation_input_context == old(self).validation_input_context,
    {
        let mut hashes: Vec<Vec<u8>> = Vec::new();
        std::mem::swap(&mut hashes, &mut self.output_datums_hashes);
        let ghost start = key_set(hashes@);
        let ghost dup_free = no_duplicates(hashes@);
        let outputs = &tx.output_datum_hashes;
        let n = outputs.len();
        let mut i: usize = 0;
        assert(output_datum_set(outputs@.take(0)) =~= Set::<Seq<u8>>::empty());
        assert(key_set(hashes@) =~= start.union(output_datum_set(outputs@.take(0))));
        while i < n
            invariant
                n == outputs@.len(),
                i <= n,
                key_set(hashes@) == start.union(output_datum_set(outputs@.take(i as int))),
                dup_free ==> no_duplicates(hashes@),
            decreases n - i,
        {
            let ghost before = outputs@.take(i as int);
            let ghost after = outputs@.take(i + 1);
            assert forall|j: int| 0 <= j < i implies after[j] == before[j] by {}
            assert(after[i as int] == outputs@[i as int]);
            match &outputs[i] {
                Some(datum_hash) => {
                    insert_key(&mut hashes, copy_bytes(datum_hash));
                    assert(output_datum_set(after) =~= output_datum_set(before).insert(datum_hash@)) by {
                        assert forall|h: Seq<u8>| #[trigger] output_datum_set(after).contains(h) implies output_datum_set(before).insert(datum_hash@).contains(h) by {
                            let j = choose|j: int| 0 <= j < after.len() && holds_hash(#[trigger] after[j], h);
                            if j < i {
                                assert(before[j] == after[j]);
                            }
                        }
                        assert forall|h: Seq<u8>| output_datum_set(before).insert(datum_hash@).contains(h) implies #[trigger] output_datum_set(after).contains(h) by {
                            if h != datum_hash@ {
                                let j = choose|j: int| 0 <= j < before.len() && holds_hash(#[trigger] before[j], h);
                                assert(after[j] == before[j]);
                            }
                        }
                    }
                    assert(key_set(hashes@) =~= start.union(output_datum_set(after)));
                },
                None => {
                    assert(output_datum_set(after) =~= output_datum_set(before)) by {
                        assert forall|h: Seq<u8>| #[trigger] output_datum_set(after).contains(h) implies output_datum_set(before).contains(h) by {
                            let j = choose|j: int| 0 <= j < after.len() && holds_hash(#[trigger] after[j], h);
                            if j < i {
                                assert(before[j] == after[j]);
                            }
                        }
                        assert forall|h: Seq<u8>| output_datum_set(before).contains(h) implies #[trigger] output_datum_set(after).contains(h) by {
                            let j = choose|j: int| 0 <= j < before.len() && holds_hash(#[trigger] before[j], h);
                            assert(after[j] == before[j]);
                        }
                    }
                },
            }
            i += 1;
        }
        assert(outputs@.take(n as int) =~= outputs@);
        std::mem::swap(&mut hashes, &mut self.output_datums_hashes);
    }
}

/// No witness required yet.
pub open spec fn no_requirements() -> RequirementsView {
    RequirementsView {
        vkeys: Seq::empty(),
        natives: Seq::empty(),
        plutus: Seq::empty(),
        redeemers: Seq::empty(),
        datums: Seq::empty(),
        unknown: Seq::empty(),
    }
}

impl<'a> WitnessValidator<'a> {
    /// Collects what the transaction provides, what it requires (in the
    /// order of the rules, with the kind of each script decided by what is
    /// provided), the keys named by the required native scripts, and the
    /// datum hashes of the outputs.
    pub fn new(tx: &'a WitnessTxFacts, validation_input_context: &'a ValidationInputContext) -> (r: Self)
        requires
            witness_keys_wf(tx),
        ensures
            r.validation_input_context == validation_input_context,
            r.transaction == tx,
            provided_spec(&r, tx),
            r.requirements() == apply_all(
                no_requirements(),
                all_events(tx, validation_input_context.utxo_set@),
                r.native_keys(),
                r.plutus_keys(),
            ),
            key_set(r.native_scripts_signature_candidates@) == candidate_keys(
                tx,
                entries_view(r.native_script_sources@),
                validation_input_context.utxo_set@,
                r.requirements().natives,
            ),
            no_duplicates(r.native_scripts_signature_candidates@),
            key_set(r.output_datums_hashes@) == output_datum_set(tx.output_datum_hashes@),
            no_duplicates(r.output_datums_hashes@),
    {
        let mut context = WitnessValidator {
            required_vkey_witnesses: Vec::new(),
            required_native_script_witnesses: Vec::new(),
            required_plutus_script_witnesses: Vec::new(),
            required_redeemer_witnesses: Vec::new(),
            required_datum_witnesses: Vec::new(),
            required_unknown_script_witnesses: Vec::new(),
            provided_vkey_witnesses: Vec::new(),
            native_script_sources: Vec::new(),
            native_scripts_signature_candidates: Vec::new(),
            plutus_script_sources: Vec::new(),
            datum_sources: Vec::new(),
            output_datums_hashes: Vec::new(),
            provided_redeemers: Vec::new(),
            validation_input_context,
            transaction: tx,
        };
        assert(context.requirements().vkeys =~= no_requirements().vkeys);
        assert(context.requirements().natives =~= no_requirements().natives);
        assert(context.requirements().plutus =~= no_requirements().plutus);
        assert(context.requirements().redeemers =~= no_requirements().redeemers);
        assert(context.requirements().datums =~= no_requirements().datums);
        assert(context.requirements().unknown =~= no_requirements().unknown);
        assert(key_set(context.native_scripts_signature_candidates@) =~= Set::<Seq<u8>>::empty());
        assert(key_set(context.output_datums_hashes@) =~= Set::<Seq<u8>>::empty());

        // Collect all provided witnesses
        context.collect_provided_witnesses(tx);

        // Collect all required witnesses
        context.collect_required_witnesses(tx);

        // Fill native_scripts_signature_candidates
        context.collect_native_scripts_signature_candidates(tx);

        context.collect_output_datums_hashes(tx);

        assert(key_set(context.native_scripts_signature_candidates@) =~= candidate_keys(
            tx,
            entries_view(context.native_script_sources@),
            validation_input_context.utxo_set@,
            context.requirements().natives,
        ));
        assert(key_set(context.output_datums_hashes@) =~= output_datum_set(tx.output_datum_hashes@));
        context.transaction = tx;
        context
    }
}

// ---------------------------------------------------------------------------
// Laws
// ---------------------------------------------------------------------------

/// No signature is reported missing exactly when every required key hash is
/// among the provided ones.
pub proof fn law_no_key_error_iff_all_signed(req: Seq<(Seq<u8>, Seq<char>, u32)>, provided: Seq<Seq<u8>>)
    ensures
        key_errors(req, provided).len() == 0 <==> forall|i: int| 0 <= i < req.len() ==> provided.contains(
            #[trigger] req[i].0,
        ),
    decreases req.len(),
{
    if req.len() > 0 {
        law_no_key_error_iff_all_signed(req.drop_last(), provided);
        assert forall|i: int| 0 <= i < req.len() - 1 implies req.drop_last()[i] == req[i] by {}
        if forall|i: int| 0 <= i < req.len() ==> provided.contains(#[trigger] req[i].0) {
            assert(provided.contains(req[req.len() - 1].0));
        }
    }
}

/// No script or datum is reported missing exactly when every required hash
/// is provided.
pub proof fn law_no_hash_error_iff_all_provided(req: Seq<(Seq<u8>, Seq<char>, u32)>, present: Set<Seq<u8>>)
    ensures
        hash_errors(req, present).len() == 0 <==> forall|i: int| 0 <= i < req.len() ==> present.contains(
            #[trigger] req[i].0,
        ),
    decreases req.len(),
{
    if req.len() > 0 {
        law_no_hash_error_iff_all_provided(req.drop_last(), present);
        assert forall|i: int| 0 <= i < req.len() - 1 implies req.drop_last()[i] == req[i] by {}
        if forall|i: int| 0 <= i < req.len() ==> present.contains(#[trigger] req[i].0) {
            assert(present.contains(req[req.len() - 1].0));
        }
    }
}

/// A script is required as native only when a native script with its hash
/// is provided, and as Plutus only when a Plutus script with its hash is,
/// so neither is ever reported missing.
pub proof fn law_required_scripts_are_provided(
    es: Seq<RequirementEvent>,
    natives: Set<Seq<u8>>,
    plutus: Set<Seq<u8>>,
)
    ensures
        forall|i: int|
            0 <= i < apply_all(no_requirements(), es, natives, plutus).natives.len() ==> natives.contains(
                (#[trigger] apply_all(no_requirements(), es, natives, plutus).natives[i]).0,
            ),
        forall|i: int|
            0 <= i < apply_all(no_requirements(), es, natives, plutus).plutus.len() ==> plutus.contains(
                (#[trigger] apply_all(no_requirements(), es, natives, plutus).plutus[i]).0,
            ),
        hash_errors(apply_all(no_requirements(), es, natives, plutus).natives, natives).len() == 0,
        hash_errors(apply_all(no_requirements(), es, natives, plutus).plutus, plutus).len() == 0,
    decreases es.len(),
{
    let st = apply_all(no_requirements(), es, natives, plutus);
    if es.len() > 0 {
        law_required_scripts_are_provided(es.drop_last(), natives, plutus);
        let prev = apply_all(no_requirements(), es.drop_last(), natives, plutus);
        assert forall|i: int| 0 <= i < st.natives.len() implies natives.contains((#[trigger] st.natives[i]).0) by {
            if i < prev.natives.len() {
                assert(st.natives[i] == prev.natives[i]);
            }
        }
        assert forall|i: int| 0 <= i < st.plutus.len() implies plutus.contains((#[trigger] st.plutus[i]).0) by {
            if i < prev.plutus.len() {
                assert(st.plutus[i] == prev.plutus[i]);
            }
        }
    }
    law_no_hash_error_iff_all_provided(st.natives, natives);
    law_no_hash_error_iff_all_provided(st.plutus, plutus);
}

/// The extraneous scripts are the hex of exactly the provided hashes that
/// nothing requires (besides those already listed), each once.
pub proof fn law_extraneous_are_unrequired_provided(
    acc: Seq<Seq<char>>,
    entries: Seq<(Seq<u8>, WitnessSource)>,
    required: Set<Seq<u8>>,
    t: Seq<char>,
)
    requires
        forall|i: int, j: int| 0 <= i < j < acc.len() ==> acc[i] != acc[j],
    ensures
        extraneous_from(acc, entries, required).contains(t) <==> (acc.contains(t) || exists|i: int|
            0 <= i < entries.len() && !required.contains(#[trigger] entries[i].0) && hex_encode_spec(entries[i].0)
                == t),
        forall|i: int, j: int|
            0 <= i < j < extraneous_from(acc, entries, required).len() ==> extraneous_from(acc, entries, required)[i]
                != extraneous_from(acc, entries, required)[j],
    decreases entries.len(),
{
    if entries.len() > 0 {
        law_extraneous_are_unrequired_provided(acc, entries.drop_last(), required, t);
        let prev = extraneous_from(acc, entries.drop_last(), required);
        let h = entries.last().0;
        assert forall|i: int| 0 <= i < entries.len() - 1 implies entries.drop_last()[i] == entries[i] by {}
        if exists|i: int| 0 <= i < entries.len() && !required.contains(#[trigger] entries[i].0) && hex_encode_spec(entries[i].0) == t {
            let i = choose|i: int| 0 <= i < entries.len() && !required.contains(#[trigger] entries[i].0) && hex_encode_spec(entries[i].0) == t;
            if i < entries.len() - 1 {
                assert(entries.drop_last()[i] == entries[i]);
            }
        }
        if !required.contains(h) && !prev.contains(hex_encode_spec(h)) {
            assert(prev.push(hex_encode_spec(h))[prev.len() as int] == hex_encode_spec(h));
            assert forall|i: int| 0 <= i < prev.len() implies prev.push(hex_encode_spec(h))[i] == prev[i] by {}
            if prev.push(hex_encode_spec(h)).contains(t) && t != hex_encode_spec(h) {
                let k = choose|k: int| 0 <= k < prev.push(hex_encode_spec(h)).len() && prev.push(hex_encode_spec(h))[k] == t;
                assert(prev[k] == t);
            }
            if prev.contains(t) {
                let k = choose|k: int| 0 <= k < prev.len() && prev[k] == t;
                assert(prev.push(hex_encode_spec(h))[k] == t);
            }
            assert(entries[entries.len() - 1].0 == h);
        } else {
            assert(entries[entries.len() - 1].0 == h);
            if !required.contains(h) && t == hex_encode_spec(h) {
                assert(prev.contains(t));
            }
        }
    } else {
        assert(extraneous_from(acc, entries, required) == acc);
    }
}

} // verus!
