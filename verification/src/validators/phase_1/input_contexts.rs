//! What the validators know of the chain: UTxOs, accounts, DReps, pools,
//! governance actions and the constitutional committee.
use vstd::prelude::*;

use crate::common::{TxInput, UTxO};
use crate::validators::phase_1::common::{
    action_id_view, credential_view, same_action_id, same_credential, GovernanceActionId,
    GovernanceActionType, LocalCredential, NetworkType,
};
use crate::validators::phase_1::protocol_params::ProtocolParameters;

verus! {

#[derive(Debug, Clone, PartialEq, Eq, Hash)]
pub struct NecessaryInputData {
    pub utxos: Vec<TxInput>,
    pub accounts: Vec<String>,
    pub pools: Vec<String>,
    pub d_reps: Vec<String>,
    pub gov_actions: Vec<GovernanceActionId>,
    pub last_enacted_gov_action: Vec<GovernanceActionType>,
    pub committee_members: Vec<LocalCredential>,
}

#[derive(Debug, Clone)]
pub struct GovActionInputContext {
    pub action_id: GovernanceActionId,
    pub action_type: GovernanceActionType,
    pub is_active: bool,
}

#[derive(Debug, Clone)]
pub struct DrepInputContext {
    pub bech32_drep: String,
    pub is_registered: bool,
    pub payed_deposit: Option<u64>,
}

#[derive(Debug, Clone)]
pub struct AccountInputContext {
    pub bech32_address: String,
    pub is_registered: bool,
    pub payed_deposit: Option<u64>,
    pub delegated_to_drep: Option<String>,
    pub delegated_to_pool: Option<String>,
    pub balance: Option<u64>,
}

#[derive(Debug, Clone)]
pub struct PoolInputContext {
    pub pool_id: String,
    pub is_registered: bool,
    pub retirement_epoch: Option<u64>,
}

#[derive(Debug, Clone, Eq, PartialEq, Hash)]
pub struct UtxoInputContext {
    pub utxo: UTxO,
    pub is_spent: bool,
}

#[derive(Debug, Clone)]
pub struct CommitteeInputContext {
    pub active_committee_members: Vec<LocalCredential>,
    pub potential_committee_members: Vec<LocalCredential>,
    pub resigned_committee_members: Vec<LocalCredential>,
}

#[derive(Debug, Clone)]
pub struct ValidationInputContext {
    pub utxo_set: Vec<UtxoInputContext>,
    pub protocol_parameters: ProtocolParameters,
    pub slot: u64,
    pub account_contexts: Vec<AccountInputContext>,
    pub drep_contexts: Vec<DrepInputContext>,
    pub pool_contexts: Vec<PoolInputContext>,
    pub gov_action_contexts: Vec<GovActionInputContext>,
    pub last_enacted_gov_action: Vec<GovActionInputContext>,
    pub committee_context: CommitteeInputContext,
    pub treasury_value: u64,
    pub network_type: NetworkType,
}

/// The UTxO entry refers to output `index` of transaction `hash`.
pub open spec fn utxo_matches(u: UtxoInputContext, hash: Seq<char>, index: u32) -> bool {
    u.utxo.input.tx_hash@ == hash && u.utxo.input.output_index == index
}

/// The position of the first UTxO entry for output `index` of `hash`.
pub open spec fn is_first_utxo(s: Seq<UtxoInputContext>, hash: Seq<char>, index: u32, i: int) -> bool {
    &&& 0 <= i < s.len()
    &&& utxo_matches(s[i], hash, index)
    &&& forall|j: int| 0 <= j < i ==> !utxo_matches(s[j], hash, index)
}

/// The UTxO entry found for output `index` of `hash`, as `find_utxo` finds it.
pub open spec fn found_utxo(s: Seq<UtxoInputContext>, hash: Seq<char>, index: u32) -> Option<
    UtxoInputContext,
> {
    if exists|i: int| is_first_utxo(s, hash, index, i) {
        Some(s[choose|i: int| is_first_utxo(s, hash, index, i)])
    } else {
        None
    }
}

pub proof fn lemma_first_utxo_unique(s: Seq<UtxoInputContext>, hash: Seq<char>, index: u32, i: int, j: int)
    requires
        is_first_utxo(s, hash, index, i),
        is_first_utxo(s, hash, index, j),
    ensures
        i == j,
{
    if i < j {
        assert(!utxo_matches(s[i], hash, index));
    }
    if j < i {
        assert(!utxo_matches(s[j], hash, index));
    }
}

/// The value behind an optional reference.
pub open spec fn deref_opt<T>(o: Option<&T>) -> Option<T> {
    match o {
        Some(x) => Some(*x),
        None => None,
    }
}

/// `r` is the first element of `s` satisfying `p`, or `None` when there is none.
pub open spec fn finds_first<T>(s: Seq<T>, p: spec_fn(T) -> bool, r: Option<T>) -> bool {
    match r {
        Some(x) => exists|i: int|
            0 <= i < s.len() && x == s[i] && p(s[i]) && forall|j: int| 0 <= j < i ==> !p(s[j]),
        None => forall|i: int| 0 <= i < s.len() ==> !p(s[i]),
    }
}

/// Finding the first element is deterministic.
pub proof fn lemma_finds_first_unique<T>(s: Seq<T>, p: spec_fn(T) -> bool, r1: Option<T>, r2: Option<T>)
    requires
        finds_first(s, p, r1),
        finds_first(s, p, r2),
    ensures
        r1 == r2,
{
    match (r1, r2) {
        (Some(x), Some(y)) => {
            let i = choose|i: int|
                0 <= i < s.len() && x == s[i] && p(s[i]) && forall|j: int| 0 <= j < i ==> !p(s[j]);
            let k = choose|k: int|
                0 <= k < s.len() && y == s[k] && p(s[k]) && forall|j: int| 0 <= j < k ==> !p(s[j]);
            if i < k {
                assert(!p(s[i]));
            }
            if k < i {
                assert(!p(s[k]));
            }
        },
        (Some(x), None) => {
            let i = choose|i: int|
                0 <= i < s.len() && x == s[i] && p(s[i]) && forall|j: int| 0 <= j < i ==> !p(s[j]);
            assert(!p(s[i]));
        },
        (None, Some(y)) => {
            let k = choose|k: int|
                0 <= k < s.len() && y == s[k] && p(s[k]) && forall|j: int| 0 <= j < k ==> !p(s[j]);
            assert(!p(s[k]));
        },
        (None, None) => {},
    }
}

/// Whether `s` holds an element satisfying `p`.
pub open spec fn holds_such<T>(s: Seq<T>, p: spec_fn(T) -> bool) -> bool {
    exists|i: int| 0 <= i < s.len() && p(s[i])
}

pub open spec fn utxo_pred(hash: Seq<char>, index: u32) -> spec_fn(UtxoInputContext) -> bool {
    |u: UtxoInputContext| utxo_matches(u, hash, index)
}

pub open spec fn account_pred(address: Seq<char>) -> spec_fn(AccountInputContext) -> bool {
    |a: AccountInputContext| a.bech32_address@ == address
}

pub open spec fn drep_pred(drep: Seq<char>) -> spec_fn(DrepInputContext) -> bool {
    |d: DrepInputContext| d.bech32_drep@ == drep
}

pub open spec fn pool_pred(pool_id: Seq<char>) -> spec_fn(PoolInputContext) -> bool {
    |p: PoolInputContext| p.pool_id@ == pool_id
}

pub open spec fn action_id_pred(id: (Seq<u8>, u32)) -> spec_fn(GovActionInputContext) -> bool {
    |g: GovActionInputContext| action_id_view(g.action_id) == id
}

pub open spec fn action_type_pred(t: GovernanceActionType) -> spec_fn(GovActionInputContext) -> bool {
    |g: GovActionInputContext| g.action_type == t
}

pub open spec fn credential_pred(c: (bool, Seq<u8>)) -> spec_fn(LocalCredential) -> bool {
    |m: LocalCredential| credential_view(m) == c
}

fn find_credential<'a>(s: &'a Vec<LocalCredential>, credential: &LocalCredential) -> (r: Option<
    &'a LocalCredential,
>)
    ensures
        finds_first(s@, credential_pred(credential_view(*credential)), deref_opt(r)),
{
    let ghost p = credential_pred(credential_view(*credential));
    let n = s.len();
    let mut i: usize = 0;
    while i < n
        invariant
            n == s@.len(),
            i <= n,
            p == credential_pred(credential_view(*credential)),
            forall|j: int| 0 <= j < i ==> !p(s@[j]),
        decreases n - i,
    {
        if same_credential(&s[i], credential) {
            assert(p(s@[i as int]));
            return Some(&s[i]);
        }
        i += 1;
    }
    None
}

impl ValidationInputContext {
    pub fn new(
        utxo_set: Vec<UtxoInputContext>,
        protocol_parameters: ProtocolParameters,
        slot: u64,
        account_contexts: Vec<AccountInputContext>,
        drep_contexts: Vec<DrepInputContext>,
        pool_contexts: Vec<PoolInputContext>,
        gov_action_contexts: Vec<GovActionInputContext>,
        last_enacted_gov_action: Vec<GovActionInputContext>,
        treasury_value: u64,
        network_type: NetworkType,
        committee_context: CommitteeInputContext,
    ) -> (r: Self)
        ensures
            r.utxo_set == utxo_set,
            r.protocol_parameters == protocol_parameters,
            r.slot == slot,
            r.account_contexts == account_contexts,
            r.drep_contexts == drep_contexts,
            r.pool_contexts == pool_contexts,
            r.gov_action_contexts == gov_action_contexts,
            r.last_enacted_gov_action == last_enacted_gov_action,
            r.treasury_value == treasury_value,
            r.network_type == network_type,
            r.committee_context == committee_context,
    {
        Self {
            utxo_set,
            protocol_parameters,
            slot,
            account_contexts,
            drep_contexts,
            pool_contexts,
            gov_action_contexts,
            last_enacted_gov_action,
            treasury_value,
            network_type,
            committee_context,
        }
    }

    /// The first UTxO entry for output `tx_index` of transaction `tx_hash`.
    pub fn find_utxo(&self, tx_hash: String, tx_index: u32) -> (r: Option<&UtxoInputContext>)
        ensures
            finds_first(self.utxo_set@, utxo_pred(tx_hash@, tx_index), deref_opt(r)),
            deref_opt(r) == found_utxo(self.utxo_set@, tx_hash@, tx_index),
    {
        let ghost p = utxo_pred(tx_hash@, tx_index);
        let n = self.utxo_set.len();
        let mut i: usize = 0;
        while i < n
            invariant
                n == self.utxo_set@.len(),
                i <= n,
                p == utxo_pred(tx_hash@, tx_index),
                forall|j: int| 0 <= j < i ==> !p(self.utxo_set@[j]),
            decreases n - i,
        {
            let u = &self.utxo_set[i];
            if u.utxo.input.tx_hash == tx_hash && u.utxo.input.output_index == tx_index {
                proof {
                    assert(is_first_utxo(self.utxo_set@, tx_hash@, tx_index, i as int));
                    let c = choose|c: int| is_first_utxo(self.utxo_set@, tx_hash@, tx_index, c);
                    lemma_first_utxo_unique(self.utxo_set@, tx_hash@, tx_index, c, i as int);
                }
                return Some(u);
            }
            i += 1;
        }
        proof {
            if exists|c: int| is_first_utxo(self.utxo_set@, tx_hash@, tx_index, c) {
                let c = choose|c: int| is_first_utxo(self.utxo_set@, tx_hash@, tx_index, c);
                assert(!p(self.utxo_set@[c]));
            }
        }
        None
    }

    /// The first account with the given reward address.
    pub fn find_account_context(&self, bech32_address: &String) -> (r: Option<&AccountInputContext>)
        ensures
            finds_first(
                self.account_contexts@,
                account_pred(bech32_address@),
                deref_opt(r),
            ),
    {
        let ghost p = account_pred(bech32_address@);
        let n = self.account_contexts.len();
        let mut i: usize = 0;
        while i < n
            invariant
                n == self.account_contexts@.len(),
                i <= n,
                p == account_pred(bech32_address@),
                forall|j: int| 0 <= j < i ==> !p(self.account_contexts@[j]),
            decreases n - i,
        {
            if self.account_contexts[i].bech32_address == *bech32_address {
                assert(p(self.account_contexts@[i as int]));
                return Some(&self.account_contexts[i]);
            }
            i += 1;
        }
        None
    }

    /// The first DRep with the given identifier.
    pub fn find_drep_context(&self, bech32_drep: &String) -> (r: Option<&DrepInputContext>)
        ensures
            finds_first(self.drep_contexts@, drep_pred(bech32_drep@), deref_opt(r)),
    {
        let ghost p = drep_pred(bech32_drep@);
        let n = self.drep_contexts.len();
        let mut i: usize = 0;
        while i < n
            invariant
                n == self.drep_contexts@.len(),
                i <= n,
                p == drep_pred(bech32_drep@),
                forall|j: int| 0 <= j < i ==> !p(self.drep_contexts@[j]),
            decreases n - i,
        {
            if self.drep_contexts[i].bech32_drep == *bech32_drep {
                assert(p(self.drep_contexts@[i as int]));
                return Some(&self.drep_contexts[i]);
            }
            i += 1;
        }
        None
    }

    /// The first pool with the given id.
    pub fn find_pool_context(&self, pool_id: &String) -> (r: Option<&PoolInputContext>)
        ensures
            finds_first(self.pool_contexts@, pool_pred(pool_id@), deref_opt(r)),
    {
        let ghost p = pool_pred(pool_id@);
        let n = self.pool_contexts.len();
        let mut i: usize = 0;
        while i < n
            invariant
                n == self.pool_contexts@.len(),
                i <= n,
                p == pool_pred(pool_id@),
                forall|j: int| 0 <= j < i ==> !p(self.pool_contexts@[j]),
            decreases n - i,
        {
            if self.pool_contexts[i].pool_id == *pool_id {
                assert(p(self.pool_contexts@[i as int]));
                return Some(&self.pool_contexts[i]);
            }
            i += 1;
        }
        None
    }

    /// The first governance action with the given id.
    pub fn find_gov_action_context(&self, action_id: GovernanceActionId) -> (r: Option<
        &GovActionInputContext,
    >)
        ensures
            finds_first(
                self.gov_action_contexts@,
                action_id_pred(action_id_view(action_id)),
                deref_opt(r),
            ),
    {
        let ghost p = action_id_pred(action_id_view(action_id));
        let n = self.gov_action_contexts.len();
        let mut i: usize = 0;
        while i < n
            invariant
                n == self.gov_action_contexts@.len(),
                i <= n,
                p == action_id_pred(action_id_view(action_id)),
                forall|j: int| 0 <= j < i ==> !p(self.gov_action_contexts@[j]),
            decreases n - i,
        {
            if same_action_id(&self.gov_action_contexts[i].action_id, &action_id) {
                assert(p(self.gov_action_contexts@[i as int]));
                return Some(&self.gov_action_contexts[i]);
            }
            i += 1;
        }
        None
    }

    /// The last enacted governance action of the given kind.
    pub fn find_last_enacted_gov_action(&self, action_type: GovernanceActionType) -> (r: Option<
        &GovActionInputContext,
    >)
        ensures
            finds_first(
                self.last_enacted_gov_action@,
                action_type_pred(action_type),
                deref_opt(r),
            ),
    {
        let ghost p = action_type_pred(action_type);
        let n = self.last_enacted_gov_action.len();
        let mut i: usize = 0;
        while i < n
            invariant
                n == self.last_enacted_gov_action@.len(),
                i <= n,
                p == action_type_pred(action_type),
                forall|j: int| 0 <= j < i ==> !p(self.last_enacted_gov_action@[j]),
            decreases n - i,
        {
            if self.last_enacted_gov_action[i].action_type == action_type {
                assert(p(self.last_enacted_gov_action@[i as int]));
                return Some(&self.last_enacted_gov_action[i]);
            }
            i += 1;
        }
        None
    }

    /// The active committee member equal to `credential`.
    pub fn find_committee_member(&self, credential: &LocalCredential) -> (r: Option<&LocalCredential>)
        ensures
            finds_first(
                self.committee_context.active_committee_members@,
                credential_pred(credential_view(*credential)),
                deref_opt(r),
            ),
    {
        find_credential(&self.committee_context.active_committee_members, credential)
    }

    /// The potential committee member equal to `credential`.
    pub fn find_potential_committee_member(&self, credential: &LocalCredential) -> (r: Option<
        &LocalCredential,
    >)
        ensures
            finds_first(
                self.committee_context.potential_committee_members@,
                credential_pred(credential_view(*credential)),
                deref_opt(r),
            ),
    {
        find_credential(&self.committee_context.potential_committee_members, credential)
    }

    /// The resigned committee member equal to `credential`.
    pub fn find_resigned_committee_member(&self, credential: &LocalCredential) -> (r: Option<
        &LocalCredential,
    >)
        ensures
            finds_first(
                self.committee_context.resigned_committee_members@,
                credential_pred(credential_view(*credential)),
                deref_opt(r),
            ),
    {
        find_credential(&self.committee_context.resigned_committee_members, credential)
    }

    /// Whether `credential` is an active committee member.
    pub fn is_active_committee_member(&self, credential: &LocalCredential) -> (r: bool)
        ensures
            r == holds_such(
                self.committee_context.active_committee_members@,
                credential_pred(credential_view(*credential)),
            ),
    {
        find_credential(&self.committee_context.active_committee_members, credential).is_some()
    }

    /// Whether `credential` is a potential committee member.
    pub fn is_potential_committee_member(&self, credential: &LocalCredential) -> (r: bool)
        ensures
            r == holds_such(
                self.committee_context.potential_committee_members@,
                credential_pred(credential_view(*credential)),
            ),
    {
        find_credential(&self.committee_context.potential_committee_members, credential).is_some()
    }

    /// Whether `credential` is a resigned committee member.
    pub fn is_resigned_committee_member(&self, credential: &LocalCredential) -> (r: bool)
        ensures
            r == holds_such(
                self.committee_context.resigned_committee_members@,
                credential_pred(credential_view(*credential)),
            ),
    {
        find_credential(&self.committee_context.resigned_committee_members, credential).is_some()
    }
}

} // verus!
