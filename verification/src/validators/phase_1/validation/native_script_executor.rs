//! Evaluating a native script against a set of signers and a slot.
use vstd::prelude::*;

use crate::js_error::JsError;
use crate::validators::phase_1::common::bytes_equal;

verus! {

/// A native script: a key that must sign, a combination of scripts, or a
/// bound on the slot.
#[derive(Debug)]
pub enum NativeScript {
    ScriptPubkey(Vec<u8>),
    ScriptAll(Vec<NativeScript>),
    ScriptAny(Vec<NativeScript>),
    ScriptNOfK(u32, Vec<NativeScript>),
    TimelockStart(u64),
    TimelockExpiry(u64),
}

/// The key hashes of a list of signers.
pub open spec fn signers_view(s: Seq<Vec<u8>>) -> Seq<Seq<u8>> {
    s.map_values(|k: Vec<u8>| k@)
}

/// Evaluates one native script for given signers at a given slot.
pub struct NativeScriptExecutor<'a> {
    script: &'a NativeScript,
    signatures: &'a Vec<Vec<u8>>,
    slot: u64,
}

impl<'a> NativeScriptExecutor<'a> {
    /// The script the executor was made with.
    pub closed spec fn script(&self) -> NativeScript {
        *self.script
    }

    /// The signers' key hashes.
    pub closed spec fn signers(&self) -> Seq<Seq<u8>> {
        signers_view(self.signatures@)
    }

    /// The slot.
    pub closed spec fn current_slot(&self) -> u64 {
        self.slot
    }

    /// An executor for `script`, the key hashes that signed, and the slot.
    pub fn new(script: &'a NativeScript, signatures: &'a Vec<Vec<u8>>, slot: u64) -> (r: Self)
        ensures
            r.script() == *script,
            r.signers() == signers_view(signatures@),
            r.current_slot() == slot,
    {
        NativeScriptExecutor { script, signatures, slot }
    }

    /// Whether the script holds: every member of a combination is
    /// evaluated as a script of its own, at any depth.
    pub fn execute(&self) -> (r: Result<bool, JsError>)
        ensures
            r == Ok::<bool, JsError>(satisfied(self.script(), self.signers(), self.current_slot())),
    {
        Ok(native_script_satisfied(self.script, self.signatures, self.slot))
    }
}

/// An n-of-k combination whose n is the number of its members holds
/// exactly when the all-of combination of the same members does; with
/// n = 1, exactly when the any-of combination does; with n = 0, always.
pub proof fn law_n_of_k_extremes(ch: Vec<NativeScript>, signers: Seq<Seq<u8>>, slot: u64)
    requires
        ch@.len() <= u32::MAX,
    ensures
        satisfied(NativeScript::ScriptNOfK(ch@.len() as u32, ch), signers, slot) == satisfied(
            NativeScript::ScriptAll(ch),
            signers,
            slot,
        ),
        satisfied(NativeScript::ScriptNOfK(1, ch), signers, slot) == satisfied(NativeScript::ScriptAny(ch), signers, slot),
        satisfied(NativeScript::ScriptNOfK(0, ch), signers, slot),
{
    lemma_satisfied_count_bound(ch, ch@.len() as int, signers, slot);
}

proof fn lemma_satisfied_count_bound(ch: Vec<NativeScript>, k: int, signers: Seq<Seq<u8>>, slot: u64)
    requires
        0 <= k <= ch@.len(),
    ensures
        satisfied_count(ch, k, signers, slot) <= k,
    decreases k,
{
    if k > 0 {
        lemma_satisfied_count_bound(ch, k - 1, signers, slot);
    }
}

// ---------------------------------------------------------------------------
// Evaluating a whole script
// ---------------------------------------------------------------------------

/// The script is satisfied by the signers at the slot, member by member: a
/// key script when its key signed, an all-of combination when every member
/// is, an any-of when some member is, an n-of-k when at least n members are,
/// and a slot bound as the executor reads it.
pub open spec fn satisfied(s: NativeScript, signers: Seq<Seq<u8>>, slot: u64) -> bool
    decreases s, 0int,
{
    match s {
        NativeScript::ScriptPubkey(k) => signers.contains(k@),
        NativeScript::ScriptAll(ch) => satisfied_count(ch, ch@.len() as int, signers, slot) == ch@.len(),
        NativeScript::ScriptAny(ch) => satisfied_count(ch, ch@.len() as int, signers, slot) >= 1,
        NativeScript::ScriptNOfK(n, ch) => satisfied_count(ch, ch@.len() as int, signers, slot) >= n,
        NativeScript::TimelockStart(start) => slot > start,
        NativeScript::TimelockExpiry(expiry) => slot <= expiry,
    }
}

/// How many of the first `k` members are satisfied.
pub open spec fn satisfied_count(ch: Vec<NativeScript>, k: int, signers: Seq<Seq<u8>>, slot: u64) -> nat
    decreases ch, k,
{
    if k <= 0 || k > ch@.len() {
        0
    } else {
        proof {
            assert(decreases_to!(ch => ch@));
            assert(decreases_to!(ch@ => ch@[k - 1]));
        }
        satisfied_count(ch, k - 1, signers, slot) + if satisfied(ch@[k - 1], signers, slot) {
            1nat
        } else {
            0nat
        }
    }
}

/// Whether the script is satisfied by the signers (their key hashes) at the
/// slot; every member of a combination is evaluated as a script of its own.
pub fn native_script_satisfied(script: &NativeScript, signers: &Vec<Vec<u8>>, slot: u64) -> (r: bool)
    ensures
        r == satisfied(*script, signers_view(signers@), slot),
    decreases script,
{
    match script {
        NativeScript::ScriptPubkey(k) => {
            let n = signers.len();
            let mut i: usize = 0;
            while i < n
                invariant
                    *script == NativeScript::ScriptPubkey(*k),
                    n == signers@.len(),
                    i <= n,
                    forall|j: int| 0 <= j < i ==> signers@[j]@ != k@,
                decreases n - i,
            {
                if bytes_equal(signers[i].as_slice(), k.as_slice()) {
                    assert(signers_view(signers@).len() == n);
                    assert(signers_view(signers@)[i as int] == k@);
                    assert(signers_view(signers@).contains(k@));
                    return true;
                }
                i += 1;
            }
            proof {
                if signers_view(signers@).contains(k@) {
                    let j = choose|j: int| 0 <= j < signers_view(signers@).len() && signers_view(signers@)[j] == k@;
                    assert(signers@[j]@ == k@);
                }
            }
            false
        },
        NativeScript::ScriptAll(ch) | NativeScript::ScriptAny(ch) | NativeScript::ScriptNOfK(_, ch) => {
            let m = ch.len();
            let mut count: usize = 0;
            let mut i: usize = 0;
            while i < m
                invariant
                    m == ch@.len(),
                    i <= m,
                    count <= i,
                    count == satisfied_count(*ch, i as int, signers_view(signers@), slot),
                    decreases_to!(*script => *ch),
                decreases m - i,
            {
                proof {
                    assert(decreases_to!(*ch => ch@));
                    assert(decreases_to!(ch@ => ch@[i as int]));
                }
                if native_script_satisfied(&ch[i], signers, slot) {
                    count += 1;
                }
                i += 1;
            }
            match script {
                NativeScript::ScriptAll(_) => count == m,
                NativeScript::ScriptAny(_) => count >= 1,
                NativeScript::ScriptNOfK(n, _) => count as u64 >= *n as u64,
                _ => false,
            }
        },
        NativeScript::TimelockStart(start) => slot > *start,
        NativeScript::TimelockExpiry(expiry) => slot <= *expiry,
    }
}

} // verus!
