use cquisitor_lib::validators::phase_1::validation::native_script_executor::{NativeScript, NativeScriptExecutor};
use cquisitor_lib::validators::phase_1::validation::witness::get_native_script_key_hashes;

fn key(b: u8) -> Vec<u8> {
    vec![b; 28]
}

fn pk(b: u8) -> NativeScript {
    NativeScript::ScriptPubkey(key(b))
}

fn run(script: &NativeScript, signers: &Vec<Vec<u8>>, slot: u64) -> bool {
    NativeScriptExecutor::new(script, signers, slot).execute().unwrap()
}

#[test]
fn pubkey_script_needs_its_key() {
    assert!(run(&pk(1), &vec![key(2), key(1)], 0));
    assert!(!run(&pk(1), &vec![key(2)], 0));
}

#[test]
fn all_of_needs_every_key() {
    let s = NativeScript::ScriptAll(vec![pk(1), pk(2)]);
    assert!(run(&s, &vec![key(1), key(2)], 0));
    assert!(!run(&s, &vec![key(1)], 0));
    assert!(run(&NativeScript::ScriptAll(vec![]), &vec![], 0));
}

#[test]
fn any_of_needs_one_key() {
    let s = NativeScript::ScriptAny(vec![pk(1), pk(2)]);
    assert!(run(&s, &vec![key(2)], 0));
    assert!(!run(&s, &vec![key(3)], 0));
    assert!(!run(&NativeScript::ScriptAny(vec![]), &vec![key(1)], 0));
}

#[test]
fn n_of_k_counts_keys() {
    let s = NativeScript::ScriptNOfK(2, vec![pk(1), pk(2), pk(3)]);
    assert!(run(&s, &vec![key(1), key(3)], 0));
    assert!(!run(&s, &vec![key(1)], 0));
    // n equal to the number of members behaves as all-of; n = 1 as any-of; n = 0 always holds
    let all = NativeScript::ScriptNOfK(2, vec![pk(1), pk(2)]);
    assert!(!run(&all, &vec![key(1)], 0));
    let one = NativeScript::ScriptNOfK(1, vec![pk(1), pk(2)]);
    assert!(run(&one, &vec![key(2)], 0));
    let none = NativeScript::ScriptNOfK(0, vec![pk(1)]);
    assert!(run(&none, &vec![], 0));
}

#[test]
fn time_locks() {
    assert!(run(&NativeScript::TimelockStart(100), &vec![], 101));
    assert!(!run(&NativeScript::TimelockStart(100), &vec![], 100));
    assert!(run(&NativeScript::TimelockExpiry(100), &vec![], 100));
    assert!(!run(&NativeScript::TimelockExpiry(100), &vec![], 101));
}

#[test]
fn all_of_stops_at_first_failing_key() {
    // members after the first failing key are not evaluated
    let s = NativeScript::ScriptAll(vec![pk(1), NativeScript::TimelockStart(5)]);
    assert!(!run(&s, &vec![], 10));
}

#[test]
fn key_hashes_of_nested_script() {
    let s = NativeScript::ScriptAll(vec![
        pk(1),
        NativeScript::ScriptAny(vec![pk(2), pk(1)]),
        NativeScript::ScriptNOfK(1, vec![pk(3)]),
        NativeScript::TimelockStart(3),
    ]);
    let mut keys = get_native_script_key_hashes(&s);
    keys.sort();
    assert_eq!(keys, vec![key(1), key(2), key(3)]);
    assert!(get_native_script_key_hashes(&NativeScript::TimelockExpiry(1)).is_empty());
}

#[test]
fn nested_time_locked_multisig() {
    let s = NativeScript::ScriptAll(vec![
        NativeScript::TimelockStart(100),
        NativeScript::ScriptAny(vec![pk(1), NativeScript::ScriptNOfK(2, vec![pk(2), pk(3), pk(4)])]),
    ]);
    assert!(run(&s, &vec![key(1)], 101));
    assert!(run(&s, &vec![key(2), key(4)], 150));
    assert!(!run(&s, &vec![key(2)], 150));
    assert!(!run(&s, &vec![key(1)], 100));
    let expiring = NativeScript::ScriptAny(vec![NativeScript::ScriptAll(vec![pk(1), NativeScript::TimelockExpiry(50)])]);
    assert!(run(&expiring, &vec![key(1)], 50));
    assert!(!run(&expiring, &vec![key(1)], 51));
}
