//! What the evaluation of redeemers is checked against, and where its
//! findings are reported.
use vstd::prelude::*;

use crate::common::ExUnits;
use crate::text::{decimal, hex_encode_spec, push_char, push_decimal, push_hex, push_str, string_of};
use crate::validators::phase_1::errors::strings_view;
use crate::validators::phase_2::errors::{
    phase2_error_text, Phase2Error, Phase2Warning, ValidationPhase2Error, ValidationPhase2Warning,
};

verus! {

/// What a redeemer points at.
#[derive(Debug, Clone, Copy, PartialEq, Eq, Structural)]
pub enum RedeemerTag {
    Spend,
    Mint,
    Cert,
    Reward,
    Vote,
    Propose,
}

/// The outcome of evaluating one redeemer: what it points at, and the budget
/// it declares against the budget its script used.
#[derive(Debug, Clone, Copy)]
pub struct EvalRedeemerResult {
    pub tag: RedeemerTag,
    pub index: u64,
    pub provided_ex_units: ExUnits,
    pub calculated_ex_units: ExUnits,
}

/// The body field that a tag points into.
pub open spec fn tag_location_prefix(tag: RedeemerTag) -> Seq<char> {
    match tag {
        RedeemerTag::Mint => "transaction.body.mint."@,
        RedeemerTag::Spend => "transaction.body.inputs."@,
        RedeemerTag::Cert => "transaction.body.certs."@,
        RedeemerTag::Propose => "transaction.body.voting_proposals."@,
        RedeemerTag::Vote => "transaction.body.voting_procedures."@,
        RedeemerTag::Reward => "transaction.body.withdrawals."@,
    }
}

/// The location of the body item a redeemer points at.
pub open spec fn tag_location(tag: RedeemerTag, index: u64) -> Seq<char> {
    tag_location_prefix(tag) + decimal(index as nat)
}

/// The locations of a redeemer's findings: the body item, then the redeemer.
pub open spec fn redeemer_locations(r: EvalRedeemerResult, redeemer_index: usize) -> Seq<Seq<char>> {
    seq![tag_location(r.tag, r.index), "transaction.witness_set.redeemers."@ + decimal(redeemer_index as nat)]
}

/// Where in the body a redeemer points.
pub fn redeemer_tag_to_tx_location(redeemer_tag: &RedeemerTag, redeemer_index: u64) -> (r: String)
    ensures
        r@ == tag_location(*redeemer_tag, redeemer_index),
{
    let mut s = match redeemer_tag {
        RedeemerTag::Mint => string_of("transaction.body.mint."),
        RedeemerTag::Spend => string_of("transaction.body.inputs."),
        RedeemerTag::Cert => string_of("transaction.body.certs."),
        RedeemerTag::Propose => string_of("transaction.body.voting_proposals."),
        RedeemerTag::Vote => string_of("transaction.body.voting_procedures."),
        RedeemerTag::Reward => string_of("transaction.body.withdrawals."),
    };
    push_decimal(&mut s, redeemer_index as u128);
    s
}

/// The body item a redeemer points at, then the redeemer itself.
pub fn redeemer_to_tx_locations(redeemer: &EvalRedeemerResult, redeemer_index: usize) -> (r: Vec<String>)
    ensures
        strings_view(r@) == redeemer_locations(*redeemer, redeemer_index),
{
    let mut locations = Vec::new();
    let body_location = redeemer_tag_to_tx_location(&redeemer.tag, redeemer.index);
    let mut redeemer_location = string_of("transaction.witness_set.redeemers.");
    push_decimal(&mut redeemer_location, redeemer_index as u128);
    locations.push(body_location);
    locations.push(redeemer_location);
    assert(strings_view(locations@) =~= redeemer_locations(*redeemer, redeemer_index));
    locations
}

/// The text of an input reference: hex of the hash, `#`, the index.
pub open spec fn request_text(tx_hash: Seq<u8>, index: u64) -> Seq<char> {
    hex_encode_spec(tx_hash) + seq!['#'] + decimal(index as nat)
}

/// Writes an input reference as `<hash hex>#<index>`.
pub fn input_to_request_format(transaction_id: &[u8], index: u64) -> (r: String)
    ensures
        r@ == request_text(transaction_id@, index),
{
    let mut s = String::new();
    push_hex(&mut s, transaction_id);
    push_char(&mut s, '#');
    push_decimal(&mut s, index as u128);
    assert(s@ =~= request_text(transaction_id@, index));
    s
}

/// An input reference as its hash and index.
pub struct InputReference {
    pub transaction_id: Vec<u8>,
    pub index: u64,
}

/// The texts of a list of input references.
pub open spec fn request_texts(s: Seq<InputReference>) -> Seq<Seq<char>> {
    s.map_values(|i: InputReference| request_text(i.transaction_id@, i.index))
}

fn push_requests(out: &mut Vec<String>, inputs: &[InputReference])
    ensures
        strings_view(final(out)@) == strings_view(old(out)@) + request_texts(inputs@),
{
    let ghost start = strings_view(out@);
    let n = inputs.len();
    let mut i: usize = 0;
    while i < n
        invariant
            n == inputs@.len(),
            i <= n,
            strings_view(out@) =~= start + request_texts(inputs@.take(i as int)),
        decreases n - i,
    {
        let t = input_to_request_format(inputs[i].transaction_id.as_slice(), inputs[i].index);
        let ghost prev = out@;
        out.push(t);
        assert(strings_view(out@) =~= strings_view(prev).push(t@));
        assert(request_texts(inputs@.take(i + 1)) =~= request_texts(inputs@.take(i as int)).push(t@));
        i += 1;
    }
    assert(inputs@.take(n as int) =~= inputs@);
}

/// The references of all inputs a transaction reads: its inputs, then its
/// reference inputs, then its collateral inputs.
pub fn collect_inputs(
    inputs: &[InputReference],
    reference_inputs: &[InputReference],
    collateral: &[InputReference],
) -> (r: Vec<String>)
    ensures
        strings_view(r@) == request_texts(inputs@) + request_texts(reference_inputs@) + request_texts(
            collateral@,
        ),
{
    let mut out: Vec<String> = Vec::new();
    assert(strings_view(out@) =~= Seq::<Seq<char>>::empty());
    push_requests(&mut out, inputs);
    push_requests(&mut out, reference_inputs);
    push_requests(&mut out, collateral);
    out
}

/// The requested references that are not among the known ones, in order.
pub open spec fn missed_requests(requested: Seq<Seq<char>>, known: Seq<Seq<char>>) -> Seq<Seq<char>> {
    requested.filter(|u: Seq<char>| !known.contains(u))
}

/// The texts joined with `", "`.
pub open spec fn joined(s: Seq<Seq<char>>) -> Seq<char>
    decreases s.len(),
{
    if s.len() == 0 {
        Seq::empty()
    } else if s.len() == 1 {
        s[0]
    } else {
        joined(s.drop_last()) + ", "@ + s.last()
    }
}

fn contains_string(s: &[String], t: &String) -> (r: bool)
    ensures
        r == strings_view(s@).contains(t@),
{
    let n = s.len();
    let mut i: usize = 0;
    while i < n
        invariant
            n == s@.len(),
            i <= n,
            forall|j: int| 0 <= j < i ==> s@[j]@ != t@,
        decreases n - i,
    {
        if crate::text::str_equal(s[i].as_str(), t.as_str()) {
            assert(strings_view(s@)[i as int] == t@);
            return true;
        }
        i += 1;
    }
    assert(!strings_view(s@).contains(t@)) by {
        if strings_view(s@).contains(t@) {
            let k = choose|k: int| 0 <= k < strings_view(s@).len() && strings_view(s@)[k] == t@;
            assert(s@[k]@ == t@);
        }
    }
    false
}

/// Fails, listing them, when some requested inputs are not among the known
/// UTxOs.
pub fn check_missed_utxos(request_utxos: &[String], utxo_keys: &[String]) -> (r: Result<(), String>)
    ensures
        missed_requests(strings_view(request_utxos@), strings_view(utxo_keys@)).len() == 0 <==> r is Ok,
        r matches Err(e) ==> e@ == "Can't get these UTXOs from API, check the network type: "@ + joined(
            missed_requests(strings_view(request_utxos@), strings_view(utxo_keys@)),
        ),
{
    let ghost known = strings_view(utxo_keys@);
    let ghost req = strings_view(request_utxos@);
    let mut message = string_of("Can't get these UTXOs from API, check the network type: ");
    let ghost head = message@;
    let mut missed: usize = 0;
    let n = request_utxos.len();
    let mut i: usize = 0;
    while i < n
        invariant
            n == request_utxos@.len(),
            req == strings_view(request_utxos@),
            known == strings_view(utxo_keys@),
            head == "Can't get these UTXOs from API, check the network type: "@,
            i <= n,
            missed == missed_requests(req.take(i as int), known).len(),
            message@ == head + joined(missed_requests(req.take(i as int), known)),
        decreases n - i,
    {
        let ghost prev = missed_requests(req.take(i as int), known);
        assert(req.take(i + 1) =~= req.take(i as int).push(req[i as int]));
        assert(missed_requests(req.take(i + 1), known) == if known.contains(req[i as int]) {
            prev
        } else {
            prev.push(req[i as int])
        }) by {
            let f = |u: Seq<char>| !known.contains(u);
            req.take(i as int).lemma_filter_push(req[i as int], f);
        }
        if !contains_string(utxo_keys, &request_utxos[i]) {
            if missed > 0 {
                push_str(&mut message, ", ");
            }
            push_str(&mut message, request_utxos[i].as_str());
            assert(prev.push(req[i as int]).drop_last() =~= prev);
            missed += 1;
        }
        i += 1;
    }
    assert(req.take(n as int) =~= req);
    if missed > 0 {
        Err(message)
    } else {
        Ok(())
    }
}

/// A finding's error and locations.
pub open spec fn phase2_error_view(e: ValidationPhase2Error) -> (Phase2Error, Seq<Seq<char>>) {
    (e.error, strings_view(e.locations@))
}

/// A finding's warning and locations.
pub open spec fn phase2_warning_view(w: ValidationPhase2Warning) -> (Phase2Warning, Seq<Seq<char>>) {
    (w.warning, strings_view(w.locations@))
}

/// Every error carries its own message and no hint.
pub open spec fn messages_match(s: Seq<ValidationPhase2Error>) -> bool {
    forall|i: int| 0 <= i < s.len() ==> s[i].error_message@ == phase2_error_text(#[trigger] s[i].error) && s[i].hint is None
}

/// The used budget exceeds the declared one in memory or in steps.
pub open spec fn over_budget(r: EvalRedeemerResult) -> bool {
    r.calculated_ex_units.mem > r.provided_ex_units.mem || r.calculated_ex_units.steps
        > r.provided_ex_units.steps
}

/// Within budget, the declared budget exceeds the used one somewhere.
pub open spec fn under_budget(r: EvalRedeemerResult) -> bool {
    !over_budget(r) && (r.calculated_ex_units.mem < r.provided_ex_units.mem || r.calculated_ex_units.steps
        < r.provided_ex_units.steps)
}

/// The errors for the outcome of redeemer number `k`: its evaluation error,
/// then a budget error when the budget is exceeded.
pub open spec fn outcome_errors(o: (EvalRedeemerResult, Option<Phase2Error>), k: usize) -> Seq<
    (Phase2Error, Seq<Seq<char>>),
> {
    let locs = redeemer_locations(o.0, k);
    (match o.1 {
        Some(e) => seq![(e, locs)],
        None => Seq::empty(),
    }) + if over_budget(o.0) {
        seq![
            (
                Phase2Error::NoEnoughBudget {
                    expected_budget: o.0.calculated_ex_units,
                    actual_budget: o.0.provided_ex_units,
                },
                locs,
            ),
        ]
    } else {
        Seq::empty()
    }
}

/// The errors for all outcomes, in order.
pub open spec fn findings_errors(s: Seq<(EvalRedeemerResult, Option<Phase2Error>)>) -> Seq<
    (Phase2Error, Seq<Seq<char>>),
>
    decreases s.len(),
{
    if s.len() == 0 {
        Seq::empty()
    } else {
        findings_errors(s.drop_last()) + outcome_errors(s.last(), (s.len() - 1) as usize)
    }
}

/// The warnings for all outcomes, in order: one per redeemer whose declared
/// budget exceeds what it used.
pub open spec fn findings_warnings(s: Seq<(EvalRedeemerResult, Option<Phase2Error>)>) -> Seq<
    (Phase2Warning, Seq<Seq<char>>),
>
    decreases s.len(),
{
    if s.len() == 0 {
        Seq::empty()
    } else {
        let o = s.last();
        findings_warnings(s.drop_last()) + if under_budget(o.0) {
            seq![
                (
                    Phase2Warning::BudgetIsBiggerThanExpected {
                        expected_budget: o.0.calculated_ex_units,
                        actual_budget: o.0.provided_ex_units,
                    },
                    redeemer_locations(o.0, (s.len() - 1) as usize),
                ),
            ]
        } else {
            Seq::empty()
        }
    }
}

/// The errors and warnings of evaluated redeemers: for each, in order, its
/// evaluation error, a budget error when it used more than it declared, or a
/// warning when it declared more than it used; and the evaluation results,
/// one per redeemer, in order.
pub fn collect_redeemer_findings(outcomes: &[(EvalRedeemerResult, Option<Phase2Error>)]) -> (r: (
    Vec<ValidationPhase2Error>,
    Vec<ValidationPhase2Warning>,
    Vec<EvalRedeemerResult>,
))
    ensures
        r.2@ == outcomes@.map_values(|o: (EvalRedeemerResult, Option<Phase2Error>)| o.0),
        r.0@.map_values(|e: ValidationPhase2Error| phase2_error_view(e)) == findings_errors(outcomes@),
        messages_match(r.0@),
        r.1@.map_values(|w: ValidationPhase2Warning| phase2_warning_view(w)) == findings_warnings(outcomes@),
        forall|i: int| 0 <= i < r.1@.len() ==> (#[trigger] r.1@[i]).hint is None,
{
    let mut errors: Vec<ValidationPhase2Error> = Vec::new();
    let mut warnings: Vec<ValidationPhase2Warning> = Vec::new();
    let mut eval_results: Vec<EvalRedeemerResult> = Vec::new();
    let n = outcomes.len();
    let mut i: usize = 0;
    while i < n
        invariant
            n == outcomes@.len(),
            i <= n,
            errors@.map_values(|e: ValidationPhase2Error| phase2_error_view(e)) =~= findings_errors(
                outcomes@.take(i as int),
            ),
            messages_match(errors@),
            warnings@.map_values(|w: ValidationPhase2Warning| phase2_warning_view(w)) =~= findings_warnings(
                outcomes@.take(i as int),
            ),
            forall|j: int| 0 <= j < warnings@.len() ==> (#[trigger] warnings@[j]).hint is None,
            eval_results@ =~= outcomes@.take(i as int).map_values(
                |o: (EvalRedeemerResult, Option<Phase2Error>)| o.0,
            ),
        decreases n - i,
    {
        proof {
            assert(outcomes@.take(i + 1).drop_last() =~= outcomes@.take(i as int));
        }
        let ghost e0 = errors@;
        let ghost w0 = warnings@;
        let outcome = &outcomes[i];
        let result = outcome.0;
        let locations = redeemer_to_tx_locations(&result, i);
        match &outcome.1 {
            Some(error) => {
                errors.push(ValidationPhase2Error::new_with_locations(error.duplicate(), locations.as_slice()));
            },
            None => {},
        }
        eval_results.push(result);
        let estimated = result.calculated_ex_units;
        let declared = result.provided_ex_units;
        if estimated.mem > declared.mem || estimated.steps > declared.steps {
            errors.push(
                ValidationPhase2Error::new_with_locations(
                    Phase2Error::NoEnoughBudget { expected_budget: estimated, actual_budget: declared },
                    locations.as_slice(),
                ),
            );
        } else if estimated.mem < declared.mem || estimated.steps < declared.steps {
            warnings.push(
                ValidationPhase2Warning::new_with_locations(
                    Phase2Warning::BudgetIsBiggerThanExpected {
                        expected_budget: estimated,
                        actual_budget: declared,
                    },
                    locations.as_slice(),
                ),
            );
        }
        assert(errors@.map_values(|e: ValidationPhase2Error| phase2_error_view(e)) =~= e0.map_values(
            |e: ValidationPhase2Error| phase2_error_view(e),
        ) + outcome_errors(outcomes@[i as int], i));
        assert(warnings@.map_values(|w: ValidationPhase2Warning| phase2_warning_view(w)) =~= w0.map_values(
            |w: ValidationPhase2Warning| phase2_warning_view(w),
        ) + findings_warnings(outcomes@.take(i + 1)).skip(w0.len() as int));
        i += 1;
    }
    assert(outcomes@.take(n as int) =~= outcomes@);
    (errors, warnings, eval_results)
}

// ---------------------------------------------------------------------------
// Laws
// ---------------------------------------------------------------------------

/// A redeemer gets at most one budget finding: an error when it used more
/// than it declared, a warning when it declared more than it used, and
/// neither when the two budgets are equal.
pub proof fn law_one_budget_finding(r: EvalRedeemerResult)
    ensures
        !(over_budget(r) && under_budget(r)),
        r.calculated_ex_units == r.provided_ex_units ==> !over_budget(r) && !under_budget(r),
{
}

/// A redeemer that used more memory or more steps than it declared is
/// reported with a budget error, at its body item and its own position,
/// naming the budget it used and the budget it declared.
pub proof fn law_over_budget_is_an_error(s: Seq<(EvalRedeemerResult, Option<Phase2Error>)>, k: int)
    requires
        0 <= k < s.len() <= usize::MAX,
        s[k].0.calculated_ex_units.mem > s[k].0.provided_ex_units.mem || s[k].0.calculated_ex_units.steps
            > s[k].0.provided_ex_units.steps,
    ensures
        findings_errors(s).contains(
            (
                Phase2Error::NoEnoughBudget {
                    expected_budget: s[k].0.calculated_ex_units,
                    actual_budget: s[k].0.provided_ex_units,
                },
                seq![
                    tag_location(s[k].0.tag, s[k].0.index),
                    "transaction.witness_set.redeemers."@ + decimal(k as nat),
                ],
            ),
        ),
    decreases s.len(),
{
    let p = s.drop_last();
    let x = (
        Phase2Error::NoEnoughBudget {
            expected_budget: s[k].0.calculated_ex_units,
            actual_budget: s[k].0.provided_ex_units,
        },
        seq![
            tag_location(s[k].0.tag, s[k].0.index),
            "transaction.witness_set.redeemers."@ + decimal(k as nat),
        ],
    );
    let f = findings_errors(s);
    if k < s.len() - 1 {
        assert(p[k] == s[k]);
        law_over_budget_is_an_error(p, k);
        let j = choose|j: int| 0 <= j < findings_errors(p).len() && findings_errors(p)[j] == x;
        assert(f[j] == x);
    } else {
        let o = s.last();
        assert(o == s[k]);
        assert(((s.len() - 1) as usize) as nat == k as nat);
        let errs = outcome_errors(o, (s.len() - 1) as usize);
        let first = match o.1 {
            Some(e) => seq![(e, redeemer_locations(o.0, (s.len() - 1) as usize))],
            None => Seq::<(Phase2Error, Seq<Seq<char>>)>::empty(),
        };
        assert(errs[first.len() as int] == x);
        assert(f[(findings_errors(p).len() + first.len()) as int] == x);
    }
}

/// A redeemer that used no more memory and no more steps than it declared,
/// but less of one of them, is reported with a warning, at its body item and
/// its own position, naming both budgets.
pub proof fn law_over_declared_budget_is_a_warning(s: Seq<(EvalRedeemerResult, Option<Phase2Error>)>, k: int)
    requires
        0 <= k < s.len() <= usize::MAX,
        s[k].0.calculated_ex_units.mem <= s[k].0.provided_ex_units.mem,
        s[k].0.calculated_ex_units.steps <= s[k].0.provided_ex_units.steps,
        s[k].0.calculated_ex_units.mem < s[k].0.provided_ex_units.mem || s[k].0.calculated_ex_units.steps
            < s[k].0.provided_ex_units.steps,
    ensures
        findings_warnings(s).contains(
            (
                Phase2Warning::BudgetIsBiggerThanExpected {
                    expected_budget: s[k].0.calculated_ex_units,
                    actual_budget: s[k].0.provided_ex_units,
                },
                seq![
                    tag_location(s[k].0.tag, s[k].0.index),
                    "transaction.witness_set.redeemers."@ + decimal(k as nat),
                ],
            ),
        ),
    decreases s.len(),
{
    let p = s.drop_last();
    let x = (
        Phase2Warning::BudgetIsBiggerThanExpected {
            expected_budget: s[k].0.calculated_ex_units,
            actual_budget: s[k].0.provided_ex_units,
        },
        seq![
            tag_location(s[k].0.tag, s[k].0.index),
            "transaction.witness_set.redeemers."@ + decimal(k as nat),
        ],
    );
    let f = findings_warnings(s);
    if k < s.len() - 1 {
        assert(p[k] == s[k]);
        law_over_declared_budget_is_a_warning(p, k);
        let j = choose|j: int| 0 <= j < findings_warnings(p).len() && findings_warnings(p)[j] == x;
        assert(f[j] == x);
    } else {
        assert(s.last() == s[k]);
        assert(((s.len() - 1) as usize) as nat == k as nat);
        assert(f[findings_warnings(p).len() as int] == x);
    }
}

/// Every warning is that of a redeemer `k` that used no more memory and no
/// more steps than it declared, but less of one of them; it names both
/// budgets and stands at that redeemer's body item and its own position.
pub proof fn law_each_warning_is_an_over_declared_budget(
    s: Seq<(EvalRedeemerResult, Option<Phase2Error>)>,
    j: int,
) -> (k: int)
    requires
        s.len() <= usize::MAX,
        0 <= j < findings_warnings(s).len(),
    ensures
        0 <= k < s.len(),
        s[k].0.calculated_ex_units.mem <= s[k].0.provided_ex_units.mem,
        s[k].0.calculated_ex_units.steps <= s[k].0.provided_ex_units.steps,
        s[k].0.calculated_ex_units.mem < s[k].0.provided_ex_units.mem || s[k].0.calculated_ex_units.steps
            < s[k].0.provided_ex_units.steps,
        findings_warnings(s)[j].0 == (Phase2Warning::BudgetIsBiggerThanExpected {
            expected_budget: s[k].0.calculated_ex_units,
            actual_budget: s[k].0.provided_ex_units,
        }),
        findings_warnings(s)[j].1 == seq![
            tag_location(s[k].0.tag, s[k].0.index),
            "transaction.witness_set.redeemers."@ + decimal(k as nat),
        ],
    decreases s.len(),
{
    let p = s.drop_last();
    let fp = findings_warnings(p);
    if j < fp.len() {
        assert(findings_warnings(s)[j] == fp[j]);
        let k = law_each_warning_is_an_over_declared_budget(p, j);
        assert(p[k] == s[k]);
        k
    } else {
        let k = s.len() - 1;
        assert(s.last() == s[k]);
        assert(((s.len() - 1) as usize) as nat == k as nat);
        k
    }
}

/// Every error is either the evaluation error of a redeemer, or a budget
/// error of a redeemer that used more memory or more steps than it declared;
/// each at that redeemer's body item and its own position.
pub proof fn law_errors_are_failures_or_overruns(s: Seq<(EvalRedeemerResult, Option<Phase2Error>)>)
    requires
        s.len() <= usize::MAX,
    ensures
        forall|j: int|
            #![trigger findings_errors(s)[j]]
            0 <= j < findings_errors(s).len() ==> exists|k: int|
                #![trigger s[k]]
                0 <= k < s.len() && (findings_errors(s)[j].1 == seq![
                    tag_location(s[k].0.tag, s[k].0.index),
                    "transaction.witness_set.redeemers."@ + decimal(k as nat),
                ]) && ((s[k].1 == Some(findings_errors(s)[j].0)) || ((s[k].0.calculated_ex_units.mem
                    > s[k].0.provided_ex_units.mem || s[k].0.calculated_ex_units.steps
                    > s[k].0.provided_ex_units.steps) && findings_errors(s)[j].0 == Phase2Error::NoEnoughBudget {
                    expected_budget: s[k].0.calculated_ex_units,
                    actual_budget: s[k].0.provided_ex_units,
                })),
    decreases s.len(),
{
    if s.len() > 0 {
        let p = s.drop_last();
        law_errors_are_failures_or_overruns(p);
        let f = findings_errors(s);
        let fp = findings_errors(p);
        let o = s.last();
        let errs = outcome_errors(o, (s.len() - 1) as usize);
        assert(f == fp + errs);
        assert forall|j: int| #![trigger f[j]] 0 <= j < f.len() implies exists|k: int|
            #![trigger s[k]]
            0 <= k < s.len() && (f[j].1 == seq![
                tag_location(s[k].0.tag, s[k].0.index),
                "transaction.witness_set.redeemers."@ + decimal(k as nat),
            ]) && ((s[k].1 == Some(f[j].0)) || ((s[k].0.calculated_ex_units.mem > s[k].0.provided_ex_units.mem
                || s[k].0.calculated_ex_units.steps > s[k].0.provided_ex_units.steps) && f[j].0
                == Phase2Error::NoEnoughBudget {
                expected_budget: s[k].0.calculated_ex_units,
                actual_budget: s[k].0.provided_ex_units,
            })) by {
            if j < fp.len() {
                assert(f[j] == fp[j]);
                let k = choose|k: int|
                    #![trigger p[k]]
                    0 <= k < p.len() && (fp[j].1 == seq![
                        tag_location(p[k].0.tag, p[k].0.index),
                        "transaction.witness_set.redeemers."@ + decimal(k as nat),
                    ]) && ((p[k].1 == Some(fp[j].0)) || ((p[k].0.calculated_ex_units.mem
                        > p[k].0.provided_ex_units.mem || p[k].0.calculated_ex_units.steps
                        > p[k].0.provided_ex_units.steps) && fp[j].0 == Phase2Error::NoEnoughBudget {
                        expected_budget: p[k].0.calculated_ex_units,
                        actual_budget: p[k].0.provided_ex_units,
                    }));
                assert(p[k] == s[k]);
            } else {
                let k = s.len() - 1;
                assert(o == s[k]);
                assert(((s.len() - 1) as usize) as nat == k as nat);
                assert(f[j] == errs[j - fp.len()]);
            }
        }
    }
}

/// Redeemers that all evaluate without error and declare exactly the
/// budget they use give no error and no warning.
pub proof fn law_exact_budgets_give_no_findings(s: Seq<(EvalRedeemerResult, Option<Phase2Error>)>)
    requires
        forall|i: int| 0 <= i < s.len() ==> (#[trigger] s[i]).1 is None && s[i].0.calculated_ex_units == s[i].0.provided_ex_units,
    ensures
        findings_errors(s).len() == 0,
        findings_warnings(s).len() == 0,
    decreases s.len(),
{
    if s.len() > 0 {
        assert forall|i: int| 0 <= i < s.len() - 1 implies (#[trigger] s.drop_last()[i]).1 is None
            && s.drop_last()[i].0.calculated_ex_units == s.drop_last()[i].0.provided_ex_units by {
            assert(s.drop_last()[i] == s[i]);
        }
        law_exact_budgets_give_no_findings(s.drop_last());
        assert(s.last() == s[s.len() - 1]);
    }
}

} // verus!
