//! What holds of the rules, the pipeline and the log step on every input.

use vstd::prelude::*;
use crate::history::{
    advance_bucket, advance_map, bumped, first_record, fresh, lemma_first_record,
    lemma_first_record_is, records,
};
use crate::model::{Decision, EntryView, HistoryView, RequestView, RuleOutcome};
use crate::pipeline::decide_from;
use crate::rules::{
    Quantifier, Rule, bucket_shows, fits, in_scope, ownership_outcome, rule_outcome,
};

verus! {

/// Whether a request lies outside the scope that a rule declares. Rules that
/// declare no scope have every request inside.
pub open spec fn outside_scope(rule: Rule, request: RequestView) -> bool {
    match rule {
        Rule::ScopeGuard { prefix, methods, inner } => !in_scope(prefix@, methods, request),
        Rule::CreationGate { exact_path, create_method } => !(request.path == exact_path@
            && request.method == create_method@),
        Rule::SingleUseGuard { collection_uri, api_prefix, method } => request.uri
            != collection_uri@ && !(api_prefix@.is_prefix_of(request.path) && request.method
            == method@),
        _ => false,
    }
}

/// A rule says `NotApplicable` of every request outside its scope, whatever
/// the history.
pub proof fn law_outside_scope_not_applicable(rule: Rule, request: RequestView, history: HistoryView)
    requires
        outside_scope(rule, request),
    ensures
        rule_outcome(rule, request, history) == RuleOutcome::NotApplicable,
{
}

/// Where the rule at `at` has the request outside its scope, the pipeline
/// decides from `at` on as it does from the next rule on.
pub proof fn law_scope_isolation(
    rules: Seq<Rule>,
    at: int,
    default: Decision,
    request: RequestView,
    history: HistoryView,
)
    requires
        0 <= at < rules.len(),
        outside_scope(rules[at], request),
    ensures
        decide_from(rules, at, default, request, history) == decide_from(
            rules,
            at + 1,
            default,
            request,
            history,
        ),
{
    law_outside_scope_not_applicable(rules[at], request, history);
}

/// Where every rule from `from` on passes the request on, the decision is the
/// policy's default.
pub proof fn law_default_when_none_applies(
    rules: Seq<Rule>,
    from: int,
    default: Decision,
    request: RequestView,
    history: HistoryView,
)
    requires
        0 <= from <= rules.len(),
        forall|i: int|
            from <= i < rules.len() ==> rule_outcome(#[trigger] rules[i], request, history)
                == RuleOutcome::NotApplicable,
    ensures
        decide_from(rules, from, default, request, history) == default,
    decreases rules.len() - from,
{
    if from < rules.len() {
        law_default_when_none_applies(rules, from + 1, default, request, history);
    }
}

/// The first rule that accepts or denies settles the decision: where the
/// rules from `from` up to `at` pass the request on and the rule at `at` does
/// not, the decision is what the rule at `at` says.
pub proof fn law_first_match_wins(
    rules: Seq<Rule>,
    from: int,
    at: int,
    default: Decision,
    request: RequestView,
    history: HistoryView,
)
    requires
        0 <= from <= at < rules.len(),
        forall|i: int|
            from <= i < at ==> rule_outcome(#[trigger] rules[i], request, history)
                == RuleOutcome::NotApplicable,
        rule_outcome(rules[at], request, history) != RuleOutcome::NotApplicable,
    ensures
        decide_from(rules, from, default, request, history) == (match rule_outcome(
            rules[at],
            request,
            history,
        ) {
            RuleOutcome::Accept => Decision::Accept,
            _ => Decision::Deny,
        }),
    decreases at - from,
{
    if from < at {
        law_first_match_wins(rules, from + 1, at, default, request, history);
    }
}

/// The creation gate accepts the creating request under every history.
pub proof fn law_creation_accepted(rule: Rule, request: RequestView, history: HistoryView)
    requires
        rule is CreationGate,
        request.path == rule->exact_path@,
        request.method == rule->create_method@,
    ensures
        rule_outcome(rule, request, history) == RuleOutcome::Accept,
{
}

/// Ownership under `Any`: a history without a matching entry in any bucket is
/// denied; one matching entry, under whatever key, is enough to accept.
pub proof fn law_ownership_any(history: HistoryView, api: Seq<char>, method: Seq<char>)
    ensures
        (forall|key: Seq<char>, i: int|
            history.dom().contains(key) && 0 <= i < history[key].len() ==> !fits(
                #[trigger] history[key][i],
                api,
                method,
                false,
            )) ==> ownership_outcome(history, api, method, Quantifier::Any) == RuleOutcome::Deny,
        (exists|key: Seq<char>, i: int|
            history.dom().contains(key) && 0 <= i < history[key].len() && fits(
                #[trigger] history[key][i],
                api,
                method,
                false,
            )) ==> ownership_outcome(history, api, method, Quantifier::Any) == RuleOutcome::Accept,
{
    if exists|key: Seq<char>, i: int|
        history.dom().contains(key) && 0 <= i < history[key].len() && fits(
            #[trigger] history[key][i],
            api,
            method,
            false,
        ) {
        let (key, i) = choose|key: Seq<char>, i: int|
            history.dom().contains(key) && 0 <= i < history[key].len() && fits(
                #[trigger] history[key][i],
                api,
                method,
                false,
            );
        assert(history.dom().contains(key) && bucket_shows(history[key], api, method, false));
    }
}

/// Ownership under `AllBuckets`: accepted where every bucket holds a matching
/// entry, denied as soon as one bucket holds none.
pub proof fn law_ownership_all(history: HistoryView, api: Seq<char>, method: Seq<char>)
    ensures
        (forall|key: Seq<char>| #[trigger]
            history.dom().contains(key) ==> bucket_shows(history[key], api, method, false))
            ==> ownership_outcome(history, api, method, Quantifier::AllBuckets)
            == RuleOutcome::Accept,
        (exists|key: Seq<char>| #[trigger]
            history.dom().contains(key) && !bucket_shows(history[key], api, method, false))
            ==> ownership_outcome(history, api, method, Quantifier::AllBuckets)
            == RuleOutcome::Deny,
{
}

/// A bucket without an entry for the request's route and verb gets one entry
/// at its end, counted zero, by the first step; the second step with the same
/// request counts that entry once and adds no other.
pub proof fn law_advance_twice(entries: Seq<EntryView>, request: RequestView)
    requires
        forall|i: int| 0 <= i < entries.len() ==> !records(#[trigger] entries[i], request),
    ensures
        advance_bucket(entries, request) == entries.push(fresh(request)),
        advance_bucket(advance_bucket(entries, request), request) == entries.push(
            bumped(fresh(request), request),
        ),
        advance_bucket(advance_bucket(entries, request), request).len() == entries.len() + 1,
        advance_bucket(advance_bucket(entries, request), request)[entries.len() as int].counter
            == 1,
{
    let n = entries.len() as int;
    lemma_first_record_is(entries, request, n);
    let once = entries.push(fresh(request));
    assert(advance_bucket(entries, request) == once);
    assert forall|j: int| 0 <= j < n implies !records(#[trigger] once[j], request) by {
        assert(once[j] == entries[j]);
    }
    lemma_first_record_is(once, request, n);
    assert(once.update(n, bumped(once[n], request)) =~= entries.push(
        bumped(fresh(request), request),
    ));
}

/// The log step keeps every key, and a bucket either keeps its length, when
/// one of its entries is counted once more, or grows by the one fresh entry.
pub proof fn law_advance_shape(history: HistoryView, request: RequestView, key: Seq<char>)
    ensures
        advance_map(history, request).dom() == history.dom(),
        history.dom().contains(key) ==> advance_map(history, request)[key] == advance_bucket(
            history[key],
            request,
        ),
        advance_bucket(history[key], request).len() == history[key].len() + (if first_record(
            history[key],
            request,
        ) < history[key].len() {
            0int
        } else {
            1int
        }),
{
    lemma_first_record(history[key], request);
    assert(advance_map(history, request).dom() =~= history.dom());
}

/// The first record of a request depends on its route and verb alone.
pub proof fn lemma_first_record_same(entries: Seq<EntryView>, a: RequestView, b: RequestView)
    requires
        a.method == b.method,
        a.path == b.path,
    ensures
        first_record(entries, a) == first_record(entries, b),
    decreases entries.len(),
{
    if entries.len() > 0 && !records(entries[0], a) {
        lemma_first_record_same(entries.skip(1), a, b);
    }
}

/// The log step is a function of the history and of the request's route,
/// verb and time: equal inputs give equal histories, whatever else the two
/// requests hold and however often the step is taken.
pub proof fn law_advance_deterministic(history: HistoryView, a: RequestView, b: RequestView)
    requires
        a.method == b.method,
        a.path == b.path,
        a.time == b.time,
    ensures
        advance_map(history, a) == advance_map(history, b),
{
    assert forall|key: Seq<char>| history.dom().contains(key) implies advance_bucket(
        history[key],
        a,
    ) == advance_bucket(history[key], b) by {
        lemma_first_record_same(history[key], a, b);
    }
    assert(advance_map(history, a) =~= advance_map(history, b));
}

} // verus!
