//! The ordered, short-circuiting evaluation of a policy.

use vstd::prelude::*;
use crate::model::{Decision, HistoryMap, HistoryView, Request, RequestView, RuleOutcome};
use crate::rules::{Rule, evaluate_rule, rule_outcome};

verus! {

/// An ordered list of rules and the decision for a request that no rule
/// settles.
#[derive(Debug)]
pub struct Policy {
    pub rules: Vec<Rule>,
    pub default: Decision,
}

/// The decision of the rules from position `from` on: the first outcome that
/// is not `NotApplicable` settles it, and `default` stands where none is.
pub open spec fn decide_from(
    rules: Seq<Rule>,
    from: int,
    default: Decision,
    request: RequestView,
    history: HistoryView,
) -> Decision
    decreases rules.len() - from,
{
    if from < 0 || from >= rules.len() {
        default
    } else {
        match rule_outcome(rules[from], request, history) {
            RuleOutcome::Accept => Decision::Accept,
            RuleOutcome::Deny => Decision::Deny,
            RuleOutcome::NotApplicable => decide_from(rules, from + 1, default, request, history),
        }
    }
}

/// The decision of a policy on a request under a history.
pub open spec fn decision_of(policy: Policy, request: RequestView, history: HistoryView) -> Decision {
    decide_from(policy.rules@, 0, policy.default, request, history)
}

/// Decides one request: the rules are asked in order, the first that accepts
/// or denies settles the decision, and the policy's default stands where
/// every rule passes the request on.
///
/// The rules that read the history read every bucket of it. A caller that
/// wants only one capability's log to count hands in
/// `HistoryMap::restricted_to` of that capability's key.
pub fn evaluate(request: &Request, history: &HistoryMap, policy: &Policy) -> (d: Decision)
    ensures
        d == decision_of(*policy, request@, history@),
{
    let mut i: usize = 0;
    while i < policy.rules.len()
        invariant
            0 <= i <= policy.rules@.len(),
            decision_of(*policy, request@, history@) == decide_from(
                policy.rules@,
                i as int,
                policy.default,
                request@,
                history@,
            ),
        decreases policy.rules@.len() - i,
    {
        match evaluate_rule(&policy.rules[i], request, history) {
            RuleOutcome::Accept => { return Decision::Accept; },
            RuleOutcome::Deny => { return Decision::Deny; },
            RuleOutcome::NotApplicable => {},
        }
        i = i + 1;
    }
    policy.default
}

impl Decision {
    /// The word that stands for this decision: `Accept` or `Deny`.
    pub fn as_text(&self) -> (r: &'static str)
        ensures
            r@ == (match *self {
                Decision::Accept => "Accept"@,
                Decision::Deny => "Deny"@,
            }),
    {
        match self {
            Decision::Accept => "Accept",
            Decision::Deny => "Deny",
        }
    }
}

} // verus!
