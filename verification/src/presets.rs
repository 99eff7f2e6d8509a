//! Ready-made policies for an events API, a money-transfer API and a mailbox.

use vstd::prelude::*;
use crate::clock::CivilTime;
use crate::model::{Decision, HistoryView, RequestView, RuleOutcome};
use crate::pipeline::{Policy, decide_from, decision_of};
use crate::body::{event_of_text, transfer_of_text};
use crate::rules::{
    Comparator, FieldCheck, MethodScope, Quantifier, Rule, covers, every_bucket_shows,
    exact_match_outcome, rule_outcome, some_bucket_shows, threshold_outcome, time_outcome,
    title_outcome,
};

verus! {

/// A scope of exactly one verb.
pub fn only(method: &str) -> (scope: MethodScope)
    ensures
        forall|m: Seq<char>| #[trigger] covers(scope, m) == (m == method@),
{
    let mut methods: Vec<String> = Vec::new();
    methods.push(method.to_owned());
    assert(methods@[0]@ == method@);
    MethodScope::OneOf(methods)
}

/// A scope of every verb but one.
pub fn all_but(method: &str) -> (scope: MethodScope)
    ensures
        forall|m: Seq<char>| #[trigger] covers(scope, m) == (m != method@),
{
    let mut methods: Vec<String> = Vec::new();
    methods.push(method.to_owned());
    assert(methods@[0]@ == method@);
    MethodScope::NoneOf(methods)
}

/// The decision of the policy `modify_only_created`: outside the events API
/// and for reads, accept; accept the request that creates an event; accept
/// any other change where some bucket shows a creation, and deny it where
/// none does.
pub open spec fn modify_only_created_decision(request: RequestView, history: HistoryView) -> Decision {
    if "/api/events"@.is_prefix_of(request.path) && request.method != "GET"@ {
        if request.path == "/api/events"@ && request.method == "POST"@ {
            Decision::Accept
        } else if some_bucket_shows(history, "/api/events"@, "POST"@, false) {
            Decision::Accept
        } else {
            Decision::Deny
        }
    } else {
        Decision::Accept
    }
}

/// Events may be created freely, and changed or deleted only where the
/// history shows that an event was created.
pub fn modify_only_created() -> (policy: Policy)
    ensures
        forall|request: RequestView, history: HistoryView| #[trigger]
            decision_of(policy, request, history) == modify_only_created_decision(request, history),
{
    let mut rules: Vec<Rule> = Vec::new();
    rules.push(
        Rule::ScopeGuard {
            prefix: "/api/events".to_owned(),
            methods: all_but("GET"),
            inner: Box::new(
                Rule::CreationGate {
                    exact_path: "/api/events".to_owned(),
                    create_method: "POST".to_owned(),
                },
            ),
        },
    );
    rules.push(
        Rule::ScopeGuard {
            prefix: "/api/events".to_owned(),
            methods: all_but("GET"),
            inner: Box::new(
                Rule::OwnershipByHistory {
                    required_api: "/api/events".to_owned(),
                    required_method: "POST".to_owned(),
                    quantifier: Quantifier::Any,
                },
            ),
        },
    );
    let policy = Policy { rules, default: Decision::Accept };
    assert forall|request: RequestView, history: HistoryView| #[trigger]
        decision_of(policy, request, history) == modify_only_created_decision(
            request,
            history,
        ) by {
        reveal_with_fuel(decide_from, 3);
        reveal_with_fuel(rule_outcome, 2);
    }
    policy
}

/// The instant before which the event policies take no event: the start of
/// 15 February 2024.
pub open spec fn event_cutoff() -> CivilTime {
    CivilTime { year: 2024, month: 2, day: 15, hour: 0, minute: 0, second: 0 }
}

/// Whether the event policies turn a payload down: it cannot be decoded, its
/// title does not start with `Meeting`, or, with `with_time`, its time cannot
/// be read or lies before the cutoff.
pub open spec fn event_fields_denied(body: Seq<char>, with_time: bool) -> bool {
    title_outcome(event_of_text(body), "Meeting"@) == RuleOutcome::Deny || (with_time
        && time_outcome(event_of_text(body), event_cutoff()) == RuleOutcome::Deny)
}

/// The rule that checks an event's title on every `POST` under the events
/// API.
fn title_rule() -> (rule: Rule)
    ensures
        forall|request: RequestView, history: HistoryView| #[trigger]
            rule_outcome(rule, request, history) == (if "/api/events"@.is_prefix_of(request.path)
                && request.method == "POST"@ {
                title_outcome(event_of_text(request.body), "Meeting"@)
            } else {
                RuleOutcome::NotApplicable
            }),
{
    let rule = Rule::ScopeGuard {
        prefix: "/api/events".to_owned(),
        methods: only("POST"),
        inner: Box::new(Rule::FieldConstraint { check: FieldCheck::TitlePrefix("Meeting".to_owned()) }),
    };
    assert forall|request: RequestView, history: HistoryView| #[trigger]
        rule_outcome(rule, request, history) == (if "/api/events"@.is_prefix_of(request.path)
            && request.method == "POST"@ {
            title_outcome(event_of_text(request.body), "Meeting"@)
        } else {
            RuleOutcome::NotApplicable
        }) by {
        reveal_with_fuel(rule_outcome, 2);
    }
    rule
}

/// The rule that checks an event's time on every `POST` under the events
/// API.
fn time_rule() -> (rule: Rule)
    ensures
        forall|request: RequestView, history: HistoryView| #[trigger]
            rule_outcome(rule, request, history) == (if "/api/events"@.is_prefix_of(request.path)
                && request.method == "POST"@ {
                time_outcome(event_of_text(request.body), event_cutoff())
            } else {
                RuleOutcome::NotApplicable
            }),
{
    let cutoff = CivilTime { year: 2024, month: 2, day: 15, hour: 0, minute: 0, second: 0 };
    let rule = Rule::ScopeGuard {
        prefix: "/api/events".to_owned(),
        methods: only("POST"),
        inner: Box::new(Rule::FieldConstraint { check: FieldCheck::TimeNotBefore(cutoff) }),
    };
    assert forall|request: RequestView, history: HistoryView| #[trigger]
        rule_outcome(rule, request, history) == (if "/api/events"@.is_prefix_of(request.path)
            && request.method == "POST"@ {
            time_outcome(event_of_text(request.body), event_cutoff())
        } else {
            RuleOutcome::NotApplicable
        }) by {
        reveal_with_fuel(rule_outcome, 2);
    }
    rule
}

/// The decision of the policies that only check an event's fields: a `POST`
/// under the events API is denied where its payload is turned down; every
/// other request is accepted.
pub open spec fn check_event_decision(request: RequestView, with_time: bool) -> Decision {
    if "/api/events"@.is_prefix_of(request.path) && request.method == "POST"@
        && event_fields_denied(request.body, with_time) {
        Decision::Deny
    } else {
        Decision::Accept
    }
}

/// Events may only be posted with a title that starts with `Meeting`.
pub fn check_event_title() -> (policy: Policy)
    ensures
        forall|request: RequestView, history: HistoryView| #[trigger]
            decision_of(policy, request, history) == check_event_decision(request, false),
{
    let mut rules: Vec<Rule> = Vec::new();
    rules.push(title_rule());
    let policy = Policy { rules, default: Decision::Accept };
    assert forall|request: RequestView, history: HistoryView| #[trigger]
        decision_of(policy, request, history) == check_event_decision(request, false) by {
        reveal_with_fuel(decide_from, 2);
    }
    policy
}

/// Events may only be posted with a title that starts with `Meeting` and a
/// time that is not before the cutoff.
pub fn check_event_title_and_time() -> (policy: Policy)
    ensures
        forall|request: RequestView, history: HistoryView| #[trigger]
            decision_of(policy, request, history) == check_event_decision(request, true),
{
    let mut rules: Vec<Rule> = Vec::new();
    rules.push(title_rule());
    rules.push(time_rule());
    let policy = Policy { rules, default: Decision::Accept };
    assert forall|request: RequestView, history: HistoryView| #[trigger]
        decision_of(policy, request, history) == check_event_decision(request, true) by {
        reveal_with_fuel(decide_from, 3);
    }
    policy
}

/// The decision of the policy `modify_only_created_checked`: as
/// `modify_only_created`, but a `POST` whose payload is turned down is denied
/// first.
pub open spec fn modify_only_created_checked_decision(
    request: RequestView,
    history: HistoryView,
) -> Decision {
    if "/api/events"@.is_prefix_of(request.path) && request.method == "POST"@
        && event_fields_denied(request.body, true) {
        Decision::Deny
    } else {
        modify_only_created_decision(request, history)
    }
}

/// Events may be created with a fitting title and time, and changed or
/// deleted only where the history shows that an event was created.
pub fn modify_only_created_checked() -> (policy: Policy)
    ensures
        forall|request: RequestView, history: HistoryView| #[trigger]
            decision_of(policy, request, history) == modify_only_created_checked_decision(
                request,
                history,
            ),
{
    let mut rules: Vec<Rule> = Vec::new();
    rules.push(title_rule());
    rules.push(time_rule());
    rules.push(
        Rule::ScopeGuard {
            prefix: "/api/events".to_owned(),
            methods: all_but("GET"),
            inner: Box::new(
                Rule::CreationGate {
                    exact_path: "/api/events".to_owned(),
                    create_method: "POST".to_owned(),
                },
            ),
        },
    );
    rules.push(
        Rule::ScopeGuard {
            prefix: "/api/events".to_owned(),
            methods: all_but("GET"),
            inner: Box::new(
                Rule::OwnershipByHistory {
                    required_api: "/api/events".to_owned(),
                    required_method: "POST".to_owned(),
                    quantifier: Quantifier::Any,
                },
            ),
        },
    );
    let policy = Policy { rules, default: Decision::Accept };
    assert forall|request: RequestView, history: HistoryView| #[trigger]
        decision_of(policy, request, history) == modify_only_created_checked_decision(
            request,
            history,
        ) by {
        reveal_with_fuel(decide_from, 5);
        reveal_with_fuel(rule_outcome, 2);
    }
    policy
}

/// The decision of the policy `access_only_created`: outside the events API,
/// accept; accept the request that creates an event; accept any other request
/// where every bucket shows a creation, and deny it where one does not.
pub open spec fn access_only_created_decision(request: RequestView, history: HistoryView) -> Decision {
    if "/api/events"@.is_prefix_of(request.path) {
        if request.path == "/api/events"@ && request.method == "POST"@ {
            Decision::Accept
        } else if every_bucket_shows(history, "/api/events"@, "POST"@, false) {
            Decision::Accept
        } else {
            Decision::Deny
        }
    } else {
        Decision::Accept
    }
}

/// Events may be created freely, and reached at all only where every bucket
/// of the history shows that an event was created.
pub fn access_only_created() -> (policy: Policy)
    ensures
        forall|request: RequestView, history: HistoryView| #[trigger]
            decision_of(policy, request, history) == access_only_created_decision(request, history),
{
    let mut rules: Vec<Rule> = Vec::new();
    rules.push(
        Rule::CreationGate {
            exact_path: "/api/events".to_owned(),
            create_method: "POST".to_owned(),
        },
    );
    rules.push(
        Rule::ScopeGuard {
            prefix: "/api/events".to_owned(),
            methods: MethodScope::Every,
            inner: Box::new(
                Rule::OwnershipByHistory {
                    required_api: "/api/events".to_owned(),
                    required_method: "POST".to_owned(),
                    quantifier: Quantifier::AllBuckets,
                },
            ),
        },
    );
    let policy = Policy { rules, default: Decision::Accept };
    assert forall|request: RequestView, history: HistoryView| #[trigger]
        decision_of(policy, request, history) == access_only_created_decision(
            request,
            history,
        ) by {
        reveal_with_fuel(decide_from, 3);
        reveal_with_fuel(rule_outcome, 2);
        if request.path == "/api/events"@ {
            assert("/api/events"@.is_prefix_of(request.path));
        }
    }
    policy
}

/// The decision of the policy `transfer_limit`: a request under
/// `/api/send-money` is denied where its payload is no transfer or its amount
/// is above `limit`; every other request is accepted.
pub open spec fn transfer_limit_decision(request: RequestView, limit: int) -> Decision {
    if "/api/send-money"@.is_prefix_of(request.path) && threshold_outcome(
        transfer_of_text(request.body),
        Comparator::LessEq,
        limit,
    ) == RuleOutcome::Deny {
        Decision::Deny
    } else {
        Decision::Accept
    }
}

/// Money may be sent up to `limit` at a time.
pub fn transfer_limit(limit: i64) -> (policy: Policy)
    ensures
        forall|request: RequestView, history: HistoryView| #[trigger]
            decision_of(policy, request, history) == transfer_limit_decision(request, limit as int),
{
    let mut rules: Vec<Rule> = Vec::new();
    rules.push(
        Rule::ScopeGuard {
            prefix: "/api/send-money".to_owned(),
            methods: MethodScope::Every,
            inner: Box::new(Rule::ThresholdConstraint { comparator: Comparator::LessEq, limit }),
        },
    );
    let policy = Policy { rules, default: Decision::Accept };
    assert forall|request: RequestView, history: HistoryView| #[trigger]
        decision_of(policy, request, history) == transfer_limit_decision(
            request,
            limit as int,
        ) by {
        reveal_with_fuel(decide_from, 2);
        reveal_with_fuel(rule_outcome, 2);
    }
    policy
}

/// The decision of the policy `transfer_allow_list`: a request under
/// `/api/send-money` is accepted where its payload is a transfer of less than
/// a hundred US dollars to Leo; every other request is denied.
pub open spec fn transfer_allow_list_decision(request: RequestView) -> Decision {
    if "/api/send-money"@.is_prefix_of(request.path) && threshold_outcome(
        transfer_of_text(request.body),
        Comparator::Less,
        100,
    ) != RuleOutcome::Deny && exact_match_outcome(
        transfer_of_text(request.body),
        Some("Leo"@),
        Some("USD"@),
        None,
    ) == RuleOutcome::Accept {
        Decision::Accept
    } else {
        Decision::Deny
    }
}

/// Money may only be sent to Leo, in US dollars, less than a hundred at a
/// time; nothing else is allowed.
pub fn transfer_allow_list() -> (policy: Policy)
    ensures
        forall|request: RequestView, history: HistoryView| #[trigger]
            decision_of(policy, request, history) == transfer_allow_list_decision(request),
{
    let mut rules: Vec<Rule> = Vec::new();
    rules.push(
        Rule::ScopeGuard {
            prefix: "/api/send-money".to_owned(),
            methods: MethodScope::Every,
            inner: Box::new(Rule::ThresholdConstraint { comparator: Comparator::Less, limit: 100 }),
        },
    );
    rules.push(
        Rule::ScopeGuard {
            prefix: "/api/send-money".to_owned(),
            methods: MethodScope::Every,
            inner: Box::new(
                Rule::ExactMatchGate {
                    recipient: Some("Leo".to_owned()),
                    currency: Some("USD".to_owned()),
                    amount: None,
                },
            ),
        },
    );
    let policy = Policy { rules, default: Decision::Deny };
    assert forall|request: RequestView, history: HistoryView| #[trigger]
        decision_of(policy, request, history) == transfer_allow_list_decision(request) by {
        reveal_with_fuel(decide_from, 3);
        reveal_with_fuel(rule_outcome, 2);
    }
    policy
}

/// The decision of the policy `read_once`: the mailbox listing is accepted;
/// a `GET` under `/api/emails` is accepted where no bucket shows an earlier
/// one and denied where one does; every other request is denied.
pub open spec fn read_once_decision(request: RequestView, history: HistoryView) -> Decision {
    if request.uri == "http://127.0.0.1:5000/api/emails"@ {
        Decision::Accept
    } else if "/api/emails"@.is_prefix_of(request.path) && request.method == "GET"@
        && !some_bucket_shows(history, "/api/emails"@, "GET"@, true) {
        Decision::Accept
    } else {
        Decision::Deny
    }
}

/// The mailbox may be listed at will, and a message read once.
pub fn read_once() -> (policy: Policy)
    ensures
        forall|request: RequestView, history: HistoryView| #[trigger]
            decision_of(policy, request, history) == read_once_decision(request, history),
{
    let mut rules: Vec<Rule> = Vec::new();
    rules.push(
        Rule::SingleUseGuard {
            collection_uri: "http://127.0.0.1:5000/api/emails".to_owned(),
            api_prefix: "/api/emails".to_owned(),
            method: "GET".to_owned(),
        },
    );
    let policy = Policy { rules, default: Decision::Deny };
    assert forall|request: RequestView, history: HistoryView| #[trigger]
        decision_of(policy, request, history) == read_once_decision(request, history) by {
        reveal_with_fuel(decide_from, 2);
    }
    policy
}

} // verus!
