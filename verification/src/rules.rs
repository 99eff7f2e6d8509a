//! The rule kinds and what each of them says about a request.

use vstd::prelude::*;
use crate::body::{
    EventBody, EventView, PolicyError, TransferBody, TransferView, decode_event, decode_transfer,
    event_of_text, event_result_view, text_view, transfer_of_text, transfer_result_view,
};
use crate::clock::{CivilTime, earlier, event_instant, parse_event_time};
use crate::model::{
    Decision, EntryView, HistoryEntry, HistoryMap, HistoryView, Request, RequestView, RuleOutcome,
    entries_view,
};
use crate::text::starts_with;

verus! {

/// How many buckets must show the required entry.
#[derive(Clone, Copy, Debug, PartialEq, Eq, Structural)]
pub enum Quantifier {
    /// One entry in any bucket is enough.
    Any,
    /// Every bucket must hold one of its own.
    AllBuckets,
}

/// How an amount is held against a limit.
#[derive(Clone, Copy, Debug, PartialEq, Eq, Structural)]
pub enum Comparator {
    Less,
    LessEq,
    Greater,
    GreaterEq,
    Equal,
}

/// The verbs that a scope covers.
#[derive(Debug)]
pub enum MethodScope {
    /// Every verb.
    Every,
    /// The listed verbs and no other.
    OneOf(Vec<String>),
    /// Every verb but the listed ones.
    NoneOf(Vec<String>),
}

/// What a field constraint asks of an event payload.
#[derive(Debug)]
pub enum FieldCheck {
    /// The title, where present, starts with this text.
    TitlePrefix(String),
    /// The time, where present, is not before this instant.
    TimeNotBefore(CivilTime),
}

/// One rule of a policy.
#[derive(Debug)]
pub enum Rule {
    /// Applies `inner` to requests whose path starts with `prefix` and whose
    /// verb is covered by `methods`; says nothing of the others.
    ScopeGuard { prefix: String, methods: MethodScope, inner: Box<Rule> },
    /// Accepts the request that creates a resource.
    CreationGate { exact_path: String, create_method: String },
    /// Accepts where the history shows the required entry, denies otherwise.
    OwnershipByHistory { required_api: String, required_method: String, quantifier: Quantifier },
    /// Denies an event payload that breaks the check.
    FieldConstraint { check: FieldCheck },
    /// Denies a transfer whose amount does not stand in `comparator` to
    /// `limit`.
    ThresholdConstraint { comparator: Comparator, limit: i64 },
    /// Accepts a transfer whose listed fields have the expected values,
    /// denies every other.
    ExactMatchGate { recipient: Option<String>, currency: Option<String>, amount: Option<i64> },
    /// Accepts the collection endpoint; accepts a guarded request once and
    /// denies it when the history shows an earlier one.
    SingleUseGuard { collection_uri: String, api_prefix: String, method: String },
    /// Answers every request alike.
    Fixed { decision: Decision },
}

/// Whether `method` is one of `methods`.
pub open spec fn listed(methods: Seq<String>, method: Seq<char>) -> bool {
    exists|i: int| 0 <= i < methods.len() && (#[trigger] methods[i])@ == method
}

/// Whether a scope covers `method`.
pub open spec fn covers(scope: MethodScope, method: Seq<char>) -> bool {
    match scope {
        MethodScope::Every => true,
        MethodScope::OneOf(methods) => listed(methods@, method),
        MethodScope::NoneOf(methods) => !listed(methods@, method),
    }
}

/// Whether a request lies in the scope of a guard.
pub open spec fn in_scope(prefix: Seq<char>, methods: MethodScope, request: RequestView) -> bool {
    prefix.is_prefix_of(request.path) && covers(methods, request.method)
}

/// Whether an entry is of the verb `method` and of the route `api`: the same
/// route, or, with `by_prefix`, one that starts with it.
pub open spec fn fits(entry: EntryView, api: Seq<char>, method: Seq<char>, by_prefix: bool) -> bool {
    entry.method == method && if by_prefix {
        api.is_prefix_of(entry.api)
    } else {
        entry.api == api
    }
}

/// Whether some entry of a bucket fits.
pub open spec fn bucket_shows(
    entries: Seq<EntryView>,
    api: Seq<char>,
    method: Seq<char>,
    by_prefix: bool,
) -> bool {
    exists|i: int| 0 <= i < entries.len() && fits(#[trigger] entries[i], api, method, by_prefix)
}

/// Whether some bucket of the history shows a fitting entry.
pub open spec fn some_bucket_shows(
    history: HistoryView,
    api: Seq<char>,
    method: Seq<char>,
    by_prefix: bool,
) -> bool {
    exists|key: Seq<char>| #[trigger]
        history.dom().contains(key) && bucket_shows(history[key], api, method, by_prefix)
}

/// Whether every bucket of the history shows a fitting entry.
pub open spec fn every_bucket_shows(
    history: HistoryView,
    api: Seq<char>,
    method: Seq<char>,
    by_prefix: bool,
) -> bool {
    forall|key: Seq<char>| #[trigger]
        history.dom().contains(key) ==> bucket_shows(history[key], api, method, by_prefix)
}

/// Whether `amount` stands in `comparator` to `limit`.
pub open spec fn holds(comparator: Comparator, amount: int, limit: int) -> bool {
    match comparator {
        Comparator::Less => amount < limit,
        Comparator::LessEq => amount <= limit,
        Comparator::Greater => amount > limit,
        Comparator::GreaterEq => amount >= limit,
        Comparator::Equal => amount == limit,
    }
}

/// The creation gate: accept the creating request, pass every other on.
pub open spec fn creation_outcome(
    exact_path: Seq<char>,
    create_method: Seq<char>,
    request: RequestView,
) -> RuleOutcome {
    if request.path == exact_path && request.method == create_method {
        RuleOutcome::Accept
    } else {
        RuleOutcome::NotApplicable
    }
}

/// Ownership by history: accept where the history shows the required entry,
/// in any bucket or in every one, and deny otherwise.
pub open spec fn ownership_outcome(
    history: HistoryView,
    api: Seq<char>,
    method: Seq<char>,
    quantifier: Quantifier,
) -> RuleOutcome {
    let shown = match quantifier {
        Quantifier::Any => some_bucket_shows(history, api, method, false),
        Quantifier::AllBuckets => every_bucket_shows(history, api, method, false),
    };
    if shown {
        RuleOutcome::Accept
    } else {
        RuleOutcome::Deny
    }
}

/// The title check on a decoded event: deny a payload that could not be
/// decoded and a title that lacks the prefix; pass on otherwise.
pub open spec fn title_outcome(decoded: Result<EventView, PolicyError>, prefix: Seq<char>) -> RuleOutcome {
    match decoded {
        Err(_) => RuleOutcome::Deny,
        Ok(event) => match event.title {
            Some(title) if !prefix.is_prefix_of(title) => RuleOutcome::Deny,
            _ => RuleOutcome::NotApplicable,
        },
    }
}

/// The time check on a parsed time: deny a time that could not be read and
/// one before the cutoff; pass on at the cutoff and after it.
pub open spec fn instant_outcome(parsed: Result<CivilTime, PolicyError>, cutoff: CivilTime) -> RuleOutcome {
    match parsed {
        Err(_) => RuleOutcome::Deny,
        Ok(instant) => if earlier(instant, cutoff) {
            RuleOutcome::Deny
        } else {
            RuleOutcome::NotApplicable
        },
    }
}

/// The time check on a decoded event: deny a payload that could not be
/// decoded; pass on where the time is absent; otherwise judge the time.
pub open spec fn time_outcome(decoded: Result<EventView, PolicyError>, cutoff: CivilTime) -> RuleOutcome {
    match decoded {
        Err(_) => RuleOutcome::Deny,
        Ok(event) => match event.time {
            None => RuleOutcome::NotApplicable,
            Some(time) => instant_outcome(event_instant(time), cutoff),
        },
    }
}

/// The threshold check on a decoded transfer: deny a payload that could not
/// be decoded and an amount outside the limit; pass on otherwise.
pub open spec fn threshold_outcome(
    decoded: Result<TransferView, PolicyError>,
    comparator: Comparator,
    limit: int,
) -> RuleOutcome {
    match decoded {
        Err(_) => RuleOutcome::Deny,
        Ok(transfer) => if holds(comparator, transfer.amount, limit) {
            RuleOutcome::NotApplicable
        } else {
            RuleOutcome::Deny
        },
    }
}

/// Whether a transfer has every expected value that is listed.
pub open spec fn matches_expected(
    transfer: TransferView,
    recipient: Option<Seq<char>>,
    currency: Option<Seq<char>>,
    amount: Option<int>,
) -> bool {
    &&& recipient matches Some(r) ==> transfer.recipient == r
    &&& currency matches Some(c) ==> transfer.currency == Some(c)
    &&& amount matches Some(a) ==> transfer.amount == a
}

/// The exact-match gate on a decoded transfer: accept where every listed
/// field has its expected value, deny otherwise.
pub open spec fn exact_match_outcome(
    decoded: Result<TransferView, PolicyError>,
    recipient: Option<Seq<char>>,
    currency: Option<Seq<char>>,
    amount: Option<int>,
) -> RuleOutcome {
    match decoded {
        Err(_) => RuleOutcome::Deny,
        Ok(transfer) => if matches_expected(transfer, recipient, currency, amount) {
            RuleOutcome::Accept
        } else {
            RuleOutcome::Deny
        },
    }
}

/// The single-use guard: accept the collection endpoint; for a guarded
/// request, deny where the history shows an earlier one and accept where it
/// does not; pass every other request on.
pub open spec fn single_use_outcome(
    collection_uri: Seq<char>,
    api_prefix: Seq<char>,
    method: Seq<char>,
    request: RequestView,
    history: HistoryView,
) -> RuleOutcome {
    if request.uri == collection_uri {
        RuleOutcome::Accept
    } else if api_prefix.is_prefix_of(request.path) && request.method == method {
        if some_bucket_shows(history, api_prefix, method, true) {
            RuleOutcome::Deny
        } else {
            RuleOutcome::Accept
        }
    } else {
        RuleOutcome::NotApplicable
    }
}

/// A decision as the outcome of a rule.
pub open spec fn outcome_of(decision: Decision) -> RuleOutcome {
    match decision {
        Decision::Accept => RuleOutcome::Accept,
        Decision::Deny => RuleOutcome::Deny,
    }
}

/// An optional amount as a number.
pub open spec fn amount_view(amount: Option<i64>) -> Option<int> {
    match amount {
        Some(a) => Some(a as int),
        None => None,
    }
}

/// What a rule says about a request under a history.
pub open spec fn rule_outcome(rule: Rule, request: RequestView, history: HistoryView) -> RuleOutcome
    decreases rule,
{
    match rule {
        Rule::ScopeGuard { prefix, methods, inner } => if in_scope(prefix@, methods, request) {
            rule_outcome(*inner, request, history)
        } else {
            RuleOutcome::NotApplicable
        },
        Rule::CreationGate { exact_path, create_method } => creation_outcome(
            exact_path@,
            create_method@,
            request,
        ),
        Rule::OwnershipByHistory { required_api, required_method, quantifier } => ownership_outcome(
            history,
            required_api@,
            required_method@,
            quantifier,
        ),
        Rule::FieldConstraint { check } => match check {
            FieldCheck::TitlePrefix(prefix) => title_outcome(event_of_text(request.body), prefix@),
            FieldCheck::TimeNotBefore(cutoff) => time_outcome(event_of_text(request.body), cutoff),
        },
        Rule::ThresholdConstraint { comparator, limit } => threshold_outcome(
            transfer_of_text(request.body),
            comparator,
            limit as int,
        ),
        Rule::ExactMatchGate { recipient, currency, amount } => exact_match_outcome(
            transfer_of_text(request.body),
            text_view(recipient),
            text_view(currency),
            amount_view(amount),
        ),
        Rule::SingleUseGuard { collection_uri, api_prefix, method } => single_use_outcome(
            collection_uri@,
            api_prefix@,
            method@,
            request,
            history,
        ),
        Rule::Fixed { decision } => outcome_of(decision),
    }
}

/// Whether `method` is one of `methods`.
pub fn is_listed(methods: &Vec<String>, method: &String) -> (r: bool)
    ensures
        r == listed(methods@, method@),
{
    let mut i: usize = 0;
    while i < methods.len()
        invariant
            0 <= i <= methods@.len(),
            forall|j: int| 0 <= j < i ==> (#[trigger] methods@[j])@ != method@,
        decreases methods@.len() - i,
    {
        if methods[i] == *method {
            return true;
        }
        i = i + 1;
    }
    false
}

impl MethodScope {
    /// Whether this scope covers `method`.
    pub fn allows(&self, method: &String) -> (r: bool)
        ensures
            r == covers(*self, method@),
    {
        match self {
            MethodScope::Every => true,
            MethodScope::OneOf(methods) => is_listed(methods, method),
            MethodScope::NoneOf(methods) => !is_listed(methods, method),
        }
    }
}

impl Comparator {
    /// Whether `amount` stands in this relation to `limit`.
    pub fn compare(&self, amount: i64, limit: i64) -> (r: bool)
        ensures
            r == holds(*self, amount as int, limit as int),
    {
        match self {
            Comparator::Less => amount < limit,
            Comparator::LessEq => amount <= limit,
            Comparator::Greater => amount > limit,
            Comparator::GreaterEq => amount >= limit,
            Comparator::Equal => amount == limit,
        }
    }
}

/// Whether some entry of a bucket fits.
pub fn bucket_has(entries: &Vec<HistoryEntry>, api: &String, method: &String, by_prefix: bool) -> (r:
    bool)
    ensures
        r == bucket_shows(entries_view(entries@), api@, method@, by_prefix),
{
    let mut i: usize = 0;
    while i < entries.len()
        invariant
            0 <= i <= entries@.len(),
            forall|j: int|
                0 <= j < i ==> !fits(#[trigger] entries_view(entries@)[j], api@, method@, by_prefix),
        decreases entries@.len() - i,
    {
        let entry = &entries[i];
        assert(entries_view(entries@)[i as int] == entry@);
        if entry.method == *method {
            let route = if by_prefix {
                starts_with(entry.api.as_str(), api.as_str())
            } else {
                entry.api == *api
            };
            if route {
                return true;
            }
        }
        i = i + 1;
    }
    false
}

/// Whether some bucket of the history shows a fitting entry.
pub fn history_has_any(history: &HistoryMap, api: &String, method: &String, by_prefix: bool) -> (r:
    bool)
    ensures
        r == some_bucket_shows(history@, api@, method@, by_prefix),
{
    proof {
        use_type_invariant(history);
    }
    let mut b: usize = 0;
    let n: usize = history.len();
    while b < n
        invariant
            0 <= b <= n,
            n == history.buckets().len(),
            history.wf(),
            forall|j: int|
                0 <= j < b ==> !bucket_shows(
                    entries_view((#[trigger] history.buckets()[j]).entries@),
                    api@,
                    method@,
                    by_prefix,
                ),
        decreases n - b,
    {
        if bucket_has(&history.bucket(b).entries, api, method, by_prefix) {
            proof {
                history.lemma_view_at(b as int);
            }
            return true;
        }
        b = b + 1;
    }
    proof {
        assert forall|key: Seq<char>| #[trigger] history@.dom().contains(key) implies !bucket_shows(
            history@[key],
            api@,
            method@,
            by_prefix,
        ) by {
            history.lemma_view_at(history.position(key));
        }
    }
    false
}

/// Whether every bucket of the history shows a fitting entry.
pub fn history_has_all(history: &HistoryMap, api: &String, method: &String, by_prefix: bool) -> (r:
    bool)
    ensures
        r == every_bucket_shows(history@, api@, method@, by_prefix),
{
    proof {
        use_type_invariant(history);
    }
    let mut b: usize = 0;
    let n: usize = history.len();
    while b < n
        invariant
            0 <= b <= n,
            n == history.buckets().len(),
            history.wf(),
            forall|j: int|
                0 <= j < b ==> bucket_shows(
                    entries_view((#[trigger] history.buckets()[j]).entries@),
                    api@,
                    method@,
                    by_prefix,
                ),
        decreases n - b,
    {
        if !bucket_has(&history.bucket(b).entries, api, method, by_prefix) {
            proof {
                history.lemma_view_at(b as int);
            }
            return false;
        }
        b = b + 1;
    }
    proof {
        assert forall|key: Seq<char>| #[trigger] history@.dom().contains(key) implies bucket_shows(
            history@[key],
            api@,
            method@,
            by_prefix,
        ) by {
            history.lemma_view_at(history.position(key));
        }
    }
    true
}

/// The creation gate on one request.
pub fn creation_verdict(exact_path: &String, create_method: &String, request: &Request) -> (r:
    RuleOutcome)
    ensures
        r == creation_outcome(exact_path@, create_method@, request@),
{
    if request.path == *exact_path && request.method == *create_method {
        RuleOutcome::Accept
    } else {
        RuleOutcome::NotApplicable
    }
}

/// Ownership by history: the outcome under the given quantifier.
pub fn ownership_verdict(
    history: &HistoryMap,
    required_api: &String,
    required_method: &String,
    quantifier: Quantifier,
) -> (r: RuleOutcome)
    ensures
        r == ownership_outcome(history@, required_api@, required_method@, quantifier),
{
    let shown = match quantifier {
        Quantifier::Any => history_has_any(history, required_api, required_method, false),
        Quantifier::AllBuckets => history_has_all(history, required_api, required_method, false),
    };
    if shown {
        RuleOutcome::Accept
    } else {
        RuleOutcome::Deny
    }
}

/// The title check on a decoded event.
pub fn title_verdict(decoded: &Result<EventBody, PolicyError>, prefix: &String) -> (r: RuleOutcome)
    ensures
        r == title_outcome(event_result_view(*decoded), prefix@),
{
    match decoded {
        Err(_) => RuleOutcome::Deny,
        Ok(event) => match &event.title {
            Some(title) => if starts_with(title.as_str(), prefix.as_str()) {
                RuleOutcome::NotApplicable
            } else {
                RuleOutcome::Deny
            },
            None => RuleOutcome::NotApplicable,
        },
    }
}

/// The time check on a time that was parsed, or could not be.
pub fn instant_verdict(parsed: Result<CivilTime, PolicyError>, cutoff: &CivilTime) -> (r:
    RuleOutcome)
    ensures
        r == instant_outcome(parsed, *cutoff),
{
    match parsed {
        Err(_) => RuleOutcome::Deny,
        Ok(instant) => if instant.is_earlier(cutoff) {
            RuleOutcome::Deny
        } else {
            RuleOutcome::NotApplicable
        },
    }
}

/// The time check on a decoded event.
pub fn time_verdict(decoded: &Result<EventBody, PolicyError>, cutoff: &CivilTime) -> (r: RuleOutcome)
    ensures
        r == time_outcome(event_result_view(*decoded), *cutoff),
{
    match decoded {
        Err(_) => RuleOutcome::Deny,
        Ok(event) => match &event.time {
            None => RuleOutcome::NotApplicable,
            Some(time) => instant_verdict(parse_event_time(time.as_str()), cutoff),
        },
    }
}

/// The threshold check on a decoded transfer.
pub fn threshold_verdict(
    decoded: &Result<TransferBody, PolicyError>,
    comparator: Comparator,
    limit: i64,
) -> (r: RuleOutcome)
    ensures
        r == threshold_outcome(transfer_result_view(*decoded), comparator, limit as int),
{
    match decoded {
        Err(_) => RuleOutcome::Deny,
        Ok(transfer) => if comparator.compare(transfer.amount, limit) {
            RuleOutcome::NotApplicable
        } else {
            RuleOutcome::Deny
        },
    }
}

/// Whether an expected text, where one is listed, is the text found.
fn text_as_expected(expected: &Option<String>, found: &Option<String>) -> (r: bool)
    ensures
        r == (text_view(*expected) matches Some(e) ==> text_view(*found) == Some(e)),
{
    match expected {
        None => true,
        Some(e) => match found {
            None => false,
            Some(f) => *f == *e,
        },
    }
}

/// The exact-match gate on a decoded transfer.
pub fn exact_match_verdict(
    decoded: &Result<TransferBody, PolicyError>,
    recipient: &Option<String>,
    currency: &Option<String>,
    amount: Option<i64>,
) -> (r: RuleOutcome)
    ensures
        r == exact_match_outcome(
            transfer_result_view(*decoded),
            text_view(*recipient),
            text_view(*currency),
            amount_view(amount),
        ),
{
    match decoded {
        Err(_) => RuleOutcome::Deny,
        Ok(transfer) => {
            let recipient_fits = match recipient {
                None => true,
                Some(r) => transfer.recipient == *r,
            };
            let currency_fits = text_as_expected(currency, &transfer.currency);
            let amount_fits = match amount {
                None => true,
                Some(a) => transfer.amount == a,
            };
            if recipient_fits && currency_fits && amount_fits {
                RuleOutcome::Accept
            } else {
                RuleOutcome::Deny
            }
        },
    }
}

/// The single-use guard on one request.
pub fn single_use_verdict(
    collection_uri: &String,
    api_prefix: &String,
    method: &String,
    request: &Request,
    history: &HistoryMap,
) -> (r: RuleOutcome)
    ensures
        r == single_use_outcome(collection_uri@, api_prefix@, method@, request@, history@),
{
    if request.uri == *collection_uri {
        RuleOutcome::Accept
    } else if starts_with(request.path.as_str(), api_prefix.as_str()) && request.method == *method {
        if history_has_any(history, api_prefix, method, true) {
            RuleOutcome::Deny
        } else {
            RuleOutcome::Accept
        }
    } else {
        RuleOutcome::NotApplicable
    }
}

/// What `rule` says about `request` under `history`. A rule that reads the
/// payload decodes it itself; a payload that cannot be decoded is denied by
/// that rule and troubles no other.
pub fn evaluate_rule(rule: &Rule, request: &Request, history: &HistoryMap) -> (r: RuleOutcome)
    ensures
        r == rule_outcome(*rule, request@, history@),
    decreases *rule,
{
    match rule {
        Rule::ScopeGuard { prefix, methods, inner } => {
            if starts_with(request.path.as_str(), prefix.as_str()) && methods.allows(
                &request.method,
            ) {
                evaluate_rule(inner, request, history)
            } else {
                RuleOutcome::NotApplicable
            }
        },
        Rule::CreationGate { exact_path, create_method } => creation_verdict(
            exact_path,
            create_method,
            request,
        ),
        Rule::OwnershipByHistory { required_api, required_method, quantifier } => ownership_verdict(
            history,
            required_api,
            required_method,
            *quantifier,
        ),
        Rule::FieldConstraint { check } => match check {
            FieldCheck::TitlePrefix(prefix) => {
                let decoded = decode_event(request.body.as_str());
                title_verdict(&decoded, prefix)
            },
            FieldCheck::TimeNotBefore(cutoff) => {
                let decoded = decode_event(request.body.as_str());
                time_verdict(&decoded, cutoff)
            },
        },
        Rule::ThresholdConstraint { comparator, limit } => {
            let decoded = decode_transfer(request.body.as_str());
            threshold_verdict(&decoded, *comparator, *limit)
        },
        Rule::ExactMatchGate { recipient, currency, amount } => {
            let decoded = decode_transfer(request.body.as_str());
            exact_match_verdict(&decoded, recipient, currency, *amount)
        },
        Rule::SingleUseGuard { collection_uri, api_prefix, method } => single_use_verdict(
            collection_uri,
            api_prefix,
            method,
            request,
            history,
        ),
        Rule::Fixed { decision } => match decision {
            Decision::Accept => RuleOutcome::Accept,
            Decision::Deny => RuleOutcome::Deny,
        },
    }
}

} // verus!
