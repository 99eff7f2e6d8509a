use history_policy::body::{decode_event, decode_transfer, PolicyError, TransferBody};
use history_policy::clock::{parse_event_time, CivilTime};
use history_policy::model::{
    Decision, HistoryEntry, HistoryMap, Request, RuleOutcome, Timestamp,
};
use history_policy::pipeline::{evaluate, Policy};
use history_policy::rules::{
    bucket_has, evaluate_rule, exact_match_verdict, history_has_all, history_has_any,
    instant_verdict, threshold_verdict, title_verdict, Comparator, FieldCheck, MethodScope,
    Quantifier, Rule,
};

fn stamp(seconds: f64) -> Timestamp {
    Timestamp { bits: seconds.to_bits() }
}

fn request(method: &str, path: &str, body: &str) -> Request {
    Request {
        method: method.to_string(),
        uri: format!("http://127.0.0.1:5000{}", path),
        path: path.to_string(),
        body: body.to_string(),
        headers: Vec::new(),
        time: stamp(10.0),
    }
}

fn entry(api: &str, method: &str, counter: u64, seconds: f64) -> HistoryEntry {
    HistoryEntry {
        api: api.to_string(),
        method: method.to_string(),
        counter,
        timestamp: stamp(seconds),
    }
}

fn history(buckets: Vec<(&str, Vec<HistoryEntry>)>) -> HistoryMap {
    let mut map = HistoryMap::new();
    for (key, entries) in buckets {
        map.insert(key.to_string(), entries);
    }
    map
}

fn creation_gate() -> Rule {
    Rule::CreationGate {
        exact_path: "/api/events".to_string(),
        create_method: "POST".to_string(),
    }
}

fn ownership(quantifier: Quantifier) -> Rule {
    Rule::OwnershipByHistory {
        required_api: "/api/events".to_string(),
        required_method: "POST".to_string(),
        quantifier,
    }
}

fn title_rule() -> Rule {
    Rule::FieldConstraint { check: FieldCheck::TitlePrefix("Meeting".to_string()) }
}

fn feb_15() -> CivilTime {
    CivilTime { year: 2024, month: 2, day: 15, hour: 0, minute: 0, second: 0 }
}

fn time_rule() -> Rule {
    Rule::FieldConstraint { check: FieldCheck::TimeNotBefore(feb_15()) }
}

fn modify_only_created() -> Policy {
    Policy {
        rules: vec![Rule::ScopeGuard {
            prefix: "/api/events".to_string(),
            methods: MethodScope::NoneOf(vec!["GET".to_string()]),
            inner: Box::new(Rule::Fixed { decision: Decision::Deny }),
        }],
        default: Decision::Accept,
    }
}

#[test]
fn creation_gate_accepts_the_creating_request() {
    let req = request("POST", "/api/events", "{}");
    assert_eq!(evaluate_rule(&creation_gate(), &req, &HistoryMap::new()), RuleOutcome::Accept);
    let full = history(vec![("o1", vec![entry("/api/other", "GET", 4, 1.0)]), ("o2", vec![])]);
    assert_eq!(evaluate_rule(&creation_gate(), &req, &full), RuleOutcome::Accept);
}

#[test]
fn creation_gate_passes_other_requests_on() {
    let empty = HistoryMap::new();
    let put = request("PUT", "/api/events", "{}");
    assert_eq!(evaluate_rule(&creation_gate(), &put, &empty), RuleOutcome::NotApplicable);
    let item = request("POST", "/api/events/7", "{}");
    assert_eq!(evaluate_rule(&creation_gate(), &item, &empty), RuleOutcome::NotApplicable);
    let lower = request("post", "/api/events", "{}");
    assert_eq!(evaluate_rule(&creation_gate(), &lower, &empty), RuleOutcome::NotApplicable);
}

#[test]
fn ownership_any_denies_without_a_matching_entry() {
    let req = request("PUT", "/api/events/7", "{}");
    let rule = ownership(Quantifier::Any);
    assert_eq!(evaluate_rule(&rule, &req, &HistoryMap::new()), RuleOutcome::Deny);
    let other = history(vec![
        ("o1", vec![entry("/api/events", "GET", 0, 1.0)]),
        ("o2", vec![entry("/api/events/7", "POST", 0, 1.0)]),
        ("o3", vec![]),
    ]);
    assert_eq!(evaluate_rule(&rule, &req, &other), RuleOutcome::Deny);
}

#[test]
fn ownership_any_accepts_a_match_under_any_key() {
    let req = request("PUT", "/api/events/7", "{}");
    let rule = ownership(Quantifier::Any);
    let first = history(vec![("o1", vec![entry("/api/events", "POST", 0, 1.0)]), ("o2", vec![])]);
    assert_eq!(evaluate_rule(&rule, &req, &first), RuleOutcome::Accept);
    let last = history(vec![
        ("a", vec![]),
        ("zz", vec![entry("/x", "GET", 1, 2.0), entry("/api/events", "POST", 3, 1.0)]),
    ]);
    assert_eq!(evaluate_rule(&rule, &req, &last), RuleOutcome::Accept);
}

#[test]
fn ownership_all_buckets_denies_when_one_bucket_lacks_the_entry() {
    let req = request("PUT", "/api/events/7", "{}");
    let rule = ownership(Quantifier::AllBuckets);
    let hist = history(vec![("o1", vec![entry("/api/events", "POST", 0, 1.0)]), ("o2", vec![])]);
    assert_eq!(evaluate_rule(&rule, &req, &hist), RuleOutcome::Deny);
}

#[test]
fn ownership_all_buckets_accepts_when_every_bucket_has_the_entry() {
    let req = request("PUT", "/api/events/7", "{}");
    let rule = ownership(Quantifier::AllBuckets);
    let hist = history(vec![
        ("o1", vec![entry("/api/events", "POST", 0, 1.0)]),
        ("o2", vec![entry("/x", "GET", 0, 1.0), entry("/api/events", "POST", 2, 3.0)]),
    ]);
    assert_eq!(evaluate_rule(&rule, &req, &hist), RuleOutcome::Accept);
    assert_eq!(evaluate_rule(&rule, &req, &HistoryMap::new()), RuleOutcome::Accept);
}

#[test]
fn history_scans_agree_with_their_buckets() {
    let api = "/api/emails".to_string();
    let get = "GET".to_string();
    let entries = vec![entry("/api/emails/3", "GET", 0, 1.0)];
    assert!(bucket_has(&entries, &api, &get, true));
    assert!(!bucket_has(&entries, &api, &get, false));
    assert!(!bucket_has(&entries, &"/api/emails/3".to_string(), &"POST".to_string(), false));
    let hist = history(vec![("o1", entries), ("o2", vec![])]);
    assert!(history_has_any(&hist, &api, &get, true));
    assert!(!history_has_any(&hist, &api, &get, false));
    assert!(!history_has_all(&hist, &api, &get, true));
}

#[test]
fn title_without_the_prefix_is_denied() {
    let req = request("POST", "/api/events", "{\"title\":\"Lunch\"}");
    assert_eq!(evaluate_rule(&title_rule(), &req, &HistoryMap::new()), RuleOutcome::Deny);
}

#[test]
fn title_with_the_prefix_passes_to_the_next_rule() {
    let req = request("POST", "/api/events", "{\"title\":\"Meeting: sync\"}");
    assert_eq!(evaluate_rule(&title_rule(), &req, &HistoryMap::new()), RuleOutcome::NotApplicable);
    let policy = Policy { rules: vec![title_rule(), creation_gate()], default: Decision::Deny };
    assert_eq!(evaluate(&req, &HistoryMap::new(), &policy), Decision::Accept);
}

#[test]
fn absent_title_passes() {
    let empty = HistoryMap::new();
    let req = request("POST", "/api/events", "{}");
    assert_eq!(evaluate_rule(&title_rule(), &req, &empty), RuleOutcome::NotApplicable);
    let null = request("POST", "/api/events", "{\"title\":null,\"location\":\"here\"}");
    assert_eq!(evaluate_rule(&title_rule(), &null, &empty), RuleOutcome::NotApplicable);
}

#[test]
fn malformed_event_body_is_denied() {
    let empty = HistoryMap::new();
    for body in ["", "not json", "[1,2]", "\"Meeting\"", "{\"title\":5}", "{\"title\":\"Meeting\""] {
        let req = request("POST", "/api/events", body);
        assert_eq!(evaluate_rule(&title_rule(), &req, &empty), RuleOutcome::Deny);
        assert_eq!(evaluate_rule(&time_rule(), &req, &empty), RuleOutcome::Deny);
    }
    let wrong_elsewhere = request("POST", "/api/events", "{\"title\":\"Meeting\",\"time\":7}");
    assert_eq!(evaluate_rule(&title_rule(), &wrong_elsewhere, &empty), RuleOutcome::Deny);
}

#[test]
fn time_before_the_cutoff_is_denied() {
    let req = request("POST", "/api/events", "{\"time\":\"2024-02-14T23:59\"}");
    assert_eq!(evaluate_rule(&time_rule(), &req, &HistoryMap::new()), RuleOutcome::Deny);
}

#[test]
fn time_at_the_cutoff_passes() {
    let empty = HistoryMap::new();
    let at = request("POST", "/api/events", "{\"time\":\"2024-02-15T00:00\"}");
    assert_eq!(evaluate_rule(&time_rule(), &at, &empty), RuleOutcome::NotApplicable);
    let after = request("POST", "/api/events", "{\"time\":\"2025-01-01T08:30\"}");
    assert_eq!(evaluate_rule(&time_rule(), &after, &empty), RuleOutcome::NotApplicable);
    let absent = request("POST", "/api/events", "{\"title\":\"Lunch\"}");
    assert_eq!(evaluate_rule(&time_rule(), &absent, &empty), RuleOutcome::NotApplicable);
}

#[test]
fn unreadable_time_is_denied() {
    let empty = HistoryMap::new();
    for time in ["tomorrow", "2024-02-15", "2024-13-01T00:00", "2024-02-15 00:00", ""] {
        let body = format!("{{\"time\":\"{}\"}}", time);
        let req = request("POST", "/api/events", &body);
        assert_eq!(evaluate_rule(&time_rule(), &req, &empty), RuleOutcome::Deny);
    }
}

#[test]
fn event_time_is_read_field_by_field() {
    assert_eq!(
        parse_event_time("2024-02-14T23:59"),
        Ok(CivilTime { year: 2024, month: 2, day: 14, hour: 23, minute: 59, second: 0 })
    );
    assert_eq!(parse_event_time("2024-02-30T10:00"), Err(PolicyError::Constraint));
    assert_eq!(parse_event_time("Meeting"), Err(PolicyError::Constraint));
}

#[test]
fn instants_compare_from_the_year_down() {
    let cutoff = feb_15();
    let earlier = CivilTime { year: 2023, month: 12, day: 31, hour: 23, minute: 59, second: 59 };
    assert!(earlier.is_earlier(&cutoff));
    assert!(!cutoff.is_earlier(&earlier));
    assert!(!cutoff.is_earlier(&cutoff));
    let later_minute = CivilTime { minute: 1, ..cutoff };
    assert!(cutoff.is_earlier(&later_minute));
    assert_eq!(instant_verdict(Ok(earlier), &cutoff), RuleOutcome::Deny);
    assert_eq!(instant_verdict(Ok(later_minute), &cutoff), RuleOutcome::NotApplicable);
    assert_eq!(instant_verdict(Err(PolicyError::Constraint), &cutoff), RuleOutcome::Deny);
}

#[test]
fn event_decoding_keeps_the_fields() {
    let event = decode_event(
        "{\"title\":\"Meeting\",\"description\":\"d\",\"time\":\"2024-02-15T00:00\",\"extra\":[1]}",
    )
    .unwrap();
    assert_eq!(event.title.as_deref(), Some("Meeting"));
    assert_eq!(event.description.as_deref(), Some("d"));
    assert_eq!(event.time.as_deref(), Some("2024-02-15T00:00"));
    assert_eq!(event.location, None);
    assert_eq!(decode_event("{\"location\":false}").unwrap_err(), PolicyError::Parse);
    assert_eq!(decode_event("null").unwrap_err(), PolicyError::Parse);
}

#[test]
fn transfer_decoding_requires_recipient_and_amount() {
    let transfer = decode_transfer("{\"recipient\":\"Leo\",\"amount\":42}").unwrap();
    assert_eq!(transfer.recipient, "Leo");
    assert_eq!(transfer.amount, 42);
    assert_eq!(transfer.currency, None);
    let negative =
        decode_transfer("{\"recipient\":\"Leo\",\"amount\":-7,\"currency\":\"USD\"}").unwrap();
    assert_eq!(negative.amount, -7);
    assert_eq!(negative.currency.as_deref(), Some("USD"));
    for body in [
        "{\"amount\":42}",
        "{\"recipient\":\"Leo\"}",
        "{\"recipient\":\"Leo\",\"amount\":\"42\"}",
        "{\"recipient\":\"Leo\",\"amount\":4.5}",
        "{\"recipient\":\"Leo\",\"amount\":18446744073709551615}",
        "{\"recipient\":null,\"amount\":42}",
        "{\"recipient\":\"Leo\",\"amount\":42,\"currency\":1}",
        "[\"Leo\",42]",
        "",
    ] {
        assert_eq!(decode_transfer(body).unwrap_err(), PolicyError::Parse);
    }
}

#[test]
fn threshold_denies_above_the_limit() {
    let rule = Rule::ThresholdConstraint { comparator: Comparator::LessEq, limit: 100 };
    let empty = HistoryMap::new();
    let over = request("POST", "/api/send-money", "{\"recipient\":\"Leo\",\"amount\":150}");
    assert_eq!(evaluate_rule(&rule, &over, &empty), RuleOutcome::Deny);
    let at = request("POST", "/api/send-money", "{\"recipient\":\"Leo\",\"amount\":100}");
    assert_eq!(evaluate_rule(&rule, &at, &empty), RuleOutcome::NotApplicable);
    let broken = request("POST", "/api/send-money", "{\"amount\":1}");
    assert_eq!(evaluate_rule(&rule, &broken, &empty), RuleOutcome::Deny);
}

#[test]
fn comparators_hold_at_their_boundaries() {
    assert!(Comparator::Less.compare(99, 100));
    assert!(!Comparator::Less.compare(100, 100));
    assert!(Comparator::LessEq.compare(100, 100));
    assert!(!Comparator::LessEq.compare(101, 100));
    assert!(Comparator::Greater.compare(101, 100));
    assert!(!Comparator::Greater.compare(100, 100));
    assert!(Comparator::GreaterEq.compare(100, 100));
    assert!(!Comparator::GreaterEq.compare(99, 100));
    assert!(Comparator::Equal.compare(-3, -3));
    assert!(!Comparator::Equal.compare(3, -3));
    let decoded = Ok(TransferBody { recipient: "Leo".to_string(), amount: 100, currency: None });
    assert_eq!(threshold_verdict(&decoded, Comparator::Less, 100), RuleOutcome::Deny);
    assert_eq!(threshold_verdict(&decoded, Comparator::LessEq, 100), RuleOutcome::NotApplicable);
    assert_eq!(
        threshold_verdict(&Err(PolicyError::Parse), Comparator::LessEq, 100),
        RuleOutcome::Deny
    );
}

#[test]
fn exact_match_gate_accepts_only_the_listed_values() {
    let rule = Rule::ExactMatchGate {
        recipient: Some("Leo".to_string()),
        currency: Some("USD".to_string()),
        amount: None,
    };
    let empty = HistoryMap::new();
    let good = request(
        "POST",
        "/api/send-money",
        "{\"recipient\":\"Leo\",\"amount\":5,\"currency\":\"USD\"}",
    );
    assert_eq!(evaluate_rule(&rule, &good, &empty), RuleOutcome::Accept);
    let other = request(
        "POST",
        "/api/send-money",
        "{\"recipient\":\"Lea\",\"amount\":5,\"currency\":\"USD\"}",
    );
    assert_eq!(evaluate_rule(&rule, &other, &empty), RuleOutcome::Deny);
    let no_currency = request("POST", "/api/send-money", "{\"recipient\":\"Leo\",\"amount\":5}");
    assert_eq!(evaluate_rule(&rule, &no_currency, &empty), RuleOutcome::Deny);
    let broken = request("POST", "/api/send-money", "{");
    assert_eq!(evaluate_rule(&rule, &broken, &empty), RuleOutcome::Deny);
    let decoded = Ok(TransferBody { recipient: "Leo".to_string(), amount: 5, currency: None });
    assert_eq!(exact_match_verdict(&decoded, &None, &None, Some(5)), RuleOutcome::Accept);
    assert_eq!(exact_match_verdict(&decoded, &None, &None, Some(6)), RuleOutcome::Deny);
    assert_eq!(exact_match_verdict(&decoded, &None, &None, None), RuleOutcome::Accept);
}

#[test]
fn title_verdict_on_decoded_events() {
    let prefix = "Meeting".to_string();
    assert_eq!(title_verdict(&Err(PolicyError::Parse), &prefix), RuleOutcome::Deny);
    let exact = decode_event("{\"title\":\"Meeting\"}");
    assert_eq!(title_verdict(&exact, &prefix), RuleOutcome::NotApplicable);
    let shorter = decode_event("{\"title\":\"Meet\"}");
    assert_eq!(title_verdict(&shorter, &prefix), RuleOutcome::Deny);
    let inside = decode_event("{\"title\":\"A Meeting\"}");
    assert_eq!(title_verdict(&inside, &prefix), RuleOutcome::Deny);
}

#[test]
fn single_use_guard_allows_one_read() {
    let rule = Rule::SingleUseGuard {
        collection_uri: "http://127.0.0.1:5000/api/emails".to_string(),
        api_prefix: "/api/emails".to_string(),
        method: "GET".to_string(),
    };
    let empty = HistoryMap::new();
    let read = history(vec![("t", vec![entry("/api/emails/3", "GET", 0, 1.0)])]);
    let listing = request("GET", "/api/emails", "");
    assert_eq!(evaluate_rule(&rule, &listing, &read), RuleOutcome::Accept);
    let item = request("GET", "/api/emails/4", "");
    assert_eq!(evaluate_rule(&rule, &item, &empty), RuleOutcome::Accept);
    assert_eq!(evaluate_rule(&rule, &item, &read), RuleOutcome::Deny);
    let posted = history(vec![("t", vec![entry("/api/emails/3", "POST", 0, 1.0)])]);
    assert_eq!(evaluate_rule(&rule, &item, &posted), RuleOutcome::Accept);
    let delete = request("DELETE", "/api/emails/4", "");
    assert_eq!(evaluate_rule(&rule, &delete, &read), RuleOutcome::NotApplicable);
    let elsewhere = request("GET", "/api/me", "");
    assert_eq!(evaluate_rule(&rule, &elsewhere, &read), RuleOutcome::NotApplicable);
}

#[test]
fn scope_guard_says_nothing_outside_its_scope() {
    let policy = modify_only_created();
    let empty = HistoryMap::new();
    let guard = &policy.rules[0];
    let get = request("GET", "/api/events/7", "");
    assert_eq!(evaluate_rule(guard, &get, &empty), RuleOutcome::NotApplicable);
    assert_eq!(evaluate(&get, &empty, &policy), Decision::Accept);
    let elsewhere = request("PUT", "/api/files", "");
    assert_eq!(evaluate_rule(guard, &elsewhere, &empty), RuleOutcome::NotApplicable);
    assert_eq!(evaluate(&elsewhere, &empty, &policy), Decision::Accept);
    let inside = request("PUT", "/api/events/7", "");
    assert_eq!(evaluate_rule(guard, &inside, &empty), RuleOutcome::Deny);
    assert_eq!(evaluate(&inside, &empty, &policy), Decision::Deny);
}

#[test]
fn method_scopes_cover_their_verbs() {
    let post = "POST".to_string();
    let get = "GET".to_string();
    assert!(MethodScope::Every.allows(&post));
    assert!(MethodScope::OneOf(vec![get.clone(), post.clone()]).allows(&post));
    assert!(!MethodScope::OneOf(vec![get.clone()]).allows(&post));
    assert!(!MethodScope::OneOf(Vec::new()).allows(&post));
    assert!(MethodScope::NoneOf(vec![get.clone()]).allows(&post));
    assert!(!MethodScope::NoneOf(vec![get.clone()]).allows(&get));
    assert!(!MethodScope::OneOf(vec![get.clone()]).allows(&"get".to_string()));
}

#[test]
fn pipeline_stops_at_the_first_rule_that_settles() {
    let empty = HistoryMap::new();
    let req = request("POST", "/api/events", "{\"title\":\"Lunch\"}");
    let deny_first = Policy { rules: vec![title_rule(), creation_gate()], default: Decision::Accept };
    assert_eq!(evaluate(&req, &empty, &deny_first), Decision::Deny);
    let accept_first =
        Policy { rules: vec![creation_gate(), title_rule()], default: Decision::Deny };
    assert_eq!(evaluate(&req, &empty, &accept_first), Decision::Accept);
}

#[test]
fn pipeline_falls_back_to_the_default() {
    let empty = HistoryMap::new();
    let req = request("GET", "/api/me", "not json");
    let accept = Policy { rules: vec![creation_gate()], default: Decision::Accept };
    assert_eq!(evaluate(&req, &empty, &accept), Decision::Accept);
    let deny = Policy { rules: vec![creation_gate()], default: Decision::Deny };
    assert_eq!(evaluate(&req, &empty, &deny), Decision::Deny);
    let none = Policy { rules: Vec::new(), default: Decision::Deny };
    assert_eq!(evaluate(&req, &empty, &none), Decision::Deny);
}

#[test]
fn event_policy_checks_fields_then_creation_then_history() {
    let policy = Policy {
        rules: vec![Rule::ScopeGuard {
            prefix: "/api/events".to_string(),
            methods: MethodScope::NoneOf(vec!["GET".to_string()]),
            inner: Box::new(Rule::ScopeGuard {
                prefix: "".to_string(),
                methods: MethodScope::OneOf(vec!["POST".to_string()]),
                inner: Box::new(title_rule()),
            }),
        }, Rule::ScopeGuard {
            prefix: "/api/events".to_string(),
            methods: MethodScope::OneOf(vec!["POST".to_string()]),
            inner: Box::new(time_rule()),
        }, creation_gate(), Rule::ScopeGuard {
            prefix: "/api/events".to_string(),
            methods: MethodScope::NoneOf(vec!["GET".to_string()]),
            inner: Box::new(ownership(Quantifier::Any)),
        }],
        default: Decision::Accept,
    };
    let empty = HistoryMap::new();
    let created = history(vec![("o1", vec![entry("/api/events", "POST", 0, 1.0)])]);
    let create =
        request("POST", "/api/events", "{\"title\":\"Meeting\",\"time\":\"2024-03-01T09:00\"}");
    assert_eq!(evaluate(&create, &empty, &policy), Decision::Accept);
    let early =
        request("POST", "/api/events", "{\"title\":\"Meeting\",\"time\":\"2024-02-01T09:00\"}");
    assert_eq!(evaluate(&early, &created, &policy), Decision::Deny);
    let put = request("PUT", "/api/events/7", "{\"title\":\"Lunch\"}");
    assert_eq!(evaluate(&put, &empty, &policy), Decision::Deny);
    assert_eq!(evaluate(&put, &created, &policy), Decision::Accept);
    let get = request("GET", "/api/events/7", "");
    assert_eq!(evaluate(&get, &empty, &policy), Decision::Accept);
}

#[test]
fn decisions_print_as_their_words() {
    assert_eq!(Decision::Accept.as_text(), "Accept");
    assert_eq!(Decision::Deny.as_text(), "Deny");
}

#[test]
fn restricted_history_scopes_the_ownership_check() {
    let req = request("PUT", "/api/events/7", "{}");
    let rule = ownership(Quantifier::Any);
    let hist = history(vec![("mine", vec![]), ("theirs", vec![entry("/api/events", "POST", 0, 1.0)])]);
    assert_eq!(evaluate_rule(&rule, &req, &hist), RuleOutcome::Accept);
    let mine = hist.restricted_to(&"mine".to_string());
    assert_eq!(evaluate_rule(&rule, &req, &mine), RuleOutcome::Deny);
    let theirs = hist.restricted_to(&"theirs".to_string());
    assert_eq!(evaluate_rule(&rule, &req, &theirs), RuleOutcome::Accept);
}
