use ical_filter::dedup::dedup_events;
use ical_filter::filter::accepts;
use ical_filter::filter::filter_events;
use ical_filter::model::Calendar;
use ical_filter::model::Config;
use ical_filter::model::Diagnostic;
use ical_filter::model::Event;
use ical_filter::model::OutputCalendar;
use ical_filter::model::PipelineError;
use ical_filter::model::Property;
use ical_filter::pipeline::run_pipeline;
use ical_filter::pipeline::run_pipeline_many;
use ical_filter::recompose::recompose;
use ical_filter::rules::RuleSet;

fn prop(name: &str, value: &str) -> Property {
    Property { name: name.to_string(), value: Some(value.to_string()) }
}

fn prop_no_value(name: &str) -> Property {
    Property { name: name.to_string(), value: None }
}

fn event(props: Vec<Property>) -> Event {
    Event { properties: props }
}

fn full_event(uid: &str, dtstamp: &str, summary: &str) -> Event {
    event(vec![prop("UID", uid), prop("DTSTAMP", dtstamp), prop("SUMMARY", summary)])
}

fn calendar(props: Vec<Property>, events: Vec<Event>) -> Calendar {
    Calendar { properties: props, events }
}

fn identity_props() -> Vec<Property> {
    vec![prop("VERSION", "2.0"), prop("PRODID", "X")]
}

fn config(blacklist: Vec<&str>, dedup: bool) -> Config {
    Config { blacklist: blacklist.iter().map(|s| s.to_string()).collect(), dedup }
}

fn expect_ok(r: Result<OutputCalendar, PipelineError>) -> OutputCalendar {
    match r {
        Ok(c) => c,
        Err(e) => panic!("expected output calendar, got {:?}", e),
    }
}

fn summaries(out: &OutputCalendar) -> Vec<String> {
    out.events
        .iter()
        .map(|e| {
            e.properties
                .iter()
                .rev()
                .find(|p| p.name == "SUMMARY")
                .and_then(|p| p.value.clone())
                .unwrap_or_default()
        })
        .collect()
}

#[test]
fn blacklist_rule_rejects_matching_event() {
    // VERSION=2.0, PRODID=X, two events, rule SUMMARY=^1:1$ -> only "Team sync" stays.
    let cal = calendar(
        identity_props(),
        vec![full_event("u1", "20240101T000000Z", "Team sync"), full_event(
            "u2",
            "20240101T000000Z",
            "1:1",
        )],
    );
    let (r, diags) = run_pipeline(&cal, &config(vec!["SUMMARY=^1:1$"], false));
    let out = expect_ok(r);
    assert_eq!(summaries(&out), vec!["Team sync".to_string()]);
    assert!(diags.is_empty());
}

#[test]
fn pattern_is_unanchored() {
    // The pattern matches anywhere in the value, not the full string.
    let cal = calendar(
        identity_props(),
        vec![full_event("u1", "t", "weekly standup meeting"), full_event("u2", "t", "lunch")],
    );
    let (r, _) = run_pipeline(&cal, &config(vec!["SUMMARY=standup"], false));
    let out = expect_ok(r);
    assert_eq!(summaries(&out), vec!["lunch".to_string()]);
}

#[test]
fn rule_field_must_name_the_property() {
    // A pattern under another field leaves the event alone.
    let cal = calendar(identity_props(), vec![full_event("u1", "t", "standup")]);
    let (r, _) = run_pipeline(&cal, &config(vec!["LOCATION=standup"], false));
    let out = expect_ok(r);
    assert_eq!(summaries(&out), vec!["standup".to_string()]);
}

#[test]
fn absent_value_matches_as_empty_string() {
    // A property without a value is matched against "", never skipped.
    let (rules, diags) = RuleSet::compile(&vec!["LOCATION=^$".to_string()]);
    assert!(diags.is_empty());
    let with_empty = event(vec![prop("UID", "u"), prop_no_value("LOCATION")]);
    let with_text = event(vec![prop("UID", "u"), prop("LOCATION", "room 1")]);
    assert!(!accepts(&rules, &with_empty));
    assert!(accepts(&rules, &with_text));
}

#[test]
fn rules_for_same_field_accumulate() {
    let (rules, diags) = RuleSet::compile(&vec![
        "SUMMARY=alpha".to_string(),
        "SUMMARY=beta".to_string(),
    ]);
    assert!(diags.is_empty());
    assert_eq!(rules.len(), 2);
    assert!(!accepts(&rules, &full_event("u", "t", "alpha call")));
    assert!(!accepts(&rules, &full_event("u", "t", "beta call")));
    assert!(accepts(&rules, &full_event("u", "t", "gamma call")));
}

#[test]
fn malformed_rule_is_skipped_not_fatal() {
    // BADRULE has no '='; it is ignored and SUMMARY=Foo still applies.
    let cal = calendar(
        identity_props(),
        vec![full_event("u1", "t", "Foo party"), full_event("u2", "t", "Bar party")],
    );
    let (r, diags) = run_pipeline(&cal, &config(vec!["BADRULE", "SUMMARY=Foo"], false));
    let out = expect_ok(r);
    assert_eq!(summaries(&out), vec!["Bar party".to_string()]);
    assert_eq!(diags, vec![Diagnostic::InvalidRule { rule: "BADRULE".to_string() }]);
}

#[test]
fn invalid_pattern_is_skipped_not_fatal() {
    let cal = calendar(identity_props(), vec![full_event("u1", "t", "(anything")]);
    let (r, diags) = run_pipeline(&cal, &config(vec!["SUMMARY=("], false));
    let out = expect_ok(r);
    assert_eq!(out.events.len(), 1);
    assert_eq!(diags, vec![Diagnostic::InvalidPattern { pattern: "(".to_string() }]);
}

#[test]
fn missing_version_is_fatal() {
    let cal = calendar(vec![prop("PRODID", "X")], vec![full_event("u1", "t", "a")]);
    let (r, _) = run_pipeline(&cal, &config(vec![], false));
    assert_eq!(r.unwrap_err(), PipelineError::MissingVersion);
}

#[test]
fn missing_prodid_is_fatal() {
    let cal = calendar(vec![prop("VERSION", "2.0")], vec![full_event("u1", "t", "a")]);
    let (r, _) = run_pipeline(&cal, &config(vec![], false));
    assert_eq!(r.unwrap_err(), PipelineError::MissingProdid);
}

#[test]
fn version_without_value_counts_as_missing() {
    let cal = calendar(vec![prop_no_value("VERSION"), prop("PRODID", "X")], vec![]);
    let (r, _) = run_pipeline(&cal, &config(vec![], false));
    assert_eq!(r.unwrap_err(), PipelineError::MissingVersion);
}

#[test]
fn dedup_keeps_first_of_equal_keys() {
    // Identical DTSTART/DTEND/SUMMARY, different UID -> first one stays.
    let mk = |uid: &str| {
        event(vec![
            prop("UID", uid),
            prop("DTSTAMP", "t"),
            prop("DTSTART", "s"),
            prop("DTEND", "e"),
            prop("SUMMARY", "standup"),
        ])
    };
    let cal = calendar(identity_props(), vec![mk("first"), mk("second")]);
    let (r, _) = run_pipeline(&cal, &config(vec![], true));
    let out = expect_ok(r);
    assert_eq!(out.events.len(), 1);
    assert_eq!(out.events[0].uid, "first");
}

#[test]
fn dedup_disabled_keeps_all_duplicates_in_order() {
    // dedup=false: three events with equal keys but distinct content all stay.
    let mk = |uid: &str| {
        event(vec![
            prop("UID", uid),
            prop("DTSTAMP", "t"),
            prop("DTSTART", "s"),
            prop("DTEND", "e"),
            prop("SUMMARY", "same"),
        ])
    };
    let cal = calendar(identity_props(), vec![mk("a"), mk("b"), mk("c")]);
    let (r, _) = run_pipeline(&cal, &config(vec![], false));
    let out = expect_ok(r);
    let uids: Vec<&str> = out.events.iter().map(|e| e.uid.as_str()).collect();
    assert_eq!(uids, vec!["a", "b", "c"]);
}

#[test]
fn dedup_distinguishes_missing_and_empty_values() {
    // A missing DTSTART is not the same key as an empty DTSTART value.
    let absent = event(vec![prop("UID", "u1"), prop("DTSTAMP", "t"), prop("SUMMARY", "s")]);
    let empty = event(vec![
        prop("UID", "u2"),
        prop("DTSTAMP", "t"),
        prop_no_value("DTSTART"),
        prop("SUMMARY", "s"),
    ]);
    let survivors = dedup_events(&vec![absent, empty], true);
    assert_eq!(survivors.len(), 2);
}

#[test]
fn dedup_preserves_input_order_of_retained_keys() {
    let mk = |uid: &str, summary: &str| {
        event(vec![
            prop("UID", uid),
            prop("DTSTAMP", "t"),
            prop("DTSTART", "s"),
            prop("DTEND", "e"),
            prop("SUMMARY", summary),
        ])
    };
    let events = vec![mk("1", "a"), mk("2", "b"), mk("3", "a"), mk("4", "c"), mk("5", "b")];
    let survivors = dedup_events(&events, true);
    let uids: Vec<String> = survivors
        .iter()
        .map(|e| e.properties.iter().rev().find(|p| p.name == "UID").unwrap().value.clone().unwrap())
        .collect();
    assert_eq!(uids, vec!["1".to_string(), "2".to_string(), "4".to_string()]);
}

#[test]
fn event_missing_dtstamp_is_dropped_with_diagnostic() {
    let good = full_event("u1", "t", "keep me");
    let bad = event(vec![prop("UID", "u2"), prop("SUMMARY", "no stamp")]);
    let cal = calendar(identity_props(), vec![bad, good]);
    let (r, diags) = run_pipeline(&cal, &config(vec![], false));
    let out = expect_ok(r);
    assert_eq!(summaries(&out), vec!["keep me".to_string()]);
    assert_eq!(diags, vec![Diagnostic::MissingDtstamp]);
}

#[test]
fn event_missing_uid_is_dropped_with_diagnostic() {
    let good = full_event("u1", "t", "keep me");
    let bad = event(vec![prop("DTSTAMP", "t"), prop("SUMMARY", "no uid")]);
    let cal = calendar(identity_props(), vec![bad, good]);
    let (r, diags) = run_pipeline(&cal, &config(vec![], false));
    let out = expect_ok(r);
    assert_eq!(out.events.len(), 1);
    assert_eq!(diags, vec![Diagnostic::MissingUid]);
}

#[test]
fn filtered_event_is_not_double_reported() {
    // An event both matching the blacklist and missing DTSTAMP is rejected
    // by the filter alone: no missing-identity diagnostic for it.
    let bad = event(vec![prop("UID", "u"), prop("SUMMARY", "spam")]);
    let cal = calendar(identity_props(), vec![bad]);
    let (r, diags) = run_pipeline(&cal, &config(vec!["SUMMARY=spam"], false));
    let out = expect_ok(r);
    assert!(out.events.is_empty());
    assert!(diags.is_empty());
}

#[test]
fn output_preserves_property_sequence_exactly() {
    // Same names, values and order, duplicates included.
    let e = event(vec![
        prop("SUMMARY", "first"),
        prop("UID", "u"),
        prop_no_value("X-NOTE"),
        prop("DTSTAMP", "t"),
        prop("SUMMARY", "second"),
    ]);
    let cal = calendar(identity_props(), vec![e]);
    let (r, _) = run_pipeline(&cal, &config(vec![], false));
    let out = expect_ok(r);
    assert_eq!(out.events.len(), 1);
    let got = &out.events[0].properties;
    let expected: Vec<(&str, Option<&str>)> = vec![
        ("SUMMARY", Some("first")),
        ("UID", Some("u")),
        ("X-NOTE", None),
        ("DTSTAMP", Some("t")),
        ("SUMMARY", Some("second")),
    ];
    assert_eq!(got.len(), expected.len());
    for (p, (name, value)) in got.iter().zip(expected.iter()) {
        assert_eq!(p.name.as_str(), *name);
        assert_eq!(p.value.as_deref(), *value);
    }
}

#[test]
fn last_occurrence_wins_for_identity_and_key() {
    // Repeated UID properties: the last one names the output event.
    let e = event(vec![prop("UID", "early"), prop("DTSTAMP", "t"), prop("UID", "late")]);
    let cal = calendar(identity_props(), vec![e]);
    let (r, _) = run_pipeline(&cal, &config(vec![], false));
    let out = expect_ok(r);
    assert_eq!(out.events[0].uid, "late");
}

#[test]
fn uid_without_value_is_read_as_empty() {
    // A UID property with no value still counts as present, as the empty string.
    let e = event(vec![prop_no_value("UID"), prop("DTSTAMP", "t")]);
    let cal = calendar(identity_props(), vec![e]);
    let (r, diags) = run_pipeline(&cal, &config(vec![], false));
    let out = expect_ok(r);
    assert_eq!(out.events.len(), 1);
    assert_eq!(out.events[0].uid, "");
    assert!(diags.is_empty());
}

#[test]
fn pipeline_is_deterministic() {
    let cal = calendar(
        identity_props(),
        vec![full_event("u1", "t", "a"), full_event("u2", "t", "b")],
    );
    let cfg = config(vec!["SUMMARY=a"], true);
    let (r1, d1) = run_pipeline(&cal, &cfg);
    let (r2, d2) = run_pipeline(&cal, &cfg);
    let c1 = expect_ok(r1);
    let c2 = expect_ok(r2);
    assert_eq!(c1.version, c2.version);
    assert_eq!(c1.prodid, c2.prodid);
    assert_eq!(summaries(&c1), summaries(&c2));
    assert_eq!(d1, d2);
}

#[test]
fn output_carries_version_and_prodid() {
    let cal = calendar(identity_props(), vec![]);
    let (r, _) = run_pipeline(&cal, &config(vec![], false));
    let out = expect_ok(r);
    assert_eq!(out.version, "2.0");
    assert_eq!(out.prodid, "X");
    assert!(out.events.is_empty());
}

#[test]
fn empty_blacklist_keeps_everything() {
    let cal = calendar(identity_props(), vec![full_event("u1", "t", "a")]);
    let (r, diags) = run_pipeline(&cal, &config(vec![], false));
    let out = expect_ok(r);
    assert_eq!(out.events.len(), 1);
    assert!(diags.is_empty());
}

#[test]
fn filter_then_recompose_components_compose() {
    // The components can be driven separately, as the orchestrator does.
    let (rules, _) = RuleSet::compile(&vec!["SUMMARY=drop".to_string()]);
    let events = vec![full_event("u1", "t", "drop me"), full_event("u2", "t", "stay")];
    let kept = filter_events(&rules, &events);
    assert_eq!(kept.len(), 1);
    let (out, diags) = recompose("2.0".to_string(), "X".to_string(), &kept);
    assert_eq!(out.events.len(), 1);
    assert_eq!(out.events[0].uid, "u2");
    assert!(diags.is_empty());
}

#[test]
fn many_calendars_run_independently() {
    let good = calendar(identity_props(), vec![full_event("u1", "t", "a")]);
    let bad = calendar(vec![prop("VERSION", "2.0")], vec![full_event("u2", "t", "b")]);
    let results = run_pipeline_many(&vec![good, bad], &config(vec![], false));
    assert_eq!(results.len(), 2);
    assert!(results[0].0.is_ok());
    assert_eq!(*results[1].0.as_ref().unwrap_err(), PipelineError::MissingProdid);
}

#[test]
fn rule_diagnostics_survive_fatal_identity_failure() {
    let cal = calendar(vec![], vec![]);
    let (r, diags) = run_pipeline(&cal, &config(vec!["NOEQUALS"], false));
    assert_eq!(r.unwrap_err(), PipelineError::MissingVersion);
    assert_eq!(diags, vec![Diagnostic::InvalidRule { rule: "NOEQUALS".to_string() }]);
}

#[test]
fn rule_splits_on_first_equals_only() {
    // FIELD=PATTERN with '=' inside the pattern: the split happens once.
    let cal = calendar(
        identity_props(),
        vec![full_event("u1", "t", "x=y"), full_event("u2", "t", "plain")],
    );
    let (r, diags) = run_pipeline(&cal, &config(vec!["SUMMARY=x=y"], false));
    let out = expect_ok(r);
    assert_eq!(summaries(&out), vec!["plain".to_string()]);
    assert!(diags.is_empty());
}
