//! The library's laws: proofs of the properties the pipeline promises
//! beyond each function's own contract — rejection semantics, determinism,
//! dedup stability, property preservation, and the locality of rule and
//! event failures.

use vstd::prelude::*;

use crate::dedup::DedupKeyV;
use crate::dedup::key_in;
use crate::dedup::spec_dedup;
use crate::dedup::spec_key;
use crate::filter::spec_accepts;
use crate::model::CalendarView;
use crate::model::EventV;
use crate::model::OutputCalendarView;
use crate::model::OutputEventView;
use crate::model::PipelineError;
use crate::pipeline::spec_pipeline;
use crate::recompose::event_valid;
use crate::recompose::spec_recompose;
use crate::rules::RuleView;
use crate::rules::spec_compile;
use crate::rules::spec_rejects_property;
use crate::rules::spec_split_rule;
use crate::rules::pattern_ok;

verus! {

/// A rule set rejects an event exactly when some property of the event has
/// a name a rule carries and a value that rule's pattern matches.
pub proof fn lemma_rejects_iff(e: EventV, rules: Seq<RuleView>)
    ensures
        !spec_accepts(e, rules) <==> exists|i: int|
            0 <= i < e.len() && spec_rejects_property(rules, e[i].name, e[i].value),
{
}

/// The pipeline is deterministic: two runs on the same decoded calendar
/// and configuration produce the same decoded output.
pub proof fn lemma_pipeline_deterministic(
    cal: CalendarView,
    blacklist: Seq<Seq<char>>,
    dedup: bool,
    r1: Result<OutputCalendarView, PipelineError>,
    r2: Result<OutputCalendarView, PipelineError>,
)
    requires
        r1 == spec_pipeline(cal, blacklist, dedup),
        r2 == spec_pipeline(cal, blacklist, dedup),
    ensures
        r1 == r2,
{
}

/// Index `i` holds the first event with its key: no earlier event shares it.
pub open spec fn is_first_occurrence(events: Seq<EventV>, i: int) -> bool {
    0 <= i < events.len() && forall|j: int|
        0 <= j < i ==> spec_key(events[j]) != spec_key(events[i])
}

/// The index of the first event carrying key `k`, when some event does.
pub open spec fn first_key_index(events: Seq<EventV>, k: DedupKeyV) -> int
    decreases events.len(),
{
    if events.len() == 0 {
        -1
    } else if key_in(events.drop_last(), k) {
        first_key_index(events.drop_last(), k)
    } else if spec_key(events.last()) == k {
        events.len() - 1
    } else {
        -1
    }
}

/// When a key occurs, `first_key_index` names its earliest position.
pub proof fn lemma_first_key_index(events: Seq<EventV>, k: DedupKeyV)
    requires
        key_in(events, k),
    ensures
        0 <= first_key_index(events, k) < events.len(),
        spec_key(events[first_key_index(events, k)]) == k,
        forall|j: int| 0 <= j < first_key_index(events, k) ==> spec_key(events[j]) != k,
    decreases events.len(),
{
    let prefix = events.drop_last();
    if key_in(prefix, k) {
        lemma_first_key_index(prefix, k);
        let idx = first_key_index(prefix, k);
        assert(events[idx] == prefix[idx]);
        assert forall|j: int| 0 <= j < idx implies spec_key(events[j]) != k by {
            assert(events[j] == prefix[j]);
        }
    } else {
        let w = choose|w: int| 0 <= w < events.len() && spec_key(events[w]) == k;
        if w < events.len() - 1 {
            assert(spec_key(prefix[w]) == k);
        }
        assert(spec_key(events.last()) == k);
        assert forall|j: int| 0 <= j < events.len() - 1 implies spec_key(events[j]) != k by {
            assert(events[j] == prefix[j]);
        }
    }
}

/// Deduplication neither invents nor loses keys.
pub proof fn lemma_dedup_keys(events: Seq<EventV>)
    ensures
        forall|k: DedupKeyV| key_in(spec_dedup(events), k) <==> key_in(events, k),
    decreases events.len(),
{
    if events.len() > 0 {
        let prefix = events.drop_last();
        lemma_dedup_keys(prefix);
        let init = spec_dedup(prefix);
        assert forall|k: DedupKeyV| key_in(spec_dedup(events), k) implies key_in(events, k) by {
            let p = choose|p: int|
                0 <= p < spec_dedup(events).len() && spec_key(spec_dedup(events)[p]) == k;
            if p < init.len() {
                assert(spec_dedup(events)[p] == init[p]);
                assert(key_in(init, k)) by {
                    assert(spec_key(init[p]) == k);
                }
                assert(key_in(prefix, k));
                let j = choose|j: int| 0 <= j < prefix.len() && spec_key(prefix[j]) == k;
                assert(events[j] == prefix[j]);
                assert(spec_key(events[j]) == k);
            } else {
                assert(spec_dedup(events)[p] == events.last());
                assert(spec_key(events[events.len() - 1]) == k);
            }
        }
        assert forall|k: DedupKeyV| key_in(events, k) implies key_in(spec_dedup(events), k) by {
            let j = choose|j: int| 0 <= j < events.len() && spec_key(events[j]) == k;
            if j < events.len() - 1 {
                assert(spec_key(prefix[j]) == k);
                assert(key_in(prefix, k));
                assert(key_in(init, k));
                let p = choose|p: int| 0 <= p < init.len() && spec_key(init[p]) == k;
                assert(spec_dedup(events)[p] == init[p]);
                assert(spec_key(spec_dedup(events)[p]) == k);
            } else {
                assert(spec_key(events.last()) == k);
                if key_in(prefix, spec_key(events.last())) {
                    assert(key_in(prefix, k));
                    assert(key_in(init, k));
                    let p = choose|p: int| 0 <= p < init.len() && spec_key(init[p]) == k;
                    assert(spec_dedup(events)[p] == init[p]);
                    assert(spec_key(spec_dedup(events)[p]) == k);
                } else {
                    let n = spec_dedup(events).len() - 1;
                    assert(spec_dedup(events)[n] == events.last());
                    assert(spec_key(spec_dedup(events)[n]) == k);
                }
            }
        }
    }
}

/// Dedup stability. Every retained event is the first occurrence of its
/// key; every first occurrence is retained; retained keys are pairwise
/// distinct; and the retained sequence's order follows the input order of
/// the keys' first occurrences.
pub proof fn lemma_dedup_stability(events: Seq<EventV>)
    ensures
        forall|p: int|
            0 <= p < spec_dedup(events).len() ==> exists|i: int|
                is_first_occurrence(events, i) && #[trigger] spec_dedup(events)[p] == events[i],
        forall|i: int|
            is_first_occurrence(events, i) ==> spec_dedup(events).contains(events[i]),
        forall|p1: int, p2: int|
            0 <= p1 < p2 < spec_dedup(events).len() ==> spec_key(spec_dedup(events)[p1])
                != spec_key(spec_dedup(events)[p2]),
        forall|p1: int, p2: int|
            0 <= p1 < p2 < spec_dedup(events).len() ==> first_key_index(
                events,
                spec_key(spec_dedup(events)[p1]),
            ) < first_key_index(events, spec_key(spec_dedup(events)[p2])),
    decreases events.len(),
{
    if events.len() == 0 {
        return ;
    }
    let prefix = events.drop_last();
    lemma_dedup_stability(prefix);
    lemma_dedup_keys(prefix);
    let init = spec_dedup(prefix);
    let out = spec_dedup(events);
    let last = events.last();
    let keep = !key_in(prefix, spec_key(last));

    // Transfer: a first occurrence within the prefix is one within the whole,
    // and the other way around for indexes below the last.
    assert forall|i: int| 0 <= i < prefix.len() implies (is_first_occurrence(prefix, i)
        <==> is_first_occurrence(events, i)) by {
        assert(events[i] == prefix[i]);
        assert(forall|j: int| 0 <= j < i ==> events[j] == prefix[j]);
    }

    // First claim: retained events are first occurrences.
    assert forall|p: int| 0 <= p < out.len() implies exists|i: int|
        is_first_occurrence(events, i) && #[trigger] out[p] == events[i] by {
        if p < init.len() {
            assert(out[p] == init[p]);
            let i = choose|i: int| is_first_occurrence(prefix, i) && init[p] == prefix[i];
            assert(is_first_occurrence(events, i) && out[p] == events[i]);
        } else {
            assert(keep && out[p] == last);
            let n = events.len() - 1;
            assert forall|j: int| 0 <= j < n implies spec_key(events[j]) != spec_key(
                events[n],
            ) by {
                assert(events[j] == prefix[j]);
            }
            assert(is_first_occurrence(events, n) && out[p] == events[n]);
        }
    }

    // Second claim: every first occurrence is retained.
    assert forall|i: int| is_first_occurrence(events, i) implies out.contains(events[i]) by {
        if i < events.len() - 1 {
            assert(is_first_occurrence(prefix, i));
            assert(init.contains(prefix[i]));
            let p = choose|p: int| 0 <= p < init.len() && init[p] == prefix[i];
            assert(out[p] == events[i]);
        } else {
            assert forall|j: int| 0 <= j < prefix.len() implies spec_key(prefix[j]) != spec_key(
                last,
            ) by {
                assert(events[j] == prefix[j]);
            }
            assert(keep);
            assert(out[out.len() - 1] == events[i]);
        }
    }

    // Keys of the retained prefix all occur in the prefix.
    assert forall|p: int| 0 <= p < init.len() implies key_in(prefix, spec_key(init[p])) by {
        assert(key_in(init, spec_key(init[p])));
    }

    // Third claim: retained keys are pairwise distinct.
    assert forall|p1: int, p2: int| 0 <= p1 < p2 < out.len() implies spec_key(out[p1])
        != spec_key(out[p2]) by {
        if p2 < init.len() {
            assert(out[p1] == init[p1] && out[p2] == init[p2]);
        } else {
            assert(keep && out[p2] == last);
            assert(out[p1] == init[p1]);
            assert(key_in(prefix, spec_key(init[p1])));
        }
    }

    // Fourth claim: retained order follows first-occurrence order.
    assert forall|p1: int, p2: int| 0 <= p1 < p2 < out.len() implies first_key_index(
        events,
        spec_key(out[p1]),
    ) < first_key_index(events, spec_key(out[p2])) by {
        if p2 < init.len() {
            assert(out[p1] == init[p1] && out[p2] == init[p2]);
            assert(key_in(prefix, spec_key(init[p1])));
            assert(key_in(prefix, spec_key(init[p2])));
        } else {
            assert(keep && out[p2] == last);
            assert(out[p1] == init[p1]);
            assert(key_in(prefix, spec_key(init[p1])));
            lemma_first_key_index(prefix, spec_key(init[p1]));
            assert(first_key_index(events, spec_key(out[p1])) < events.len() - 1);
            assert(first_key_index(events, spec_key(last)) == events.len() - 1);
        }
    }
}

/// The surviving events, those carrying both identity properties, in order.
pub open spec fn spec_valid_events(events: Seq<EventV>) -> Seq<EventV>
    decreases events.len(),
{
    if events.len() == 0 {
        Seq::empty()
    } else {
        let init = spec_valid_events(events.drop_last());
        if event_valid(events.last()) {
            init.push(events.last())
        } else {
            init
        }
    }
}

/// Property preservation: the output events' property sequences are
/// exactly the surviving input events' property sequences — same names,
/// values and order, duplicates included.
pub proof fn lemma_recompose_preserves_properties(events: Seq<EventV>)
    ensures
        spec_recompose(events).map_values(|oe: OutputEventView| oe.properties)
            == spec_valid_events(events),
    decreases events.len(),
{
    if events.len() == 0 {
        assert(spec_recompose(events).map_values(|oe: OutputEventView| oe.properties)
            =~= spec_valid_events(events));
    } else {
        lemma_recompose_preserves_properties(events.drop_last());
        assert(spec_recompose(events).map_values(|oe: OutputEventView| oe.properties)
            =~= spec_valid_events(events));
    }
}

/// Whether a rule string is malformed: it has no `=`, or its pattern does
/// not compile.
pub open spec fn rule_malformed(rule: Seq<char>) -> bool {
    match spec_split_rule(rule) {
        None => true,
        Some(kv) => !pattern_ok(kv.1),
    }
}

/// A malformed rule string never aborts compilation and never reaches the
/// effective rule set: wherever it stands, the compiled rules are those of
/// the remaining strings alone.
pub proof fn lemma_malformed_rule_ignored(
    before: Seq<Seq<char>>,
    bad: Seq<char>,
    after: Seq<Seq<char>>,
)
    requires
        rule_malformed(bad),
    ensures
        spec_compile(before + seq![bad] + after) == spec_compile(before + after),
    decreases after.len(),
{
    if after.len() == 0 {
        assert((before + seq![bad] + after).drop_last() =~= before);
        assert(before + after =~= before);
        assert((before + seq![bad] + after).last() == bad);
    } else {
        lemma_malformed_rule_ignored(before, bad, after.drop_last());
        let whole = before + seq![bad] + after;
        let merged = before + after;
        assert(whole.drop_last() =~= before + seq![bad] + after.drop_last());
        assert(merged.drop_last() =~= before + after.drop_last());
        assert(whole.last() == after.last());
        assert(merged.last() == after.last());
    }
}

/// An event without UID or DTSTAMP never reaches the output: every
/// recomposed event's property sequence carries both identity properties.
pub proof fn lemma_invalid_event_excluded(events: Seq<EventV>)
    ensures
        forall|p: int|
            0 <= p < spec_recompose(events).len() ==> event_valid(
                #[trigger] spec_recompose(events)[p].properties,
            ),
    decreases events.len(),
{
    if events.len() > 0 {
        lemma_invalid_event_excluded(events.drop_last());
        let init = spec_recompose(events.drop_last());
        assert forall|p: int| 0 <= p < spec_recompose(events).len() implies event_valid(
            #[trigger] spec_recompose(events)[p].properties,
        ) by {
            if p < init.len() {
                assert(spec_recompose(events)[p] == init[p]);
            }
        }
    }
}

/// An event without UID or DTSTAMP is dropped without affecting its
/// siblings: wherever it stands, the recomposed output is that of the
/// remaining events alone.
pub proof fn lemma_invalid_event_ignored(before: Seq<EventV>, dropped: EventV, after: Seq<EventV>)
    requires
        !event_valid(dropped),
    ensures
        spec_recompose(before + seq![dropped] + after) == spec_recompose(before + after),
    decreases after.len(),
{
    if after.len() == 0 {
        assert((before + seq![dropped] + after).drop_last() =~= before);
        assert(before + after =~= before);
        assert((before + seq![dropped] + after).last() == dropped);
    } else {
        lemma_invalid_event_ignored(before, dropped, after.drop_last());
        let whole = before + seq![dropped] + after;
        let merged = before + after;
        assert(whole.drop_last() =~= before + seq![dropped] + after.drop_last());
        assert(merged.drop_last() =~= before + after.drop_last());
        assert(whole.last() == after.last());
        assert(merged.last() == after.last());
    }
}

} // verus!
