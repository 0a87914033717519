//! The deduplicator: a stable, single-pass, order-preserving filter that
//! keeps only the first event for each (DTSTART, DTEND, SUMMARY) key.

use vstd::prelude::*;

use crate::model::Event;
use crate::model::EventV;
use crate::model::Property;
use crate::model::PropertyView;
use crate::model::events_view;
use crate::model::opt2_view;
use crate::model::str_eq;

verus! {

/// The value of the last property with the given name: absent when no
/// property carries the name, otherwise that property's optional value.
pub open spec fn last_value(props: Seq<PropertyView>, name: Seq<char>) -> Option<Option<Seq<char>>>
    decreases props.len(),
{
    if props.len() == 0 {
        None
    } else if props.last().name == name {
        Some(props.last().value)
    } else {
        last_value(props.drop_last(), name)
    }
}

/// An event's dedup key. A missing property is distinct from a present
/// property whose value is absent, which is distinct from an empty string.
pub struct DedupKeyV {
    pub dtstart: Option<Option<Seq<char>>>,
    pub dtend: Option<Option<Seq<char>>>,
    pub summary: Option<Option<Seq<char>>>,
}

/// The dedup key an event derives: the values of its last DTSTART, DTEND
/// and SUMMARY properties.
pub open spec fn spec_key(e: EventV) -> DedupKeyV {
    DedupKeyV {
        dtstart: last_value(e, "DTSTART"@),
        dtend: last_value(e, "DTEND"@),
        summary: last_value(e, "SUMMARY"@),
    }
}

/// Whether some event in the sequence has the given key.
pub open spec fn key_in(events: Seq<EventV>, k: DedupKeyV) -> bool {
    exists|j: int| 0 <= j < events.len() && spec_key(events[j]) == k
}

/// The deduplicated sequence: an event stays iff no earlier event shares
/// its key, and the survivors keep their input order.
pub open spec fn spec_dedup(events: Seq<EventV>) -> Seq<EventV>
    decreases events.len(),
{
    if events.len() == 0 {
        Seq::empty()
    } else {
        let init = spec_dedup(events.drop_last());
        if key_in(events.drop_last(), spec_key(events.last())) {
            init
        } else {
            init.push(events.last())
        }
    }
}

/// An executable dedup key.
pub struct DedupKey {
    pub dtstart: Option<Option<String>>,
    pub dtend: Option<Option<String>>,
    pub summary: Option<Option<String>>,
}

impl View for DedupKey {
    type V = DedupKeyV;

    open spec fn view(&self) -> DedupKeyV {
        DedupKeyV {
            dtstart: opt2_view(self.dtstart),
            dtend: opt2_view(self.dtend),
            summary: opt2_view(self.summary),
        }
    }
}

/// Equality of two lookup results, by their character sequences.
fn opt2_eq(a: &Option<Option<String>>, b: &Option<Option<String>>) -> (r: bool)
    ensures
        r == (opt2_view(*a) == opt2_view(*b)),
{
    match (a, b) {
        (None, None) => true,
        (Some(None), Some(None)) => true,
        (Some(Some(x)), Some(Some(y))) => str_eq(x, y.as_str()),
        _ => false,
    }
}

/// Equality of two dedup keys, componentwise.
pub fn key_eq(a: &DedupKey, b: &DedupKey) -> (r: bool)
    ensures
        r == (a@ == b@),
{
    let r = opt2_eq(&a.dtstart, &b.dtstart) && opt2_eq(&a.dtend, &b.dtend) && opt2_eq(
        &a.summary,
        &b.summary,
    );
    r
}

/// The value of the last property named `name`, or nothing when no
/// property carries that name.
pub fn last_named_value(props: &Vec<Property>, name: &str) -> (r: Option<Option<String>>)
    ensures
        opt2_view(r) == last_value(crate::model::props_view(props@), name@),
{
    let ghost views = crate::model::props_view(props@);
    proof {
        assert(views.take(props@.len() as int) =~= views);
    }
    let mut i: usize = props.len();
    while i > 0
        invariant
            0 <= i <= props.len(),
            views == crate::model::props_view(props@),
            views.len() == props.len(),
            last_value(views, name@) == last_value(views.take(i as int), name@),
        decreases i,
    {
        let ghost cur = views.take(i as int);
        proof {
            assert(cur.drop_last() =~= views.take(i - 1));
            assert(views[i - 1] == props@[i - 1]@);
            assert(cur.last() == views[i - 1]);
        }
        if str_eq(&props[i - 1].name, name) {
            let v = match &props[i - 1].value {
                Some(s) => Some(s.clone()),
                None => None,
            };
            return Some(v);
        }
        i = i - 1;
    }
    proof {
        assert(views.take(0) =~= Seq::<PropertyView>::empty());
    }
    None
}

/// The dedup key of an event.
pub fn event_key(e: &Event) -> (k: DedupKey)
    ensures
        k@ == spec_key(e@),
{
    DedupKey {
        dtstart: last_named_value(&e.properties, "DTSTART"),
        dtend: last_named_value(&e.properties, "DTEND"),
        summary: last_named_value(&e.properties, "SUMMARY"),
    }
}

/// The views of a key sequence.
pub open spec fn keys_view(s: Seq<DedupKey>) -> Seq<DedupKeyV> {
    s.map_values(|k: DedupKey| k@)
}

/// Whether the list of seen keys holds this one.
fn seen_contains(seen: &Vec<DedupKey>, k: &DedupKey) -> (r: bool)
    ensures
        r == keys_view(seen@).contains(k@),
{
    let mut i: usize = 0;
    while i < seen.len()
        invariant
            0 <= i <= seen.len(),
            forall|j: int| 0 <= j < i ==> keys_view(seen@)[j] != k@,
        decreases seen.len() - i,
    {
        if key_eq(&seen[i], k) {
            assert(keys_view(seen@)[i as int] == k@);
            return true;
        }
        i = i + 1;
    }
    false
}

/// Remove later duplicates when enabled: for each key, only its first
/// event stays, and the survivors keep their order. When disabled, the
/// event sequence passes through unchanged.
pub fn dedup_events(events: &Vec<Event>, enabled: bool) -> (r: Vec<Event>)
    ensures
        enabled ==> events_view(r@) == spec_dedup(events_view(events@)),
        !enabled ==> events_view(r@) == events_view(events@),
{
    let mut out: Vec<Event> = Vec::new();
    if !enabled {
        let mut i: usize = 0;
        while i < events.len()
            invariant
                0 <= i <= events.len(),
                out@.len() == i,
                forall|j: int| 0 <= j < i ==> out@[j]@ == events@[j]@,
            decreases events.len() - i,
        {
            out.push(events[i].duplicate());
            i = i + 1;
        }
        proof {
            assert(events_view(out@) =~= events_view(events@));
        }
        return out;
    }
    let mut seen: Vec<DedupKey> = Vec::new();
    let mut i: usize = 0;
    while i < events.len()
        invariant
            0 <= i <= events.len(),
            events_view(out@) == spec_dedup(events_view(events@).take(i as int)),
            forall|k: DedupKeyV|
                keys_view(seen@).contains(k) <==> key_in(
                    events_view(events@).take(i as int),
                    k,
                ),
        decreases events.len() - i,
    {
        let ghost prefix = events_view(events@).take(i as int);
        let ghost next = events_view(events@).take(i + 1);
        proof {
            assert(next.drop_last() =~= prefix);
            assert(next.last() == events@[i as int]@);
        }
        let k = event_key(&events[i]);
        let ghost seen0 = seen@;
        if !seen_contains(&seen, &k) {
            out.push(events[i].duplicate());
            seen.push(k);
            proof {
                assert(events_view(out@) =~= spec_dedup(next));
                assert forall|kv: DedupKeyV| keys_view(seen@).contains(kv) implies key_in(
                    next,
                    kv,
                ) by {
                    let m = choose|m: int| 0 <= m < seen@.len() && keys_view(seen@)[m] == kv;
                    if m < seen0.len() {
                        assert(seen@[m] == seen0[m]);
                        assert(keys_view(seen0)[m] == kv);
                        assert(keys_view(seen0).contains(kv));
                        assert(key_in(prefix, kv));
                        let j = choose|j: int| 0 <= j < prefix.len() && spec_key(prefix[j]) == kv;
                        assert(next[j] == prefix[j]);
                        assert(spec_key(next[j]) == kv);
                    } else {
                        assert(seen@[m] == k);
                        assert(spec_key(next[next.len() - 1]) == kv);
                    }
                }
                assert forall|kv: DedupKeyV| key_in(next, kv) implies keys_view(seen@).contains(
                    kv,
                ) by {
                    let j = choose|j: int| 0 <= j < next.len() && spec_key(next[j]) == kv;
                    if j < next.len() - 1 {
                        assert(prefix[j] == next[j]);
                        assert(spec_key(prefix[j]) == kv);
                        assert(key_in(prefix, kv));
                        assert(keys_view(seen0).contains(kv));
                        let m = choose|m: int| 0 <= m < seen0.len() && keys_view(seen0)[m] == kv;
                        assert(seen@[m] == seen0[m]);
                        assert(keys_view(seen@)[m] == kv);
                    } else {
                        assert(kv == spec_key(next.last()));
                        assert(seen@[seen@.len() - 1] == k);
                        assert(keys_view(seen@)[seen@.len() - 1] == kv);
                    }
                }
            }
        } else {
            proof {
                assert(key_in(prefix, spec_key(next.last())));
                assert(events_view(out@) =~= spec_dedup(next));
                assert forall|kv: DedupKeyV| key_in(next, kv) implies keys_view(seen@).contains(
                    kv,
                ) by {
                    let j = choose|j: int| 0 <= j < next.len() && spec_key(next[j]) == kv;
                    if j < next.len() - 1 {
                        assert(prefix[j] == next[j]);
                        assert(spec_key(prefix[j]) == kv);
                        assert(key_in(prefix, kv));
                    } else {
                        assert(kv == spec_key(next.last()));
                        assert(key_in(prefix, kv));
                    }
                }
                assert forall|kv: DedupKeyV| keys_view(seen@).contains(kv) implies key_in(
                    next,
                    kv,
                ) by {
                    assert(key_in(prefix, kv));
                    let j = choose|j: int| 0 <= j < prefix.len() && spec_key(prefix[j]) == kv;
                    assert(next[j] == prefix[j]);
                    assert(spec_key(next[j]) == kv);
                }
            }
        }
        i = i + 1;
    }
    proof {
        assert(events_view(events@).take(events@.len() as int) =~= events_view(events@));
    }
    out
}

} // verus!
