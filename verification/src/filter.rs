//! The event filter: per-event acceptance against the compiled rules, and
//! the order-preserving filter over an event sequence.

use vstd::prelude::*;

use crate::model::Event;
use crate::model::EventV;
use crate::model::events_view;
use crate::rules::RuleSet;
use crate::rules::RuleView;
use crate::rules::spec_rejects_property;

verus! {

/// Whether the rules keep an event: no property of it both carries a rule's
/// field name and has a value matched by a pattern under that name.
pub open spec fn spec_accepts(e: EventV, rules: Seq<RuleView>) -> bool {
    forall|i: int| 0 <= i < e.len() ==> !spec_rejects_property(rules, e[i].name, e[i].value)
}

/// The events that survive filtering, in their original order.
pub open spec fn spec_filter(events: Seq<EventV>, rules: Seq<RuleView>) -> Seq<EventV>
    decreases events.len(),
{
    if events.len() == 0 {
        Seq::empty()
    } else {
        let init = spec_filter(events.drop_last(), rules);
        if spec_accepts(events.last(), rules) {
            init.push(events.last())
        } else {
            init
        }
    }
}

/// Decide one event: kept iff no property falls to a rule.
pub fn accepts(rules: &RuleSet, e: &Event) -> (r: bool)
    ensures
        r == spec_accepts(e@, rules@),
{
    let mut i: usize = 0;
    while i < e.properties.len()
        invariant
            0 <= i <= e.properties.len(),
            forall|j: int| 0 <= j < i ==> !spec_rejects_property(rules@, e@[j].name, e@[j].value),
        decreases e.properties.len() - i,
    {
        let p = &e.properties[i];
        if rules.rejects_property(&p.name, &p.value) {
            assert(spec_rejects_property(rules@, e@[i as int].name, e@[i as int].value));
            return false;
        }
        i = i + 1;
    }
    true
}

/// Keep exactly the events the rules accept, preserving their order and
/// each event's property sequence.
pub fn filter_events(rules: &RuleSet, events: &Vec<Event>) -> (r: Vec<Event>)
    ensures
        events_view(r@) == spec_filter(events_view(events@), rules@),
{
    let mut out: Vec<Event> = Vec::new();
    let mut i: usize = 0;
    while i < events.len()
        invariant
            0 <= i <= events.len(),
            events_view(out@) == spec_filter(events_view(events@).take(i as int), rules@),
        decreases events.len() - i,
    {
        let ghost prefix = events_view(events@).take(i as int);
        let ghost next = events_view(events@).take(i + 1);
        proof {
            assert(next.drop_last() =~= prefix);
            assert(next.last() == events@[i as int]@);
        }
        if accepts(rules, &events[i]) {
            out.push(events[i].duplicate());
            proof {
                assert(events_view(out@) =~= spec_filter(next, rules@));
            }
        } else {
            proof {
                assert(events_view(out@) =~= spec_filter(next, rules@));
            }
        }
        i = i + 1;
    }
    proof {
        assert(events_view(events@).take(events@.len() as int) =~= events_view(events@));
    }
    out
}

} // verus!
