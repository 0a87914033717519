//! The calendar recomposer: builds the minimal output calendar. Each
//! surviving event must carry UID and DTSTAMP; one lacking either is
//! dropped with a diagnostic, and the rest keep their full property
//! sequence in order.

use vstd::prelude::*;

use crate::dedup::last_value;
use crate::model::Diagnostic;
use crate::model::DiagnosticView;
use crate::model::Event;
use crate::model::EventV;
use crate::model::OutputCalendar;
use crate::model::OutputEvent;
use crate::model::OutputEventView;
use crate::model::Property;
use crate::model::diags_view;
use crate::model::events_view;
use crate::model::out_events_view;
use crate::rules::value_or_empty;

verus! {

/// The value of the last property with this name, an absent value read as
/// the empty string; nothing when no property carries the name.
pub open spec fn last_value_or_empty(e: EventV, name: Seq<char>) -> Option<Seq<char>> {
    match last_value(e, name) {
        None => None,
        Some(v) => Some(value_or_empty(v)),
    }
}

/// The UID an event carries, if any.
pub open spec fn spec_uid(e: EventV) -> Option<Seq<char>> {
    last_value_or_empty(e, "UID"@)
}

/// The DTSTAMP an event carries, if any.
pub open spec fn spec_dtstamp(e: EventV) -> Option<Seq<char>> {
    last_value_or_empty(e, "DTSTAMP"@)
}

/// Whether an event carries both identity properties the output requires.
pub open spec fn event_valid(e: EventV) -> bool {
    spec_uid(e) is Some && spec_dtstamp(e) is Some
}

/// The output events: one per valid input event, in order, each keeping
/// the input event's full property sequence.
pub open spec fn spec_recompose(events: Seq<EventV>) -> Seq<OutputEventView>
    decreases events.len(),
{
    if events.len() == 0 {
        Seq::empty()
    } else {
        let init = spec_recompose(events.drop_last());
        let e = events.last();
        if event_valid(e) {
            init.push(
                OutputEventView {
                    uid: spec_uid(e)->Some_0,
                    dtstamp: spec_dtstamp(e)->Some_0,
                    properties: e,
                },
            )
        } else {
            init
        }
    }
}

/// The diagnostics recomposition yields: one per dropped event, in order,
/// a missing UID reported ahead of a missing DTSTAMP.
pub open spec fn spec_recompose_diags(events: Seq<EventV>) -> Seq<DiagnosticView>
    decreases events.len(),
{
    if events.len() == 0 {
        Seq::empty()
    } else {
        let init = spec_recompose_diags(events.drop_last());
        let e = events.last();
        if spec_uid(e) is None {
            init.push(DiagnosticView::MissingUid)
        } else if spec_dtstamp(e) is None {
            init.push(DiagnosticView::MissingDtstamp)
        } else {
            init
        }
    }
}

/// The value of the last property named `name`, an absent value read as
/// the empty string; nothing when no property carries the name.
fn named_value_or_empty(e: &Event, name: &str) -> (r: Option<String>)
    ensures
        crate::model::opt_view(r) == last_value_or_empty(e@, name@),
{
    match crate::dedup::last_named_value(&e.properties, name) {
        None => None,
        Some(Some(v)) => Some(v),
        Some(None) => Some(String::new()),
    }
}

/// Build the output calendar from the calendar identity and the final
/// event sequence, dropping events without UID or DTSTAMP.
pub fn recompose(version: String, prodid: String, events: &Vec<Event>) -> (r: (
    OutputCalendar,
    Vec<Diagnostic>,
))
    ensures
        r.0.version@ == version@,
        r.0.prodid@ == prodid@,
        out_events_view(r.0.events@) == spec_recompose(events_view(events@)),
        diags_view(r.1@) == spec_recompose_diags(events_view(events@)),
{
    let mut out: Vec<OutputEvent> = Vec::new();
    let mut diags: Vec<Diagnostic> = Vec::new();
    let mut i: usize = 0;
    while i < events.len()
        invariant
            0 <= i <= events.len(),
            out_events_view(out@) == spec_recompose(events_view(events@).take(i as int)),
            diags_view(diags@) == spec_recompose_diags(events_view(events@).take(i as int)),
        decreases events.len() - i,
    {
        let ghost prefix = events_view(events@).take(i as int);
        let ghost next = events_view(events@).take(i + 1);
        proof {
            assert(next.drop_last() =~= prefix);
            assert(next.last() == events@[i as int]@);
        }
        let e = &events[i];
        match named_value_or_empty(e, "UID") {
            None => {
                diags.push(Diagnostic::MissingUid);
                proof {
                    assert(diags_view(diags@) =~= spec_recompose_diags(next));
                    assert(out_events_view(out@) =~= spec_recompose(next));
                }
            },
            Some(uid) => {
                match named_value_or_empty(e, "DTSTAMP") {
                    None => {
                        diags.push(Diagnostic::MissingDtstamp);
                        proof {
                            assert(diags_view(diags@) =~= spec_recompose_diags(next));
                            assert(out_events_view(out@) =~= spec_recompose(next));
                        }
                    },
                    Some(dtstamp) => {
                        let mut properties: Vec<Property> = Vec::new();
                        let mut j: usize = 0;
                        while j < e.properties.len()
                            invariant
                                0 <= j <= e.properties.len(),
                                properties@.len() == j,
                                forall|m: int|
                                    0 <= m < j ==> properties@[m]@ == e.properties@[m]@,
                            decreases e.properties.len() - j,
                        {
                            properties.push(e.properties[j].duplicate());
                            j = j + 1;
                        }
                        proof {
                            assert(crate::model::props_view(properties@) =~= e@);
                        }
                        out.push(OutputEvent { uid, dtstamp, properties });
                        proof {
                            assert(out_events_view(out@) =~= spec_recompose(next));
                            assert(diags_view(diags@) =~= spec_recompose_diags(next));
                        }
                    },
                }
            },
        }
        i = i + 1;
    }
    proof {
        assert(events_view(events@).take(events@.len() as int) =~= events_view(events@));
    }
    (OutputCalendar { version, prodid, events: out }, diags)
}

} // verus!
