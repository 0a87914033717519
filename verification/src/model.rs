//! The in-memory model of a decoded calendar: properties, events,
//! calendars, the output forms the pipeline produces, and the diagnostic
//! and error types it reports with.

use vstd::prelude::*;

verus! {

/// A single named property, as decoded from a calendar document.
/// The value may be absent, which is distinct from an empty string.
#[derive(Debug)]
pub struct Property {
    pub name: String,
    pub value: Option<String>,
}

/// Mathematical image of a `Property`: its name and optional value as
/// sequences of characters.
pub struct PropertyView {
    pub name: Seq<char>,
    pub value: Option<Seq<char>>,
}

/// The view of an optional string value.
pub open spec fn opt_view(v: Option<String>) -> Option<Seq<char>> {
    match v {
        Some(s) => Some(s@),
        None => None,
    }
}

/// The view of a doubly optional string value (a property lookup result:
/// the property may be absent, and a present property may lack a value).
pub open spec fn opt2_view(v: Option<Option<String>>) -> Option<Option<Seq<char>>> {
    match v {
        Some(inner) => Some(opt_view(inner)),
        None => None,
    }
}

impl View for Property {
    type V = PropertyView;

    open spec fn view(&self) -> PropertyView {
        PropertyView { name: self.name@, value: opt_view(self.value) }
    }
}

impl Property {
    /// A structural copy: same name, same optional value.
    pub fn duplicate(&self) -> (r: Property)
        ensures
            r@ == self@,
    {
        Property {
            name: self.name.clone(),
            value: match &self.value {
                Some(s) => Some(s.clone()),
                None => None,
            },
        }
    }
}

/// An event is nothing but its ordered property sequence.
pub type EventV = Seq<PropertyView>;

/// One schedulable item of a calendar: an ordered property list.
#[derive(Debug)]
pub struct Event {
    pub properties: Vec<Property>,
}

/// The view of a property sequence.
pub open spec fn props_view(s: Seq<Property>) -> Seq<PropertyView> {
    s.map_values(|p: Property| p@)
}

/// The view of an event sequence.
pub open spec fn events_view(s: Seq<Event>) -> Seq<EventV> {
    s.map_values(|e: Event| e@)
}

impl View for Event {
    type V = EventV;

    open spec fn view(&self) -> EventV {
        props_view(self.properties@)
    }
}

impl Event {
    /// A structural copy: the same property sequence.
    pub fn duplicate(&self) -> (r: Event)
        ensures
            r@ == self@,
    {
        let mut out: Vec<Property> = Vec::new();
        let mut i: usize = 0;
        while i < self.properties.len()
            invariant
                0 <= i <= self.properties.len(),
                out@.len() == i,
                forall|j: int| 0 <= j < i ==> out@[j]@ == self.properties@[j]@,
            decreases self.properties.len() - i,
        {
            out.push(self.properties[i].duplicate());
            i = i + 1;
        }
        proof {
            assert(props_view(out@) =~= props_view(self.properties@));
        }
        Event { properties: out }
    }
}

/// A decoded calendar: its top-level properties and its events.
#[derive(Debug)]
pub struct Calendar {
    pub properties: Vec<Property>,
    pub events: Vec<Event>,
}

/// Mathematical image of a `Calendar`.
pub struct CalendarView {
    pub properties: Seq<PropertyView>,
    pub events: Seq<EventV>,
}

impl View for Calendar {
    type V = CalendarView;

    open spec fn view(&self) -> CalendarView {
        CalendarView { properties: props_view(self.properties@), events: events_view(self.events@) }
    }
}

/// An output event: the identity fields the output format requires,
/// plus the surviving event's full original property sequence.
#[derive(Debug)]
pub struct OutputEvent {
    pub uid: String,
    pub dtstamp: String,
    pub properties: Vec<Property>,
}

/// Mathematical image of an `OutputEvent`.
pub struct OutputEventView {
    pub uid: Seq<char>,
    pub dtstamp: Seq<char>,
    pub properties: Seq<PropertyView>,
}

impl View for OutputEvent {
    type V = OutputEventView;

    open spec fn view(&self) -> OutputEventView {
        OutputEventView {
            uid: self.uid@,
            dtstamp: self.dtstamp@,
            properties: props_view(self.properties@),
        }
    }
}

/// The view of an output event sequence.
pub open spec fn out_events_view(s: Seq<OutputEvent>) -> Seq<OutputEventView> {
    s.map_values(|e: OutputEvent| e@)
}

/// The recomposed calendar: exactly the input's VERSION and PRODID as its
/// identity, and the final event sequence.
#[derive(Debug)]
pub struct OutputCalendar {
    pub version: String,
    pub prodid: String,
    pub events: Vec<OutputEvent>,
}

/// Mathematical image of an `OutputCalendar`.
pub struct OutputCalendarView {
    pub version: Seq<char>,
    pub prodid: Seq<char>,
    pub events: Seq<OutputEventView>,
}

impl View for OutputCalendar {
    type V = OutputCalendarView;

    open spec fn view(&self) -> OutputCalendarView {
        OutputCalendarView {
            version: self.version@,
            prodid: self.prodid@,
            events: out_events_view(self.events@),
        }
    }
}

/// A non-fatal advisory: a skipped rule or a dropped event. Diagnostics
/// accompany the pipeline's result and never abort it.
#[derive(Debug, PartialEq, Eq)]
pub enum Diagnostic {
    /// A rule string without `=`; the rule was skipped.
    InvalidRule { rule: String },
    /// A rule whose pattern does not compile; the rule was skipped.
    InvalidPattern { pattern: String },
    /// A surviving event without a UID property; the event was dropped.
    MissingUid,
    /// A surviving event without a DTSTAMP property; the event was dropped.
    MissingDtstamp,
}

/// Mathematical image of a `Diagnostic`.
pub enum DiagnosticView {
    InvalidRule { rule: Seq<char> },
    InvalidPattern { pattern: Seq<char> },
    MissingUid,
    MissingDtstamp,
}

impl View for Diagnostic {
    type V = DiagnosticView;

    open spec fn view(&self) -> DiagnosticView {
        match self {
            Diagnostic::InvalidRule { rule } => DiagnosticView::InvalidRule { rule: rule@ },
            Diagnostic::InvalidPattern { pattern } => DiagnosticView::InvalidPattern {
                pattern: pattern@,
            },
            Diagnostic::MissingUid => DiagnosticView::MissingUid,
            Diagnostic::MissingDtstamp => DiagnosticView::MissingDtstamp,
        }
    }
}

/// The view of a diagnostic sequence.
pub open spec fn diags_view(s: Seq<Diagnostic>) -> Seq<DiagnosticView> {
    s.map_values(|d: Diagnostic| d@)
}

/// A fatal, calendar-level failure: the input calendar lacks a required
/// identity property, and no output calendar is produced for it.
#[derive(Debug, PartialEq, Eq, Structural)]
pub enum PipelineError {
    /// No VERSION property with a value on the input calendar.
    MissingVersion,
    /// No PRODID property with a value on the input calendar.
    MissingProdid,
}

/// The pipeline's configuration: the blacklist rule strings and whether
/// duplicate events are removed.
#[derive(Debug)]
pub struct Config {
    pub blacklist: Vec<String>,
    pub dedup: bool,
}

/// True of the two strings' character sequences being equal.
pub fn str_eq(a: &String, b: &str) -> (r: bool)
    ensures
        r == (a@ == b@),
{
    let owned: String = b.to_owned();
    *a == owned
}

} // verus!
