//! The pipeline orchestrator: validate the calendar identity, compile the
//! rules, filter, deduplicate, recompose. Deterministic, with diagnostics
//! returned beside the result rather than thrown.

use vstd::prelude::*;

use crate::dedup::last_value;
use crate::dedup::spec_dedup;
use crate::filter::spec_filter;
use crate::model::Calendar;
use crate::model::CalendarView;
use crate::model::Config;
use crate::model::Diagnostic;
use crate::model::DiagnosticView;
use crate::model::OutputCalendar;
use crate::model::OutputCalendarView;
use crate::model::PipelineError;
use crate::model::diags_view;
use crate::recompose::spec_recompose;
use crate::recompose::spec_recompose_diags;
use crate::rules::RuleSet;
use crate::rules::spec_compile;
use crate::rules::spec_compile_diags;
use crate::rules::strings_view;

verus! {

/// The VERSION the calendar carries: the value of its last VERSION
/// property, required to be present.
pub open spec fn spec_version(cal: CalendarView) -> Option<Seq<char>> {
    match last_value(cal.properties, "VERSION"@) {
        Some(Some(v)) => Some(v),
        _ => None,
    }
}

/// The PRODID the calendar carries: the value of its last PRODID
/// property, required to be present.
pub open spec fn spec_prodid(cal: CalendarView) -> Option<Seq<char>> {
    match last_value(cal.properties, "PRODID"@) {
        Some(Some(v)) => Some(v),
        _ => None,
    }
}

/// The final event sequence: filtered by the rules the blacklist compiles
/// to, then deduplicated when asked.
pub open spec fn spec_final_events(cal: CalendarView, blacklist: Seq<Seq<char>>, dedup: bool) -> Seq<
    crate::model::EventV,
> {
    let kept = spec_filter(cal.events, spec_compile(blacklist));
    if dedup {
        spec_dedup(kept)
    } else {
        kept
    }
}

/// What the pipeline produces for one calendar: a fatal error when a
/// required identity property is missing, else the recomposed calendar.
pub open spec fn spec_pipeline(cal: CalendarView, blacklist: Seq<Seq<char>>, dedup: bool) -> Result<
    OutputCalendarView,
    PipelineError,
> {
    if spec_version(cal) is None {
        Err(PipelineError::MissingVersion)
    } else if spec_prodid(cal) is None {
        Err(PipelineError::MissingProdid)
    } else {
        Ok(
            OutputCalendarView {
                version: spec_version(cal)->Some_0,
                prodid: spec_prodid(cal)->Some_0,
                events: spec_recompose(spec_final_events(cal, blacklist, dedup)),
            },
        )
    }
}

/// The diagnostics one run yields: the rule compiler's, then — only when
/// the calendar identity is present — the recomposer's.
pub open spec fn spec_pipeline_diags(
    cal: CalendarView,
    blacklist: Seq<Seq<char>>,
    dedup: bool,
) -> Seq<DiagnosticView> {
    let rule_diags = spec_compile_diags(blacklist);
    if spec_version(cal) is None || spec_prodid(cal) is None {
        rule_diags
    } else {
        rule_diags + spec_recompose_diags(spec_final_events(cal, blacklist, dedup))
    }
}

/// The view of a pipeline result.
pub open spec fn result_view(r: Result<OutputCalendar, PipelineError>) -> Result<
    OutputCalendarView,
    PipelineError,
> {
    match r {
        Ok(c) => Ok(c@),
        Err(e) => Err(e),
    }
}

/// Run the pipeline on one decoded calendar: validate VERSION and PRODID,
/// compile the blacklist, filter the events, deduplicate survivors when
/// asked, and recompose the output calendar. A missing identity property
/// is the only fatal outcome; skipped rules and dropped events are
/// reported as diagnostics beside the result.
pub fn run_pipeline(cal: &Calendar, config: &Config) -> (r: (
    Result<OutputCalendar, PipelineError>,
    Vec<Diagnostic>,
))
    ensures
        result_view(r.0) == spec_pipeline(cal@, strings_view(config.blacklist@), config.dedup),
        diags_view(r.1@) == spec_pipeline_diags(
            cal@,
            strings_view(config.blacklist@),
            config.dedup,
        ),
        r.0 is Err <==> (spec_version(cal@) is None || spec_prodid(cal@) is None),
        r.0 == Err::<OutputCalendar, PipelineError>(PipelineError::MissingVersion) <==> spec_version(
            cal@,
        ) is None,
        r.0 == Err::<OutputCalendar, PipelineError>(PipelineError::MissingProdid) <==> (spec_version(
            cal@,
        ) is Some && spec_prodid(cal@) is None),
{
    let (rules, mut diags) = RuleSet::compile(&config.blacklist);
    let version = match pick_identity(cal, "VERSION") {
        Some(v) => v,
        None => {
            return (Err(PipelineError::MissingVersion), diags);
        },
    };
    let prodid = match pick_identity(cal, "PRODID") {
        Some(v) => v,
        None => {
            return (Err(PipelineError::MissingProdid), diags);
        },
    };
    let kept = crate::filter::filter_events(&rules, &cal.events);
    let survivors = crate::dedup::dedup_events(&kept, config.dedup);
    let (output, mut event_diags) = crate::recompose::recompose(version, prodid, &survivors);
    let ghost diags0 = diags@;
    let ghost event_diags0 = event_diags@;
    diags.append(&mut event_diags);
    proof {
        assert(diags_view(diags@) =~= diags_view(diags0) + diags_view(event_diags0)) by {
            assert(diags@ == diags0 + event_diags0);
        }
    }
    (Ok(output), diags)
}

/// The value of the calendar's last property with this name, when the
/// property is present and carries a value.
fn pick_identity(cal: &Calendar, name: &str) -> (r: Option<String>)
    ensures
        match r {
            Some(v) => last_value(cal@.properties, name@) == Some(Some(v@)),
            None => !(last_value(cal@.properties, name@) matches Some(Some(_))),
        },
{
    match crate::dedup::last_named_value(&cal.properties, name) {
        Some(Some(v)) => Some(v),
        _ => None,
    }
}

/// Run the pipeline once per decoded calendar, each independently.
pub fn run_pipeline_many(cals: &Vec<Calendar>, config: &Config) -> (r: Vec<
    (Result<OutputCalendar, PipelineError>, Vec<Diagnostic>),
>)
    ensures
        r@.len() == cals@.len(),
        forall|i: int|
            0 <= i < cals@.len() ==> result_view(#[trigger] r@[i].0) == spec_pipeline(
                cals@[i]@,
                strings_view(config.blacklist@),
                config.dedup,
            ),
        forall|i: int|
            0 <= i < cals@.len() ==> diags_view(#[trigger] r@[i].1@) == spec_pipeline_diags(
                cals@[i]@,
                strings_view(config.blacklist@),
                config.dedup,
            ),
{
    let mut out: Vec<(Result<OutputCalendar, PipelineError>, Vec<Diagnostic>)> = Vec::new();
    let mut i: usize = 0;
    while i < cals.len()
        invariant
            0 <= i <= cals.len(),
            out@.len() == i,
            forall|j: int|
                0 <= j < i ==> result_view(#[trigger] out@[j].0) == spec_pipeline(
                    cals@[j]@,
                    strings_view(config.blacklist@),
                    config.dedup,
                ),
            forall|j: int|
                0 <= j < i ==> diags_view(#[trigger] out@[j].1@) == spec_pipeline_diags(
                    cals@[j]@,
                    strings_view(config.blacklist@),
                    config.dedup,
                ),
        decreases cals.len() - i,
    {
        out.push(run_pipeline(&cals[i], config));
        i = i + 1;
    }
    out
}

} // verus!
