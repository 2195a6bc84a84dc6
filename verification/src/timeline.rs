//! Timeline event filtering and conversion.
//!
//! Timeline events arrive with a category colour and locale-formatted
//! timestamps; exporting selects one colour and rewrites each event with
//! cleaned description markup and ISO 8601 timestamps.

use vstd::prelude::*;
use crate::text::{replace_all, spec_replace, str_eq};

verus! {

/// One timeline event as the portal reports it, with timestamps in its
/// own text layout (weekday, day, month name, year, time, zone offset).
pub struct CampusTimelineEvent {
    pub title: String,
    pub description: String,
    pub color: String,
    pub start: String,
    pub end: String,
}

/// One exported timeline event, with ISO 8601 timestamps.
#[derive(Debug, Clone, PartialEq)]
pub struct ExportTimelineEvent {
    pub name: String,
    pub description: String,
    pub color: String,
    pub start: String,
    pub end: String,
}

pub struct TimelineEventView {
    pub title: Seq<char>,
    pub description: Seq<char>,
    pub color: Seq<char>,
    pub start: Seq<char>,
    pub end: Seq<char>,
}

pub struct ExportTimelineEventView {
    pub name: Seq<char>,
    pub description: Seq<char>,
    pub color: Seq<char>,
    pub start: Seq<char>,
    pub end: Seq<char>,
}

impl View for CampusTimelineEvent {
    type V = TimelineEventView;

    open spec fn view(&self) -> TimelineEventView {
        TimelineEventView {
            title: self.title@,
            description: self.description@,
            color: self.color@,
            start: self.start@,
            end: self.end@,
        }
    }
}

impl View for ExportTimelineEvent {
    type V = ExportTimelineEventView;

    open spec fn view(&self) -> ExportTimelineEventView {
        ExportTimelineEventView {
            name: self.name@,
            description: self.description@,
            color: self.color@,
            start: self.start@,
            end: self.end@,
        }
    }
}

/// The views of a sequence of timeline events.
pub open spec fn event_views(es: Seq<CampusTimelineEvent>) -> Seq<TimelineEventView> {
    es.map_values(|e: CampusTimelineEvent| e@)
}

/// The views of a sequence of exported events.
pub open spec fn export_views(es: Seq<ExportTimelineEvent>) -> Seq<ExportTimelineEventView> {
    es.map_values(|e: ExportTimelineEvent| e@)
}

/// The ISO 8601 rendering of a portal timestamp, where that text parses
/// under the portal's layout; absent otherwise.
pub uninterp spec fn iso8601_of(s: Seq<char>) -> Option<Seq<char>>;

/// Relies on `chrono::DateTime::parse_from_str` with the portal's
/// timestamp layout (`%a, %d %b %Y %H:%M:%S %z`) and on
/// `chrono::DateTime::to_rfc3339`: whether the text parses and what it
/// renders to depend on the input text alone.
#[verifier::external_body]
fn _campusdate_to_iso8601(input: &str) -> (r: Option<String>)
    ensures
        (r is Some) == (iso8601_of(input@) is Some),
        r matches Some(s) ==> iso8601_of(input@) == Some(s@),
{
    chrono::DateTime::parse_from_str(input, "%a, %d %b %Y %H:%M:%S %z")
        .ok()
        .map(|d| d.to_rfc3339())
}

/// The description with simple markup removed: line breaks become one
/// space, bold markers vanish.
pub open spec fn spec_clean_description(d: Seq<char>) -> Seq<char> {
    spec_replace(spec_replace(spec_replace(d, "<br>"@, " "@), "<strong>"@, ""@), "</strong>"@, ""@)
}

/// An event is exported where its colour matches and both of its
/// timestamps parse under the portal layout.
pub open spec fn spec_event_exported(e: TimelineEventView, color: Seq<char>) -> bool {
    e.color == color && iso8601_of(e.start) is Some && iso8601_of(e.end) is Some
}

/// The export record of one event.
pub open spec fn spec_export_event(e: TimelineEventView) -> ExportTimelineEventView {
    ExportTimelineEventView {
        name: e.title,
        description: spec_clean_description(e.description),
        color: e.color,
        start: iso8601_of(e.start)->Some_0,
        end: iso8601_of(e.end)->Some_0,
    }
}

/// The exported events of one colour, in order: each matching event whose
/// timestamps parse, converted.
pub open spec fn spec_events_by_color(
    color: Seq<char>,
    events: Seq<TimelineEventView>,
) -> Seq<ExportTimelineEventView>
    decreases events.len(),
{
    if events.len() == 0 {
        Seq::empty()
    } else {
        (if spec_event_exported(events[0], color) {
            seq![spec_export_event(events[0])]
        } else {
            Seq::empty()
        }) + spec_events_by_color(color, events.drop_first())
    }
}

/// Select the events of one colour and convert them for export.  An event
/// whose timestamps the date library cannot read is left out.
pub fn _events_by_color(color: &str, events: &Vec<CampusTimelineEvent>) -> (out: Vec<
    ExportTimelineEvent,
>)
    ensures
        export_views(out@) == spec_events_by_color(color@, event_views(events@)),
{
    let ghost ev = event_views(events@);
    let mut out: Vec<ExportTimelineEvent> = Vec::new();
    let mut i: usize = 0;
    proof {
        assert(ev.skip(0) =~= ev);
        assert(export_views(out@) =~= Seq::<ExportTimelineEventView>::empty());
        assert(Seq::<ExportTimelineEventView>::empty() + spec_events_by_color(color@, ev)
            =~= spec_events_by_color(color@, ev));
    }
    while i < events.len()
        invariant
            0 <= i <= events@.len(),
            ev == event_views(events@),
            ev.len() == events@.len(),
            export_views(out@) + spec_events_by_color(color@, ev.skip(i as int))
                == spec_events_by_color(color@, ev),
        decreases events.len() - i,
    {
        let ghost t = ev.skip(i as int);
        proof {
            assert(t[0] == ev[i as int]);
            assert(ev[i as int] == events@[i as int]@);
            assert(t.drop_first() =~= ev.skip(i + 1));
        }
        let e = &events[i];
        if str_eq(e.color.as_str(), color) {
            let start = _campusdate_to_iso8601(e.start.as_str());
            let end = _campusdate_to_iso8601(e.end.as_str());
            match (start, end) {
                (Option::Some(start), Option::Some(end)) => {
                    proof {
                        reveal_strlit("<br>");
                        reveal_strlit("<strong>");
                        reveal_strlit("</strong>");
                    }
                    let d1 = replace_all(e.description.as_str(), "<br>", " ");
                    let d2 = replace_all(d1.as_str(), "<strong>", "");
                    let description = replace_all(d2.as_str(), "</strong>", "");
                    let rec = ExportTimelineEvent {
                        name: e.title.clone(),
                        description,
                        color: e.color.clone(),
                        start,
                        end,
                    };
                    let ghost old_out = export_views(out@);
                    out.push(rec);
                    proof {
                        assert(spec_event_exported(t[0], color@));
                        assert(rec@ == spec_export_event(t[0]));
                        assert(export_views(out@) =~= old_out.push(rec@));
                        assert(old_out.push(rec@) + spec_events_by_color(color@, ev.skip(i + 1))
                            =~= old_out + (seq![spec_export_event(t[0])] + spec_events_by_color(
                            color@,
                            ev.skip(i + 1),
                        )));
                    }
                },
                _ => {
                    proof {
                        assert(!spec_event_exported(t[0], color@));
                        assert(Seq::<ExportTimelineEventView>::empty() + spec_events_by_color(
                            color@,
                            ev.skip(i + 1),
                        ) =~= spec_events_by_color(color@, ev.skip(i + 1)));
                    }
                },
            }
        } else {
            proof {
                assert(!spec_event_exported(t[0], color@));
                assert(Seq::<ExportTimelineEventView>::empty() + spec_events_by_color(
                    color@,
                    ev.skip(i + 1),
                ) =~= spec_events_by_color(color@, ev.skip(i + 1)));
            }
        }
        i = i + 1;
    }
    proof {
        assert(ev.skip(events@.len() as int) =~= Seq::<TimelineEventView>::empty());
        assert(export_views(out@) + Seq::<ExportTimelineEventView>::empty() =~= export_views(
            out@,
        ));
    }
    out
}

} // verus!
