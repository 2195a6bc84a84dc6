//! Classification of a status-icon reference into a closed set of states.
//!
//! The portal marks each registration detail row with an icon; only the
//! icon's file name carries meaning.  Classification is total: any
//! unrecognised or absent reference is *unclassified*, never an error.

use vstd::prelude::*;
use crate::text::{contains_str, spec_contains};

verus! {

/// The closed set of semantic states a status icon can denote.
#[derive(Clone, Copy, Debug, PartialEq, Eq, Structural)]
pub enum ExamStatus {
    /// The exam was missed (`missed.png`).
    Missed,
    /// Registration is still pending (`yellow.png`).
    PendingRegistration,
    /// A warning applies (`exclamation.jpg`).
    Warning,
    /// Anything else, including an absent reference.
    Unclassified,
}

/// Classify an optional icon reference by substring match against the known
/// icon file names, in fixed order.
pub open spec fn spec_classify_icon(icon: Option<Seq<char>>) -> ExamStatus {
    match icon {
        Option::None => ExamStatus::Unclassified,
        Option::Some(s) => {
            if spec_contains(s, "missed.png"@) {
                ExamStatus::Missed
            } else if spec_contains(s, "yellow.png"@) {
                ExamStatus::PendingRegistration
            } else if spec_contains(s, "exclamation.jpg"@) {
                ExamStatus::Warning
            } else {
                ExamStatus::Unclassified
            }
        },
    }
}

pub fn classify_icon(icon: &Option<String>) -> (st: ExamStatus)
    ensures
        st == spec_classify_icon(match *icon {
            Option::None => Option::None,
            Option::Some(ref s) => Option::Some(s@),
        }),
{
    match icon {
        Option::None => ExamStatus::Unclassified,
        Option::Some(s) => {
            if contains_str(s.as_str(), "missed.png") {
                ExamStatus::Missed
            } else if contains_str(s.as_str(), "yellow.png") {
                ExamStatus::PendingRegistration
            } else if contains_str(s.as_str(), "exclamation.jpg") {
                ExamStatus::Warning
            } else {
                ExamStatus::Unclassified
            }
        },
    }
}

/// The symbol that stands for each status in the serialized record.
pub open spec fn spec_status_symbol(st: ExamStatus) -> Seq<char> {
    match st {
        ExamStatus::Missed => "🚫"@,
        ExamStatus::PendingRegistration => "📝"@,
        ExamStatus::Warning => "⚠️"@,
        ExamStatus::Unclassified => "⁉️"@,
    }
}

pub fn status_symbol(st: &ExamStatus) -> (r: String)
    ensures
        r@ == spec_status_symbol(*st),
{
    match st {
        ExamStatus::Missed => String::from_str("🚫"),
        ExamStatus::PendingRegistration => String::from_str("📝"),
        ExamStatus::Warning => String::from_str("⚠️"),
        ExamStatus::Unclassified => String::from_str("⁉️"),
    }
}

} // verus!
