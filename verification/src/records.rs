//! The typed record model produced by the extraction engine.
//!
//! All records are immutable value objects: every field is copied out of the
//! row model, nothing refers back into the source markup.  Optional fields
//! are genuinely optional in the serialized form; the documented defaults of
//! the row decoders fill the mandatory ones.

use vstd::prelude::*;
use crate::rows::opt_str_view;

verus! {

/// Internal identification of one assessed attempt: module code, academic
/// year and period id.  Present only where all three attributes were found.
#[derive(Debug, Clone, PartialEq)]
pub struct SubGradeMetadata {
    pub module: String,
    pub peryr: String,
    pub perid: String,
}

/// One assessment attempt within a module.
#[derive(Debug, Clone, PartialEq)]
pub struct CampusDualSubGrade {
    pub name: String,
    pub grade: String,
    pub passed: Option<bool>,
    pub beurteilung: String,
    pub bekanntgabe: String,
    pub wiederholung: Option<String>,
    pub akad_period: String,
    pub internal_metadata: Option<SubGradeMetadata>,
}

/// One academic module outcome, with its ordered attempts.
#[derive(Debug, Clone, PartialEq)]
pub struct CampusDualGrade {
    pub name: String,
    pub grade: String,
    pub total_passed: Option<bool>,
    pub credit_points: i32,
    pub akad_period: String,
    pub subgrades: Vec<CampusDualSubGrade>,
}

/// Internal identification of one exam registration opportunity.
/// Present only where all four attributes were found.
#[derive(Debug, Clone, PartialEq)]
pub struct ExamRegistrationMetadata {
    pub assessment: String,
    pub peryr: String,
    pub perid: String,
    pub offerno: String,
}

/// One exam sign-up opportunity.
#[derive(Debug, Clone, PartialEq)]
pub struct CampusDualSignupOption {
    pub name: String,
    pub verfahren: String,
    pub pruefart: String,
    pub status: String,
    pub signup_information: String,
    pub exam_date: Option<String>,
    pub exam_time: Option<String>,
    pub exam_room: Option<String>,
    pub warning_message: Option<String>,
    pub signup_until: Option<String>,
    pub internal_metadata: Option<ExamRegistrationMetadata>,
}

/// One exam sign-off opportunity; structurally the sign-up record apart
/// from the deadline field name.
#[derive(Debug, Clone, PartialEq)]
pub struct CampusDualVerfahrenOption {
    pub name: String,
    pub verfahren: String,
    pub pruefart: String,
    pub status: String,
    pub signup_information: String,
    pub exam_date: Option<String>,
    pub exam_time: Option<String>,
    pub exam_room: Option<String>,
    pub warning_message: Option<String>,
    pub signoff_until: Option<String>,
    pub internal_metadata: Option<ExamRegistrationMetadata>,
}

pub struct SubGradeMetadataView {
    pub module: Seq<char>,
    pub peryr: Seq<char>,
    pub perid: Seq<char>,
}

pub struct SubGradeView {
    pub name: Seq<char>,
    pub grade: Seq<char>,
    pub passed: Option<bool>,
    pub beurteilung: Seq<char>,
    pub bekanntgabe: Seq<char>,
    pub wiederholung: Option<Seq<char>>,
    pub akad_period: Seq<char>,
    pub internal_metadata: Option<SubGradeMetadataView>,
}

pub struct GradeView {
    pub name: Seq<char>,
    pub grade: Seq<char>,
    pub total_passed: Option<bool>,
    pub credit_points: int,
    pub akad_period: Seq<char>,
    pub subgrades: Seq<SubGradeView>,
}

pub struct ExamRegistrationMetadataView {
    pub assessment: Seq<char>,
    pub peryr: Seq<char>,
    pub perid: Seq<char>,
    pub offerno: Seq<char>,
}

pub struct SignupOptionView {
    pub name: Seq<char>,
    pub verfahren: Seq<char>,
    pub pruefart: Seq<char>,
    pub status: Seq<char>,
    pub signup_information: Seq<char>,
    pub exam_date: Option<Seq<char>>,
    pub exam_time: Option<Seq<char>>,
    pub exam_room: Option<Seq<char>>,
    pub warning_message: Option<Seq<char>>,
    pub signup_until: Option<Seq<char>>,
    pub internal_metadata: Option<ExamRegistrationMetadataView>,
}

pub struct VerfahrenOptionView {
    pub name: Seq<char>,
    pub verfahren: Seq<char>,
    pub pruefart: Seq<char>,
    pub status: Seq<char>,
    pub signup_information: Seq<char>,
    pub exam_date: Option<Seq<char>>,
    pub exam_time: Option<Seq<char>>,
    pub exam_room: Option<Seq<char>>,
    pub warning_message: Option<Seq<char>>,
    pub signoff_until: Option<Seq<char>>,
    pub internal_metadata: Option<ExamRegistrationMetadataView>,
}

impl View for SubGradeMetadata {
    type V = SubGradeMetadataView;

    open spec fn view(&self) -> SubGradeMetadataView {
        SubGradeMetadataView { module: self.module@, peryr: self.peryr@, perid: self.perid@ }
    }
}

impl View for CampusDualSubGrade {
    type V = SubGradeView;

    open spec fn view(&self) -> SubGradeView {
        SubGradeView {
            name: self.name@,
            grade: self.grade@,
            passed: self.passed,
            beurteilung: self.beurteilung@,
            bekanntgabe: self.bekanntgabe@,
            wiederholung: opt_str_view(self.wiederholung),
            akad_period: self.akad_period@,
            internal_metadata: match self.internal_metadata {
                Option::None => Option::None,
                Option::Some(m) => Option::Some(m@),
            },
        }
    }
}

/// The views of a sequence of subgrades.
pub open spec fn subgrade_views(ss: Seq<CampusDualSubGrade>) -> Seq<SubGradeView> {
    ss.map_values(|s: CampusDualSubGrade| s@)
}

impl View for CampusDualGrade {
    type V = GradeView;

    open spec fn view(&self) -> GradeView {
        GradeView {
            name: self.name@,
            grade: self.grade@,
            total_passed: self.total_passed,
            credit_points: self.credit_points as int,
            akad_period: self.akad_period@,
            subgrades: subgrade_views(self.subgrades@),
        }
    }
}

/// The views of a sequence of grades.
pub open spec fn grade_views(gs: Seq<CampusDualGrade>) -> Seq<GradeView> {
    gs.map_values(|g: CampusDualGrade| g@)
}

impl View for ExamRegistrationMetadata {
    type V = ExamRegistrationMetadataView;

    open spec fn view(&self) -> ExamRegistrationMetadataView {
        ExamRegistrationMetadataView {
            assessment: self.assessment@,
            peryr: self.peryr@,
            perid: self.perid@,
            offerno: self.offerno@,
        }
    }
}

impl View for CampusDualSignupOption {
    type V = SignupOptionView;

    open spec fn view(&self) -> SignupOptionView {
        SignupOptionView {
            name: self.name@,
            verfahren: self.verfahren@,
            pruefart: self.pruefart@,
            status: self.status@,
            signup_information: self.signup_information@,
            exam_date: opt_str_view(self.exam_date),
            exam_time: opt_str_view(self.exam_time),
            exam_room: opt_str_view(self.exam_room),
            warning_message: opt_str_view(self.warning_message),
            signup_until: opt_str_view(self.signup_until),
            internal_metadata: match self.internal_metadata {
                Option::None => Option::None,
                Option::Some(m) => Option::Some(m@),
            },
        }
    }
}

/// The views of a sequence of sign-up options.
pub open spec fn signup_views(os: Seq<CampusDualSignupOption>) -> Seq<SignupOptionView> {
    os.map_values(|o: CampusDualSignupOption| o@)
}

impl View for CampusDualVerfahrenOption {
    type V = VerfahrenOptionView;

    open spec fn view(&self) -> VerfahrenOptionView {
        VerfahrenOptionView {
            name: self.name@,
            verfahren: self.verfahren@,
            pruefart: self.pruefart@,
            status: self.status@,
            signup_information: self.signup_information@,
            exam_date: opt_str_view(self.exam_date),
            exam_time: opt_str_view(self.exam_time),
            exam_room: opt_str_view(self.exam_room),
            warning_message: opt_str_view(self.warning_message),
            signoff_until: opt_str_view(self.signoff_until),
            internal_metadata: match self.internal_metadata {
                Option::None => Option::None,
                Option::Some(m) => Option::Some(m@),
            },
        }
    }
}

/// The views of a sequence of sign-off options.
pub open spec fn verfahren_views(os: Seq<CampusDualVerfahrenOption>) -> Seq<VerfahrenOptionView> {
    os.map_values(|o: CampusDualVerfahrenOption| o@)
}

} // verus!
