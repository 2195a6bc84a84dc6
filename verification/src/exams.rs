//! The exam option extractors: sign-up and sign-off registration
//! opportunities from a registration row table.
//!
//! ## Expected layout
//!
//! A top-level row holds name (cell 0), procedure label (cell 1) and exam
//! type label (cell 2).  Its first child row is the mandatory main detail
//! row: its first icon classifies the status, its booking anchor carries
//! the registration metadata, and its rendered text nodes are consumed
//! strictly in order — node 0 the registration information (a trailing
//! exam-date marker suffix is stripped), node 1 the exam date, node 2 a
//! format separator that is skipped, node 3 the exam time, node 4 the exam
//! room (a leading `", "` is stripped).  The second child row, where
//! present, is the warning row: its text nodes concatenated, left-trimmed
//! and defect-normalized become the warning message, out of which the
//! deadline date is read (after `"bis "` in the sign-up flow, after
//! `"bis zum "` in the sign-off flow).
//!
//! A top-level row without an identifier or without a main detail row is
//! skipped entirely; a main detail row without text nodes yields a
//! placeholder record.  No input aborts extraction.

use vstd::prelude::*;
use crate::grades::{first_text_or, spec_first_text, spec_text_or};
use crate::records::{
    CampusDualSignupOption, CampusDualVerfahrenOption, ExamRegistrationMetadata,
    ExamRegistrationMetadataView, SignupOptionView, VerfahrenOptionView, signup_views,
    verfahren_views,
};
use crate::rows::{
    Row, RowTable, RowView, children_of, child_token, idx_views, row_views, spec_child_token,
    spec_children,
};
use crate::status::{classify_icon, spec_classify_icon, spec_status_symbol, status_symbol};
use crate::text::{
    concat_texts, replace_all, spec_concat, spec_replace, spec_strip_prefix, spec_strip_suffix,
    spec_trim_start, strip_prefix_else, strip_suffix_else, trim_start,
};
use crate::dates::{find_date_after, spec_find_date_after};
use crate::grades::spec_opt_table;

verus! {

/// The view of an optional borrowed row.
pub open spec fn spec_opt_row(w: Option<&Row>) -> Option<RowView> {
    match w {
        Option::None => Option::None,
        Option::Some(r) => Option::Some(r@),
    }
}

/// Registration metadata: all four attributes of the booking anchor, or
/// nothing.  Partial availability is absence.
pub open spec fn spec_reg_meta(r: RowView) -> Option<ExamRegistrationMetadataView> {
    match r.booking_anchor {
        Option::None => Option::None,
        Option::Some(a) => match (a.assessment, a.peryr, a.perid, a.offerno) {
            (
                Option::Some(ass),
                Option::Some(y),
                Option::Some(p),
                Option::Some(o),
            ) => Option::Some(
                ExamRegistrationMetadataView { assessment: ass, peryr: y, perid: p, offerno: o },
            ),
            _ => Option::None,
        },
    }
}

/// The classified status symbol of a main detail row.
pub open spec fn spec_exam_status(main: RowView) -> Seq<char> {
    spec_status_symbol(spec_classify_icon(main.icon))
}

/// The registration information: the first text node left-trimmed, with
/// the exam-date-follows suffix stripped where it ends with it.
pub open spec fn spec_exam_info(main: RowView) -> Seq<char> {
    spec_strip_suffix(spec_trim_start(main.texts[0]), ", Prüfungstermin: "@)
}

/// The warning message of the warning row: its text nodes concatenated,
/// left-trimmed, and the broken rendering of an absent time (three spaces,
/// a colon, two spaces) collapsed away.
pub open spec fn spec_warning(warn: Option<RowView>) -> Option<Seq<char>> {
    match warn {
        Option::None => Option::None,
        Option::Some(w) => Option::Some(
            spec_replace(spec_trim_start(spec_concat(w.texts)), "   :  "@, ""@),
        ),
    }
}

/// The deadline read from the warning message after the given phrase.
pub open spec fn spec_deadline(warn: Option<RowView>, prefix: Seq<char>) -> Option<Seq<char>> {
    match spec_warning(warn) {
        Option::None => Option::None,
        Option::Some(w) => spec_find_date_after(w, prefix),
    }
}

/// The shared middle of one registration record: everything read from the
/// main detail row and the optional warning row.
pub struct ExamParts {
    pub status: String,
    pub signup_information: String,
    pub exam_date: Option<String>,
    pub exam_time: Option<String>,
    pub exam_room: Option<String>,
    pub warning_message: Option<String>,
    pub deadline: Option<String>,
    pub internal_metadata: Option<ExamRegistrationMetadata>,
}

pub struct ExamPartsView {
    pub status: Seq<char>,
    pub signup_information: Seq<char>,
    pub exam_date: Option<Seq<char>>,
    pub exam_time: Option<Seq<char>>,
    pub exam_room: Option<Seq<char>>,
    pub warning_message: Option<Seq<char>>,
    pub deadline: Option<Seq<char>>,
    pub internal_metadata: Option<ExamRegistrationMetadataView>,
}

impl View for ExamParts {
    type V = ExamPartsView;

    open spec fn view(&self) -> ExamPartsView {
        ExamPartsView {
            status: self.status@,
            signup_information: self.signup_information@,
            exam_date: crate::rows::opt_str_view(self.exam_date),
            exam_time: crate::rows::opt_str_view(self.exam_time),
            exam_room: crate::rows::opt_str_view(self.exam_room),
            warning_message: crate::rows::opt_str_view(self.warning_message),
            deadline: crate::rows::opt_str_view(self.deadline),
            internal_metadata: match self.internal_metadata {
                Option::None => Option::None,
                Option::Some(m) => Option::Some(m@),
            },
        }
    }
}

/// What the main detail row and warning row of one entry decode to.
/// A main detail row with no rendered text yields the placeholder record
/// with fixed information text and every optional field absent.
pub open spec fn spec_exam_parts(
    main: RowView,
    warn: Option<RowView>,
    prefix: Seq<char>,
) -> ExamPartsView {
    if main.texts.len() == 0 {
        ExamPartsView {
            status: spec_exam_status(main),
            signup_information: "Daten konnten nicht extrahiert werden"@,
            exam_date: Option::None,
            exam_time: Option::None,
            exam_room: Option::None,
            warning_message: Option::None,
            deadline: Option::None,
            internal_metadata: Option::None,
        }
    } else {
        ExamPartsView {
            status: spec_exam_status(main),
            signup_information: spec_exam_info(main),
            exam_date: if main.texts.len() > 1 {
                Option::Some(main.texts[1])
            } else {
                Option::None
            },
            exam_time: if main.texts.len() > 3 {
                Option::Some(main.texts[3])
            } else {
                Option::None
            },
            exam_room: if main.texts.len() > 4 {
                Option::Some(spec_strip_prefix(main.texts[4], ", "@))
            } else {
                Option::None
            },
            warning_message: spec_warning(warn),
            deadline: spec_deadline(warn, prefix),
            internal_metadata: spec_reg_meta(main),
        }
    }
}

fn reg_meta(row: &Row) -> (r: Option<ExamRegistrationMetadata>)
    ensures
        (r is Some) == (spec_reg_meta(row@) is Some),
        r matches Some(m) ==> spec_reg_meta(row@) == Some(m@),
{
    match &row.booking_anchor {
        Option::None => None,
        Option::Some(a) => match (&a.assessment, &a.peryr, &a.perid, &a.offerno) {
            (Option::Some(ass), Option::Some(y), Option::Some(p), Option::Some(o)) => Some(
                ExamRegistrationMetadata {
                    assessment: ass.clone(),
                    peryr: y.clone(),
                    perid: p.clone(),
                    offerno: o.clone(),
                },
            ),
            _ => None,
        },
    }
}

/// Decode the main detail row and the optional warning row of one entry.
pub fn exam_parts(main: &Row, warn: Option<&Row>, prefix: &str) -> (p: ExamParts)
    ensures
        p@ == spec_exam_parts(main@, spec_opt_row(warn), prefix@),
{
    let status = status_symbol(&classify_icon(&main.icon));
    if main.texts.len() == 0 {
        return ExamParts {
            status,
            signup_information: String::from_str("Daten konnten nicht extrahiert werden"),
            exam_date: None,
            exam_time: None,
            exam_room: None,
            warning_message: None,
            deadline: None,
            internal_metadata: None,
        };
    }
    proof {
        assert(main@.texts[0] == main.texts@[0]@);
    }
    let t0 = trim_start(main.texts[0].as_str());
    let signup_information = strip_suffix_else(t0, ", Prüfungstermin: ");
    let exam_date = if main.texts.len() > 1 {
        proof {
            assert(main@.texts[1] == main.texts@[1]@);
        }
        Some(main.texts[1].clone())
    } else {
        None
    };
    let exam_time = if main.texts.len() > 3 {
        proof {
            assert(main@.texts[3] == main.texts@[3]@);
        }
        Some(main.texts[3].clone())
    } else {
        None
    };
    let exam_room = if main.texts.len() > 4 {
        proof {
            assert(main@.texts[4] == main.texts@[4]@);
        }
        Some(strip_prefix_else(main.texts[4].as_str(), ", "))
    } else {
        None
    };
    let warning_message = match warn {
        Option::Some(w) => {
            let c = concat_texts(&w.texts);
            let t = trim_start(c.as_str());
            proof {
                reveal_strlit("   :  ");
            }
            Some(replace_all(t, "   :  ", ""))
        },
        Option::None => None,
    };
    let deadline = match &warning_message {
        Option::Some(w) => find_date_after(w.as_str(), prefix),
        Option::None => None,
    };
    let internal_metadata = reg_meta(main);
    ExamParts {
        status,
        signup_information,
        exam_date,
        exam_time,
        exam_room,
        warning_message,
        deadline,
        internal_metadata,
    }
}

/// One decoded sign-up option.
pub open spec fn spec_signup_option(
    t: RowView,
    main: RowView,
    warn: Option<RowView>,
) -> SignupOptionView {
    let p = spec_exam_parts(main, warn, "bis "@);
    SignupOptionView {
        name: spec_text_or(spec_first_text(t, 0), "Kein Name"@),
        verfahren: spec_text_or(spec_first_text(t, 1), ""@),
        pruefart: spec_text_or(spec_first_text(t, 2), ""@),
        status: p.status,
        signup_information: p.signup_information,
        exam_date: p.exam_date,
        exam_time: p.exam_time,
        exam_room: p.exam_room,
        warning_message: p.warning_message,
        signup_until: p.deadline,
        internal_metadata: p.internal_metadata,
    }
}

/// One decoded sign-off option.
pub open spec fn spec_verfahren_option(
    t: RowView,
    main: RowView,
    warn: Option<RowView>,
) -> VerfahrenOptionView {
    let p = spec_exam_parts(main, warn, "bis zum "@);
    VerfahrenOptionView {
        name: spec_text_or(spec_first_text(t, 0), "Kein Name"@),
        verfahren: spec_text_or(spec_first_text(t, 1), "Kein Name"@),
        pruefart: spec_text_or(spec_first_text(t, 2), ""@),
        status: p.status,
        signup_information: p.signup_information,
        exam_date: p.exam_date,
        exam_time: p.exam_time,
        exam_room: p.exam_room,
        warning_message: p.warning_message,
        signoff_until: p.deadline,
        internal_metadata: p.internal_metadata,
    }
}

/// What one top-level row contributes to the sign-up list: nothing where
/// its identifier or its main detail row is absent, else one record.
pub open spec fn spec_signup_entry(t: RowView, rows: Seq<RowView>) -> Seq<SignupOptionView> {
    match t.id {
        Option::None => Seq::empty(),
        Option::Some(id) => {
            let kids = spec_children(rows, spec_child_token(id));
            if kids.len() == 0 {
                Seq::empty()
            } else {
                seq![
                    spec_signup_option(
                        t,
                        kids[0],
                        if kids.len() > 1 {
                            Option::Some(kids[1])
                        } else {
                            Option::None
                        },
                    ),
                ]
            }
        },
    }
}

/// What one top-level row contributes to the sign-off list.
pub open spec fn spec_verfahren_entry(t: RowView, rows: Seq<RowView>) -> Seq<
    VerfahrenOptionView,
> {
    match t.id {
        Option::None => Seq::empty(),
        Option::Some(id) => {
            let kids = spec_children(rows, spec_child_token(id));
            if kids.len() == 0 {
                Seq::empty()
            } else {
                seq![
                    spec_verfahren_option(
                        t,
                        kids[0],
                        if kids.len() > 1 {
                            Option::Some(kids[1])
                        } else {
                            Option::None
                        },
                    ),
                ]
            }
        },
    }
}

pub open spec fn spec_signups(tops: Seq<RowView>, rows: Seq<RowView>) -> Seq<SignupOptionView>
    decreases tops.len(),
{
    if tops.len() == 0 {
        Seq::empty()
    } else {
        spec_signup_entry(tops[0], rows) + spec_signups(tops.drop_first(), rows)
    }
}

pub open spec fn spec_verfahrens(tops: Seq<RowView>, rows: Seq<RowView>) -> Seq<
    VerfahrenOptionView,
>
    decreases tops.len(),
{
    if tops.len() == 0 {
        Seq::empty()
    } else {
        spec_verfahren_entry(tops[0], rows) + spec_verfahrens(tops.drop_first(), rows)
    }
}

/// The full sign-up extraction over a row table.
pub open spec fn spec_extract_signup_options(rows: Seq<RowView>) -> Seq<SignupOptionView> {
    spec_signups(spec_children(rows, "child-of-node-0"@), rows)
}

/// The full sign-off extraction over a row table.
pub open spec fn spec_extract_verfahren_options(rows: Seq<RowView>) -> Seq<VerfahrenOptionView> {
    spec_verfahrens(spec_children(rows, "child-of-node-0"@), rows)
}

/// Extract the exam sign-up options from the registration table.
///
/// One record per top-level row that has an identifier and a main detail
/// row, in document order.  A missing table yields the empty list.  Total:
/// no input aborts extraction.
pub fn extract_exam_signup_options(table: Option<&RowTable>) -> (opts: Vec<
    CampusDualSignupOption,
>)
    ensures
        signup_views(opts@) == spec_extract_signup_options(spec_opt_table(table)),
        table is None ==> opts@.len() == 0,
{
    let ghost rv = spec_opt_table(table);
    let mut out: Vec<CampusDualSignupOption> = Vec::new();
    match table {
        Option::None => {
            proof {
                assert(spec_children(rv, "child-of-node-0"@) =~= Seq::<RowView>::empty());
                assert(signup_views(out@) =~= spec_extract_signup_options(rv));
            }
            out
        },
        Option::Some(tab) => {
            let rows = &tab.rows;
            proof {
                assert(rv == row_views(rows@));
            }
            let ghost tops_v = spec_children(rv, "child-of-node-0"@);
            let tops = children_of(rows, "child-of-node-0");
            let mut ti: usize = 0;
            proof {
                assert(idx_views(rv, tops@).len() == tops@.len());
                assert(tops_v.skip(0) =~= tops_v);
                assert(signup_views(out@) =~= Seq::<SignupOptionView>::empty());
                assert(Seq::<SignupOptionView>::empty() + spec_signups(tops_v, rv)
                    =~= spec_signups(tops_v, rv));
            }
            while ti < tops.len()
                invariant
                    0 <= ti <= tops@.len(),
                    rv == row_views(rows@),
                    tops_v == spec_children(rv, "child-of-node-0"@),
                    idx_views(rv, tops@) == tops_v,
                    tops_v.len() == tops@.len(),
                    forall|k: int| 0 <= k < tops@.len() ==> tops@[k] < rows@.len(),
                    signup_views(out@) + spec_signups(tops_v.skip(ti as int), rv) == spec_signups(
                        tops_v,
                        rv,
                    ),
                decreases tops@.len() - ti,
            {
                let ghost t_v = tops_v[ti as int];
                proof {
                    assert(tops_v.skip(ti as int)[0] == t_v);
                    assert(tops_v.skip(ti as int).drop_first() =~= tops_v.skip(ti + 1));
                    assert(spec_signups(tops_v.skip(ti as int), rv) == spec_signup_entry(t_v, rv)
                        + spec_signups(tops_v.skip(ti + 1), rv));
                    assert(t_v == rv[tops@[ti as int] as int]);
                    assert(rv[tops@[ti as int] as int] == rows@[tops@[ti as int] as int]@);
                }
                let t_row = &rows[tops[ti]];
                match &t_row.id {
                    Option::None => {
                        proof {
                            assert(spec_signup_entry(t_v, rv) =~= Seq::<SignupOptionView>::empty());
                            assert(signup_views(out@) + (Seq::<SignupOptionView>::empty()
                                + spec_signups(tops_v.skip(ti + 1), rv)) =~= signup_views(out@)
                                + spec_signups(tops_v.skip(ti + 1), rv));
                        }
                    },
                    Option::Some(id) => {
                        let tok = child_token(id.as_str());
                        let ghost kids_v = spec_children(rv, spec_child_token(id@));
                        let kids = children_of(rows, tok.as_str());
                        proof {
                            assert(idx_views(rv, kids@) == kids_v);
                            assert(kids_v.len() == kids@.len());
                        }
                        if kids.len() == 0 {
                            proof {
                                assert(spec_signup_entry(t_v, rv) =~= Seq::<
                                    SignupOptionView,
                                >::empty());
                                assert(signup_views(out@) + (Seq::<SignupOptionView>::empty()
                                    + spec_signups(tops_v.skip(ti + 1), rv)) =~= signup_views(out@)
                                    + spec_signups(tops_v.skip(ti + 1), rv));
                            }
                        } else {
                            proof {
                                assert(kids_v[0] == rv[kids@[0] as int]);
                                assert(rv[kids@[0] as int] == rows@[kids@[0] as int]@);
                                if kids@.len() > 1 {
                                    assert(kids_v[1] == rv[kids@[1] as int]);
                                    assert(rv[kids@[1] as int] == rows@[kids@[1] as int]@);
                                }
                            }
                            let main = &rows[kids[0]];
                            let warn = if kids.len() > 1 {
                                Some(&rows[kids[1]])
                            } else {
                                None
                            };
                            let p = exam_parts(main, warn, "bis ");
                            let rec = CampusDualSignupOption {
                                name: first_text_or(t_row, 0, "Kein Name"),
                                verfahren: first_text_or(t_row, 1, ""),
                                pruefart: first_text_or(t_row, 2, ""),
                                status: p.status,
                                signup_information: p.signup_information,
                                exam_date: p.exam_date,
                                exam_time: p.exam_time,
                                exam_room: p.exam_room,
                                warning_message: p.warning_message,
                                signup_until: p.deadline,
                                internal_metadata: p.internal_metadata,
                            };
                            let ghost old_out = signup_views(out@);
                            out.push(rec);
                            proof {
                                assert(signup_views(out@) =~= old_out.push(
                                    spec_signup_option(
                                        t_v,
                                        kids_v[0],
                                        if kids_v.len() > 1 {
                                            Option::Some(kids_v[1])
                                        } else {
                                            Option::None
                                        },
                                    ),
                                ));
                                assert(old_out.push(
                                    spec_signup_option(
                                        t_v,
                                        kids_v[0],
                                        if kids_v.len() > 1 {
                                            Option::Some(kids_v[1])
                                        } else {
                                            Option::None
                                        },
                                    ),
                                ) + spec_signups(tops_v.skip(ti + 1), rv) =~= old_out + (
                                spec_signup_entry(t_v, rv) + spec_signups(
                                    tops_v.skip(ti + 1),
                                    rv,
                                )));
                            }
                        }
                    },
                }
                ti = ti + 1;
            }
            proof {
                assert(tops_v.skip(tops@.len() as int) =~= Seq::<RowView>::empty());
                assert(signup_views(out@) + Seq::<SignupOptionView>::empty() =~= signup_views(
                    out@,
                ));
            }
            out
        },
    }
}

/// Extract the exam sign-off options from the open-procedures table.
///
/// One record per top-level row that has an identifier and a main detail
/// row, in document order.  A missing table yields the empty list.  Total:
/// no input aborts extraction.
pub fn extract_exam_verfahren_options(table: Option<&RowTable>) -> (opts: Vec<
    CampusDualVerfahrenOption,
>)
    ensures
        verfahren_views(opts@) == spec_extract_verfahren_options(spec_opt_table(table)),
        table is None ==> opts@.len() == 0,
{
    let ghost rv = spec_opt_table(table);
    let mut out: Vec<CampusDualVerfahrenOption> = Vec::new();
    match table {
        Option::None => {
            proof {
                assert(spec_children(rv, "child-of-node-0"@) =~= Seq::<RowView>::empty());
                assert(verfahren_views(out@) =~= spec_extract_verfahren_options(rv));
            }
            out
        },
        Option::Some(tab) => {
            let rows = &tab.rows;
            proof {
                assert(rv == row_views(rows@));
            }
            let ghost tops_v = spec_children(rv, "child-of-node-0"@);
            let tops = children_of(rows, "child-of-node-0");
            let mut ti: usize = 0;
            proof {
                assert(idx_views(rv, tops@).len() == tops@.len());
                assert(tops_v.skip(0) =~= tops_v);
                assert(verfahren_views(out@) =~= Seq::<VerfahrenOptionView>::empty());
                assert(Seq::<VerfahrenOptionView>::empty() + spec_verfahrens(tops_v, rv)
                    =~= spec_verfahrens(tops_v, rv));
            }
            while ti < tops.len()
                invariant
                    0 <= ti <= tops@.len(),
                    rv == row_views(rows@),
                    tops_v == spec_children(rv, "child-of-node-0"@),
                    idx_views(rv, tops@) == tops_v,
                    tops_v.len() == tops@.len(),
                    forall|k: int| 0 <= k < tops@.len() ==> tops@[k] < rows@.len(),
                    verfahren_views(out@) + spec_verfahrens(tops_v.skip(ti as int), rv)
                        == spec_verfahrens(tops_v, rv),
                decreases tops@.len() - ti,
            {
                let ghost t_v = tops_v[ti as int];
                proof {
                    assert(tops_v.skip(ti as int)[0] == t_v);
                    assert(tops_v.skip(ti as int).drop_first() =~= tops_v.skip(ti + 1));
                    assert(spec_verfahrens(tops_v.skip(ti as int), rv) == spec_verfahren_entry(
                        t_v,
                        rv,
                    ) + spec_verfahrens(tops_v.skip(ti + 1), rv));
                    assert(t_v == rv[tops@[ti as int] as int]);
                    assert(rv[tops@[ti as int] as int] == rows@[tops@[ti as int] as int]@);
                }
                let t_row = &rows[tops[ti]];
                match &t_row.id {
                    Option::None => {
                        proof {
                            assert(spec_verfahren_entry(t_v, rv) =~= Seq::<
                                VerfahrenOptionView,
                            >::empty());
                            assert(verfahren_views(out@) + (Seq::<VerfahrenOptionView>::empty()
                                + spec_verfahrens(tops_v.skip(ti + 1), rv)) =~= verfahren_views(
                                out@,
                            ) + spec_verfahrens(tops_v.skip(ti + 1), rv));
                        }
                    },
                    Option::Some(id) => {
                        let tok = child_token(id.as_str());
                        let ghost kids_v = spec_children(rv, spec_child_token(id@));
                        let kids = children_of(rows, tok.as_str());
                        proof {
                            assert(idx_views(rv, kids@) == kids_v);
                            assert(kids_v.len() == kids@.len());
                        }
                        if kids.len() == 0 {
                            proof {
                                assert(spec_verfahren_entry(t_v, rv) =~= Seq::<
                                    VerfahrenOptionView,
                                >::empty());
                                assert(verfahren_views(out@) + (Seq::<VerfahrenOptionView>::empty()
                                    + spec_verfahrens(tops_v.skip(ti + 1), rv)) =~= verfahren_views(
                                    out@,
                                ) + spec_verfahrens(tops_v.skip(ti + 1), rv));
                            }
                        } else {
                            proof {
                                assert(kids_v[0] == rv[kids@[0] as int]);
                                assert(rv[kids@[0] as int] == rows@[kids@[0] as int]@);
                                if kids@.len() > 1 {
                                    assert(kids_v[1] == rv[kids@[1] as int]);
                                    assert(rv[kids@[1] as int] == rows@[kids@[1] as int]@);
                                }
                            }
                            let main = &rows[kids[0]];
                            let warn = if kids.len() > 1 {
                                Some(&rows[kids[1]])
                            } else {
                                None
                            };
                            let p = exam_parts(main, warn, "bis zum ");
                            let rec = CampusDualVerfahrenOption {
                                name: first_text_or(t_row, 0, "Kein Name"),
                                verfahren: first_text_or(t_row, 1, "Kein Name"),
                                pruefart: first_text_or(t_row, 2, ""),
                                status: p.status,
                                signup_information: p.signup_information,
                                exam_date: p.exam_date,
                                exam_time: p.exam_time,
                                exam_room: p.exam_room,
                                warning_message: p.warning_message,
                                signoff_until: p.deadline,
                                internal_metadata: p.internal_metadata,
                            };
                            let ghost old_out = verfahren_views(out@);
                            out.push(rec);
                            proof {
                                assert(verfahren_views(out@) =~= old_out.push(
                                    spec_verfahren_option(
                                        t_v,
                                        kids_v[0],
                                        if kids_v.len() > 1 {
                                            Option::Some(kids_v[1])
                                        } else {
                                            Option::None
                                        },
                                    ),
                                ));
                                assert(old_out.push(
                                    spec_verfahren_option(
                                        t_v,
                                        kids_v[0],
                                        if kids_v.len() > 1 {
                                            Option::Some(kids_v[1])
                                        } else {
                                            Option::None
                                        },
                                    ),
                                ) + spec_verfahrens(tops_v.skip(ti + 1), rv) =~= old_out + (
                                spec_verfahren_entry(t_v, rv) + spec_verfahrens(
                                    tops_v.skip(ti + 1),
                                    rv,
                                )));
                            }
                        }
                    },
                }
                ti = ti + 1;
            }
            proof {
                assert(tops_v.skip(tops@.len() as int) =~= Seq::<RowView>::empty());
                assert(verfahren_views(out@) + Seq::<VerfahrenOptionView>::empty()
                    =~= verfahren_views(out@));
            }
            out
        },
    }
}

} // verus!
