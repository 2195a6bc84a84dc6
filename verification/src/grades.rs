//! The grade extractor: from a results row table to the ordered grade list.
//!
//! ## Expected column layout of a grade row
//!
//! | cell | slot              |
//! |------|-------------------|
//! | 0    | name              |
//! | 1    | grade symbol      |
//! | 2    | passed icon       |
//! | 3    | credit points     |
//! | 4    | assessment date   |
//! | 5    | announcement date |
//! | 6    | retake marker     |
//! | 7    | academic period   |
//!
//! A row shorter than the layout simply leaves the trailing slots absent;
//! every absent slot resolves to its documented default.  Module rows,
//! attempt (subgrade) rows and flat partial-examination rows share this
//! layout and differ only in which slots they read and in their name
//! defaults (`"Kein Name"`, `"kein Name"`, `"Ohne Name"`).

use vstd::prelude::*;
use crate::dates::{
    Date, date_key, parse_date, sentinel_date, spec_date_key, spec_parse_date, spec_sentinel_date,
};
use crate::records::{
    CampusDualGrade, CampusDualSubGrade, GradeView, SubGradeMetadata, SubGradeMetadataView,
    SubGradeView, grade_views, subgrade_views,
};
use crate::rows::{
    Row, RowTable, RowView, children_of, child_token, idx_views, row_views, spec_child_token,
    spec_children,
};
use crate::text::{
    contains_str, parse_i32_opt, spec_contains, spec_parse_i32, spec_trim, spec_trim_start, trim,
    trim_start,
};

verus! {

/// The first text node of cell `i`, where the row has such a cell and it
/// has a text node.
pub open spec fn spec_first_text(r: RowView, i: int) -> Option<Seq<char>> {
    if 0 <= i < r.cells.len() && r.cells[i].texts.len() > 0 {
        Option::Some(r.cells[i].texts[0])
    } else {
        Option::None
    }
}

/// The icon reference of cell `i`, where present.
pub open spec fn spec_cell_icon(r: RowView, i: int) -> Option<Seq<char>> {
    if 0 <= i < r.cells.len() {
        r.cells[i].icon
    } else {
        Option::None
    }
}

/// A text slot resolved against its documented default.
pub open spec fn spec_text_or(o: Option<Seq<char>>, d: Seq<char>) -> Seq<char> {
    match o {
        Option::Some(t) => t,
        Option::None => d,
    }
}

/// The pass flag of the icon cell: present iff the cell has an icon
/// reference, true iff that reference names the success icon.
pub open spec fn spec_passed_flag(r: RowView, i: int) -> Option<bool> {
    match spec_cell_icon(r, i) {
        Option::Some(src) => Option::Some(spec_contains(src, "green.png"@)),
        Option::None => Option::None,
    }
}

/// Credit points: first text of the credit cell, leading whitespace
/// trimmed, read as a decimal integer; `0` on any failure.
pub open spec fn spec_credit_points(r: RowView) -> int {
    match spec_first_text(r, 3) {
        Option::None => 0,
        Option::Some(t) => match spec_parse_i32(spec_trim_start(t)) {
            Option::Some(v) => v,
            Option::None => 0,
        },
    }
}

/// Subgrade metadata: all three attributes of the score anchor, or nothing.
/// Partial availability is absence, never a partially-filled object.
pub open spec fn spec_sub_meta(r: RowView) -> Option<SubGradeMetadataView> {
    match r.score_anchor {
        Option::None => Option::None,
        Option::Some(a) => match (a.module, a.peryr, a.perid) {
            (Option::Some(m), Option::Some(y), Option::Some(p)) => Option::Some(
                SubGradeMetadataView { module: m, peryr: y, perid: p },
            ),
            _ => Option::None,
        },
    }
}

/// One decoded attempt row.
pub open spec fn spec_subgrade(r: RowView) -> SubGradeView {
    SubGradeView {
        name: match spec_first_text(r, 0) {
            Option::Some(t) => spec_trim_start(t),
            Option::None => "kein Name"@,
        },
        grade: spec_text_or(spec_first_text(r, 1), "?"@),
        passed: spec_passed_flag(r, 2),
        beurteilung: spec_text_or(spec_first_text(r, 4), "01.01.1970"@),
        bekanntgabe: spec_text_or(spec_first_text(r, 5), "01.01.1970"@),
        wiederholung: spec_first_text(r, 6),
        akad_period: spec_text_or(spec_first_text(r, 7), "nicht vorhanden"@),
        internal_metadata: spec_sub_meta(r),
    }
}

/// One decoded module row together with its decoded attempt rows.
pub open spec fn spec_module_record(t: RowView, kids: Seq<RowView>) -> GradeView {
    GradeView {
        name: spec_text_or(spec_first_text(t, 0), "Kein Name"@),
        grade: spec_text_or(spec_first_text(t, 1), "?"@),
        total_passed: spec_passed_flag(t, 2),
        credit_points: spec_credit_points(t),
        akad_period: spec_text_or(spec_first_text(t, 7), "nicht vorhanden"@),
        subgrades: kids.map_values(|k: RowView| spec_subgrade(k)),
    }
}

/// The name of a flat partial-examination row: first text of the name
/// cell trimmed on both ends, else its own default.
pub open spec fn spec_partial_name(r: RowView) -> Seq<char> {
    match spec_first_text(r, 0) {
        Option::Some(t) => spec_trim(t),
        Option::None => "Ohne Name"@,
    }
}

/// One grade synthesized from a flat partial-examination row: a single
/// subgrade copied from the same row, credit points fixed at zero.
pub open spec fn spec_partial_record(r: RowView) -> GradeView {
    GradeView {
        name: spec_partial_name(r),
        grade: spec_text_or(spec_first_text(r, 1), "?"@),
        total_passed: spec_passed_flag(r, 2),
        credit_points: 0,
        akad_period: spec_text_or(spec_first_text(r, 7), "nicht vorhanden"@),
        subgrades: seq![
            SubGradeView {
                name: spec_partial_name(r),
                grade: spec_text_or(spec_first_text(r, 1), "?"@),
                passed: spec_passed_flag(r, 2),
                beurteilung: spec_text_or(spec_first_text(r, 4), "01.01.1970"@),
                bekanntgabe: spec_text_or(spec_first_text(r, 5), "01.01.1970"@),
                wiederholung: Option::None,
                akad_period: spec_text_or(spec_first_text(r, 7), "nicht vorhanden"@),
                internal_metadata: Option::None,
            },
        ],
    }
}

/// What one top-level row contributes: nothing where its `id` attribute is
/// absent or where no attempt row refers back to it, else one grade.
pub open spec fn spec_module_entry(t: RowView, rows: Seq<RowView>) -> Seq<GradeView> {
    match t.id {
        Option::None => Seq::empty(),
        Option::Some(id) => {
            let kids = spec_children(rows, spec_child_token(id));
            if kids.len() == 0 {
                Seq::empty()
            } else {
                seq![spec_module_record(t, kids)]
            }
        },
    }
}

/// The module-derived grades, in document order of the top-level rows.
pub open spec fn spec_modules(tops: Seq<RowView>, rows: Seq<RowView>) -> Seq<GradeView>
    decreases tops.len(),
{
    if tops.len() == 0 {
        Seq::empty()
    } else {
        spec_module_entry(tops[0], rows) + spec_modules(tops.drop_first(), rows)
    }
}

/// The grades synthesized from flat partial-examination rows.
pub open spec fn spec_partials(rows: Seq<RowView>) -> Seq<GradeView> {
    spec_children(rows, "child-of-node-1000"@).map_values(|r: RowView| spec_partial_record(r))
}

/// The assembled, not yet ordered grade list of a row table.
pub open spec fn spec_assembled(rows: Seq<RowView>) -> Seq<GradeView> {
    spec_modules(spec_children(rows, "child-of-node-0"@), rows) + spec_partials(rows)
}

/// The newest announcement date among a grade's subgrades, each read as
/// `DD.MM.YYYY` with the sentinel on failure; the sentinel where there are
/// no subgrades at all.
pub open spec fn spec_max_date(subs: Seq<SubGradeView>) -> Date
    decreases subs.len(),
{
    if subs.len() == 0 {
        spec_sentinel_date()
    } else if subs.len() == 1 {
        spec_parse_date(subs[0].bekanntgabe)
    } else {
        let d0 = spec_parse_date(subs[0].bekanntgabe);
        let rest = spec_max_date(subs.drop_first());
        if spec_date_key(d0) > spec_date_key(rest) {
            d0
        } else {
            rest
        }
    }
}

/// The ordering key of a grade: its newest announcement date.
pub open spec fn spec_grade_key(g: GradeView) -> int {
    spec_date_key(spec_max_date(g.subgrades))
}

/// Insert a grade after every grade whose key is at least as large: the
/// insertion step of a stable descending sort.
pub open spec fn spec_insert_desc(g: GradeView, s: Seq<GradeView>) -> Seq<GradeView>
    decreases s.len(),
{
    if s.len() == 0 {
        seq![g]
    } else if spec_grade_key(s[0]) >= spec_grade_key(g) {
        seq![s[0]] + spec_insert_desc(g, s.drop_first())
    } else {
        seq![g] + s
    }
}

/// Stable insertion sort, descending by grade key: equal keys keep their
/// discovery order.
pub open spec fn spec_sort_desc(s: Seq<GradeView>) -> Seq<GradeView>
    decreases s.len(),
{
    if s.len() == 0 {
        Seq::empty()
    } else {
        spec_insert_desc(s.last(), spec_sort_desc(s.drop_last()))
    }
}

/// The full grade extraction: assemble, then order.
pub open spec fn spec_extract_grades(rows: Seq<RowView>) -> Seq<GradeView> {
    spec_sort_desc(spec_assembled(rows))
}

/// The row views of an optional table; an absent table has no rows.
pub open spec fn spec_opt_table(t: Option<&RowTable>) -> Seq<RowView> {
    match t {
        Option::None => Seq::empty(),
        Option::Some(tab) => tab@,
    }
}

pub fn first_text_or(row: &Row, i: usize, default: &str) -> (r: String)
    ensures
        r@ == spec_text_or(spec_first_text(row@, i as int), default@),
{
    if i < row.cells.len() {
        proof {
            assert(row@.cells[i as int] == row.cells@[i as int]@);
        }
        let c = &row.cells[i];
        if c.texts.len() > 0 {
            proof {
                assert(row@.cells[i as int].texts[0] == c.texts@[0]@);
            }
            return c.texts[0].clone();
        }
    }
    String::from_str(default)
}

pub fn opt_first_text(row: &Row, i: usize) -> (r: Option<String>)
    ensures
        (r is Some) == (spec_first_text(row@, i as int) is Some),
        r matches Some(t) ==> spec_first_text(row@, i as int) == Some(t@),
{
    if i < row.cells.len() {
        proof {
            assert(row@.cells[i as int] == row.cells@[i as int]@);
        }
        let c = &row.cells[i];
        if c.texts.len() > 0 {
            proof {
                assert(row@.cells[i as int].texts[0] == c.texts@[0]@);
            }
            return Some(c.texts[0].clone());
        }
    }
    None
}

pub fn passed_flag(row: &Row, i: usize) -> (r: Option<bool>)
    ensures
        r == spec_passed_flag(row@, i as int),
{
    if i < row.cells.len() {
        proof {
            assert(row@.cells[i as int] == row.cells@[i as int]@);
        }
        match &row.cells[i].icon {
            Option::Some(src) => Some(contains_str(src.as_str(), "green.png")),
            Option::None => None,
        }
    } else {
        None
    }
}

fn credit_points_of(row: &Row) -> (cp: i32)
    ensures
        cp as int == spec_credit_points(row@),
{
    match opt_first_text(row, 3) {
        Option::None => 0,
        Option::Some(t) => {
            let trimmed = trim_start(t.as_str());
            match parse_i32_opt(trimmed) {
                Option::Some(v) => v,
                Option::None => 0,
            }
        },
    }
}

fn sub_meta(row: &Row) -> (r: Option<SubGradeMetadata>)
    ensures
        (r is Some) == (spec_sub_meta(row@) is Some),
        r matches Some(m) ==> spec_sub_meta(row@) == Some(m@),
{
    match &row.score_anchor {
        Option::None => None,
        Option::Some(a) => match (&a.module, &a.peryr, &a.perid) {
            (Option::Some(m), Option::Some(y), Option::Some(p)) => Some(
                SubGradeMetadata { module: m.clone(), peryr: y.clone(), perid: p.clone() },
            ),
            _ => None,
        },
    }
}

/// Decode one attempt row into a subgrade record.
pub fn decode_subgrade(row: &Row) -> (r: CampusDualSubGrade)
    ensures
        r@ == spec_subgrade(row@),
{
    let name = match opt_first_text(row, 0) {
        Option::Some(t) => String::from_str(trim_start(t.as_str())),
        Option::None => String::from_str("kein Name"),
    };
    CampusDualSubGrade {
        name,
        grade: first_text_or(row, 1, "?"),
        passed: passed_flag(row, 2),
        beurteilung: first_text_or(row, 4, "01.01.1970"),
        bekanntgabe: first_text_or(row, 5, "01.01.1970"),
        wiederholung: opt_first_text(row, 6),
        akad_period: first_text_or(row, 7, "nicht vorhanden"),
        internal_metadata: sub_meta(row),
    }
}

/// Decode one flat partial-examination row into a synthesized grade.
pub fn decode_partial(row: &Row) -> (r: CampusDualGrade)
    ensures
        r@ == spec_partial_record(row@),
{
    let name = match opt_first_text(row, 0) {
        Option::Some(t) => String::from_str(trim(t.as_str())),
        Option::None => String::from_str("Ohne Name"),
    };
    let grade_sym = first_text_or(row, 1, "?");
    let passed = passed_flag(row, 2);
    let akad_period = first_text_or(row, 7, "nicht vorhanden");
    let sub = CampusDualSubGrade {
        name: name.clone(),
        grade: grade_sym.clone(),
        passed,
        beurteilung: first_text_or(row, 4, "01.01.1970"),
        bekanntgabe: first_text_or(row, 5, "01.01.1970"),
        wiederholung: None,
        akad_period: akad_period.clone(),
        internal_metadata: None,
    };
    let mut subgrades: Vec<CampusDualSubGrade> = Vec::new();
    subgrades.push(sub);
    proof {
        assert(subgrade_views(subgrades@) =~= spec_partial_record(row@).subgrades);
    }
    CampusDualGrade {
        name,
        grade: grade_sym,
        total_passed: passed,
        credit_points: 0,
        akad_period,
        subgrades,
    }
}

/// The newest announcement date among a grade's subgrades.
pub fn get_newest_subgrade_date(grade: &CampusDualGrade) -> (d: Date)
    ensures
        d == spec_max_date(subgrade_views(grade.subgrades@)),
{
    let ghost subs = subgrade_views(grade.subgrades@);
    let n = grade.subgrades.len();
    if n == 0 {
        return sentinel_date();
    }
    let mut i: usize = n - 1;
    proof {
        assert(subs.skip(i as int).len() == 1);
        assert(subs.skip(i as int)[0] == grade.subgrades@[i as int]@);
    }
    let mut best = parse_date(grade.subgrades[n - 1].bekanntgabe.as_str());
    while i > 0
        invariant
            0 <= i < n,
            n == grade.subgrades@.len(),
            subs == subgrade_views(grade.subgrades@),
            subs.len() == n,
            best == spec_max_date(subs.skip(i as int)),
        decreases i,
    {
        i = i - 1;
        let d = parse_date(grade.subgrades[i].bekanntgabe.as_str());
        let kd = date_key(&d);
        let kb = date_key(&best);
        proof {
            let t = subs.skip(i as int);
            assert(t.len() >= 2);
            assert(t[0] == grade.subgrades@[i as int]@);
            assert(t.drop_first() =~= subs.skip(i + 1));
        }
        if kd > kb {
            best = d;
        }
    }
    proof {
        assert(subs.skip(0) =~= subs);
    }
    best
}

fn grade_sort_key(g: &CampusDualGrade) -> (k: u64)
    ensures
        k as int == spec_grade_key(g@),
{
    let d = get_newest_subgrade_date(g);
    date_key(&d)
}

/// The position at which [`spec_insert_desc`] places `g`: the number of
/// leading elements whose key is at least `g`'s.
pub open spec fn spec_insert_pos(g: GradeView, s: Seq<GradeView>) -> int
    decreases s.len(),
{
    if s.len() == 0 {
        0
    } else if spec_grade_key(s[0]) >= spec_grade_key(g) {
        1 + spec_insert_pos(g, s.drop_first())
    } else {
        0
    }
}

pub proof fn lemma_insert_pos_props(g: GradeView, s: Seq<GradeView>)
    ensures
        0 <= spec_insert_pos(g, s) <= s.len(),
        forall|k: int|
            0 <= k < spec_insert_pos(g, s) ==> spec_grade_key(s[k]) >= spec_grade_key(g),
        spec_insert_pos(g, s) < s.len() ==> spec_grade_key(s[spec_insert_pos(g, s)])
            < spec_grade_key(g),
    decreases s.len(),
{
    if s.len() > 0 && spec_grade_key(s[0]) >= spec_grade_key(g) {
        lemma_insert_pos_props(g, s.drop_first());
        let p = spec_insert_pos(g, s);
        assert forall|k: int| 0 <= k < p implies spec_grade_key(s[k]) >= spec_grade_key(g) by {
            if k > 0 {
                assert(s.drop_first()[k - 1] == s[k]);
            }
        }
        if p < s.len() {
            assert(s.drop_first()[p - 1] == s[p]);
        }
    }
}

pub proof fn lemma_insert_desc_shape(g: GradeView, s: Seq<GradeView>)
    ensures
        spec_insert_desc(g, s) == s.take(spec_insert_pos(g, s)) + seq![g] + s.skip(
            spec_insert_pos(g, s),
        ),
    decreases s.len(),
{
    let p = spec_insert_pos(g, s);
    if s.len() == 0 {
        assert(spec_insert_desc(g, s) =~= s.take(0) + seq![g] + s.skip(0));
    } else if spec_grade_key(s[0]) >= spec_grade_key(g) {
        lemma_insert_desc_shape(g, s.drop_first());
        let t = s.drop_first();
        let q = spec_insert_pos(g, t);
        lemma_insert_pos_props(g, t);
        assert(p == 1 + q);
        assert(seq![s[0]] + t.take(q) =~= s.take(p));
        assert(t.skip(q) =~= s.skip(p));
        assert(spec_insert_desc(g, s) == seq![s[0]] + (t.take(q) + seq![g] + t.skip(q)));
        assert(seq![s[0]] + (t.take(q) + seq![g] + t.skip(q)) =~= (seq![s[0]] + t.take(q))
            + seq![g] + t.skip(q));
        assert(spec_insert_desc(g, s) == s.take(p) + seq![g] + s.skip(p));
    } else {
        assert(spec_insert_desc(g, s) == seq![g] + s);
        assert(seq![g] + s =~= s.take(0) + seq![g] + s.skip(0));
    }
}

/// Turn an assembled grade list into the ordered output list.
fn sort_grades(input: Vec<CampusDualGrade>) -> (out: Vec<CampusDualGrade>)
    ensures
        grade_views(out@) == spec_sort_desc(grade_views(input@)),
{
    let ghost orig = grade_views(input@);
    let mut rest = input;
    let mut out: Vec<CampusDualGrade> = Vec::new();
    proof {
        assert(orig.take(0) =~= Seq::<GradeView>::empty());
        assert(grade_views(rest@) =~= orig.skip(0));
        assert(grade_views(out@) =~= spec_sort_desc(orig.take(0)));
    }
    while rest.len() > 0
        invariant
            rest@.len() <= orig.len(),
            grade_views(rest@) == orig.skip(orig.len() - rest@.len()),
            grade_views(out@) == spec_sort_desc(orig.take(orig.len() - rest@.len())),
        decreases rest.len(),
    {
        let ghost p = orig.len() - rest@.len();
        let ghost pre = rest@;
        let g = rest.remove(0);
        let ghost gv = g@;
        proof {
            assert(g == pre[0]);
            assert(grade_views(pre)[0] == pre[0]@);
            assert(gv == orig.skip(p)[0]);
            assert(gv == orig[p]);
            assert(rest@ =~= pre.drop_first());
            assert(grade_views(rest@) =~= grade_views(pre).drop_first());
            assert(grade_views(pre).drop_first() =~= orig.skip(p + 1));
        }
        let key_g = grade_sort_key(&g);
        let ghost sv = grade_views(out@);
        let mut j: usize = 0;
        while j < out.len() && grade_sort_key(&out[j]) >= key_g
            invariant
                0 <= j <= out.len(),
                sv == grade_views(out@),
                sv.len() == out@.len(),
                key_g as int == spec_grade_key(gv),
                gv == g@,
                forall|k: int| 0 <= k < j ==> spec_grade_key(sv[k]) >= spec_grade_key(gv),
            decreases out.len() - j,
        {
            proof {
                assert(sv[j as int] == out@[j as int]@);
            }
            j = j + 1;
        }
        proof {
            if j < out.len() {
                assert(sv[j as int] == out@[j as int]@);
            }
            lemma_insert_pos_props(gv, sv);
            let ip = spec_insert_pos(gv, sv);
            if ip < j {
                assert(spec_grade_key(sv[ip]) >= spec_grade_key(gv));
                assert(false);
            }
            if j < ip {
                assert(spec_grade_key(sv[j as int]) >= spec_grade_key(gv));
                assert(false);
            }
            assert(j as int == ip);
        }
        out.insert(j, g);
        proof {
            lemma_insert_desc_shape(gv, sv);
            assert(grade_views(out@) =~= sv.take(j as int) + seq![gv] + sv.skip(j as int));
            assert(grade_views(out@) == spec_insert_desc(gv, sv));
            let taken = orig.take(p + 1);
            assert(taken.last() == orig[p]);
            assert(taken.drop_last() =~= orig.take(p));
            assert(spec_sort_desc(taken) == spec_insert_desc(gv, spec_sort_desc(orig.take(p))));
        }
    }
    proof {
        assert(orig.take(orig.len() as int) =~= orig);
    }
    out
}

/// Extract the full grade list from the grades results table.
///
/// For every top-level module row that has an identifier and at least one
/// attempt row, one grade with its decoded attempts; after those, one
/// synthesized grade per flat partial-examination row; the whole list then
/// ordered by descending newest announcement date, stable on ties.  A
/// missing table yields the empty list.  Total: no input aborts extraction.
pub fn extract_grades(table: Option<&RowTable>) -> (grades: Vec<CampusDualGrade>)
    ensures
        grade_views(grades@) == spec_extract_grades(spec_opt_table(table)),
        table is None ==> grades@.len() == 0,
{
    let ghost rv = spec_opt_table(table);
    let mut out: Vec<CampusDualGrade> = Vec::new();
    match table {
        Option::None => {
            proof {
                assert(spec_children(rv, "child-of-node-0"@) =~= Seq::<RowView>::empty());
                assert(spec_children(rv, "child-of-node-1000"@) =~= Seq::<RowView>::empty());
                assert(spec_partials(rv) =~= Seq::<GradeView>::empty());
                assert(spec_assembled(rv) =~= Seq::<GradeView>::empty());
                assert(grade_views(out@) =~= spec_extract_grades(rv));
            }
            out
        },
        Option::Some(tab) => {
            let rows = &tab.rows;
            proof {
                assert(rv == row_views(rows@));
            }
            let ghost tops_v = spec_children(rv, "child-of-node-0"@);
            let tops = children_of(rows, "child-of-node-0");
            let mut ti: usize = 0;
            proof {
                assert(idx_views(rv, tops@).len() == tops@.len());
                assert(tops_v.skip(0) =~= tops_v);
                assert(grade_views(out@) =~= Seq::<GradeView>::empty());
                assert(Seq::<GradeView>::empty() + spec_modules(tops_v, rv) =~= spec_modules(
                    tops_v,
                    rv,
                ));
            }
            while ti < tops.len()
                invariant
                    0 <= ti <= tops@.len(),
                    rv == row_views(rows@),
                    tops_v == spec_children(rv, "child-of-node-0"@),
                    idx_views(rv, tops@) == tops_v,
                    tops_v.len() == tops@.len(),
                    forall|k: int| 0 <= k < tops@.len() ==> tops@[k] < rows@.len(),
                    grade_views(out@) + spec_modules(tops_v.skip(ti as int), rv) == spec_modules(
                        tops_v,
                        rv,
                    ),
                decreases tops@.len() - ti,
            {
                let ghost t_v = tops_v[ti as int];
                proof {
                    assert(tops_v.skip(ti as int)[0] == t_v);
                    assert(tops_v.skip(ti as int).drop_first() =~= tops_v.skip(ti + 1));
                    assert(spec_modules(tops_v.skip(ti as int), rv) == spec_module_entry(t_v, rv)
                        + spec_modules(tops_v.skip(ti + 1), rv));
                    assert(t_v == rv[tops@[ti as int] as int]);
                    assert(rv[tops@[ti as int] as int] == rows@[tops@[ti as int] as int]@);
                }
                let t_row = &rows[tops[ti]];
                match &t_row.id {
                    Option::None => {
                        proof {
                            assert(spec_module_entry(t_v, rv) =~= Seq::<GradeView>::empty());
                            assert(grade_views(out@) + (Seq::<GradeView>::empty() + spec_modules(
                                tops_v.skip(ti + 1),
                                rv,
                            )) =~= grade_views(out@) + spec_modules(tops_v.skip(ti + 1), rv));
                        }
                    },
                    Option::Some(id) => {
                        let tok = child_token(id.as_str());
                        let ghost kids_v = spec_children(rv, spec_child_token(id@));
                        let kids = children_of(rows, tok.as_str());
                        proof {
                            assert(idx_views(rv, kids@) == kids_v);
                            assert(kids_v.len() == kids@.len());
                        }
                        if kids.len() == 0 {
                            proof {
                                assert(spec_module_entry(t_v, rv) =~= Seq::<GradeView>::empty());
                                assert(grade_views(out@) + (Seq::<GradeView>::empty()
                                    + spec_modules(tops_v.skip(ti + 1), rv)) =~= grade_views(out@)
                                    + spec_modules(tops_v.skip(ti + 1), rv));
                            }
                        } else {
                            let mut subs: Vec<CampusDualSubGrade> = Vec::new();
                            let mut ki: usize = 0;
                            proof {
                                assert(subgrade_views(subs@) =~= kids_v.take(0).map_values(
                                    |k: RowView| spec_subgrade(k),
                                ));
                            }
                            while ki < kids.len()
                                invariant
                                    0 <= ki <= kids@.len(),
                                    rv == row_views(rows@),
                                    kids_v == idx_views(rv, kids@),
                                    kids_v.len() == kids@.len(),
                                    forall|k: int| 0 <= k < kids@.len() ==> kids@[k] < rows@.len(),
                                    subgrade_views(subs@) == kids_v.take(ki as int).map_values(
                                        |k: RowView| spec_subgrade(k),
                                    ),
                                decreases kids@.len() - ki,
                            {
                                proof {
                                    assert(kids_v[ki as int] == rv[kids@[ki as int] as int]);
                                    assert(rv[kids@[ki as int] as int] == rows@[kids@[ki as int]
                                        as int]@);
                                }
                                let ghost old_subs = subgrade_views(subs@);
                                let sub = decode_subgrade(&rows[kids[ki]]);
                                subs.push(sub);
                                proof {
                                    assert(sub@ == spec_subgrade(kids_v[ki as int]));
                                    assert(subgrade_views(subs@) =~= old_subs.push(sub@));
                                    assert(old_subs.push(sub@) =~= kids_v.take(ki + 1).map_values(
                                        |k: RowView| spec_subgrade(k),
                                    ));
                                }
                                ki = ki + 1;
                            }
                            proof {
                                assert(kids_v.take(kids@.len() as int) =~= kids_v);
                            }
                            let grade = CampusDualGrade {
                                name: first_text_or(t_row, 0, "Kein Name"),
                                grade: first_text_or(t_row, 1, "?"),
                                total_passed: passed_flag(t_row, 2),
                                credit_points: credit_points_of(t_row),
                                akad_period: first_text_or(t_row, 7, "nicht vorhanden"),
                                subgrades: subs,
                            };
                            let ghost old_out = grade_views(out@);
                            out.push(grade);
                            proof {
                                assert(grade@ == spec_module_record(t_v, kids_v));
                                assert(spec_module_entry(t_v, rv) == seq![
                                    spec_module_record(t_v, kids_v),
                                ]);
                                assert(grade_views(out@) =~= old_out.push(grade@));
                                assert(old_out.push(grade@) + spec_modules(
                                    tops_v.skip(ti + 1),
                                    rv,
                                ) =~= old_out + (spec_module_entry(t_v, rv) + spec_modules(
                                    tops_v.skip(ti + 1),
                                    rv,
                                )));
                            }
                        }
                    },
                }
                ti = ti + 1;
            }
            proof {
                assert(tops_v.skip(tops@.len() as int) =~= Seq::<RowView>::empty());
                assert(grade_views(out@) + Seq::<GradeView>::empty() =~= grade_views(out@));
                assert(grade_views(out@) == spec_modules(tops_v, rv));
            }
            let ghost parts_v = spec_children(rv, "child-of-node-1000"@);
            let parts = children_of(rows, "child-of-node-1000");
            let mut pi: usize = 0;
            proof {
                assert(idx_views(rv, parts@).len() == parts@.len());
                assert(parts_v.take(0).map_values(|r: RowView| spec_partial_record(r)) =~= Seq::<
                    GradeView,
                >::empty());
                assert(grade_views(out@) + Seq::<GradeView>::empty() =~= grade_views(out@));
            }
            while pi < parts.len()
                invariant
                    0 <= pi <= parts@.len(),
                    rv == row_views(rows@),
                    parts_v == idx_views(rv, parts@),
                    parts_v.len() == parts@.len(),
                    forall|k: int| 0 <= k < parts@.len() ==> parts@[k] < rows@.len(),
                    grade_views(out@) == spec_modules(spec_children(rv, "child-of-node-0"@), rv)
                        + parts_v.take(pi as int).map_values(|r: RowView| spec_partial_record(r)),
                decreases parts@.len() - pi,
            {
                proof {
                    assert(parts_v[pi as int] == rv[parts@[pi as int] as int]);
                    assert(rv[parts@[pi as int] as int] == rows@[parts@[pi as int] as int]@);
                }
                let rec = decode_partial(&rows[parts[pi]]);
                let ghost old_out = grade_views(out@);
                out.push(rec);
                proof {
                    assert(grade_views(out@) =~= old_out.push(rec@));
                    assert(parts_v.take(pi + 1).map_values(|r: RowView| spec_partial_record(r))
                        =~= parts_v.take(pi as int).map_values(
                        |r: RowView| spec_partial_record(r),
                    ).push(spec_partial_record(parts_v[pi as int])));
                    assert(old_out.push(rec@) =~= spec_modules(
                        spec_children(rv, "child-of-node-0"@),
                        rv,
                    ) + parts_v.take(pi + 1).map_values(|r: RowView| spec_partial_record(r)));
                }
                pi = pi + 1;
            }
            proof {
                assert(parts_v.take(parts@.len() as int) =~= parts_v);
                assert(grade_views(out@) == spec_assembled(rv));
            }
            sort_grades(out)
        },
    }
}

} // verus!
