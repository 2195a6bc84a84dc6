//! Laws of the extraction engine, stated and proved over its spec model.

use vstd::prelude::*;
use crate::dates::{spec_date_key, spec_parse_date, spec_sentinel_date};
use crate::grades::{
    spec_partial_record, spec_partials,
    lemma_insert_desc_shape, lemma_insert_pos_props, spec_assembled, spec_extract_grades,
    spec_grade_key, spec_insert_desc, spec_insert_pos, spec_max_date, spec_module_entry,
    spec_modules, spec_sort_desc, spec_subgrade,
};
use crate::records::{GradeView, SubGradeView};
use crate::rows::{RowView, spec_children};
use crate::status::{ExamStatus, spec_classify_icon};
use crate::text::spec_contains;

verus! {

// ---------------------------------------------------------------------------
// Output length
// ---------------------------------------------------------------------------
/// The number of grades each list of top-level rows contributes.
pub open spec fn spec_module_count(tops: Seq<RowView>, rows: Seq<RowView>) -> int
    decreases tops.len(),
{
    if tops.len() == 0 {
        0
    } else {
        spec_module_entry(tops[0], rows).len() + spec_module_count(tops.drop_first(), rows)
    }
}

proof fn lemma_modules_len(tops: Seq<RowView>, rows: Seq<RowView>)
    ensures
        spec_modules(tops, rows).len() == spec_module_count(tops, rows),
    decreases tops.len(),
{
    if tops.len() > 0 {
        lemma_modules_len(tops.drop_first(), rows);
    }
}

proof fn lemma_insert_desc_len(g: GradeView, s: Seq<GradeView>)
    ensures
        spec_insert_desc(g, s).len() == s.len() + 1,
    decreases s.len(),
{
    if s.len() > 0 && spec_grade_key(s[0]) >= spec_grade_key(g) {
        lemma_insert_desc_len(g, s.drop_first());
    }
}

proof fn lemma_sort_desc_len(s: Seq<GradeView>)
    ensures
        spec_sort_desc(s).len() == s.len(),
    decreases s.len(),
{
    if s.len() > 0 {
        lemma_sort_desc_len(s.drop_last());
        lemma_insert_desc_len(s.last(), spec_sort_desc(s.drop_last()));
    }
}

/// For every row table, the extracted grade list is exactly as long as the
/// number of decodable top-level module rows — those with an identifier
/// and at least one attempt row — plus the number of partial-examination
/// rows.
pub proof fn lemma_extract_grades_len(rows: Seq<RowView>)
    ensures
        spec_extract_grades(rows).len() == spec_module_count(
            spec_children(rows, "child-of-node-0"@),
            rows,
        ) + spec_children(rows, "child-of-node-1000"@).len(),
{
    lemma_sort_desc_len(spec_assembled(rows));
    lemma_modules_len(spec_children(rows, "child-of-node-0"@), rows);
}

// ---------------------------------------------------------------------------
// Ordering
// ---------------------------------------------------------------------------
/// Keys never increase along the list.
pub open spec fn spec_sorted_desc(s: Seq<GradeView>) -> bool {
    forall|i: int, j: int|
        0 <= i < j < s.len() ==> spec_grade_key(s[i]) >= spec_grade_key(s[j])
}

proof fn lemma_insert_desc_sorted(g: GradeView, s: Seq<GradeView>)
    requires
        spec_sorted_desc(s),
    ensures
        spec_sorted_desc(spec_insert_desc(g, s)),
{
    lemma_insert_pos_props(g, s);
    lemma_insert_desc_shape(g, s);
    let p = spec_insert_pos(g, s);
    let r = spec_insert_desc(g, s);
    assert(r == s.take(p) + seq![g] + s.skip(p));
    assert forall|i: int, j: int|
        0 <= i < j < r.len() implies spec_grade_key(r[i]) >= spec_grade_key(r[j]) by {
        assert(r.len() == s.len() + 1);
        if i < p {
            assert(r[i] == s[i]);
        } else if i == p {
            assert(r[i] == g);
        } else {
            assert(r[i] == s[i - 1]);
        }
        if j < p {
            assert(r[j] == s[j]);
        } else if j == p {
            assert(r[j] == g);
        } else {
            assert(r[j] == s[j - 1]);
        }
        if j == p {
            assert(spec_grade_key(s[i]) >= spec_grade_key(g));
        } else if i == p {
            assert(j > p);
            assert(p < s.len());
            assert(spec_grade_key(s[p]) < spec_grade_key(g));
            if j - 1 > p {
                assert(spec_grade_key(s[p]) >= spec_grade_key(s[j - 1]));
            }
        }
    }
}

proof fn lemma_sort_desc_sorted(s: Seq<GradeView>)
    ensures
        spec_sorted_desc(spec_sort_desc(s)),
    decreases s.len(),
{
    if s.len() == 0 {
    } else {
        lemma_sort_desc_sorted(s.drop_last());
        lemma_insert_desc_sorted(s.last(), spec_sort_desc(s.drop_last()));
    }
}

/// The extracted grade list is sorted by descending newest announcement
/// date: no grade is followed by one with a strictly newer date key.
pub proof fn lemma_extract_grades_sorted(rows: Seq<RowView>)
    ensures
        spec_sorted_desc(spec_extract_grades(rows)),
{
    lemma_sort_desc_sorted(spec_assembled(rows));
}

proof fn lemma_max_date_ge(subs: Seq<SubGradeView>, k: int)
    requires
        0 <= k < subs.len(),
    ensures
        spec_date_key(spec_max_date(subs)) >= spec_date_key(
            spec_parse_date(subs[k].bekanntgabe),
        ),
    decreases subs.len(),
{
    if subs.len() > 1 {
        if k > 0 {
            lemma_max_date_ge(subs.drop_first(), k - 1);
            assert(subs.drop_first()[k - 1] == subs[k]);
        }
    }
}

proof fn lemma_max_date_all_sentinel(subs: Seq<SubGradeView>)
    requires
        forall|k: int|
            0 <= k < subs.len() ==> spec_parse_date(#[trigger] subs[k].bekanntgabe)
                == spec_sentinel_date(),
    ensures
        spec_max_date(subs) == spec_sentinel_date(),
    decreases subs.len(),
{
    if subs.len() > 1 {
        assert(forall|k: int|
            0 <= k < subs.drop_first().len() ==> spec_parse_date(
                #[trigger] subs.drop_first()[k].bekanntgabe,
            ) == spec_sentinel_date());
        lemma_max_date_all_sentinel(subs.drop_first());
    }
}

/// A grade with at least one announcement date after the sentinel epoch
/// stands before every grade whose announcement dates are all unparsable
/// (that is, all resolve to the sentinel).
pub proof fn lemma_unparsable_dates_sort_last(rows: Seq<RowView>, i: int, j: int)
    requires
        0 <= i < spec_extract_grades(rows).len(),
        0 <= j < spec_extract_grades(rows).len(),
        exists|k: int|
            0 <= k < spec_extract_grades(rows)[i].subgrades.len() && spec_date_key(
                spec_parse_date(
                    #[trigger] spec_extract_grades(rows)[i].subgrades[k].bekanntgabe,
                ),
            ) > spec_date_key(spec_sentinel_date()),
        forall|k: int|
            0 <= k < spec_extract_grades(rows)[j].subgrades.len() ==> spec_parse_date(
                #[trigger] spec_extract_grades(rows)[j].subgrades[k].bekanntgabe,
            ) == spec_sentinel_date(),
    ensures
        i < j,
{
    let out = spec_extract_grades(rows);
    let k = choose|k: int|
        0 <= k < out[i].subgrades.len() && spec_date_key(
            spec_parse_date(#[trigger] out[i].subgrades[k].bekanntgabe),
        ) > spec_date_key(spec_sentinel_date());
    lemma_max_date_ge(out[i].subgrades, k);
    lemma_max_date_all_sentinel(out[j].subgrades);
    assert(spec_grade_key(out[i]) > spec_grade_key(out[j]));
    lemma_extract_grades_sorted(rows);
    if j < i {
        assert(spec_grade_key(out[j]) >= spec_grade_key(out[i]));
        assert(false);
    }
    if i == j {
        assert(false);
    }
}

// ---------------------------------------------------------------------------
// Emitted records always carry attempts
// ---------------------------------------------------------------------------
proof fn lemma_insert_desc_elements(g: GradeView, s: Seq<GradeView>)
    ensures
        forall|k: int|
            #![trigger spec_insert_desc(g, s)[k]]
            0 <= k < spec_insert_desc(g, s).len() ==> spec_insert_desc(g, s)[k] == g || exists|
                m: int,
            | 0 <= m < s.len() && spec_insert_desc(g, s)[k] == #[trigger] s[m],
{
    lemma_insert_pos_props(g, s);
    lemma_insert_desc_shape(g, s);
    let p = spec_insert_pos(g, s);
    let r = spec_insert_desc(g, s);
    assert forall|k: int|
        0 <= k < r.len() implies r[k] == g || exists|m: int|
        0 <= m < s.len() && r[k] == s[m] by {
        assert(r.len() == s.len() + 1);
        if k < p {
            assert(r[k] == s[k]);
        } else if k == p {
            assert(r[k] == g);
        } else {
            assert(r[k] == s[k - 1]);
        }
    }
}

proof fn lemma_sort_desc_elements(s: Seq<GradeView>)
    ensures
        forall|k: int|
            #![trigger spec_sort_desc(s)[k]]
            0 <= k < spec_sort_desc(s).len() ==> exists|m: int|
                0 <= m < s.len() && spec_sort_desc(s)[k] == #[trigger] s[m],
    decreases s.len(),
{
    if s.len() > 0 {
        let t = s.drop_last();
        let sorted_t = spec_sort_desc(t);
        let r = spec_sort_desc(s);
        lemma_sort_desc_elements(t);
        lemma_insert_desc_elements(s.last(), sorted_t);
        assert forall|k: int|
            #![trigger r[k]]
            0 <= k < r.len() implies exists|m: int| 0 <= m < s.len() && r[k] == #[trigger] s[m] by {
            if r[k] == s.last() {
                assert(0 <= s.len() - 1 < s.len() && r[k] == s[s.len() - 1]);
            } else {
                let m1 = choose|m1: int| 0 <= m1 < sorted_t.len() && r[k] == sorted_t[m1];
                let m2 = choose|m2: int| 0 <= m2 < t.len() && sorted_t[m1] == t[m2];
                assert(t[m2] == s[m2]);
                assert(0 <= m2 < s.len() && r[k] == s[m2]);
            }
        }
    }
}

/// Every grade in a list has at least one subgrade.
pub open spec fn spec_all_have_attempts(gs: Seq<GradeView>) -> bool {
    forall|k: int| 0 <= k < gs.len() ==> #[trigger] gs[k].subgrades.len() > 0
}

proof fn lemma_modules_have_attempts(tops: Seq<RowView>, rows: Seq<RowView>)
    ensures
        spec_all_have_attempts(spec_modules(tops, rows)),
    decreases tops.len(),
{
    if tops.len() > 0 {
        lemma_modules_have_attempts(tops.drop_first(), rows);
        let e = spec_module_entry(tops[0], rows);
        let rest = spec_modules(tops.drop_first(), rows);
        assert forall|k: int|
            0 <= k < spec_modules(tops, rows).len() implies #[trigger] spec_modules(tops, rows)[
            k
        ].subgrades.len() > 0 by {
            if k < e.len() {
                assert(spec_modules(tops, rows)[k] == e[k]);
            } else {
                assert(spec_modules(tops, rows)[k] == rest[k - e.len()]);
            }
        }
    }
}

/// No grade record is emitted without at least one attempt: a module row
/// with no discoverable attempt rows produces nothing, and a synthesized
/// partial-examination grade carries its one copied attempt.
pub proof fn lemma_extracted_grades_have_attempts(rows: Seq<RowView>)
    ensures
        spec_all_have_attempts(spec_extract_grades(rows)),
{
    let assembled = spec_assembled(rows);
    let modules = spec_modules(spec_children(rows, "child-of-node-0"@), rows);
    let partials = spec_partials(rows);
    lemma_modules_have_attempts(spec_children(rows, "child-of-node-0"@), rows);
    assert forall|k: int|
        0 <= k < assembled.len() implies #[trigger] assembled[k].subgrades.len() > 0 by {
        if k < modules.len() {
            assert(assembled[k] == modules[k]);
        } else {
            assert(assembled[k] == partials[k - modules.len()]);
            assert(partials[k - modules.len()] == spec_partial_record(
                spec_children(rows, "child-of-node-1000"@)[k - modules.len()],
            ));
        }
    }
    lemma_sort_desc_elements(assembled);
    assert forall|k: int|
        0 <= k < spec_extract_grades(rows).len() implies #[trigger] spec_extract_grades(rows)[
        k
    ].subgrades.len() > 0 by {
        let m = choose|m: int|
            0 <= m < assembled.len() && spec_extract_grades(rows)[k] == assembled[m];
        assert(assembled[m].subgrades.len() > 0);
    }
}

// ---------------------------------------------------------------------------
// Metadata
// ---------------------------------------------------------------------------
/// A subgrade row whose score anchor lacks any one of the three metadata
/// attributes decodes with absent metadata, even where the other two are
/// present — and so does a row with no anchor at all.
pub proof fn lemma_partial_metadata_is_absent(r: RowView)
    requires
        match r.score_anchor {
            Option::None => true,
            Option::Some(a) => a.module is None || a.peryr is None || a.perid is None,
        },
    ensures
        spec_subgrade(r).internal_metadata is None,
{
}

// ---------------------------------------------------------------------------
// Skipping rows without an identifier
// ---------------------------------------------------------------------------
proof fn lemma_modules_concat(a: Seq<RowView>, b: Seq<RowView>, rows: Seq<RowView>)
    ensures
        spec_modules(a + b, rows) == spec_modules(a, rows) + spec_modules(b, rows),
    decreases a.len(),
{
    if a.len() == 0 {
        assert(a + b =~= b);
        assert(spec_modules(a, rows) + spec_modules(b, rows) =~= spec_modules(b, rows));
    } else {
        assert((a + b).drop_first() =~= a.drop_first() + b);
        assert((a + b)[0] == a[0]);
        lemma_modules_concat(a.drop_first(), b, rows);
        assert(spec_modules(a + b, rows) == spec_module_entry(a[0], rows) + (spec_modules(
            a.drop_first(),
            rows,
        ) + spec_modules(b, rows)));
        assert(spec_module_entry(a[0], rows) + (spec_modules(a.drop_first(), rows) + spec_modules(
            b,
            rows,
        )) =~= (spec_module_entry(a[0], rows) + spec_modules(a.drop_first(), rows))
            + spec_modules(b, rows));
    }
}

/// A top-level module row without an identifier contributes nothing, and
/// its presence in the top-level row list leaves every other row's
/// contribution unchanged: extraction never aborts on it.
pub proof fn lemma_idless_top_row_ignored(
    tops1: Seq<RowView>,
    x: RowView,
    tops2: Seq<RowView>,
    rows: Seq<RowView>,
)
    requires
        x.id is None,
    ensures
        spec_modules(tops1 + seq![x] + tops2, rows) == spec_modules(tops1 + tops2, rows),
{
    lemma_modules_concat(tops1 + seq![x], tops2, rows);
    lemma_modules_concat(tops1, seq![x], rows);
    lemma_modules_concat(tops1, tops2, rows);
    assert(seq![x].drop_first() =~= Seq::<RowView>::empty());
    assert(spec_modules(seq![x], rows) == spec_module_entry(x, rows) + spec_modules(
        Seq::<RowView>::empty(),
        rows,
    ));
    assert(spec_module_entry(x, rows) =~= Seq::<GradeView>::empty());
    assert(spec_modules(seq![x], rows) =~= Seq::<GradeView>::empty());
    assert(spec_modules(tops1, rows) + spec_modules(seq![x], rows) =~= spec_modules(tops1, rows));
    assert((tops1 + seq![x]) + tops2 =~= tops1 + seq![x] + tops2);
}

// ---------------------------------------------------------------------------
// Status classification
// ---------------------------------------------------------------------------
/// Classification is exhaustive over a closed set of four states, and any
/// reference that names none of the known icon files — or no reference at
/// all — is unclassified, never an error.
pub proof fn lemma_unrecognized_icon_unclassified(icon: Option<Seq<char>>)
    requires
        match icon {
            Option::None => true,
            Option::Some(s) => !spec_contains(s, "missed.png"@) && !spec_contains(
                s,
                "yellow.png"@,
            ) && !spec_contains(s, "exclamation.jpg"@),
        },
    ensures
        spec_classify_icon(icon) == ExamStatus::Unclassified,
{
}

} // verus!
