//! The flat row-table model of a portal results table, and the adjacency
//! resolver over it.
//!
//! The portal encodes a two-tier hierarchy not as nested markup but as a
//! flat list of table rows: a row carries class tokens, and the token
//! `child-of-<id>` ties it to the row whose `id` attribute is `<id>`.
//! Top-level rows carry `child-of-node-0`; flat partial-examination rows
//! carry `child-of-node-1000`.
//!
//! A [`Row`] holds, as plain values, exactly what the extraction logic reads
//! from one `<tr>` element: its `id` attribute, its class tokens, per cell
//! the rendered text nodes and the `src` of the first inline image, the text
//! nodes of the whole row in document order, the `src` of the first inline
//! image of the whole row, and the data attributes of the first score /
//! booking anchor element, where present.

use vstd::prelude::*;
use crate::text::str_views;

verus! {

/// One `<td>` cell: its text nodes in order, and the `src` attribute of its
/// first inline image (absent where there is no image or no `src`).
pub struct Cell {
    pub texts: Vec<String>,
    pub icon: Option<String>,
}

/// The three data attributes of a subgrade score anchor
/// (`data-module`, `data-peryr`, `data-perid`), each as found.
pub struct ScoreAnchor {
    pub module: Option<String>,
    pub peryr: Option<String>,
    pub perid: Option<String>,
}

/// The four data attributes of a registration booking anchor
/// (`data-evob_objid`, `data-peryr`, `data-perid`, `data-offerno`).
pub struct BookingAnchor {
    pub assessment: Option<String>,
    pub peryr: Option<String>,
    pub perid: Option<String>,
    pub offerno: Option<String>,
}

/// One table row, with everything the extractors read from it.
pub struct Row {
    pub id: Option<String>,
    pub classes: Vec<String>,
    pub cells: Vec<Cell>,
    pub texts: Vec<String>,
    pub icon: Option<String>,
    pub score_anchor: Option<ScoreAnchor>,
    pub booking_anchor: Option<BookingAnchor>,
}

/// The row list of one results table, in document order.
pub struct RowTable {
    pub rows: Vec<Row>,
}

pub struct CellView {
    pub texts: Seq<Seq<char>>,
    pub icon: Option<Seq<char>>,
}

pub struct ScoreAnchorView {
    pub module: Option<Seq<char>>,
    pub peryr: Option<Seq<char>>,
    pub perid: Option<Seq<char>>,
}

pub struct BookingAnchorView {
    pub assessment: Option<Seq<char>>,
    pub peryr: Option<Seq<char>>,
    pub perid: Option<Seq<char>>,
    pub offerno: Option<Seq<char>>,
}

pub struct RowView {
    pub id: Option<Seq<char>>,
    pub classes: Seq<Seq<char>>,
    pub cells: Seq<CellView>,
    pub texts: Seq<Seq<char>>,
    pub icon: Option<Seq<char>>,
    pub score_anchor: Option<ScoreAnchorView>,
    pub booking_anchor: Option<BookingAnchorView>,
}

/// The view of an optional string.
pub open spec fn opt_str_view(o: Option<String>) -> Option<Seq<char>> {
    match o {
        Option::None => Option::None,
        Option::Some(s) => Option::Some(s@),
    }
}

impl View for Cell {
    type V = CellView;

    open spec fn view(&self) -> CellView {
        CellView { texts: str_views(self.texts@), icon: opt_str_view(self.icon) }
    }
}

impl View for ScoreAnchor {
    type V = ScoreAnchorView;

    open spec fn view(&self) -> ScoreAnchorView {
        ScoreAnchorView {
            module: opt_str_view(self.module),
            peryr: opt_str_view(self.peryr),
            perid: opt_str_view(self.perid),
        }
    }
}

impl View for BookingAnchor {
    type V = BookingAnchorView;

    open spec fn view(&self) -> BookingAnchorView {
        BookingAnchorView {
            assessment: opt_str_view(self.assessment),
            peryr: opt_str_view(self.peryr),
            perid: opt_str_view(self.perid),
            offerno: opt_str_view(self.offerno),
        }
    }
}

impl View for Row {
    type V = RowView;

    open spec fn view(&self) -> RowView {
        RowView {
            id: opt_str_view(self.id),
            classes: str_views(self.classes@),
            cells: self.cells@.map_values(|c: Cell| c@),
            texts: str_views(self.texts@),
            icon: opt_str_view(self.icon),
            score_anchor: match self.score_anchor {
                Option::None => Option::None,
                Option::Some(a) => Option::Some(a@),
            },
            booking_anchor: match self.booking_anchor {
                Option::None => Option::None,
                Option::Some(a) => Option::Some(a@),
            },
        }
    }
}

/// The views of a sequence of rows.
pub open spec fn row_views(rs: Seq<Row>) -> Seq<RowView> {
    rs.map_values(|r: Row| r@)
}

impl View for RowTable {
    type V = Seq<RowView>;

    open spec fn view(&self) -> Seq<RowView> {
        row_views(self.rows@)
    }
}

/// The row's class attribute holds the token `tok`.
pub open spec fn spec_has_class(r: RowView, tok: Seq<char>) -> bool {
    exists|i: int| 0 <= i < r.classes.len() && r.classes[i] == tok
}

pub fn has_class(row: &Row, tok: &str) -> (b: bool)
    ensures
        b == spec_has_class(row@, tok@),
{
    let mut j: usize = 0;
    while j < row.classes.len()
        invariant
            0 <= j <= row.classes.len(),
            row@.classes.len() == row.classes@.len(),
            forall|k: int| 0 <= k < j ==> row@.classes[k] != tok@,
        decreases row.classes.len() - j,
    {
        if crate::text::str_eq(row.classes[j].as_str(), tok) {
            proof {
                assert(row@.classes[j as int] == row.classes@[j as int]@);
            }
            return true;
        }
        proof {
            assert(row@.classes[j as int] == row.classes@[j as int]@);
        }
        j = j + 1;
    }
    false
}

/// The adjacency token that ties a child row to the row whose `id` is `id`.
pub open spec fn spec_child_token(id: Seq<char>) -> Seq<char> {
    "child-of-"@ + id
}

pub fn child_token(id: &str) -> (r: String)
    ensures
        r@ == spec_child_token(id@),
{
    let mut t = String::from_str("child-of-");
    t.append(id);
    t
}

/// The rows carrying class token `tok`, in document order.
pub open spec fn spec_children(rows: Seq<RowView>, tok: Seq<char>) -> Seq<RowView>
    decreases rows.len(),
{
    if rows.len() == 0 {
        Seq::empty()
    } else if spec_has_class(rows[0], tok) {
        seq![rows[0]] + spec_children(rows.drop_first(), tok)
    } else {
        spec_children(rows.drop_first(), tok)
    }
}

/// The views of the rows selected by a list of indices.
pub open spec fn idx_views(rv: Seq<RowView>, idxs: Seq<usize>) -> Seq<RowView> {
    idxs.map_values(|i: usize| rv[i as int])
}

/// Resolve adjacency: the indices, in document order, of every row whose
/// class attribute holds `tok`.
pub fn children_of(rows: &Vec<Row>, tok: &str) -> (idxs: Vec<usize>)
    ensures
        forall|k: int| 0 <= k < idxs@.len() ==> idxs@[k] < rows@.len(),
        idx_views(row_views(rows@), idxs@) == spec_children(row_views(rows@), tok@),
{
    let ghost rv = row_views(rows@);
    let mut out: Vec<usize> = Vec::new();
    let mut i: usize = 0;
    proof {
        assert(rv.skip(0) =~= rv);
        assert(idx_views(rv, out@) =~= Seq::<RowView>::empty());
        assert(Seq::<RowView>::empty() + spec_children(rv, tok@) =~= spec_children(rv, tok@));
    }
    while i < rows.len()
        invariant
            0 <= i <= rows.len(),
            rv == row_views(rows@),
            rv.len() == rows@.len(),
            forall|k: int| 0 <= k < out@.len() ==> out@[k] < i,
            idx_views(rv, out@) + spec_children(rv.skip(i as int), tok@) == spec_children(
                rv,
                tok@,
            ),
        decreases rows.len() - i,
    {
        let ghost t = rv.skip(i as int);
        proof {
            assert(t[0] == rv[i as int]);
            assert(rv[i as int] == rows@[i as int]@);
            assert(t.drop_first() =~= rv.skip(i + 1));
        }
        if has_class(&rows[i], tok) {
            let ghost old_out = out@;
            out.push(i);
            proof {
                assert(spec_children(t, tok@) == seq![t[0]] + spec_children(
                    t.drop_first(),
                    tok@,
                ));
                assert(idx_views(rv, out@) =~= idx_views(rv, old_out).push(rv[i as int]));
                assert(idx_views(rv, old_out).push(rv[i as int]) + spec_children(
                    rv.skip(i + 1),
                    tok@,
                ) =~= idx_views(rv, old_out) + (seq![rv[i as int]] + spec_children(
                    rv.skip(i + 1),
                    tok@,
                )));
            }
        } else {
            proof {
                assert(spec_children(t, tok@) == spec_children(t.drop_first(), tok@));
            }
        }
        i = i + 1;
    }
    proof {
        assert(rv.skip(rows@.len() as int) =~= Seq::<RowView>::empty());
        assert(idx_views(rv, out@) + Seq::<RowView>::empty() =~= idx_views(rv, out@));
    }
    out
}

} // verus!
