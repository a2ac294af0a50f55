//! Geometry of the Windows candidate window. The window measures its texts
//! with GDI; everything that follows from those measures lives here: the
//! column widths and row height of the vertical list, the size of the
//! horizontal strip, the composition line, the window's preferred size and
//! where each piece of text and each filled shape is drawn.

use vstd::prelude::*;
use crate::rows::{PreeditKind, Tone};
use crate::window::{max_int, Metrics, Rect};

verus! {

/// A measured text extent in pixels.
#[derive(Clone, Copy, Debug, PartialEq, Eq, Structural)]
pub struct Extent {
    pub cx: i32,
    pub cy: i32,
}

/// A measured annotation piece of a row: its width and shade.
#[derive(Clone, Copy, Debug, PartialEq, Eq, Structural)]
pub struct Segment {
    pub width: i32,
    pub tone: Tone,
}

/// A measured segment of the composition line: its drawn width and kind.
#[derive(Clone, Copy, Debug, PartialEq, Eq, Structural)]
pub struct PreeditPiece {
    pub width: i32,
    pub kind: PreeditKind,
}

/// The measures of one candidate row.
pub struct RowExtents {
    /// Extent of the index (`1`, `2`, ...) in the index font.
    pub index: Extent,
    /// Extent of the word in the text font.
    pub text: Extent,
    /// The annotation pieces in the annotation font.
    pub annotation: Vec<Segment>,
    /// The word came from the cloud.
    pub cloud: bool,
}

/// Everything the window measured for one frame.
pub struct Measured {
    /// Spacing of the current theme.
    pub metrics: Metrics,
    /// Height of a line in the text font.
    pub text_line: i32,
    /// Height of a line in the annotation font.
    pub annotation_line: i32,
    /// The composition line's segments.
    pub preedit: Vec<PreeditPiece>,
    /// Width of the whole composition line.
    pub preedit_width: i32,
    /// Width of the composition line before the cursor.
    pub caret_offset: i32,
    /// The candidate rows.
    pub rows: Vec<RowExtents>,
    /// Highlighted row (any value past the rows means none).
    pub highlight: usize,
    /// Extent of the page footer, when there is one.
    pub footer: Option<Extent>,
    /// Candidates side by side rather than one per line.
    pub horizontal: bool,
}

/// Column widths and the common row height of the vertical list.
#[derive(Clone, Copy, Debug, PartialEq, Eq, Structural)]
pub struct Columns {
    pub index_width: i32,
    pub text_width: i32,
    pub annotation_width: i32,
    pub row_height: i32,
}

/// Total width of annotation pieces.
pub open spec fn segments_width(s: Seq<Segment>) -> int
    decreases s.len(),
{
    if s.len() == 0 {
        0
    } else {
        segments_width(s.drop_last()) + s.last().width
    }
}

/// Total drawn width of composition segments.
pub open spec fn pieces_width(s: Seq<PreeditPiece>) -> int
    decreases s.len(),
{
    if s.len() == 0 {
        0
    } else {
        pieces_width(s.drop_last()) + s.last().width
    }
}

/// Widest index (0 without rows).
pub open spec fn widest_index(rows: Seq<RowExtents>) -> int
    decreases rows.len(),
{
    if rows.len() == 0 {
        0
    } else {
        max_int(widest_index(rows.drop_last()), rows.last().index.cx as int)
    }
}

/// Widest word (0 without rows).
pub open spec fn widest_text(rows: Seq<RowExtents>) -> int
    decreases rows.len(),
{
    if rows.len() == 0 {
        0
    } else {
        max_int(widest_text(rows.drop_last()), rows.last().text.cx as int)
    }
}

/// Widest annotation (0 without rows).
pub open spec fn widest_annotation(rows: Seq<RowExtents>) -> int
    decreases rows.len(),
{
    if rows.len() == 0 {
        0
    } else {
        max_int(widest_annotation(rows.drop_last()), segments_width(rows.last().annotation@))
    }
}

/// Tallest row: word height plus padding above and below (0 without rows).
pub open spec fn tallest_row(rows: Seq<RowExtents>, row_padding: int) -> int
    decreases rows.len(),
{
    if rows.len() == 0 {
        0
    } else {
        max_int(tallest_row(rows.drop_last(), row_padding), rows.last().text.cy + row_padding * 2)
    }
}

/// Width of the candidates side by side, each `index gap word`, gaps between them excluded.
pub open spec fn items_width(rows: Seq<RowExtents>, index_gap: int) -> int
    decreases rows.len(),
{
    if rows.len() == 0 {
        0
    } else {
        items_width(rows.drop_last(), index_gap) + rows.last().index.cx + index_gap
            + rows.last().text.cx
    }
}

pub open spec fn segments_ok(s: Seq<Segment>) -> bool {
    forall|k: int| 0 <= k < s.len() ==> s[k].width >= 0
}

pub open spec fn extent_ok(e: Extent) -> bool {
    e.cx >= 0 && e.cy >= 0
}

pub open spec fn row_ok(r: RowExtents) -> bool {
    extent_ok(r.index) && extent_ok(r.text) && segments_ok(r.annotation@)
}

pub open spec fn rows_ok(rows: Seq<RowExtents>) -> bool {
    forall|k: int| 0 <= k < rows.len() ==> row_ok(#[trigger] rows[k])
}

/// Measures are sizes, so none is negative.
pub open spec fn measured_ok(m: Measured) -> bool {
    &&& m.metrics.padding >= 0
    &&& m.metrics.row_padding >= 0
    &&& m.metrics.column_gap >= 0
    &&& m.metrics.corner_radius >= 0
    &&& m.text_line >= 0
    &&& m.annotation_line >= 0
    &&& forall|k: int| 0 <= k < m.preedit@.len() ==> m.preedit@[k].width >= 0
    &&& m.preedit_width >= 0
    &&& m.caret_offset >= 0
    &&& rows_ok(m.rows@)
    &&& match m.footer {
        Some(f) => extent_ok(f),
        None => true,
    }
}

/// Thickness of the caret and of the strike-through line: an eighth of the padding, at least 1.
pub open spec fn line_weight(padding: int) -> int {
    max_int(padding / 8, 1)
}

/// Size of the composition line: nothing without segments.
pub open spec fn spec_top_size(m: Measured) -> (int, int) {
    if m.preedit@.len() == 0 {
        (0, 0)
    } else {
        (
            m.preedit_width + line_weight(m.metrics.padding as int),
            m.annotation_line + m.metrics.row_padding * 2,
        )
    }
}

/// Body size of the vertical list: `index  word  annotation` columns (the
/// annotation column only when some row has one), one row height per row,
/// and the footer below.
pub open spec fn spec_vertical_size(m: Measured) -> (int, int) {
    let rows = m.rows@;
    let gap = m.metrics.column_gap as int;
    let base = widest_index(rows) + gap + widest_text(rows);
    let width = if widest_annotation(rows) > 0 {
        base + gap + widest_annotation(rows)
    } else {
        base
    };
    let height = tallest_row(rows, m.metrics.row_padding as int) * rows.len();
    match m.footer {
        Some(f) => (max_int(width, f.cx as int), height + f.cy + m.metrics.row_padding),
        None => (width, height),
    }
}

/// The highlighted row's annotation line in the horizontal strip, if it has one.
pub open spec fn spec_highlighted_annotation(m: Measured) -> Option<(int, int)> {
    if m.highlight < m.rows@.len() && m.rows@[m.highlight as int].annotation@.len() > 0 {
        Some(
            (
                segments_width(m.rows@[m.highlight as int].annotation@),
                m.annotation_line + m.metrics.row_padding,
            ),
        )
    } else {
        None
    }
}

/// Body size of the horizontal strip: the candidates side by side with a
/// column gap between them and half the padding at both ends, the footer at
/// the right end, and the highlighted candidate's annotation on a line below.
pub open spec fn spec_horizontal_size(m: Measured) -> (int, int) {
    let rows = m.rows@;
    let gap = m.metrics.column_gap as int;
    let padding = m.metrics.padding as int;
    if rows.len() == 0 {
        (0, 0)
    } else {
        let strip = items_width(rows, gap / 2) + gap * (rows.len() - 1) + (padding / 2) * 2;
        let width = match m.footer {
            Some(f) => strip + gap + f.cx,
            None => strip,
        };
        let height = tallest_row(rows, m.metrics.row_padding as int);
        match spec_highlighted_annotation(m) {
            Some(a) => (max_int(width, a.0), height + a.1),
            None => (width, height),
        }
    }
}

pub open spec fn spec_body_size(m: Measured) -> (int, int) {
    if m.horizontal {
        spec_horizontal_size(m)
    } else {
        spec_vertical_size(m)
    }
}

/// The window's content size: the wider of the composition line and the
/// body, the two heights stacked, padding all around.
pub open spec fn spec_preferred_size(m: Measured) -> (int, int) {
    let top = spec_top_size(m);
    let body = spec_body_size(m);
    (
        max_int(top.0, body.0) + m.metrics.padding * 2,
        top.1 + body.1 + m.metrics.padding * 2,
    )
}

/// The content size fits the window system's coordinates.
pub open spec fn size_fits(m: Measured) -> bool {
    spec_preferred_size(m).0 <= i32::MAX && spec_preferred_size(m).1 <= i32::MAX
}

proof fn lemma_segments_prefix(s: Seq<Segment>, j: int)
    requires
        segments_ok(s),
        0 <= j <= s.len(),
    ensures
        0 <= segments_width(s.take(j)) <= segments_width(s),
    decreases s.len(),
{
    if s.len() > 0 {
        lemma_segments_prefix(s.drop_last(), if j < s.len() { j } else { s.len() - 1 });
        if j < s.len() {
            assert(s.drop_last().take(j) =~= s.take(j));
        } else {
            assert(s.take(j) =~= s);
            assert(s.drop_last().take(s.len() - 1) =~= s.drop_last());
        }
    } else {
        assert(s.take(j) =~= s);
    }
}

proof fn lemma_pieces_prefix(s: Seq<PreeditPiece>, j: int)
    requires
        forall|k: int| 0 <= k < s.len() ==> s[k].width >= 0,
        0 <= j <= s.len(),
    ensures
        0 <= pieces_width(s.take(j)) <= pieces_width(s),
    decreases s.len(),
{
    if s.len() > 0 {
        lemma_pieces_prefix(s.drop_last(), if j < s.len() { j } else { s.len() - 1 });
        if j < s.len() {
            assert(s.drop_last().take(j) =~= s.take(j));
        } else {
            assert(s.take(j) =~= s);
            assert(s.drop_last().take(s.len() - 1) =~= s.drop_last());
        }
    } else {
        assert(s.take(j) =~= s);
    }
}

proof fn lemma_items_prefix(rows: Seq<RowExtents>, index_gap: int, j: int)
    requires
        rows_ok(rows),
        index_gap >= 0,
        0 <= j <= rows.len(),
    ensures
        0 <= items_width(rows.take(j), index_gap) <= items_width(rows, index_gap),
    decreases rows.len(),
{
    if rows.len() > 0 {
        assert(rows_ok(rows.drop_last())) by {
            assert forall|k: int| 0 <= k < rows.drop_last().len() implies row_ok(
                #[trigger] rows.drop_last()[k],
            ) by {
                assert(rows.drop_last()[k] == rows[k]);
            }
        }
        assert(row_ok(rows[rows.len() - 1]));
        lemma_items_prefix(rows.drop_last(), index_gap, if j < rows.len() { j } else { rows.len() - 1 });
        if j < rows.len() {
            assert(rows.drop_last().take(j) =~= rows.take(j));
        } else {
            assert(rows.take(j) =~= rows);
            assert(rows.drop_last().take(rows.len() - 1) =~= rows.drop_last());
        }
    } else {
        assert(rows.take(j) =~= rows);
    }
}

proof fn lemma_widest(rows: Seq<RowExtents>, row_padding: int)
    ensures
        0 <= widest_index(rows) <= i32::MAX,
        0 <= widest_text(rows) <= i32::MAX,
        0 <= widest_annotation(rows),
        0 <= tallest_row(rows, row_padding),
        forall|k: int|
            0 <= k < rows.len() ==> {
                &&& (#[trigger] rows[k]).index.cx <= widest_index(rows)
                &&& rows[k].text.cx <= widest_text(rows)
                &&& segments_width(rows[k].annotation@) <= widest_annotation(rows)
                &&& rows[k].text.cy + row_padding * 2 <= tallest_row(rows, row_padding)
            },
    decreases rows.len(),
{
    if rows.len() > 0 {
        lemma_widest(rows.drop_last(), row_padding);
        assert forall|k: int| 0 <= k < rows.len() - 1 implies rows.drop_last()[k] == rows[k] by {}
    }
}

/// Total width of a row's annotation pieces.
pub fn annotation_width(segments: &Vec<Segment>) -> (width: i32)
    requires
        segments_ok(segments@),
        segments_width(segments@) <= i32::MAX,
    ensures
        width == segments_width(segments@),
{
    let mut width: i32 = 0;
    let mut i: usize = 0;
    while i < segments.len()
        invariant
            segments_ok(segments@),
            segments_width(segments@) <= i32::MAX,
            i <= segments.len(),
            width == segments_width(segments@.take(i as int)),
        decreases segments.len() - i,
    {
        proof {
            assert(segments@.take(i + 1).drop_last() =~= segments@.take(i as int));
            lemma_segments_prefix(segments@, i + 1);
        }
        width = width + segments[i].width;
        i = i + 1;
    }
    assert(segments@.take(segments@.len() as int) =~= segments@);
    width
}

/// Column widths (widest index, word and annotation) and the tallest row of
/// the vertical list.
pub fn columns(rows: &Vec<RowExtents>, row_padding: i32) -> (columns: Columns)
    requires
        rows_ok(rows@),
        row_padding >= 0,
        tallest_row(rows@, row_padding as int) <= i32::MAX,
        widest_annotation(rows@) <= i32::MAX,
    ensures
        columns.index_width == widest_index(rows@),
        columns.text_width == widest_text(rows@),
        columns.annotation_width == widest_annotation(rows@),
        columns.row_height == tallest_row(rows@, row_padding as int),
{
    proof {
        lemma_widest(rows@, row_padding as int);
    }
    let mut columns = Columns { index_width: 0, text_width: 0, annotation_width: 0, row_height: 0 };
    let mut i: usize = 0;
    while i < rows.len()
        invariant
            rows_ok(rows@),
            row_padding >= 0,
            tallest_row(rows@, row_padding as int) <= i32::MAX,
            widest_annotation(rows@) <= i32::MAX,
            forall|k: int|
                0 <= k < rows@.len() ==> {
                    &&& segments_width((#[trigger] rows@[k]).annotation@) <= widest_annotation(
                        rows@,
                    )
                    &&& rows@[k].text.cy + row_padding * 2 <= tallest_row(rows@, row_padding as int)
                },
            i <= rows.len(),
            columns.index_width == widest_index(rows@.take(i as int)),
            columns.text_width == widest_text(rows@.take(i as int)),
            columns.annotation_width == widest_annotation(rows@.take(i as int)),
            columns.row_height == tallest_row(rows@.take(i as int), row_padding as int),
        decreases rows.len() - i,
    {
        let row = &rows[i];
        proof {
            assert(rows@.take(i + 1).drop_last() =~= rows@.take(i as int));
            assert(row_ok(rows@[i as int]));
            assert(rows@[i as int] == *row);
        }
        let annotation = annotation_width(&row.annotation);
        let height = row.text.cy + row_padding * 2;
        if row.index.cx > columns.index_width {
            columns.index_width = row.index.cx;
        }
        if row.text.cx > columns.text_width {
            columns.text_width = row.text.cx;
        }
        if annotation > columns.annotation_width {
            columns.annotation_width = annotation;
        }
        if height > columns.row_height {
            columns.row_height = height;
        }
        i = i + 1;
    }
    assert(rows@.take(rows@.len() as int) =~= rows@);
    columns
}

proof fn lemma_sizes_nonneg(m: Measured)
    requires
        measured_ok(m),
    ensures
        spec_top_size(m).0 >= 0,
        spec_top_size(m).1 >= 0,
        spec_vertical_size(m).0 >= 0,
        spec_vertical_size(m).1 >= 0,
        spec_horizontal_size(m).0 >= 0,
        spec_horizontal_size(m).1 >= 0,
        spec_highlighted_annotation(m) matches Some(a) ==> a.0 >= 0 && a.1 >= 0,
{
    let rows = m.rows@;
    let rp = m.metrics.row_padding as int;
    lemma_widest(rows, rp);
    let t = tallest_row(rows, rp);
    assert(t * rows.len() >= 0) by (nonlinear_arith)
        requires
            t >= 0,
    ;
    lemma_items_prefix(rows, m.metrics.column_gap / 2, rows.len() as int);
    assert(rows.take(rows.len() as int) =~= rows);
    if m.highlight < rows.len() {
        assert(row_ok(rows[m.highlight as int]));
        lemma_segments_prefix(rows[m.highlight as int].annotation@, 0);
    }
    let gap = m.metrics.column_gap as int;
    if rows.len() > 0 {
        assert(gap * (rows.len() - 1) >= 0) by (nonlinear_arith)
            requires
                gap >= 0,
                rows.len() >= 1,
        ;
    }
}

/// Width of the caret and of the strike-through line.
fn line_weight_px(padding: i32) -> (weight: i32)
    requires
        padding >= 0,
    ensures
        weight == line_weight(padding as int),
{
    let eighth = padding / 8;
    if eighth > 1 {
        eighth
    } else {
        1
    }
}

/// Size of the composition line: its measured width plus the caret, one
/// annotation line high with row padding above and below; nothing when
/// there is no composition.
pub fn top_line_size(m: &Measured) -> (size: (i32, i32))
    requires
        measured_ok(*m),
        spec_top_size(*m).0 <= i32::MAX,
        spec_top_size(*m).1 <= i32::MAX,
    ensures
        (size.0 as int, size.1 as int) == spec_top_size(*m),
{
    if m.preedit.len() == 0 {
        return (0, 0);
    }
    let weight = line_weight_px(m.metrics.padding);
    (m.preedit_width + weight, m.annotation_line + m.metrics.row_padding * 2)
}

/// Body size of the vertical list (composition line and padding excluded).
pub fn vertical_size(m: &Measured) -> (size: (i32, i32))
    requires
        measured_ok(*m),
        spec_vertical_size(*m).0 <= i32::MAX,
        spec_vertical_size(*m).1 <= i32::MAX,
    ensures
        (size.0 as int, size.1 as int) == spec_vertical_size(*m),
{
    let rows = &m.rows;
    let gap = m.metrics.column_gap;
    let row_padding = m.metrics.row_padding;
    let n = rows.len();
    proof {
        lemma_widest(rows@, row_padding as int);
        let t = tallest_row(rows@, row_padding as int);
        if n > 0 {
            assert(t <= t * n) by (nonlinear_arith)
                requires
                    t >= 0,
                    n >= 1,
            ;
        }
    }
    let columns = columns(rows, row_padding);
    let mut width = columns.index_width + gap + columns.text_width;
    if columns.annotation_width > 0 {
        width = width + gap + columns.annotation_width;
    }
    let mut height: i32 = if columns.row_height == 0 {
        proof {
            let t = columns.row_height as int;
            assert(t * n == 0) by (nonlinear_arith)
                requires
                    t == 0,
            ;
        }
        0
    } else {
        proof {
            let t = columns.row_height as int;
            assert(t * n <= i32::MAX) by {
                match m.footer {
                    Some(f) => assert(extent_ok(f)),
                    None => {},
                }
            }
            assert(n <= t * n) by (nonlinear_arith)
                requires
                    t >= 1,
            ;
            assert(n as i32 == n);
        }
        columns.row_height * (n as i32)
    };
    assert(height == tallest_row(rows@, row_padding as int) * n);
    match m.footer {
        Some(f) => {
            if f.cx > width {
                width = f.cx;
            }
            height = height + f.cy + row_padding;
        },
        None => {},
    }
    (width, height)
}

/// Size of the highlighted candidate's annotation line in the horizontal
/// strip: the pieces side by side, one annotation line plus row padding
/// high; `None` when nothing is highlighted or it has no annotation.
pub fn highlighted_annotation_size(m: &Measured) -> (size: Option<(i32, i32)>)
    requires
        measured_ok(*m),
        spec_highlighted_annotation(*m) matches Some(a) ==> a.0 <= i32::MAX && a.1 <= i32::MAX,
    ensures
        spec_highlighted_annotation(*m) == (match size {
            Some(s) => Some((s.0 as int, s.1 as int)),
            None => None,
        }),
{
    if m.highlight >= m.rows.len() {
        return None;
    }
    let row = &m.rows[m.highlight];
    if row.annotation.len() == 0 {
        return None;
    }
    proof {
        assert(row_ok(m.rows@[m.highlight as int]));
    }
    let width = annotation_width(&row.annotation);
    Some((width, m.annotation_line + m.metrics.row_padding))
}

/// Body size of the horizontal strip (composition line and padding excluded).
pub fn horizontal_size(m: &Measured) -> (size: (i32, i32))
    requires
        measured_ok(*m),
        spec_horizontal_size(*m).0 <= i32::MAX,
        spec_horizontal_size(*m).1 <= i32::MAX,
    ensures
        (size.0 as int, size.1 as int) == spec_horizontal_size(*m),
{
    let rows = &m.rows;
    let n = rows.len();
    if n == 0 {
        return (0, 0);
    }
    let gap = m.metrics.column_gap;
    let row_padding = m.metrics.row_padding;
    let index_gap = gap / 2;
    let inset = m.metrics.padding / 2;
    proof {
        lemma_sizes_nonneg(*m);
        lemma_widest(rows@, row_padding as int);
        lemma_items_prefix(rows@, index_gap as int, n as int);
        assert(rows@.take(n as int) =~= rows@);
        assert((gap as int) * (n - 1) >= 0) by (nonlinear_arith)
            requires
                gap >= 0,
                n >= 1,
        ;
    }
    let mut row_height: i32 = 0;
    let mut width: i32 = 0;
    let mut i: usize = 0;
    while i < n
        invariant
            n == rows@.len(),
            rows_ok(rows@),
            index_gap >= 0,
            row_padding >= 0,
            items_width(rows@, index_gap as int) <= i32::MAX,
            tallest_row(rows@, row_padding as int) <= i32::MAX,
            forall|k: int|
                0 <= k < rows@.len() ==> (#[trigger] rows@[k]).text.cy + row_padding * 2
                    <= tallest_row(rows@, row_padding as int),
            i <= n,
            width == items_width(rows@.take(i as int), index_gap as int),
            row_height == tallest_row(rows@.take(i as int), row_padding as int),
            row_height <= tallest_row(rows@, row_padding as int),
        decreases n - i,
    {
        let row = &rows[i];
        proof {
            assert(rows@.take(i + 1).drop_last() =~= rows@.take(i as int));
            assert(row_ok(rows@[i as int]));
            lemma_items_prefix(rows@, index_gap as int, i + 1);
        }
        width = width + row.index.cx + index_gap + row.text.cx;
        let height = row.text.cy + row_padding * 2;
        if height > row_height {
            row_height = height;
        }
        i = i + 1;
    }
    proof {
        assert(rows@.take(n as int) =~= rows@);
        let strip = items_width(rows@, index_gap as int) + gap * (n - 1) + inset * 2;
        assert(strip <= i32::MAX) by {
            match m.footer {
                Some(f) => assert(extent_ok(f)),
                None => {},
            }
        }
        if gap > 0 {
            assert(n - 1 <= (gap as int) * (n - 1)) by (nonlinear_arith)
                requires
                    gap >= 1,
                    n >= 1,
            ;
            assert((n - 1) as i32 == n - 1);
        }
    }
    let between: i32 = if gap == 0 {
        proof {
            assert((gap as int) * (n - 1) == 0) by (nonlinear_arith)
                requires
                    gap == 0,
            ;
        }
        0
    } else {
        gap * ((n - 1) as i32)
    };
    assert(width == items_width(rows@, index_gap as int));
    assert(between == gap * (n - 1));
    width = width + between + inset * 2;
    assert(index_gap == gap / 2);
    assert(inset == m.metrics.padding / 2);
    match m.footer {
        Some(f) => {
            width = width + gap + f.cx;
        },
        None => {},
    }
    let mut height = row_height;
    match highlighted_annotation_size(m) {
        Some(a) => {
            if a.0 > width {
                width = a.0;
            }
            height = height + a.1;
        },
        None => {},
    }
    (width, height)
}

/// The content size of the window (shadow margin excluded).
pub fn preferred_size(m: &Measured) -> (size: (i32, i32))
    requires
        measured_ok(*m),
        size_fits(*m),
    ensures
        (size.0 as int, size.1 as int) == spec_preferred_size(*m),
{
    proof {
        lemma_sizes_nonneg(*m);
    }
    let top = top_line_size(m);
    let body = if m.horizontal {
        horizontal_size(m)
    } else {
        vertical_size(m)
    };
    let wide = if top.0 > body.0 {
        top.0
    } else {
        body.0
    };
    (wide + m.metrics.padding * 2, top.1 + body.1 + m.metrics.padding * 2)
}

/// Palette roles a piece is drawn in.
#[derive(Clone, Copy, Debug, PartialEq, Eq, Structural)]
pub enum Ink {
    Text,
    Gloss,
    Pos,
    Fresh,
    Index,
    Cloud,
}

/// A point in the window, in pixels from the content's top-left corner.
#[derive(Clone, Copy, Debug, PartialEq, Eq, Structural)]
pub struct Point {
    pub x: i32,
    pub y: i32,
}

/// Which text a stroke draws.
#[derive(Clone, Copy, Debug, PartialEq, Eq, Structural)]
pub enum Piece {
    /// Segment `k` of the composition line.
    Preedit(usize),
    /// Index of row `i`.
    Index(usize),
    /// Word of row `i`.
    Word(usize),
    /// Annotation piece `j` of row `i`.
    Annotation(usize, usize),
    /// The page footer.
    Footer,
}

/// A filled shape.
#[derive(Clone, Copy, Debug, PartialEq, Eq, Structural)]
pub enum Fill {
    /// The highlighted candidate's rounded background.
    Highlight { rect: Rect, radius: i32 },
    /// The line through corrected letters (part-of-speech color).
    Strike(Rect),
    /// The caret of the composition line (text color).
    Caret(Rect),
}

/// One drawing step, in painting order.
#[derive(Clone, Copy, Debug, PartialEq, Eq, Structural)]
pub enum Stroke {
    /// Draw a text with its top-left corner at `at`.
    Text { piece: Piece, at: Point, ink: Ink },
    Fill(Fill),
}

pub open spec fn tone_ink(tone: Tone) -> Ink {
    match tone {
        Tone::Gloss => Ink::Gloss,
        Tone::Fresh => Ink::Fresh,
        Tone::Faint => Ink::Pos,
    }
}

/// Cloud words are drawn in the cloud color.
pub open spec fn word_ink(cloud: bool) -> Ink {
    if cloud {
        Ink::Cloud
    } else {
        Ink::Text
    }
}

/// Typed letters in the gloss color, the rest and corrections lighter.
pub open spec fn preedit_ink(kind: PreeditKind) -> Ink {
    match kind {
        PreeditKind::Typed => Ink::Gloss,
        PreeditKind::Rest => Ink::Pos,
        PreeditKind::Corrected => Ink::Pos,
    }
}

/// How far small text (index, annotation) moves down so that it is
/// centered on a word of `text_height`: half the difference, never up.
pub open spec fn small_offset(text_height: int, annotation_line: int) -> int {
    if text_height > annotation_line {
        (text_height - annotation_line) / 2
    } else {
        0
    }
}

pub open spec fn text_stroke(piece: Piece, x: int, y: int, ink: Ink) -> Stroke {
    Stroke::Text { piece, at: Point { x: x as i32, y: y as i32 }, ink }
}

pub open spec fn rect_of(left: int, top: int, right: int, bottom: int) -> Rect {
    Rect { left: left as i32, top: top as i32, right: right as i32, bottom: bottom as i32 }
}

/// The annotation pieces of row `row`, side by side from `x0`.
pub open spec fn annotation_strokes(row: usize, segs: Seq<Segment>, x0: int, y: int) -> Seq<Stroke>
    decreases segs.len(),
{
    if segs.len() == 0 {
        Seq::empty()
    } else {
        annotation_strokes(row, segs.drop_last(), x0, y).push(
            text_stroke(
                Piece::Annotation(row, (segs.len() - 1) as usize),
                x0 + segments_width(segs.drop_last()),
                y,
                tone_ink(segs.last().tone),
            ),
        )
    }
}

/// The composition segments side by side from `x0`, corrected ones struck through.
pub open spec fn preedit_strokes(
    pieces: Seq<PreeditPiece>,
    x0: int,
    top: int,
    height: int,
    weight: int,
) -> Seq<Stroke>
    decreases pieces.len(),
{
    if pieces.len() == 0 {
        Seq::empty()
    } else {
        let x = x0 + pieces_width(pieces.drop_last());
        let last = pieces.last();
        let drawn = preedit_strokes(pieces.drop_last(), x0, top, height, weight).push(
            text_stroke(Piece::Preedit((pieces.len() - 1) as usize), x, top, preedit_ink(last.kind)),
        );
        if last.kind == PreeditKind::Corrected {
            drawn.push(
                Stroke::Fill(
                    Fill::Strike(
                        rect_of(x, top + height / 2, x + last.width, top + height / 2 + weight),
                    ),
                ),
            )
        } else {
            drawn
        }
    }
}

/// The composition line at `y`: its segments, then the caret after the
/// text before the cursor.
pub open spec fn spec_top_strokes(m: Measured, y: int) -> Seq<Stroke> {
    if m.preedit@.len() == 0 {
        Seq::empty()
    } else {
        let padding = m.metrics.padding as int;
        let top = y + m.metrics.row_padding;
        let height = m.annotation_line as int;
        let weight = line_weight(padding);
        let caret_x = padding + m.caret_offset;
        preedit_strokes(m.preedit@, padding, top, height, weight).push(
            Stroke::Fill(Fill::Caret(rect_of(caret_x, top, caret_x + weight, top + height))),
        )
    }
}

/// The highlight behind a row, when it is the highlighted one.
pub open spec fn highlight_strokes(m: Measured, i: int, left: int, top: int, right: int, bottom: int) -> Seq<Stroke> {
    if i == m.highlight {
        seq![
            Stroke::Fill(
                Fill::Highlight {
                    rect: rect_of(left, top, right, bottom),
                    radius: (m.metrics.corner_radius / 2) as i32,
                },
            ),
        ]
    } else {
        Seq::empty()
    }
}

/// Row `i` of the vertical list, whose top is at `top`.
pub open spec fn vertical_row_strokes(m: Measured, i: int, top: int, width: int) -> Seq<Stroke> {
    let rows = m.rows@;
    let row = rows[i];
    let padding = m.metrics.padding as int;
    let gap = m.metrics.column_gap as int;
    let height = tallest_row(rows, m.metrics.row_padding as int);
    let baseline = top + m.metrics.row_padding;
    let offset = small_offset(row.text.cy as int, m.annotation_line as int);
    let text_x = padding + widest_index(rows) + gap;
    let annotation_x = text_x + widest_text(rows) + gap;
    highlight_strokes(m, i, padding / 2, top, width - padding / 2, top + height) + seq![
        text_stroke(Piece::Index(i as usize), padding, baseline + offset, Ink::Index),
        text_stroke(Piece::Word(i as usize), text_x, baseline, word_ink(row.cloud)),
    ] + annotation_strokes(i as usize, row.annotation@, annotation_x, baseline + offset)
}

/// The first `k` rows of the vertical list, the first one's top at `y`.
pub open spec fn vertical_rows(m: Measured, k: int, y: int, width: int) -> Seq<Stroke>
    decreases k,
{
    if k <= 0 {
        Seq::empty()
    } else {
        vertical_rows(m, k - 1, y, width) + vertical_row_strokes(
            m,
            k - 1,
            y + (k - 1) * tallest_row(m.rows@, m.metrics.row_padding as int),
            width,
        )
    }
}

/// The footer at the right end, `padding` from the edge of a window `width` wide.
pub open spec fn footer_strokes(m: Measured, y: int, width: int) -> Seq<Stroke> {
    match m.footer {
        Some(f) => seq![
            text_stroke(Piece::Footer, width - m.metrics.padding - f.cx, y, Ink::Index),
        ],
        None => Seq::empty(),
    }
}

/// The vertical list below `y`: the rows, then the footer under them.
pub open spec fn spec_vertical_strokes(m: Measured, y: int, width: int) -> Seq<Stroke> {
    let n = m.rows@.len() as int;
    let height = tallest_row(m.rows@, m.metrics.row_padding as int);
    vertical_rows(m, n, y, width) + footer_strokes(m, y + n * height + m.metrics.row_padding, width)
}

/// Left edge of candidate `i` in the horizontal strip.
pub open spec fn item_x(m: Measured, i: int) -> int {
    let gap = m.metrics.column_gap as int;
    m.metrics.padding + m.metrics.padding / 2 + items_width(m.rows@.take(i), gap / 2) + gap * i
}

/// Candidate `i` of the horizontal strip whose top is at `y`.
pub open spec fn horizontal_item_strokes(m: Measured, i: int, y: int) -> Seq<Stroke> {
    let rows = m.rows@;
    let row = rows[i];
    let index_gap = m.metrics.column_gap / 2;
    let inset = m.metrics.padding / 2;
    let x = item_x(m, i);
    let item = row.index.cx + index_gap + row.text.cx;
    let baseline = y + m.metrics.row_padding;
    let offset = small_offset(row.text.cy as int, m.annotation_line as int);
    highlight_strokes(
        m,
        i,
        x - inset,
        y,
        x - inset + item + inset * 2,
        y + tallest_row(rows, m.metrics.row_padding as int),
    ) + seq![
        text_stroke(Piece::Index(i as usize), x, baseline + offset, Ink::Index),
        text_stroke(Piece::Word(i as usize), x + row.index.cx + index_gap, baseline, word_ink(row.cloud)),
    ]
}

pub open spec fn horizontal_items(m: Measured, k: int, y: int) -> Seq<Stroke>
    decreases k,
{
    if k <= 0 {
        Seq::empty()
    } else {
        horizontal_items(m, k - 1, y) + horizontal_item_strokes(m, k - 1, y)
    }
}

/// The horizontal strip below `y`: the candidates side by side, the footer at
/// the right end of their line, and the highlighted candidate's annotation
/// on a line below.
pub open spec fn spec_horizontal_strokes(m: Measured, y: int, width: int) -> Seq<Stroke> {
    let rows = m.rows@;
    let n = rows.len() as int;
    if n == 0 {
        Seq::empty()
    } else {
        let padding = m.metrics.padding as int;
        let row_padding = m.metrics.row_padding as int;
        let height = tallest_row(rows, row_padding);
        let footer_y = y + row_padding + small_offset(m.text_line as int, m.annotation_line as int);
        let annotation = if m.highlight < n {
            annotation_strokes(
                m.highlight,
                rows[m.highlight as int].annotation@,
                padding + padding / 2,
                y + height + row_padding / 2,
            )
        } else {
            Seq::empty()
        };
        horizontal_items(m, n, y) + footer_strokes(m, footer_y, width) + annotation
    }
}

/// The whole frame in a window `width` wide: the composition line under the
/// top padding, then the list or the strip below it.
pub open spec fn spec_paint(m: Measured, width: int) -> Seq<Stroke> {
    let padding = m.metrics.padding as int;
    let y = padding + spec_top_size(m).1;
    spec_top_strokes(m, padding) + if m.horizontal {
        spec_horizontal_strokes(m, y, width)
    } else {
        spec_vertical_strokes(m, y, width)
    }
}

/// Every coordinate of the painted frame fits the window system's integers.
pub open spec fn paint_fits(m: Measured, width: int) -> bool {
    let padding = m.metrics.padding as int;
    let gap = m.metrics.column_gap as int;
    let rows = m.rows@;
    &&& size_fits(m)
    &&& 0 <= width <= i32::MAX
    &&& m.preedit@.len() > 0 ==> padding + pieces_width(m.preedit@) <= i32::MAX
    &&& m.preedit@.len() > 0 ==> padding + m.caret_offset + line_weight(padding) <= i32::MAX
    &&& !m.horizontal ==> padding + widest_index(rows) + widest_text(rows) + gap * 2 <= i32::MAX
    &&& m.horizontal && rows.len() > 0 && m.footer is Some ==> padding + spec_top_size(m).1
        + m.metrics.row_padding + small_offset(m.text_line as int, m.annotation_line as int)
        <= i32::MAX
    &&& m.horizontal && rows.len() > 0 ==> item_x(m, rows.len() as int) <= i32::MAX
    &&& m.horizontal && m.highlight < rows.len() ==> padding + spec_top_size(m).1 + tallest_row(
        rows,
        m.metrics.row_padding as int,
    ) + m.metrics.row_padding / 2 <= i32::MAX
}

fn ink_of_tone(tone: Tone) -> (ink: Ink)
    ensures
        ink == tone_ink(tone),
{
    match tone {
        Tone::Gloss => Ink::Gloss,
        Tone::Fresh => Ink::Fresh,
        Tone::Faint => Ink::Pos,
    }
}

fn ink_of_word(cloud: bool) -> (ink: Ink)
    ensures
        ink == word_ink(cloud),
{
    if cloud {
        Ink::Cloud
    } else {
        Ink::Text
    }
}

fn ink_of_preedit(kind: PreeditKind) -> (ink: Ink)
    ensures
        ink == preedit_ink(kind),
{
    match kind {
        PreeditKind::Typed => Ink::Gloss,
        PreeditKind::Rest => Ink::Pos,
        PreeditKind::Corrected => Ink::Pos,
    }
}

fn small_offset_px(text_height: i32, annotation_line: i32) -> (offset: i32)
    requires
        annotation_line >= 0,
        text_height >= 0,
    ensures
        offset == small_offset(text_height as int, annotation_line as int),
        0 <= offset <= text_height / 2,
{
    if text_height > annotation_line {
        (text_height - annotation_line) / 2
    } else {
        0
    }
}

/// Appends the annotation pieces of row `row`, side by side from `x0` at height `y`.
pub fn annotation_plan(row: usize, segments: &Vec<Segment>, x0: i32, y: i32, strokes: &mut Vec<Stroke>)
    requires
        segments_ok(segments@),
        x0 + segments_width(segments@) <= i32::MAX,
    ensures
        final(strokes)@ == old(strokes)@ + annotation_strokes(row, segments@, x0 as int, y as int),
{
    let ghost start = strokes@;
    let mut x = x0;
    let mut i: usize = 0;
    while i < segments.len()
        invariant
            segments_ok(segments@),
            x0 + segments_width(segments@) <= i32::MAX,
            i <= segments.len(),
            x == x0 + segments_width(segments@.take(i as int)),
            strokes@ == start + annotation_strokes(row, segments@.take(i as int), x0 as int, y as int),
        decreases segments.len() - i,
    {
        let segment = segments[i];
        proof {
            let taken = segments@.take(i + 1);
            assert(taken.drop_last() =~= segments@.take(i as int));
            assert(taken.last() == segment);
            lemma_segments_prefix(segments@, i + 1);
            lemma_segments_prefix(segments@, i as int);
        }
        let ink = ink_of_tone(segment.tone);
        strokes.push(Stroke::Text { piece: Piece::Annotation(row, i), at: Point { x, y }, ink });
        proof {
            let taken = segments@.take(i + 1);
            assert(annotation_strokes(row, taken, x0 as int, y as int) == annotation_strokes(
                row,
                segments@.take(i as int),
                x0 as int,
                y as int,
            ).push(text_stroke(Piece::Annotation(row, i), x as int, y as int, ink)));
            assert(strokes@ =~= start + annotation_strokes(row, taken, x0 as int, y as int));
        }
        x = x + segment.width;
        i = i + 1;
    }
    assert(segments@.take(segments@.len() as int) =~= segments@);
}

/// Appends the composition line drawn at `y`: each segment in its ink,
/// corrected ones struck through at mid-height, then the caret after the
/// text before the cursor. Returns the height the line takes (nothing
/// without a composition).
pub fn top_line_plan(m: &Measured, y: i32, strokes: &mut Vec<Stroke>) -> (height: i32)
    requires
        measured_ok(*m),
        m.preedit@.len() > 0 ==> {
            let padding = m.metrics.padding as int;
            &&& 0 <= y
            &&& y + m.metrics.row_padding * 2 + m.annotation_line <= i32::MAX
            &&& y + m.metrics.row_padding + m.annotation_line / 2 + line_weight(padding) <= i32::MAX
            &&& padding + pieces_width(m.preedit@) <= i32::MAX
            &&& padding + m.caret_offset + line_weight(padding) <= i32::MAX
        },
    ensures
        final(strokes)@ == old(strokes)@ + spec_top_strokes(*m, y as int),
        height == spec_top_size(*m).1,
{
    if m.preedit.len() == 0 {
        assert(strokes@ =~= strokes@ + Seq::<Stroke>::empty());
        return 0;
    }
    let ghost start = strokes@;
    let padding = m.metrics.padding;
    let line = m.annotation_line;
    let top = y + m.metrics.row_padding;
    let weight = line_weight_px(padding);
    let pieces = &m.preedit;
    let mut x = padding;
    let mut i: usize = 0;
    while i < pieces.len()
        invariant
            measured_ok(*m),
            pieces == &m.preedit,
            0 <= y,
            top == y + m.metrics.row_padding,
            y + m.metrics.row_padding * 2 + line <= i32::MAX,
            y + m.metrics.row_padding + line / 2 + weight <= i32::MAX,
            line == m.annotation_line,
            line >= 0,
            weight == line_weight(padding as int),
            padding == m.metrics.padding,
            padding + pieces_width(pieces@) <= i32::MAX,
            i <= pieces.len(),
            x == padding + pieces_width(pieces@.take(i as int)),
            strokes@ == start + preedit_strokes(pieces@.take(i as int), padding as int, top as int, line as int, weight as int),
        decreases pieces.len() - i,
    {
        let piece = pieces[i];
        proof {
            let taken = pieces@.take(i + 1);
            assert(taken.drop_last() =~= pieces@.take(i as int));
            assert(taken.last() == piece);
            lemma_pieces_prefix(pieces@, i + 1);
            lemma_pieces_prefix(pieces@, i as int);
        }
        let ink = ink_of_preedit(piece.kind);
        strokes.push(Stroke::Text { piece: Piece::Preedit(i), at: Point { x, y: top }, ink });
        let right = x + piece.width;
        if piece.kind == PreeditKind::Corrected {
            let middle = top + line / 2;
            strokes.push(
                Stroke::Fill(Fill::Strike(Rect { left: x, top: middle, right, bottom: middle + weight })),
            );
        }
        proof {
            let taken = pieces@.take(i + 1);
            let before = preedit_strokes(pieces@.take(i as int), padding as int, top as int, line as int, weight as int);
            let drawn = before.push(text_stroke(Piece::Preedit(i), x as int, top as int, ink));
            if piece.kind == PreeditKind::Corrected {
                assert(strokes@ =~= start + drawn.push(
                    Stroke::Fill(
                        Fill::Strike(
                            rect_of(x as int, top + line / 2, x + piece.width, top + line / 2 + weight),
                        ),
                    ),
                ));
            } else {
                assert(strokes@ =~= start + drawn);
            }
        }
        x = right;
        i = i + 1;
    }
    proof {
        assert(pieces@.take(pieces@.len() as int) =~= pieces@);
    }
    let caret_x = padding + m.caret_offset;
    strokes.push(
        Stroke::Fill(Fill::Caret(Rect { left: caret_x, top, right: caret_x + weight, bottom: top + line })),
    );
    assert(strokes@ =~= start + spec_top_strokes(*m, y as int));
    line + m.metrics.row_padding * 2
}

proof fn lemma_row_tops(i: int, n: int, t: int)
    requires
        0 <= i < n,
        t >= 0,
    ensures
        (i + 1) * t == i * t + t,
        (i + 1) * t <= n * t,
        n * t == t * n,
        0 <= i * t,
{
    assert(n * t == t * n) by (nonlinear_arith);
    assert((i + 1) * t == i * t + t) by (nonlinear_arith);
    assert((i + 1) * t <= n * t) by (nonlinear_arith)
        requires
            i + 1 <= n,
            t >= 0,
    ;
    assert(0 <= i * t) by (nonlinear_arith)
        requires
            i >= 0,
            t >= 0,
    ;
}

/// Appends the vertical list drawn below `y` in a window `width` wide: per
/// row the highlight (for the highlighted one), the index, the word and the
/// annotation in their columns, then the footer at the right under the rows.
pub fn vertical_plan(m: &Measured, y: i32, width: i32, strokes: &mut Vec<Stroke>)
    requires
        measured_ok(*m),
        0 <= y,
        0 <= width,
        y + spec_vertical_size(*m).1 <= i32::MAX,
        m.metrics.padding * 2 + spec_vertical_size(*m).0 <= i32::MAX,
        m.metrics.padding + widest_index(m.rows@) + widest_text(m.rows@) + m.metrics.column_gap * 2
            <= i32::MAX,
    ensures
        final(strokes)@ == old(strokes)@ + spec_vertical_strokes(*m, y as int, width as int),
{
    let ghost start = strokes@;
    let rows = &m.rows;
    let n = rows.len();
    let padding = m.metrics.padding;
    let row_padding = m.metrics.row_padding;
    let gap = m.metrics.column_gap;
    let line = m.annotation_line;
    proof {
        lemma_widest(rows@, row_padding as int);
        lemma_sizes_nonneg(*m);
        let t = tallest_row(rows@, row_padding as int);
        if n > 0 {
            lemma_row_tops(0, n as int, t);
            assert(t <= t * n) by (nonlinear_arith)
                requires
                    t >= 0,
                    n >= 1,
            ;
        }
        assert(t * n >= 0) by (nonlinear_arith)
            requires
                t >= 0,
                n >= 0,
        ;
        match m.footer {
            Some(f) => assert(extent_ok(f)),
            None => {},
        }
    }
    let columns = columns(rows, row_padding);
    let text_x = padding + columns.index_width + gap;
    let annotation_x = text_x + columns.text_width + gap;
    let radius = m.metrics.corner_radius / 2;
    let mut top = y;
    let mut i: usize = 0;
    while i < n
        invariant
            measured_ok(*m),
            rows == &m.rows,
            n == rows@.len(),
            padding == m.metrics.padding,
            row_padding == m.metrics.row_padding,
            gap == m.metrics.column_gap,
            line == m.annotation_line,
            radius == m.metrics.corner_radius / 2,
            0 <= y,
            0 <= width,
            columns.index_width == widest_index(rows@),
            columns.text_width == widest_text(rows@),
            columns.annotation_width == widest_annotation(rows@),
            columns.row_height == tallest_row(rows@, row_padding as int),
            text_x == padding + widest_index(rows@) + gap,
            annotation_x == text_x + widest_text(rows@) + gap,
            y + columns.row_height * n <= i32::MAX,
            padding * 2 + spec_vertical_size(*m).0 <= i32::MAX,
            forall|k: int|
                0 <= k < rows@.len() ==> {
                    &&& segments_width((#[trigger] rows@[k]).annotation@) <= widest_annotation(
                        rows@,
                    )
                    &&& rows@[k].text.cy + row_padding * 2 <= tallest_row(rows@, row_padding as int)
                },
            i <= n,
            top == y + i * columns.row_height,
            strokes@ == start + vertical_rows(*m, i as int, y as int, width as int),
        decreases n - i,
    {
        let row = &rows[i];
        let height = columns.row_height;
        proof {
            lemma_row_tops(i as int, n as int, height as int);
            assert(row_ok(rows@[i as int]));
            assert(rows@[i as int] == *row);
            if widest_annotation(rows@) > 0 {
                assert(padding + spec_vertical_size(*m).0 >= annotation_x + widest_annotation(rows@));
            }
        }
        let ghost before = strokes@;
        if i == m.highlight {
            strokes.push(
                Stroke::Fill(
                    Fill::Highlight {
                        rect: Rect {
                            left: padding / 2,
                            top,
                            right: width - padding / 2,
                            bottom: top + height,
                        },
                        radius,
                    },
                ),
            );
        }
        let baseline = top + row_padding;
        let offset = small_offset_px(row.text.cy, line);
        strokes.push(
            Stroke::Text {
                piece: Piece::Index(i),
                at: Point { x: padding, y: baseline + offset },
                ink: Ink::Index,
            },
        );
        let ink = ink_of_word(row.cloud);
        strokes.push(Stroke::Text { piece: Piece::Word(i), at: Point { x: text_x, y: baseline }, ink });
        annotation_plan(i, &row.annotation, annotation_x, baseline + offset, strokes);
        proof {
            let row_strokes = vertical_row_strokes(*m, i as int, top as int, width as int);
            assert(strokes@ =~= before + row_strokes);
            assert(vertical_rows(*m, i + 1, y as int, width as int) == vertical_rows(
                *m,
                i as int,
                y as int,
                width as int,
            ) + row_strokes);
            assert(strokes@ =~= start + vertical_rows(*m, i + 1, y as int, width as int));
        }
        top = top + height;
        i = i + 1;
    }
    match m.footer {
        Some(f) => {
            let ghost before = strokes@;
            strokes.push(
                Stroke::Text {
                    piece: Piece::Footer,
                    at: Point { x: width - padding - f.cx, y: top + row_padding },
                    ink: Ink::Index,
                },
            );
            assert(strokes@ =~= before + footer_strokes(
                *m,
                y + n * columns.row_height + row_padding,
                width as int,
            ));
        },
        None => {},
    }
    assert(strokes@ =~= start + spec_vertical_strokes(*m, y as int, width as int));
}

proof fn lemma_gap_steps(i: int, n: int, g: int)
    requires
        0 <= i < n,
        g >= 0,
    ensures
        g * (i + 1) == g * i + g,
        g * i <= g * (n - 1),
        g * (i + 1) <= g * n,
        0 <= g * i,
{
    assert(g * (i + 1) == g * i + g) by (nonlinear_arith);
    assert(g * i <= g * (n - 1)) by (nonlinear_arith)
        requires
            i <= n - 1,
            g >= 0,
    ;
    assert(g * (i + 1) <= g * n) by (nonlinear_arith)
        requires
            i + 1 <= n,
            g >= 0,
    ;
    assert(0 <= g * i) by (nonlinear_arith)
        requires
            i >= 0,
            g >= 0,
    ;
}

/// The tallest row: word height plus row padding above and below.
fn tallest(rows: &Vec<RowExtents>, row_padding: i32) -> (height: i32)
    requires
        rows_ok(rows@),
        row_padding >= 0,
        tallest_row(rows@, row_padding as int) <= i32::MAX,
    ensures
        height == tallest_row(rows@, row_padding as int),
{
    proof {
        lemma_widest(rows@, row_padding as int);
    }
    let mut height: i32 = 0;
    let mut i: usize = 0;
    while i < rows.len()
        invariant
            rows_ok(rows@),
            row_padding >= 0,
            forall|k: int|
                0 <= k < rows@.len() ==> (#[trigger] rows@[k]).text.cy + row_padding * 2
                    <= tallest_row(rows@, row_padding as int),
            tallest_row(rows@, row_padding as int) <= i32::MAX,
            i <= rows.len(),
            height == tallest_row(rows@.take(i as int), row_padding as int),
        decreases rows.len() - i,
    {
        proof {
            assert(rows@.take(i + 1).drop_last() =~= rows@.take(i as int));
            assert(row_ok(rows@[i as int]));
        }
        let h = rows[i].text.cy + row_padding * 2;
        if h > height {
            height = h;
        }
        i = i + 1;
    }
    assert(rows@.take(rows@.len() as int) =~= rows@);
    height
}

/// Appends the horizontal strip drawn below `y` in a window `width` wide:
/// per candidate the highlight (for the highlighted one), the index and the
/// word, side by side with a column gap between candidates; the footer at
/// the right end of that line; then the highlighted candidate's annotation
/// on a line below.
pub fn horizontal_plan(m: &Measured, y: i32, width: i32, strokes: &mut Vec<Stroke>)
    requires
        measured_ok(*m),
        0 <= y,
        0 <= width,
        y + spec_horizontal_size(*m).1 <= i32::MAX,
        m.metrics.padding * 2 + spec_horizontal_size(*m).0 <= i32::MAX,
        m.rows@.len() > 0 ==> item_x(*m, m.rows@.len() as int) <= i32::MAX,
        m.rows@.len() > 0 && m.footer is Some ==> y + m.metrics.row_padding + small_offset(
            m.text_line as int,
            m.annotation_line as int,
        ) <= i32::MAX,
        m.highlight < m.rows@.len() ==> y + tallest_row(m.rows@, m.metrics.row_padding as int)
            + m.metrics.row_padding / 2 <= i32::MAX,
    ensures
        final(strokes)@ == old(strokes)@ + spec_horizontal_strokes(*m, y as int, width as int),
{
    let ghost start = strokes@;
    let rows = &m.rows;
    let n = rows.len();
    if n == 0 {
        assert(strokes@ =~= start + spec_horizontal_strokes(*m, y as int, width as int));
        return;
    }
    let padding = m.metrics.padding;
    let row_padding = m.metrics.row_padding;
    let gap = m.metrics.column_gap;
    let line = m.annotation_line;
    let index_gap = gap / 2;
    let inset = padding / 2;
    let radius = m.metrics.corner_radius / 2;
    proof {
        lemma_widest(rows@, row_padding as int);
        lemma_sizes_nonneg(*m);
        lemma_items_prefix(rows@, index_gap as int, n as int);
        assert(rows@.take(n as int) =~= rows@);
        match m.footer {
            Some(f) => assert(extent_ok(f)),
            None => {},
        }
        lemma_gap_steps(0, n as int, gap as int);
    }
    let row_height = tallest(rows, row_padding);
    let baseline = y + row_padding;
    let mut x = padding + inset;
    let mut i: usize = 0;
    assert(rows@.take(0) =~= Seq::<RowExtents>::empty());
    while i < n
        invariant
            measured_ok(*m),
            rows == &m.rows,
            n == rows@.len(),
            n > 0,
            padding == m.metrics.padding,
            row_padding == m.metrics.row_padding,
            gap == m.metrics.column_gap,
            line == m.annotation_line,
            index_gap == gap / 2,
            inset == padding / 2,
            radius == m.metrics.corner_radius / 2,
            0 <= y,
            0 <= width,
            baseline == y + row_padding,
            row_height == tallest_row(rows@, row_padding as int),
            y + row_height <= i32::MAX,
            padding * 2 + spec_horizontal_size(*m).0 <= i32::MAX,
            padding + items_width(rows@, index_gap as int) + gap * (n - 1) + inset * 2 <= padding
                + spec_horizontal_size(*m).0,
            item_x(*m, n as int) <= i32::MAX,
            forall|k: int|
                0 <= k < rows@.len() ==> (#[trigger] rows@[k]).text.cy + row_padding * 2
                    <= tallest_row(rows@, row_padding as int),
            i <= n,
            x == item_x(*m, i as int),
            strokes@ == start + horizontal_items(*m, i as int, y as int),
        decreases n - i,
    {
        let row = &rows[i];
        proof {
            assert(row_ok(rows@[i as int]));
            assert(rows@[i as int] == *row);
            assert(rows@.take(i + 1).drop_last() =~= rows@.take(i as int));
            lemma_items_prefix(rows@, index_gap as int, i + 1);
            lemma_items_prefix(rows@, index_gap as int, i as int);
            lemma_gap_steps(i as int, n as int, gap as int);
            assert(rows@.take(n as int) =~= rows@);
            assert(rows@.take(i + 1).last() == rows@[i as int]);
            assert(items_width(rows@.take(i + 1), index_gap as int) == items_width(
                rows@.take(i as int),
                index_gap as int,
            ) + rows@[i as int].index.cx + index_gap + rows@[i as int].text.cx);
        }
        let index_width = row.index.cx;
        let item = index_width + index_gap + row.text.cx;
        let ghost before = strokes@;
        if i == m.highlight {
            strokes.push(
                Stroke::Fill(
                    Fill::Highlight {
                        rect: Rect {
                            left: x - inset,
                            top: y,
                            right: x - inset + item + inset * 2,
                            bottom: y + row_height,
                        },
                        radius,
                    },
                ),
            );
        }
        let offset = small_offset_px(row.text.cy, line);
        strokes.push(
            Stroke::Text { piece: Piece::Index(i), at: Point { x, y: baseline + offset }, ink: Ink::Index },
        );
        let ink = ink_of_word(row.cloud);
        strokes.push(
            Stroke::Text {
                piece: Piece::Word(i),
                at: Point { x: x + index_width + index_gap, y: baseline },
                ink,
            },
        );
        proof {
            let item_strokes = horizontal_item_strokes(*m, i as int, y as int);
            assert(strokes@ =~= before + item_strokes);
            assert(horizontal_items(*m, i + 1, y as int) == horizontal_items(*m, i as int, y as int)
                + item_strokes);
            assert(strokes@ =~= start + horizontal_items(*m, i + 1, y as int));
        }
        x = x + item + gap;
        i = i + 1;
    }
    match m.footer {
        Some(f) => {
            let ghost before = strokes@;
            let offset = small_offset_px(m.text_line, line);
            strokes.push(
                Stroke::Text {
                    piece: Piece::Footer,
                    at: Point { x: width - padding - f.cx, y: baseline + offset },
                    ink: Ink::Index,
                },
            );
            assert(strokes@ =~= before + footer_strokes(
                *m,
                y + row_padding + small_offset(m.text_line as int, line as int),
                width as int,
            ));
        },
        None => {},
    }
    let ghost before_annotation = strokes@;
    if m.highlight < n {
        let row = &rows[m.highlight];
        proof {
            assert(row_ok(rows@[m.highlight as int]));
            assert(rows@[m.highlight as int] == *row);
            lemma_segments_prefix(row.annotation@, 0);
            if row.annotation@.len() == 0 {
                assert(row.annotation@ =~= Seq::<Segment>::empty());
            }
        }
        annotation_plan(m.highlight, &row.annotation, padding + inset, y + row_height + row_padding / 2, strokes);
    }
    assert(strokes@ =~= start + spec_horizontal_strokes(*m, y as int, width as int));
}

/// The strokes of a whole frame in a window `width` wide, in painting order:
/// the composition line below the top padding, then the vertical list or
/// the horizontal strip below it.
pub fn paint_plan(m: &Measured, width: i32) -> (strokes: Vec<Stroke>)
    requires
        measured_ok(*m),
        paint_fits(*m, width as int),
    ensures
        strokes@ == spec_paint(*m, width as int),
{
    let mut strokes: Vec<Stroke> = Vec::new();
    let padding = m.metrics.padding;
    proof {
        lemma_sizes_nonneg(*m);
        let p = padding as int;
        let rp = m.metrics.row_padding as int;
        let line = m.annotation_line as int;
        if m.preedit@.len() > 0 {
            assert(p + rp + line / 2 + line_weight(p) <= i32::MAX) by {
                assert(p * 2 + rp * 2 + line <= i32::MAX);
                if p >= 8 {
                    assert(line_weight(p) <= p);
                } else {
                    assert(line_weight(p) == 1);
                }
            }
        }
    }
    let height = top_line_plan(m, padding, &mut strokes);
    let y = padding + height;
    if m.horizontal {
        horizontal_plan(m, y, width, &mut strokes);
    } else {
        vertical_plan(m, y, width, &mut strokes);
    }
    strokes
}

/// Whether all measures are sizes (none negative).
pub fn measures_ok(m: &Measured) -> (ok: bool)
    ensures
        ok == measured_ok(*m),
{
    if m.metrics.padding < 0 || m.metrics.row_padding < 0 || m.metrics.column_gap < 0
        || m.metrics.corner_radius < 0 || m.text_line < 0 || m.annotation_line < 0
        || m.preedit_width < 0 || m.caret_offset < 0 {
        return false;
    }
    match m.footer {
        Some(f) => if f.cx < 0 || f.cy < 0 {
            return false;
        },
        None => {},
    }
    let mut i: usize = 0;
    while i < m.preedit.len()
        invariant
            i <= m.preedit@.len(),
            forall|k: int| 0 <= k < i ==> m.preedit@[k].width >= 0,
        decreases m.preedit.len() - i,
    {
        if m.preedit[i].width < 0 {
            return false;
        }
        i = i + 1;
    }
    let mut r: usize = 0;
    while r < m.rows.len()
        invariant
            r <= m.rows@.len(),
            forall|k: int| 0 <= k < r ==> row_ok(#[trigger] m.rows@[k]),
        decreases m.rows.len() - r,
    {
        let row = &m.rows[r];
        assert(m.rows@[r as int] == *row);
        if row.index.cx < 0 || row.index.cy < 0 || row.text.cx < 0 || row.text.cy < 0 {
            return false;
        }
        let mut j: usize = 0;
        while j < row.annotation.len()
            invariant
                r < m.rows@.len(),
                m.rows@[r as int] == *row,
                forall|k: int| 0 <= k < r ==> row_ok(#[trigger] m.rows@[k]),
                extent_ok(row.index) && extent_ok(row.text),
                j <= row.annotation@.len(),
                forall|k: int| 0 <= k < j ==> row.annotation@[k].width >= 0,
            decreases row.annotation.len() - j,
        {
            if row.annotation[j].width < 0 {
                assert(!row_ok(m.rows@[r as int]));
                return false;
            }
            j = j + 1;
        }
        assert(row_ok(m.rows@[r as int]));
        r = r + 1;
    }
    true
}

/// Bound on any single measure.
pub open spec fn measure_bound() -> int {
    0x1_0000_0000
}

/// The total width of annotation pieces, exactly.
fn annotation_total(segments: &Vec<Segment>) -> (sum: i128)
    requires
        segments_ok(segments@),
    ensures
        sum == segments_width(segments@),
        0 <= sum <= measure_bound() * measure_bound() * measure_bound(),
{
    let mut sum: i128 = 0;
    let mut j: usize = 0;
    while j < segments.len()
        invariant
            segments_ok(segments@),
            j <= segments@.len(),
            sum == segments_width(segments@.take(j as int)),
            0 <= sum <= j * measure_bound(),
        decreases segments.len() - j,
    {
        proof {
            assert(segments@.take(j + 1).drop_last() =~= segments@.take(j as int));
        }
        sum = sum + segments[j].width as i128;
        j = j + 1;
    }
    proof {
        assert(segments@.take(segments@.len() as int) =~= segments@);
        let len = segments@.len() as int;
        let b = measure_bound();
        assert(sum <= b * b * b) by (nonlinear_arith)
            requires
                sum <= len * b,
                0 <= len < b * b,
                b > 0,
        ;
    }
    sum
}

/// Column measures, the strip's items and the composition's drawn width, exactly.
fn totals(m: &Measured) -> (t: (i128, i128, i128, i128, i128, i128))
    requires
        measured_ok(*m),
    ensures
        t.0 == widest_index(m.rows@),
        t.1 == widest_text(m.rows@),
        t.2 == widest_annotation(m.rows@),
        t.3 == tallest_row(m.rows@, m.metrics.row_padding as int),
        t.4 == items_width(m.rows@, m.metrics.column_gap / 2),
        t.5 == pieces_width(m.preedit@),
        0 <= t.0 < measure_bound(),
        0 <= t.1 < measure_bound(),
        0 <= t.2 <= measure_bound() * measure_bound() * measure_bound(),
        0 <= t.3 < 4 * measure_bound(),
        0 <= t.4 <= 3 * measure_bound() * measure_bound() * measure_bound(),
        0 <= t.5 <= measure_bound() * measure_bound() * measure_bound(),
{
    let rows = &m.rows;
    let rp = m.metrics.row_padding as i128;
    let index_gap = (m.metrics.column_gap / 2) as i128;
    proof {
        lemma_widest(rows@, rp as int);
    }
    let mut wi: i128 = 0;
    let mut wt: i128 = 0;
    let mut wa: i128 = 0;
    let mut th: i128 = 0;
    let mut items: i128 = 0;
    let mut i: usize = 0;
    while i < rows.len()
        invariant
            measured_ok(*m),
            rows == &m.rows,
            rp == m.metrics.row_padding,
            index_gap == m.metrics.column_gap / 2,
            0 <= index_gap < measure_bound(),
            0 <= rp < measure_bound(),
            i <= rows@.len(),
            wi == widest_index(rows@.take(i as int)),
            wt == widest_text(rows@.take(i as int)),
            wa == widest_annotation(rows@.take(i as int)),
            th == tallest_row(rows@.take(i as int), rp as int),
            items == items_width(rows@.take(i as int), index_gap as int),
            0 <= wi < measure_bound(),
            0 <= wt < measure_bound(),
            0 <= wa <= measure_bound() * measure_bound() * measure_bound(),
            0 <= th < 4 * measure_bound(),
            0 <= items <= i * 3 * measure_bound(),
        decreases rows.len() - i,
    {
        let row = &rows[i];
        proof {
            assert(rows@.take(i + 1).drop_last() =~= rows@.take(i as int));
            assert(row_ok(rows@[i as int]));
            assert(rows@[i as int] == *row);
        }
        let sum = annotation_total(&row.annotation);
        if row.index.cx as i128 > wi {
            wi = row.index.cx as i128;
        }
        if row.text.cx as i128 > wt {
            wt = row.text.cx as i128;
        }
        if sum > wa {
            wa = sum;
        }
        let h = row.text.cy as i128 + rp * 2;
        if h > th {
            th = h;
        }
        items = items + row.index.cx as i128 + index_gap + row.text.cx as i128;
        i = i + 1;
    }
    assert(rows@.take(rows@.len() as int) =~= rows@);
    let mut pieces: i128 = 0;
    let mut k: usize = 0;
    while k < m.preedit.len()
        invariant
            measured_ok(*m),
            k <= m.preedit@.len(),
            pieces == pieces_width(m.preedit@.take(k as int)),
            0 <= pieces <= k * measure_bound(),
        decreases m.preedit.len() - k,
    {
        proof {
            assert(m.preedit@.take(k + 1).drop_last() =~= m.preedit@.take(k as int));
        }
        pieces = pieces + m.preedit[k].width as i128;
        k = k + 1;
    }
    assert(m.preedit@.take(m.preedit@.len() as int) =~= m.preedit@);
    proof {
        let b = measure_bound();
        let n = rows@.len() as int;
        let len = m.preedit@.len() as int;
        assert(items <= 3 * b * b * b) by (nonlinear_arith)
            requires
                items <= n * 3 * b,
                0 <= n < b * b,
                b > 0,
        ;
        assert(pieces <= b * b * b) by (nonlinear_arith)
            requires
                pieces <= len * b,
                0 <= len < b * b,
                b > 0,
        ;
    }
    (wi, wt, wa, th, items, pieces)
}

/// The totals `totals` computes, as they must be.
pub open spec fn totals_of(m: Measured, t: (i128, i128, i128, i128, i128, i128)) -> bool {
    &&& t.0 == widest_index(m.rows@)
    &&& t.1 == widest_text(m.rows@)
    &&& t.2 == widest_annotation(m.rows@)
    &&& t.3 == tallest_row(m.rows@, m.metrics.row_padding as int)
    &&& t.4 == items_width(m.rows@, m.metrics.column_gap / 2)
    &&& t.5 == pieces_width(m.preedit@)
    &&& 0 <= t.0 < measure_bound()
    &&& 0 <= t.1 < measure_bound()
    &&& 0 <= t.2 <= measure_bound() * measure_bound() * measure_bound()
    &&& 0 <= t.3 < 4 * measure_bound()
    &&& 0 <= t.4 <= 3 * measure_bound() * measure_bound() * measure_bound()
    &&& 0 <= t.5 <= measure_bound() * measure_bound() * measure_bound()
}

fn top_size_exact(m: &Measured) -> (size: (i128, i128))
    requires
        measured_ok(*m),
    ensures
        size.0 == spec_top_size(*m).0,
        size.1 == spec_top_size(*m).1,
{
    let p = m.metrics.padding as i128;
    let weight: i128 = if p / 8 > 1 {
        p / 8
    } else {
        1
    };
    if m.preedit.len() > 0 {
        (m.preedit_width as i128 + weight, m.annotation_line as i128 + m.metrics.row_padding as i128 * 2)
    } else {
        (0, 0)
    }
}

fn vertical_size_exact(m: &Measured, t: (i128, i128, i128, i128, i128, i128)) -> (size: (i128, i128))
    requires
        measured_ok(*m),
        totals_of(*m, t),
    ensures
        size.0 == spec_vertical_size(*m).0,
        size.1 == spec_vertical_size(*m).1,
        0 <= size.0 <= 4 * measure_bound() * measure_bound() * measure_bound(),
        0 <= size.1 <= 8 * measure_bound() * measure_bound() * measure_bound(),
{
    let b: i128 = 0x1_0000_0000;
    let gap = m.metrics.column_gap as i128;
    let rp = m.metrics.row_padding as i128;
    let n = m.rows.len() as i128;
    proof {
        assert(n < b * b);
        assert(0 <= t.3 * n < 4 * b * b * b) by (nonlinear_arith)
            requires
                0 <= t.3 < 4 * b,
                0 <= n < b * b,
                b > 0,
        ;
    }
    let base = t.0 + gap + t.1;
    let mut width = if t.2 > 0 {
        base + gap + t.2
    } else {
        base
    };
    let mut height = t.3 * n;
    match m.footer {
        Some(f) => {
            if f.cx as i128 > width {
                width = f.cx as i128;
            }
            height = height + f.cy as i128 + rp;
        },
        None => {},
    }
    (width, height)
}

fn horizontal_size_exact(m: &Measured, t: (i128, i128, i128, i128, i128, i128)) -> (size: (
    i128,
    i128,
))
    requires
        measured_ok(*m),
        totals_of(*m, t),
    ensures
        size.0 == spec_horizontal_size(*m).0,
        size.1 == spec_horizontal_size(*m).1,
        0 <= size.0 <= 8 * measure_bound() * measure_bound() * measure_bound(),
        0 <= size.1 <= 8 * measure_bound(),
{
    let b: i128 = 0x1_0000_0000;
    let n = m.rows.len() as i128;
    if n == 0 {
        return (0, 0);
    }
    let gap = m.metrics.column_gap as i128;
    let p = m.metrics.padding as i128;
    let rp = m.metrics.row_padding as i128;
    proof {
        assert(n < b * b);
        assert(0 <= gap * (n - 1) < b * b * b) by (nonlinear_arith)
            requires
                0 <= gap < b,
                1 <= n < b * b,
                b > 0,
        ;
    }
    let mut width = t.4 + gap * (n - 1) + (p / 2) * 2;
    match m.footer {
        Some(f) => {
            width = width + gap + f.cx as i128;
        },
        None => {},
    }
    let mut height = t.3;
    if m.highlight < m.rows.len() && m.rows[m.highlight].annotation.len() > 0 {
        proof {
            assert(row_ok(m.rows@[m.highlight as int]));
        }
        let annotation = annotation_total(&m.rows[m.highlight].annotation);
        if annotation > width {
            width = annotation;
        }
        height = height + m.annotation_line as i128 + rp;
    }
    (width, height)
}

/// Whether a frame can be laid out and painted in a window `width` wide:
/// the measures are sizes and every coordinate of the painting fits.
pub fn can_paint(m: &Measured, width: i32) -> (ok: bool)
    ensures
        ok == (measured_ok(*m) && paint_fits(*m, width as int)),
{
    if !measures_ok(m) {
        return false;
    }
    let t = totals(m);
    let max = i32::MAX as i128;
    let p = m.metrics.padding as i128;
    let top = top_size_exact(m);
    let body = if m.horizontal {
        horizontal_size_exact(m, t)
    } else {
        vertical_size_exact(m, t)
    };
    let wide = if top.0 > body.0 {
        top.0
    } else {
        body.0
    };
    if wide + p * 2 > max || top.1 + body.1 + p * 2 > max {
        return false;
    }
    assert(size_fits(*m));
    if width < 0 {
        return false;
    }
    let weight: i128 = if p / 8 > 1 {
        p / 8
    } else {
        1
    };
    if m.preedit.len() > 0 && (p + t.5 > max || p + m.caret_offset as i128 + weight > max) {
        return false;
    }
    let gap = m.metrics.column_gap as i128;
    if !m.horizontal && p + t.0 + t.1 + gap * 2 > max {
        return false;
    }
    horizontal_fits(m, t, top.1)
}

fn horizontal_fits(m: &Measured, t: (i128, i128, i128, i128, i128, i128), top_height: i128) -> (ok:
    bool)
    requires
        measured_ok(*m),
        totals_of(*m, t),
        top_height == spec_top_size(*m).1,
        0 <= top_height <= 4 * measure_bound(),
    ensures
        ok == ({
            let padding = m.metrics.padding as int;
            let rows = m.rows@;
            &&& m.horizontal && rows.len() > 0 && m.footer is Some ==> padding + spec_top_size(*m).1
                + m.metrics.row_padding + small_offset(m.text_line as int, m.annotation_line as int)
                <= i32::MAX
            &&& m.horizontal && rows.len() > 0 ==> item_x(*m, rows.len() as int) <= i32::MAX
            &&& m.horizontal && m.highlight < rows.len() ==> padding + spec_top_size(*m).1
                + tallest_row(rows, m.metrics.row_padding as int) + m.metrics.row_padding / 2
                <= i32::MAX
        }),
{
    let n = m.rows.len() as i128;
    if !m.horizontal || n == 0 {
        return true;
    }
    let b: i128 = 0x1_0000_0000;
    let max = i32::MAX as i128;
    let p = m.metrics.padding as i128;
    let rp = m.metrics.row_padding as i128;
    let gap = m.metrics.column_gap as i128;
    proof {
        assert(n < b * b);
        assert(0 <= gap * n < b * b * b) by (nonlinear_arith)
            requires
                0 <= gap < b,
                0 <= n < b * b,
                b > 0,
        ;
        assert(m.rows@.take(m.rows@.len() as int) =~= m.rows@);
    }
    let footer_offset: i128 = if m.text_line > m.annotation_line {
        ((m.text_line - m.annotation_line) / 2) as i128
    } else {
        0
    };
    if m.footer.is_some() && p + top_height + rp + footer_offset > max {
        return false;
    }
    if p + p / 2 + t.4 + gap * n > max {
        return false;
    }
    if m.highlight < m.rows.len() && p + top_height + t.3 + rp / 2 > max {
        return false;
    }
    true
}
} // verus!
