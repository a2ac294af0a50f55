use qingjian_shell::layout::{
    annotation_width, can_paint, columns, measures_ok, highlighted_annotation_size, horizontal_size, paint_plan,
    preferred_size, top_line_size, vertical_size, Columns, Extent, Fill, Ink, Measured, Piece,
    Point, PreeditPiece, RowExtents, Segment, Stroke,
};
use qingjian_shell::rows::{PreeditKind, Tone};
use qingjian_shell::window::{Metrics, Rect};

fn rows() -> Vec<RowExtents> {
    vec![
        RowExtents {
            index: Extent { cx: 7, cy: 12 },
            text: Extent { cx: 32, cy: 16 },
            annotation: vec![
                Segment { width: 20, tone: Tone::Gloss },
                Segment { width: 10, tone: Tone::Faint },
            ],
            cloud: false,
        },
        RowExtents {
            index: Extent { cx: 7, cy: 12 },
            text: Extent { cx: 48, cy: 16 },
            annotation: vec![],
            cloud: true,
        },
    ]
}

fn measured(horizontal: bool) -> Measured {
    Measured {
        metrics: Metrics::new(96),
        text_line: 16,
        annotation_line: 12,
        preedit: vec![
            PreeditPiece { width: 30, kind: PreeditKind::Typed },
            PreeditPiece { width: 10, kind: PreeditKind::Corrected },
        ],
        preedit_width: 40,
        caret_offset: 30,
        rows: rows(),
        highlight: 0,
        footer: Some(Extent { cx: 20, cy: 12 }),
        horizontal,
    }
}

fn text(piece: Piece, x: i32, y: i32, ink: Ink) -> Stroke {
    Stroke::Text { piece, at: Point { x, y }, ink }
}

fn rect(left: i32, top: i32, right: i32, bottom: i32) -> Rect {
    Rect { left, top, right, bottom }
}

#[test]
fn annotation_pieces_add_up() {
    assert_eq!(annotation_width(&rows()[0].annotation), 30);
    assert_eq!(annotation_width(&vec![]), 0);
}

#[test]
fn columns_take_the_widest_cell_and_the_tallest_row() {
    assert_eq!(
        columns(&rows(), 4),
        Columns { index_width: 7, text_width: 48, annotation_width: 30, row_height: 24 }
    );
    assert_eq!(
        columns(&vec![], 4),
        Columns { index_width: 0, text_width: 0, annotation_width: 0, row_height: 0 }
    );
}

#[test]
fn vertical_list_size() {
    // 7 + 8 + 48 + 8 + 30 wide; two rows of 24 plus the footer line
    assert_eq!(vertical_size(&measured(false)), (101, 64));
    let mut bare = measured(false);
    bare.footer = None;
    for row in bare.rows.iter_mut() {
        row.annotation.clear();
    }
    // no annotation column without annotations
    assert_eq!(vertical_size(&bare), (63, 48));
}

#[test]
fn horizontal_strip_size() {
    // (7+4+32) + (7+4+48) + one gap + both insets + gap and footer; annotation line below
    assert_eq!(horizontal_size(&measured(true)), (146, 40));
    assert_eq!(highlighted_annotation_size(&measured(true)), Some((30, 16)));
    let mut second = measured(true);
    second.highlight = 1;
    assert_eq!(highlighted_annotation_size(&second), None);
    assert_eq!(horizontal_size(&second), (146, 24));
    let mut empty = measured(true);
    empty.rows.clear();
    assert_eq!(horizontal_size(&empty), (0, 0));
}

#[test]
fn composition_line_size() {
    assert_eq!(top_line_size(&measured(false)), (41, 20));
    let mut none = measured(false);
    none.preedit.clear();
    assert_eq!(top_line_size(&none), (0, 0));
}

#[test]
fn preferred_size_stacks_and_pads() {
    assert_eq!(preferred_size(&measured(false)), (117, 100));
    assert_eq!(preferred_size(&measured(true)), (162, 76));
}

fn top_strokes() -> Vec<Stroke> {
    vec![
        text(Piece::Preedit(0), 8, 12, Ink::Gloss),
        text(Piece::Preedit(1), 38, 12, Ink::Pos),
        Stroke::Fill(Fill::Strike(rect(38, 18, 48, 19))),
        Stroke::Fill(Fill::Caret(rect(38, 12, 39, 24))),
    ]
}

#[test]
fn vertical_frame_strokes() {
    let mut expected = top_strokes();
    expected.extend([
        Stroke::Fill(Fill::Highlight { rect: rect(4, 28, 113, 52), radius: 4 }),
        text(Piece::Index(0), 8, 34, Ink::Index),
        text(Piece::Word(0), 23, 32, Ink::Text),
        text(Piece::Annotation(0, 0), 79, 34, Ink::Gloss),
        text(Piece::Annotation(0, 1), 99, 34, Ink::Pos),
        text(Piece::Index(1), 8, 58, Ink::Index),
        text(Piece::Word(1), 23, 56, Ink::Cloud),
        text(Piece::Footer, 89, 80, Ink::Index),
    ]);
    assert_eq!(paint_plan(&measured(false), 117), expected);
}

#[test]
fn horizontal_frame_strokes() {
    let mut expected = top_strokes();
    expected.extend([
        Stroke::Fill(Fill::Highlight { rect: rect(8, 28, 59, 52), radius: 4 }),
        text(Piece::Index(0), 12, 34, Ink::Index),
        text(Piece::Word(0), 23, 32, Ink::Text),
        text(Piece::Index(1), 63, 34, Ink::Index),
        text(Piece::Word(1), 74, 32, Ink::Cloud),
        text(Piece::Footer, 134, 34, Ink::Index),
        text(Piece::Annotation(0, 0), 12, 54, Ink::Gloss),
        text(Piece::Annotation(0, 1), 32, 54, Ink::Pos),
    ]);
    assert_eq!(paint_plan(&measured(true), 162), expected);
}

#[test]
fn nothing_to_draw_without_rows_or_composition() {
    let mut empty = measured(false);
    empty.preedit.clear();
    empty.rows.clear();
    empty.footer = None;
    assert_eq!(paint_plan(&empty, 16), vec![]);
}

#[test]
fn frames_that_fit_can_be_painted() {
    assert!(measures_ok(&measured(false)));
    assert!(can_paint(&measured(false), 117));
    assert!(can_paint(&measured(true), 162));
    assert!(!can_paint(&measured(false), -1));
    let mut negative = measured(false);
    negative.rows[1].annotation.push(Segment { width: -1, tone: Tone::Gloss });
    assert!(!measures_ok(&negative));
    assert!(!can_paint(&negative, 100));
    let mut huge = measured(false);
    huge.preedit_width = i32::MAX - 4;
    assert!(measures_ok(&huge));
    assert!(!can_paint(&huge, 100));
    let mut wide_gap = measured(true);
    wide_gap.metrics.column_gap = i32::MAX / 2;
    assert!(!can_paint(&wide_gap, 100));
}
