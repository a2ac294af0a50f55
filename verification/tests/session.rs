use qingjian_shell::session::Session;

/// `count` real candidates, no empty slots.
fn filled(count: usize) -> Vec<bool> {
    vec![true; count]
}

/// Seven local candidates and two cloud slots still empty on the first page
/// of nine, the remaining local candidates after them.
fn with_cloud_slots(local: usize) -> Vec<bool> {
    let mut cells = Vec::new();
    let first = local.min(7);
    cells.extend(std::iter::repeat(true).take(first));
    if local > 7 {
        cells.extend([false, false]);
        cells.extend(std::iter::repeat(true).take(local - 7));
    }
    cells
}

#[test]
fn vertical_keys_expand_the_row_into_a_scrolling_grid() {
    let mut session = Session::new();
    session.reset(filled(100), 5, 20);
    assert!(!session.expanded);
    // left / right keys do not belong to the candidates on a single row
    assert!(!session.move_cells(Some(1)));
    assert_eq!(session.highlighted, 0);
    // the first move down expands and moves to the same column of the next row
    assert!(session.move_rows(Some(5)));
    assert_eq!((session.highlighted, session.page), (5, 1));
    assert_eq!(session.index_on_page(2), Some(7));
    assert!(session.expanded);
    // once expanded, left / right move in reading order across rows
    assert!(session.move_cells(Some(4)));
    assert_eq!((session.highlighted, session.page), (4, 0));
    // Escape collapses to a single row, the highlight stays
    assert!(session.collapse());
    assert!(!session.collapse());
    assert_eq!(session.highlighted, 4);
    // a new query collapses again
    session.move_rows(Some(9));
    session.reset(filled(3), 5, 1);
    assert!(!session.expanded);
    // with a single row, moving up expands without moving and still redraws
    assert!(session.move_rows(None));
    assert_eq!(session.highlighted, 0);
    assert!(!session.move_rows(None));
}

#[test]
fn digits_map_to_cells_on_the_current_page() {
    let mut session = Session::new();
    session.reset(with_cloud_slots(3), 9, 1);
    assert_eq!(session.index_on_page(2), Some(2));
    assert_eq!(session.index_on_page(3), None);
    assert!(session.move_highlight(1));
    assert!(session.move_highlight(5));
    assert_eq!(session.highlighted, 2);
    assert!(!session.move_highlight(1));
}

#[test]
fn paging_follows_the_layout() {
    let mut session = Session::new();
    session.reset(with_cloud_slots(12), 9, 2);
    assert_eq!(session.pages(), 2);
    assert!(session.turn_page(1));
    assert_eq!(session.highlighted, 9);
    assert_eq!(session.index_on_page(0), Some(9));
    assert!(!session.turn_page(1));
}

#[test]
fn navigation_is_remembered_until_the_next_query() {
    let mut session = Session::new();
    session.reset(with_cloud_slots(12), 9, 2);
    assert!(!session.navigated);
    // pushing against the edge does not move, so it is no navigation
    assert!(!session.move_highlight(-1));
    assert!(!session.navigated);
    assert!(session.move_highlight(1));
    assert!(session.navigated);
    session.reset(with_cloud_slots(3), 9, 1);
    assert!(!session.navigated);
    // with one page, turning does not move either
    assert!(!session.turn_page(1));
    assert!(!session.navigated);
    session.reset(with_cloud_slots(12), 9, 2);
    assert!(session.turn_page(1));
    assert!(session.navigated);
}

#[test]
fn sparse_custom_positions_keep_highlight_on_real_candidates() {
    // a custom phrase pinned at position 9 (cell 8), nothing before it
    let mut cells = vec![false; 8];
    cells.push(true);
    let mut session = Session::new();
    session.reset(cells.clone(), 5, 2);
    assert_eq!((session.page, session.highlighted), (1, 8));
    assert!(!session.turn_page(-1));
    // plus one ordinary candidate in the first cell
    cells[0] = true;
    session.reset(cells, 5, 2);
    assert_eq!((session.page, session.highlighted), (0, 0));
    assert!(session.turn_page(1));
    assert_eq!((session.page, session.highlighted), (1, 8));
    assert!(session.move_highlight(-1));
    assert_eq!((session.page, session.highlighted), (0, 0));
}

#[test]
fn moves_skip_empty_cells_in_the_direction_of_travel() {
    let mut session = Session::new();
    session.reset(vec![true, false, false, true, false], 5, 1);
    assert!(session.move_highlight(1));
    assert_eq!(session.highlighted, 3);
    // past the last real candidate nothing moves
    assert!(!session.move_highlight(1));
    assert_eq!(session.highlighted, 3);
    assert!(session.move_highlight(-1));
    assert_eq!(session.highlighted, 0);
}

#[test]
fn a_zero_move_changes_nothing() {
    let mut session = Session::new();
    session.reset(filled(20), 5, 4);
    assert!(!session.move_highlight(0));
    assert!(!session.turn_page(0));
    assert!(!session.navigated);
    assert_eq!((session.highlighted, session.page), (0, 0));
}

#[test]
fn turning_pages_skips_pages_without_candidates() {
    let mut cells = vec![true; 3];
    cells.extend([false; 3]);
    cells.extend([true; 3]);
    let mut session = Session::new();
    session.reset(cells, 3, 3);
    assert!(session.turn_page(1));
    assert_eq!((session.page, session.highlighted), (2, 6));
    assert!(session.turn_page(-1));
    assert_eq!((session.page, session.highlighted), (0, 0));
}

#[test]
fn an_empty_layout_highlights_nothing() {
    let mut session = Session::new();
    session.reset(Vec::new(), 9, 0);
    assert!(session.is_empty());
    assert_eq!((session.highlighted, session.page), (0, 0));
    assert!(!session.move_highlight(1));
    assert!(!session.turn_page(1));
    assert_eq!(session.index_on_page(0), None);
}

#[test]
fn a_layout_of_empty_slots_highlights_the_first_cell() {
    let mut session = Session::new();
    session.reset(vec![false, false, false], 2, 2);
    assert_eq!((session.highlighted, session.page), (0, 0));
    assert!(!session.move_highlight(1));
    assert!(!session.turn_page(1));
}
