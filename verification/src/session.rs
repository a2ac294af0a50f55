//! UI state of the current input session: which candidate is highlighted,
//! which page is shown, whether the user navigated, and whether the single
//! row has been expanded into a scrolling grid.
//!
//! The candidate layout itself (how candidates and cloud slots are placed on
//! pages) is decided elsewhere; a session only holds the facts it reads from a
//! layout: which cells hold a real candidate, the page size and the page count.

use vstd::prelude::*;

verus! {

/// `x` clamped into `lo..=hi` (for `lo <= hi`).
pub open spec fn clamp_int(x: int, lo: int, hi: int) -> int {
    if x < lo {
        lo
    } else if x > hi {
        hi
    } else {
        x
    }
}

/// The sign of `d`: `1`, `-1` or `0`.
pub open spec fn sign(d: int) -> int {
    if d > 0 {
        1
    } else if d < 0 {
        -1
    } else {
        0
    }
}

/// Starting at cell `i` and walking in direction `step`, the first cell that
/// holds a real candidate; `None` when the walk leaves the layout first (a
/// zero step looks at `i` only).
pub open spec fn scan_filled(s: Seq<bool>, i: int, step: int) -> Option<int>
    decreases (if step > 0 {
        s.len() - i
    } else {
        i + 1
    }),
{
    if i < 0 || i >= s.len() {
        None
    } else if s[i] {
        Some(i)
    } else if step == 0 {
        None
    } else if step > 0 {
        scan_filled(s, i + 1, step)
    } else {
        scan_filled(s, i - 1, step)
    }
}

/// The first cell in `i..end` (and inside the layout) holding a real candidate.
pub open spec fn first_filled_in(s: Seq<bool>, i: int, end: int) -> Option<int>
    decreases end - i,
{
    if i < 0 || i >= end || i >= s.len() {
        None
    } else if s[i] {
        Some(i)
    } else {
        first_filled_in(s, i + 1, end)
    }
}

/// The first real candidate on page `p`.
pub open spec fn page_first(s: Seq<bool>, page_size: int, p: int) -> Option<int> {
    first_filled_in(s, p * page_size, p * page_size + page_size)
}

/// Walking pages from `next` in direction `step` (never coming back to the
/// current page `cur`), the first page that has a real candidate, with that
/// candidate.
pub open spec fn page_scan(
    s: Seq<bool>,
    page_size: int,
    pages: int,
    cur: int,
    next: int,
    step: int,
) -> Option<(int, int)>
    decreases (if step > 0 {
        pages - next
    } else {
        next + 1
    }),
{
    if next == cur {
        None
    } else if page_first(s, page_size, next) is Some {
        Some((next, page_first(s, page_size, next)->0))
    } else if step == 0 || next + step < 0 || next + step >= pages {
        None
    } else if step > 0 {
        page_scan(s, page_size, pages, cur, next + 1, step)
    } else {
        page_scan(s, page_size, pages, cur, next - 1, step)
    }
}

/// Where the highlight goes for an up / down move of `delta` from `h`: the
/// clamped target, or the nearest real candidate beyond it in the direction
/// of travel.
pub open spec fn move_target(s: Seq<bool>, h: int, delta: int) -> Option<int> {
    if s.len() == 0 {
        None
    } else {
        scan_filled(s, clamp_int(h + delta, 0, s.len() - 1), sign(delta))
    }
}

/// The highlight after a move of `delta`, when the move changes it.
pub open spec fn highlight_move(s: Seq<bool>, h: int, delta: int) -> Option<int> {
    match move_target(s, h, delta) {
        Some(t) => if t != h {
            Some(t)
        } else {
            None
        },
        None => None,
    }
}

/// The page count used when paging: at least one page.
pub open spec fn paging_pages(page_count: int) -> int {
    if page_count < 1 {
        1
    } else {
        page_count
    }
}

/// Page and highlighted cell after turning `delta` pages from page `cur`, when
/// the turn lands anywhere.
pub open spec fn page_turn(
    s: Seq<bool>,
    page_size: int,
    page_count: int,
    cur: int,
    delta: int,
) -> Option<(int, int)> {
    let pages = paging_pages(page_count);
    page_scan(s, page_size, pages, cur, clamp_int(cur + delta, 0, pages - 1), sign(delta))
}

/// The first real candidate of the whole layout, else cell 0.
pub open spec fn first_highlight(s: Seq<bool>) -> int {
    match scan_filled(s, 0, 1) {
        Some(i) => i,
        None => 0,
    }
}

pub proof fn lemma_scan_filled(s: Seq<bool>, i: int, step: int)
    ensures
        scan_filled(s, i, step) matches Some(j) ==> 0 <= j < s.len() && s[j] && (step > 0
            ==> i <= j) && (step < 0 ==> j <= i) && (step == 0 ==> j == i),
        step > 0 ==> (scan_filled(s, i, step) matches Some(j) ==> forall|k: int|
            i <= k < j ==> !s[k]),
        step < 0 ==> (scan_filled(s, i, step) matches Some(j) ==> forall|k: int|
            j < k <= i ==> !s[k]),
    decreases (if step > 0 {
        s.len() - i
    } else {
        i + 1
    }),
{
    if i < 0 || i >= s.len() {
    } else if s[i] {
    } else if step == 0 {
    } else if step > 0 {
        lemma_scan_filled(s, i + 1, step);
    } else {
        lemma_scan_filled(s, i - 1, step);
    }
}

pub proof fn lemma_first_filled_in(s: Seq<bool>, i: int, end: int)
    ensures
        first_filled_in(s, i, end) matches Some(j) ==> i <= j < end && j < s.len() && 0 <= j
            && s[j],
        first_filled_in(s, i, end) is None ==> forall|k: int|
            0 <= i <= k < end && k < s.len() ==> !s[k],
    decreases end - i,
{
    if i < 0 || i >= end || i >= s.len() {
    } else if s[i] {
    } else {
        lemma_first_filled_in(s, i + 1, end);
    }
}

pub proof fn lemma_page_scan(
    s: Seq<bool>,
    page_size: int,
    pages: int,
    cur: int,
    next: int,
    step: int,
)
    requires
        page_size > 0,
        0 <= next,
    ensures
        page_scan(s, page_size, pages, cur, next, step) matches Some((p, i)) ==> p != cur && 0
            <= p && page_first(s, page_size, p) == Some(i) && 0 <= i < s.len() && s[i] && p
            * page_size <= i < p * page_size + page_size,
    decreases (if step > 0 {
        pages - next
    } else {
        next + 1
    }),
{
    if next == cur {
    } else if page_first(s, page_size, next) is Some {
        lemma_first_filled_in(s, next * page_size, next * page_size + page_size);
    } else if step == 0 || next + step < 0 || next + step >= pages {
    } else if step > 0 {
        lemma_page_scan(s, page_size, pages, cur, next + 1, step);
    } else {
        lemma_page_scan(s, page_size, pages, cur, next - 1, step);
    }
}

/// A cell inside page `p`'s range belongs to page `p`.
pub proof fn lemma_cell_page(i: int, p: int, page_size: int)
    requires
        page_size > 0,
        0 <= p,
        p * page_size <= i < p * page_size + page_size,
    ensures
        i / page_size == p,
{
    vstd::arithmetic::div_mod::lemma_fundamental_div_mod_converse_div(
        i,
        page_size,
        p,
        i - p * page_size,
    );
}

/// The session state of one round of candidates.
pub struct Session {
    /// Which cells of the layout hold a real candidate (the others are empty
    /// slots, such as cloud slots still waiting for their word).
    pub filled: Vec<bool>,
    /// Cells per page.
    pub page_size: usize,
    /// Number of pages of the layout.
    pub page_count: usize,
    /// The highlighted cell (absolute position in the layout).
    pub highlighted: usize,
    /// The page shown.
    pub page: usize,
    /// The user moved the highlight or turned a page in this round.
    pub navigated: bool,
    /// The single row is expanded into a grid.
    pub expanded: bool,
}

impl Session {
    /// Well-formedness: the page always follows the highlight, and the
    /// highlight stays inside a non-empty layout.
    pub open spec fn wf(&self) -> bool {
        &&& self.filled.len() <= isize::MAX
        &&& self.filled.len() == 0 ==> self.highlighted == 0 && self.page == 0
        &&& self.filled.len() > 0 ==> self.page_size > 0 && self.highlighted < self.filled.len()
        &&& self.page_size > 0 ==> self.page == self.highlighted as int / self.page_size as int
    }

    /// This session with the highlight moved to `index` by the user.
    pub open spec fn landed(self, index: int) -> Session {
        Session {
            highlighted: index as usize,
            page: (index / self.page_size as int) as usize,
            navigated: true,
            ..self
        }
    }

    /// This session with the grid expanded or collapsed.
    pub open spec fn with_expanded(self, expanded: bool) -> Session {
        Session { expanded, ..self }
    }

    /// An empty session: no candidates, single row.
    pub fn new() -> (session: Self)
        ensures
            session.wf(),
            session.filled@.len() == 0,
            session.page_size == 1,
            session.page_count == 0,
            session.highlighted == 0,
            session.page == 0,
            !session.navigated,
            !session.expanded,
    {
        Session {
            filled: Vec::new(),
            page_size: 1,
            page_count: 0,
            highlighted: 0,
            page: 0,
            navigated: false,
            expanded: false,
        }
    }

    /// A new round of candidates: the layout is replaced, the first real
    /// candidate is highlighted, navigation is forgotten and the grid
    /// collapses to a single row.
    pub fn reset(&mut self, filled: Vec<bool>, page_size: usize, page_count: usize)
        requires
            page_size > 0,
            filled@.len() <= isize::MAX,
        ensures
            final(self).wf(),
            final(self).filled@ == filled@,
            final(self).page_size == page_size,
            final(self).page_count == page_count,
            final(self).highlighted == first_highlight(filled@),
            final(self).page == first_highlight(filled@) / page_size as int,
            !final(self).navigated,
            !final(self).expanded,
    {
        let len = filled.len();
        let mut i: usize = 0;
        while i < len && !filled[i]
            invariant
                len == filled@.len(),
                i <= len,
                scan_filled(filled@, 0, 1) == scan_filled(filled@, i as int, 1),
            decreases len - i,
        {
            i = i + 1;
        }
        let first: usize = if i < len {
            i
        } else {
            0
        };
        self.filled = filled;
        self.page_size = page_size;
        self.page_count = page_count;
        self.highlighted = first;
        self.page = first / page_size;
        self.navigated = false;
        self.expanded = false;
    }

    /// Number of pages of the layout.
    pub fn pages(&self) -> (pages: usize)
        ensures
            pages == self.page_count,
    {
        self.page_count
    }

    /// The layout has no cells at all.
    pub fn is_empty(&self) -> (empty: bool)
        ensures
            empty == (self.filled@.len() == 0),
    {
        self.filled.len() == 0
    }

    /// Absolute position of cell `offset` of the current page; `None` when it
    /// is outside the page or the layout.
    pub fn index_on_page(&self, offset: usize) -> (index: Option<usize>)
        requires
            self.wf(),
            self.page * self.page_size + offset <= usize::MAX,
        ensures
            index == (if offset < self.page_size && self.page * self.page_size + offset
                < self.filled@.len() {
                Some((self.page * self.page_size + offset) as usize)
            } else {
                None
            }),
    {
        proof {
            if self.page_size > 0 {
                vstd::arithmetic::div_mod::lemma_fundamental_div_mod(
                    self.highlighted as int,
                    self.page_size as int,
                );
                assert(self.page * self.page_size <= self.highlighted) by (nonlinear_arith)
                    requires
                        self.page == self.highlighted as int / self.page_size as int,
                        self.page_size > 0,
                        self.highlighted as int == self.page_size * (self.highlighted as int
                            / self.page_size as int) + self.highlighted as int % self.page_size as int,
                        self.highlighted as int % self.page_size as int >= 0,
                ;
            }
        }
        let index = self.page * self.page_size + offset;
        if offset < self.page_size && index < self.filled.len() {
            Some(index)
        } else {
            None
        }
    }

    /// The highlight lands on `index` (`None`: it did not move); the page follows.
    fn land(&mut self, index: Option<usize>) -> (changed: bool)
        requires
            old(self).wf(),
            index is Some ==> index->0 < old(self).filled@.len(),
        ensures
            final(self).wf(),
            changed == index is Some,
            index is Some ==> *final(self) == old(self).landed(index->0 as int),
            index is None ==> *final(self) == *old(self),
    {
        match index {
            Some(i) => {
                self.highlighted = i;
                self.page = i / self.page_size;
                self.navigated = true;
                true
            },
            None => false,
        }
    }

    /// Vertical move in the grid, given where the grid put the highlight
    /// (`moved`); a single row is expanded first, and the expansion alone
    /// already counts as a change. Returns whether to redraw.
    pub fn move_rows(&mut self, moved: Option<usize>) -> (changed: bool)
        requires
            old(self).wf(),
            moved is Some ==> moved->0 < old(self).filled@.len(),
        ensures
            final(self).wf(),
            final(self).expanded,
            changed == (moved is Some || !old(self).expanded),
            moved is Some ==> *final(self) == old(self).landed(moved->0 as int).with_expanded(true),
            moved is None ==> *final(self) == old(self).with_expanded(true),
    {
        let expanding = !self.expanded;
        self.expanded = true;
        let landed = self.land(moved);
        landed || expanding
    }

    /// Move by cells in reading order inside the grid, given where the grid
    /// put the highlight; nothing happens on a single row.
    pub fn move_cells(&mut self, moved: Option<usize>) -> (changed: bool)
        requires
            old(self).wf(),
            moved is Some ==> moved->0 < old(self).filled@.len(),
        ensures
            final(self).wf(),
            changed == (old(self).expanded && moved is Some),
            changed ==> *final(self) == old(self).landed(moved->0 as int),
            !changed ==> *final(self) == *old(self),
    {
        if !self.expanded {
            return false;
        }
        self.land(moved)
    }

    /// Back to a single row, highlight unchanged. Returns whether the grid was open.
    pub fn collapse(&mut self) -> (was_expanded: bool)
        ensures
            was_expanded == old(self).expanded,
            *final(self) == old(self).with_expanded(false),
    {
        let was = self.expanded;
        self.expanded = false;
        was
    }

    /// Up / down move of the highlight, turning pages at page edges and
    /// skipping empty cells in the direction of travel. Returns whether
    /// anything changed.
    #[verifier::loop_isolation(false)]
    pub fn move_highlight(&mut self, delta: isize) -> (changed: bool)
        requires
            old(self).wf(),
            isize::MIN <= old(self).highlighted + delta <= isize::MAX,
        ensures
            final(self).wf(),
            changed == highlight_move(
                old(self).filled@,
                old(self).highlighted as int,
                delta as int,
            ) is Some,
            changed ==> *final(self) == old(self).landed(
                highlight_move(old(self).filled@, old(self).highlighted as int, delta as int)->0,
            ),
            changed ==> final(self).filled@[final(self).highlighted as int],
            !changed ==> *final(self) == *old(self),
    {
        let len = self.filled.len();
        if len == 0 {
            return false;
        }
        let step: isize = if delta > 0 {
            1
        } else if delta < 0 {
            -1
        } else {
            0
        };
        let current = self.highlighted as isize;
        let wanted = current + delta;
        let last = len as isize - 1;
        let mut next: usize = if wanted < 0 {
            0
        } else if wanted > last {
            last as usize
        } else {
            wanted as usize
        };
        let ghost start = next as int;
        assert(start == clamp_int(self.highlighted + delta, 0, len - 1));
        while !self.filled[next]
            invariant
                len == self.filled@.len(),
                len <= isize::MAX,
                next < len,
                step == sign(delta as int),
                scan_filled(self.filled@, start, step as int) == scan_filled(
                    self.filled@,
                    next as int,
                    step as int,
                ),
            decreases (if delta > 0 {
                len - next
            } else {
                next as int
            }),
        {
            let candidate = next as isize + step;
            if candidate < 0 || candidate >= len as isize || delta == 0 {
                proof {
                    if step > 0 {
                        assert(scan_filled(self.filled@, next + 1, step as int) is None);
                    } else if step < 0 {
                        assert(scan_filled(self.filled@, next - 1, step as int) is None);
                    }
                }
                return false;
            }
            next = candidate as usize;
        }
        if next == self.highlighted {
            return false;
        }
        self.highlighted = next;
        self.page = next / self.page_size;
        self.navigated = true;
        true
    }

    /// Turn `delta` pages and highlight the first real candidate of the new
    /// page, skipping pages without candidates. Returns whether anything changed.
    pub fn turn_page(&mut self, delta: isize) -> (changed: bool)
        requires
            old(self).wf(),
            old(self).page_size > 0,
            isize::MIN <= old(self).page + delta <= isize::MAX,
            paging_pages(old(self).page_count as int) * old(self).page_size <= usize::MAX,
            paging_pages(old(self).page_count as int) <= isize::MAX,
        ensures
            final(self).wf(),
            changed == page_turn(
                old(self).filled@,
                old(self).page_size as int,
                old(self).page_count as int,
                old(self).page as int,
                delta as int,
            ) is Some,
            changed ==> {
                let (p, i) = page_turn(
                    old(self).filled@,
                    old(self).page_size as int,
                    old(self).page_count as int,
                    old(self).page as int,
                    delta as int,
                )->0;
                &&& *final(self) == old(self).landed(i)
                &&& final(self).page == p
                &&& final(self).filled@[i]
            },
            !changed ==> *final(self) == *old(self),
    {
        let pages: usize = if self.page_count < 1 {
            1
        } else {
            self.page_count
        };
        let step: isize = if delta > 0 {
            1
        } else if delta < 0 {
            -1
        } else {
            0
        };
        let current = self.page as isize;
        let wanted = current + delta;
        let last = pages as isize - 1;
        let mut next: usize = if wanted < 0 {
            0
        } else if wanted > last {
            last as usize
        } else {
            wanted as usize
        };
        let ghost first_next = next as int;
        assert(first_next == clamp_int(self.page + delta, 0, pages - 1));
        let ghost s = self.filled@;
        let ps = self.page_size;
        let len = self.filled.len();
        let ghost cur = self.page as int;
        let landing: (usize, usize);
        loop
            invariant
                *self == *old(self),
                old(self).wf(),
                s == self.filled@,
                len == s.len(),
                ps == self.page_size,
                ps > 0,
                cur == self.page,
                first_next == clamp_int(cur + delta, 0, pages - 1),
                pages == paging_pages(self.page_count as int),
                pages * ps <= usize::MAX,
                pages <= isize::MAX,
                next < pages,
                step == sign(delta as int),
                page_scan(s, ps as int, pages as int, cur, first_next, step as int) == page_scan(
                    s,
                    ps as int,
                    pages as int,
                    cur,
                    next as int,
                    step as int,
                ),
            ensures
                page_scan(s, ps as int, pages as int, cur, first_next, step as int) == Some(
                    (landing.0 as int, landing.1 as int),
                ),
            decreases (if delta > 0 {
                pages - next
            } else {
                next as int
            }),
        {
            if next == self.page {
                return false;
            }
            assert(next * ps + ps <= pages * ps) by (nonlinear_arith)
                requires
                    next < pages,
                    ps > 0,
            ;
            let start = next * ps;
            let end = if start + ps < len {
                start + ps
            } else {
                len
            };
            let mut i = start;
            let mut hit: Option<usize> = None;
            while i < end
                invariant_except_break
                    hit is None,
                invariant
                    *self == *old(self),
                    s == self.filled@,
                    len == s.len(),
                    start <= i,
                    end <= len,
                    end <= start + ps,
                    end == start + ps || end == len,
                    first_filled_in(s, start as int, start + ps) == first_filled_in(
                        s,
                        i as int,
                        start + ps,
                    ),
                ensures
                    hit matches Some(h) ==> first_filled_in(s, start as int, start + ps) == Some(
                        h as int,
                    ),
                    hit is None ==> first_filled_in(s, start as int, start + ps) is None,
                decreases end - i,
            {
                if self.filled[i] {
                    hit = Some(i);
                    break;
                }
                i = i + 1;
            }
            if let Some(index) = hit {
                landing = (next, index);
                break;
            }
            let following = next as isize + step;
            assert(page_first(s, ps as int, next as int) is None);
            if following < 0 || following >= pages as isize || delta == 0 {
                return false;
            }
            next = following as usize;
        }
        proof {
            lemma_page_scan(s, ps as int, pages as int, cur, first_next, step as int);
            lemma_cell_page(landing.1 as int, landing.0 as int, ps as int);
        }
        self.page = landing.0;
        self.highlighted = landing.1;
        self.navigated = true;
        true
    }

    /// Up / down keys: with the grid keys on (horizontal layout) they move by
    /// rows in the grid, expanding a single row first, given where the grid
    /// put the highlight; otherwise they move the highlight through the list.
    /// Returns whether to redraw.
    pub fn vertical_key(&mut self, grid_keys: bool, delta: isize, grid_moved: Option<usize>) -> (changed: bool)
        requires
            old(self).wf(),
            grid_moved is Some ==> grid_moved->0 < old(self).filled@.len(),
            isize::MIN <= old(self).highlighted + delta <= isize::MAX,
        ensures
            final(self).wf(),
            grid_keys ==> changed == (grid_moved is Some || !old(self).expanded),
            grid_keys ==> (grid_moved matches Some(g) ==> *final(self) == old(self).landed(
                g as int,
            ).with_expanded(true)),
            grid_keys && grid_moved is None ==> *final(self) == old(self).with_expanded(true),
            !grid_keys ==> changed == highlight_move(
                old(self).filled@,
                old(self).highlighted as int,
                delta as int,
            ) is Some,
            !grid_keys && changed ==> *final(self) == old(self).landed(
                highlight_move(old(self).filled@, old(self).highlighted as int, delta as int)->0,
            ),
            !grid_keys && !changed ==> *final(self) == *old(self),
    {
        if grid_keys {
            self.move_rows(grid_moved)
        } else {
            self.move_highlight(delta)
        }
    }

    /// Left / right keys: they belong to the candidates only with the grid
    /// keys on and some candidates; then they move in reading order inside an
    /// expanded grid (given where the grid put the highlight), else through
    /// the single row. `None` means the key is not for the candidates (the
    /// pinyin cursor moves instead).
    pub fn horizontal_key(&mut self, grid_keys: bool, delta: isize, grid_moved: Option<usize>) -> (handled: Option<bool>)
        requires
            old(self).wf(),
            grid_moved is Some ==> grid_moved->0 < old(self).filled@.len(),
            isize::MIN <= old(self).highlighted + delta <= isize::MAX,
        ensures
            final(self).wf(),
            (!grid_keys || old(self).filled@.len() == 0) ==> (handled is None && *final(self)
                == *old(self)),
            grid_keys && old(self).filled@.len() > 0 && old(self).expanded ==> handled == Some(
                grid_moved is Some,
            ),
            grid_keys && old(self).filled@.len() > 0 && old(self).expanded ==> (grid_moved matches Some(
                g,
            ) ==> *final(self) == old(self).landed(g as int)),
            grid_keys && old(self).filled@.len() > 0 && old(self).expanded && grid_moved is None
                ==> *final(self) == *old(self),
            grid_keys && old(self).filled@.len() > 0 && !old(self).expanded ==> handled == Some(
                highlight_move(old(self).filled@, old(self).highlighted as int, delta as int) is Some,
            ),
            grid_keys && old(self).filled@.len() > 0 && !old(self).expanded && handled == Some(true)
                ==> *final(self) == old(self).landed(
                highlight_move(old(self).filled@, old(self).highlighted as int, delta as int)->0,
            ),
            grid_keys && old(self).filled@.len() > 0 && !old(self).expanded && handled == Some(false)
                ==> *final(self) == *old(self),
    {
        if !grid_keys || self.filled.len() == 0 {
            return None;
        }
        if self.expanded {
            Some(self.move_cells(grid_moved))
        } else {
            Some(self.move_highlight(delta))
        }
    }

    /// Page keys: a whole screen of the expanded grid (given where the grid
    /// put the highlight), else a page of the list. Returns whether anything moved.
    pub fn page_key(&mut self, delta: isize, grid_moved: Option<usize>) -> (turned: bool)
        requires
            old(self).wf(),
            old(self).page_size > 0,
            grid_moved is Some ==> grid_moved->0 < old(self).filled@.len(),
            isize::MIN <= old(self).page + delta <= isize::MAX,
            paging_pages(old(self).page_count as int) * old(self).page_size <= usize::MAX,
            paging_pages(old(self).page_count as int) <= isize::MAX,
        ensures
            final(self).wf(),
            old(self).expanded ==> turned == grid_moved is Some,
            old(self).expanded ==> (grid_moved matches Some(g) ==> *final(self) == old(
                self,
            ).landed(g as int)),
            !old(self).expanded ==> turned == page_turn(
                old(self).filled@,
                old(self).page_size as int,
                old(self).page_count as int,
                old(self).page as int,
                delta as int,
            ) is Some,
            !old(self).expanded && turned ==> {
                let (p, i) = page_turn(
                    old(self).filled@,
                    old(self).page_size as int,
                    old(self).page_count as int,
                    old(self).page as int,
                    delta as int,
                )->0;
                &&& *final(self) == old(self).landed(i)
                &&& final(self).page == p
            },
            !turned ==> *final(self) == *old(self),
    {
        if self.expanded {
            self.move_rows(grid_moved)
        } else {
            self.turn_page(delta)
        }
    }
}

} // verus!
