//! 2D navigable grid of cards with D-pad navigation, focus state and
//! vertical scroll.

use vstd::prelude::*;

use crate::input::{Button, InputAction, InputEvent};
use crate::list_view::{trunc_div, trunc_div_i32};

verus! {

/// An item in the GridView.
#[derive(Clone, Debug)]
pub struct GridItem {
    pub id: String,
    pub label: String,
    /// Optional secondary text (e.g., subtitle).
    pub secondary: String,
    /// Application-defined tag.
    pub tag: i64,
}

impl GridItem {
    pub fn new(id: &str, label: &str) -> (item: Self)
        ensures
            item.id@ == id@,
            item.label@ == label@,
            item.secondary@ == Seq::<char>::empty(),
            item.tag == 0,
    {
        Self { id: id.to_owned(), label: label.to_owned(), secondary: String::new(), tag: 0 }
    }

    pub fn with_secondary(self, text: &str) -> (item: Self)
        ensures
            item == (GridItem { secondary: item.secondary, ..self }),
            item.secondary@ == text@,
    {
        let mut s = self;
        s.secondary = text.to_owned();
        s
    }

    pub fn with_tag(self, tag: i64) -> (item: Self)
        ensures
            item == (GridItem { tag: tag, ..self }),
    {
        let mut s = self;
        s.tag = tag;
        s
    }
}

/// 2D navigable card grid. D-pad moves in 4 directions. L1/R1 pages
/// vertically. Columns and visible rows are computed from the drawing area.
pub struct GridView {
    pub items: Vec<GridItem>,
    pub cursor: usize,
    pub cell_width: i32,
    pub cell_height: i32,
    pub padding: i32,
    /// Number of columns, computed from available width.
    columns: usize,
    /// Scroll offset in rows.
    scroll_row: usize,
    /// Visible rows, computed from available height.
    visible_rows: usize,
}

/// Abstract state of a [`GridView`].
pub struct GridViewModel {
    pub items: Seq<GridItem>,
    pub cursor: int,
    pub cell_width: int,
    pub cell_height: int,
    pub padding: int,
    pub columns: int,
    pub scroll_row: int,
    pub visible_rows: int,
}

impl GridViewModel {
    /// The grid always has at least one column and one visible row.
    pub open spec fn wf(self) -> bool {
        self.columns >= 1 && self.visible_rows >= 1
    }

    pub open spec fn total_rows(self) -> int {
        let n = self.items.len() as int;
        n / self.columns + if n % self.columns != 0 { 1int } else { 0int }
    }

    /// Rows one L1/R1 page jumps, times the columns.
    pub open spec fn page_jump(self) -> int {
        self.visible_rows * self.columns
    }
}

/// Where navigation moves the cursor, or `None` for a non-navigation button.
pub open spec fn grid_nav(m: GridViewModel, button: Button) -> Option<int> {
    let n = m.items.len() as int;
    let row = m.cursor / m.columns;
    let col = m.cursor % m.columns;
    match button {
        Button::DpadLeft => Some(if col > 0 { m.cursor - 1 } else { m.cursor }),
        Button::DpadRight => Some(
            if col + 1 < m.columns && m.cursor + 1 < n { m.cursor + 1 } else { m.cursor },
        ),
        Button::DpadUp => Some(if row > 0 { m.cursor - m.columns } else { m.cursor }),
        Button::DpadDown => Some(
            if row + 1 < m.total_rows() {
                if m.cursor + m.columns < n - 1 { m.cursor + m.columns } else { n - 1 }
            } else {
                m.cursor
            },
        ),
        Button::L1 => Some(if m.cursor > m.page_jump() { m.cursor - m.page_jump() } else { 0 }),
        Button::R1 => Some(
            if m.cursor + m.page_jump() < n - 1 { m.cursor + m.page_jump() } else { n - 1 },
        ),
        _ => None,
    }
}

/// Scroll row after bringing the row of `cursor` into view.
pub open spec fn scrolled_to(cursor: int, columns: int, scroll: int, visible: int) -> int {
    let r = cursor / columns;
    let s1 = if r < scroll { r } else { scroll };
    if r >= s1 + visible { r + 1 - visible } else { s1 }
}

/// The integer steps of bringing `cursor` into view stay within `usize`.
pub open spec fn scroll_fits(cursor: int, columns: int, scroll: int, visible: int) -> bool {
    let r = cursor / columns;
    let s1 = if r < scroll { r } else { scroll };
    s1 + visible <= usize::MAX && (r >= s1 + visible ==> r + 1 <= usize::MAX)
}

/// The integer steps of one navigation step stay within `usize`.
pub open spec fn grid_input_fits(m: GridViewModel, button: Button) -> bool {
    let row = m.cursor / m.columns;
    let col = m.cursor % m.columns;
    &&& button == Button::DpadRight && col + 1 < m.columns ==> m.cursor + 1 <= usize::MAX
    &&& button == Button::DpadDown && row + 1 < m.total_rows() ==> m.cursor + m.columns
        <= usize::MAX
    &&& (button == Button::L1 || button == Button::R1) ==> m.page_jump() <= usize::MAX
    &&& button == Button::R1 ==> m.cursor + m.page_jump() <= usize::MAX
    &&& match grid_nav(m, button) {
        Some(c) => scroll_fits(c, m.columns, m.scroll_row, m.visible_rows),
        None => true,
    }
}

impl View for GridView {
    type V = GridViewModel;

    closed spec fn view(&self) -> GridViewModel {
        GridViewModel {
            items: self.items@,
            cursor: self.cursor as int,
            cell_width: self.cell_width as int,
            cell_height: self.cell_height as int,
            padding: self.padding as int,
            columns: self.columns as int,
            scroll_row: self.scroll_row as int,
            visible_rows: self.visible_rows as int,
        }
    }
}

impl GridView {
    /// `items`, as the view holds it.
    pub fn items(&self) -> (r: &Vec<GridItem>)
        ensures
            r@ == self@.items,
    {
        &self.items
    }

    /// `cursor`, as the view holds it.
    pub fn cursor(&self) -> (r: usize)
        ensures
            r == self@.cursor,
    {
        self.cursor
    }

    /// `cell_width`, as the view holds it.
    pub fn cell_width(&self) -> (r: i32)
        ensures
            r == self@.cell_width,
    {
        self.cell_width
    }

    /// `cell_height`, as the view holds it.
    pub fn cell_height(&self) -> (r: i32)
        ensures
            r == self@.cell_height,
    {
        self.cell_height
    }

    /// `padding`, as the view holds it.
    pub fn padding(&self) -> (r: i32)
        ensures
            r == self@.padding,
    {
        self.padding
    }

    pub fn new(items: Vec<GridItem>) -> (g: Self)
        ensures
            g@ == (GridViewModel {
                items: items@,
                cursor: 0,
                cell_width: 120,
                cell_height: 100,
                padding: 8,
                columns: 5,
                scroll_row: 0,
                visible_rows: 4,
            }),
            g@.wf(),
    {
        Self {
            items,
            cursor: 0,
            cell_width: 120,
            cell_height: 100,
            padding: 8,
            columns: 5,
            scroll_row: 0,
            visible_rows: 4,
        }
    }

    pub fn with_cell_size(self, width: i32, height: i32) -> (g: Self)
        ensures
            g@ == (GridViewModel { cell_width: width as int, cell_height: height as int, ..self@ }),
    {
        let mut s = self;
        s.cell_width = width;
        s.cell_height = height;
        s
    }

    /// Get the currently focused item, if any.
    pub fn focused_item(&self) -> (r: Option<&GridItem>)
        ensures
            0 <= self@.cursor < self@.items.len() ==> r == Some(&self@.items[self@.cursor]),
            self@.cursor >= self@.items.len() ==> r.is_none(),
    {
        if self.cursor < self.items.len() {
            Some(&self.items[self.cursor])
        } else {
            None
        }
    }

    /// Returns true if the event is an A press.
    pub fn is_select_event(&self, event: &InputEvent) -> (r: bool)
        ensures
            r == (event.button == Button::A && event.action == InputAction::Press
                && self@.items.len() > 0),
    {
        event.button == Button::A && event.action == InputAction::Press && self.items.len() > 0
    }

    /// Handle D-pad navigation. Returns `true` if consumed.
    pub fn handle_input(&mut self, event: &InputEvent) -> (consumed: bool)
        requires
            old(self)@.wf(),
            old(self)@.items.len() > 0 && event.action != InputAction::Release
                ==> grid_input_fits(old(self)@, event.button),
        ensures
            final(self)@.wf(),
            final(self)@.items == old(self)@.items,
            final(self)@.columns == old(self)@.columns,
            final(self)@.visible_rows == old(self)@.visible_rows,
            final(self)@.cell_width == old(self)@.cell_width,
            final(self)@.cell_height == old(self)@.cell_height,
            final(self)@.padding == old(self)@.padding,
            ({
                let m = old(self)@;
                if m.items.len() == 0 || event.action == InputAction::Release {
                    !consumed && final(self)@ == m
                } else {
                    match grid_nav(m, event.button) {
                        Some(c) => {
                            &&& consumed
                            &&& final(self)@.cursor == c
                            &&& final(self)@.scroll_row == scrolled_to(
                                c,
                                m.columns,
                                m.scroll_row,
                                m.visible_rows,
                            )
                        },
                        None => !consumed && final(self)@ == m,
                    }
                }
            }),
            old(self)@.cursor < old(self)@.items.len() ==> final(self)@.cursor
                < final(self)@.items.len(),
            consumed ==> final(self)@.scroll_row <= final(self)@.cursor / final(self)@.columns
                < final(self)@.scroll_row + final(self)@.visible_rows,
    {
        if self.items.len() == 0 || self.columns == 0 {
            return false;
        }
        if event.action == InputAction::Release {
            return false;
        }
        let n = self.items.len();
        let row = self.cursor / self.columns;
        let col = self.cursor % self.columns;
        proof {
            let c = self.columns as int;
            let nn = n as int;
            if nn % c != 0 {
                assert(c >= 2);
                assert(nn / c <= nn / 2) by {
                    vstd::arithmetic::div_mod::lemma_div_is_ordered_by_denominator(nn, 2, c);
                }
            }
        }
        proof {
            let c = self.columns as int;
            if (n as int) % c != 0 {
                assert(c >= 2);
                assert((n as int) / c <= (n as int) / 2) by (nonlinear_arith)
                    requires c >= 2, n >= 0;
            }
        }
        let q = n / self.columns;
        let total_rows = if n % self.columns != 0 { q + 1 } else { q };
        match event.button {
            Button::DpadLeft => {
                if col > 0 {
                    assert(self.cursor > 0) by {
                        if self.cursor == 0 {
                            assert(0usize % self.columns == 0);
                        }
                    }
                    self.cursor -= 1;
                }
                self.ensure_visible();
                true
            }
            Button::DpadRight => {
                if col + 1 < self.columns && self.cursor + 1 < n {
                    self.cursor += 1;
                }
                self.ensure_visible();
                true
            }
            Button::DpadUp => {
                if row > 0 {
                    proof {
                        vstd::arithmetic::div_mod::lemma_fundamental_div_mod(
                            self.cursor as int,
                            self.columns as int,
                        );
                        assert(self.cursor >= self.columns) by (nonlinear_arith)
                            requires
                                self.cursor == self.columns * row + col,
                                row > 0,
                                col >= 0,
                        ;
                    }
                    self.cursor -= self.columns;
                }
                self.ensure_visible();
                true
            }
            Button::DpadDown => {
                if row + 1 < total_rows {
                    let new_cursor = self.cursor + self.columns;
                    self.cursor = if new_cursor < n - 1 { new_cursor } else { n - 1 };
                }
                self.ensure_visible();
                true
            }
            Button::L1 => {
                let jump = self.visible_rows * self.columns;
                self.cursor = self.cursor.saturating_sub(jump);
                self.ensure_visible();
                true
            }
            Button::R1 => {
                let jump = self.visible_rows * self.columns;
                let target = self.cursor + jump;
                self.cursor = if target < n - 1 { target } else { n - 1 };
                self.ensure_visible();
                true
            }
            _ => false,
        }
    }

    /// Ensure the cursor row is visible by adjusting `scroll_row`.
    fn ensure_visible(&mut self)
        requires
            old(self)@.wf(),
            scroll_fits(
                old(self)@.cursor,
                old(self)@.columns,
                old(self)@.scroll_row,
                old(self)@.visible_rows,
            ),
        ensures
            final(self)@ == (GridViewModel {
                scroll_row: scrolled_to(
                    old(self)@.cursor,
                    old(self)@.columns,
                    old(self)@.scroll_row,
                    old(self)@.visible_rows,
                ),
                ..old(self)@
            }),
            final(self)@.scroll_row <= final(self)@.cursor / final(self)@.columns
                < final(self)@.scroll_row + final(self)@.visible_rows,
    {
        if self.columns == 0 {
            return;
        }
        let cursor_row = self.cursor / self.columns;
        if cursor_row < self.scroll_row {
            self.scroll_row = cursor_row;
        }
        if cursor_row >= self.scroll_row + self.visible_rows {
            self.scroll_row = cursor_row + 1 - self.visible_rows;
        }
    }
}

/// Where a drawn grid goes.
#[derive(Debug, Clone, Copy, PartialEq, Eq, Structural)]
pub struct GridLayout {
    pub columns: usize,
    pub visible_rows: usize,
    /// Rows of items in all.
    pub total_rows: usize,
    /// Left offset that centres the columns.
    pub x_offset: i32,
}

/// How many cells of `cell` pixels with `padding` between them fit in
/// `avail` pixels (at least one).
pub open spec fn cells_fitting(avail: int, cell: int, padding: int) -> int {
    let q = trunc_div(avail + padding, cell + padding);
    if q > 1 { q } else { 1 }
}

/// The grid's drawing arithmetic stays within `i32` for a `width` by
/// `height` rectangle (cell plus padding is never zero).
pub open spec fn layout_fits(m: GridViewModel, width: int, height: int) -> bool {
    let cols = cells_fitting(width, m.cell_width, m.padding);
    &&& m.cell_width + m.padding != 0
    &&& m.cell_height + m.padding != 0
    &&& cols <= i32::MAX
    &&& i32::MIN <= width + m.padding <= i32::MAX
    &&& i32::MIN <= height + m.padding <= i32::MAX
    &&& i32::MIN <= m.cell_width + m.padding <= i32::MAX
    &&& i32::MIN <= m.cell_height + m.padding <= i32::MAX
    &&& i32::MIN <= cols * (m.cell_width + m.padding) <= i32::MAX
    &&& i32::MIN <= cols * (m.cell_width + m.padding) - m.padding <= i32::MAX
    &&& i32::MIN <= width - (cols * (m.cell_width + m.padding) - m.padding) <= i32::MAX
}

impl GridView {
    /// Layout step of drawing into a `width` by `height` rectangle: with no
    /// items nothing changes (the view says so instead). Otherwise records
    /// how many columns and rows fit, clamps the cursor onto the items,
    /// scrolls it into view, and returns the layout.
    pub fn layout(&mut self, width: i32, height: i32) -> (r: Option<GridLayout>)
        requires
            old(self)@.wf(),
            layout_fits(old(self)@, width as int, height as int),
            old(self)@.items.len() > 0 ==> scroll_fits(
                if old(self)@.cursor < old(self)@.items.len() - 1 { old(self)@.cursor } else { old(self)@.items.len() - 1 },
                cells_fitting(width as int, old(self)@.cell_width, old(self)@.padding),
                old(self)@.scroll_row,
                cells_fitting(height as int, old(self)@.cell_height, old(self)@.padding),
            ),
        ensures
            final(self)@.wf(),
            ({
                let m = old(self)@;
                let n = m.items.len() as int;
                if n == 0 {
                    r is None && final(self)@ == m
                } else {
                    let cols = cells_fitting(width as int, m.cell_width, m.padding);
                    let rows = cells_fitting(height as int, m.cell_height, m.padding);
                    let c = if m.cursor < n - 1 { m.cursor } else { n - 1 };
                    &&& final(self)@ == (GridViewModel {
                        columns: cols,
                        visible_rows: rows,
                        cursor: c,
                        scroll_row: scrolled_to(c, cols, m.scroll_row, rows),
                        ..m
                    })
                    &&& r == Some(GridLayout {
                        columns: cols as usize,
                        visible_rows: rows as usize,
                        total_rows: (n / cols + if n % cols != 0 { 1int } else { 0int }) as usize,
                        x_offset: trunc_div(width - (cols * (m.cell_width + m.padding) - m.padding), 2) as i32,
                    })
                }
            }),
    {
        let n = self.items.len();
        if n == 0 {
            return None;
        }
        let qc = trunc_div_i32(width + self.padding, self.cell_width + self.padding);
        let cols: i64 = if qc > 1 { qc } else { 1 };
        let qr = trunc_div_i32(height + self.padding, self.cell_height + self.padding);
        let rows: i64 = if qr > 1 { qr } else { 1 };
        proof {
            let a = (width + self.padding) as int;
            let b = (self.cell_width + self.padding) as int;
            let a2 = (height + self.padding) as int;
            let b2 = (self.cell_height + self.padding) as int;
            assert((if a < 0 { -a } else { a }) / (if b < 0 { -b } else { b }) <= (if a < 0 { -a } else { a }))
                by (nonlinear_arith)
                requires b != 0;
            assert((if a2 < 0 { -a2 } else { a2 }) / (if b2 < 0 { -b2 } else { b2 }) <= (if a2 < 0 { -a2 } else { a2 }))
                by (nonlinear_arith)
                requires b2 != 0;
        }
        self.columns = cols as usize;
        self.visible_rows = rows as usize;
        if self.cursor > n - 1 {
            self.cursor = n - 1;
        }
        self.ensure_visible();
        let q = n / self.columns;
        proof {
            let c = self.columns as int;
            if (n as int) % c != 0 {
                assert(c >= 2);
                assert((n as int) / c <= (n as int) / 2) by (nonlinear_arith)
                    requires c >= 2, n >= 0;
            }
        }
        let total_rows = if n % self.columns != 0 { q + 1 } else { q };
        let ci = cols as i32;
        assert(ci as int == cells_fitting(width as int, self.cell_width as int, self.padding as int));
        let grid_w = ci * (self.cell_width + self.padding) - self.padding;
        let x_offset = trunc_div_i32(width - grid_w, 2) as i32;
        Some(GridLayout { columns: self.columns, visible_rows: self.visible_rows, total_rows, x_offset })
    }
}

/// Grid navigation moves one cell left or right within a row and one row up
/// or down, and each move is undone by the opposite one where it moved.
pub proof fn lemma_grid_nav_round_trips(m: GridViewModel)
    requires
        m.wf(),
        0 <= m.cursor < m.items.len(),
    ensures
        ({
            let c = m.cursor;
            let k = m.columns;
            let n = m.items.len() as int;
            &&& (c % k + 1 < k && c + 1 < n) ==> grid_nav(m, Button::DpadRight) == Some(c + 1)
                && grid_nav(GridViewModel { cursor: c + 1, ..m }, Button::DpadLeft) == Some(c)
            &&& c % k > 0 ==> grid_nav(m, Button::DpadLeft) == Some(c - 1)
                && grid_nav(GridViewModel { cursor: c - 1, ..m }, Button::DpadRight) == Some(c)
            &&& c / k > 0 ==> grid_nav(m, Button::DpadUp) == Some(c - k)
                && grid_nav(GridViewModel { cursor: c - k, ..m }, Button::DpadDown) == Some(c)
            &&& c + k < n ==> grid_nav(m, Button::DpadDown) == Some(c + k)
                && grid_nav(GridViewModel { cursor: c + k, ..m }, Button::DpadUp) == Some(c)
        }),
{
    let c = m.cursor;
    let k = m.columns;
    let n = m.items.len() as int;
    let q = c / k;
    let r = c % k;
    vstd::arithmetic::div_mod::lemma_fundamental_div_mod(c, k);
    assert(0 <= r < k);
    assert(c == k * q + r);
    assert(q * k == k * q) by (nonlinear_arith);
    assert(q >= 0) by (nonlinear_arith)
        requires c >= 0, k >= 1, c == k * q + r, 0 <= r < k;
    if r + 1 < k {
        vstd::arithmetic::div_mod::lemma_fundamental_div_mod_converse(c + 1, k, q, r + 1);
    }
    if r > 0 {
        vstd::arithmetic::div_mod::lemma_fundamental_div_mod_converse(c - 1, k, q, r - 1);
    }
    if q > 0 {
        assert((q - 1) * k == q * k - k) by (nonlinear_arith);
        vstd::arithmetic::div_mod::lemma_fundamental_div_mod_converse(c - k, k, q - 1, r);
    }
    assert((q + 1) * k == q * k + k) by (nonlinear_arith);
    vstd::arithmetic::div_mod::lemma_fundamental_div_mod_converse(c + k, k, q + 1, r);
    let t = m.total_rows();
    let nq = n / k;
    let nr = n % k;
    vstd::arithmetic::div_mod::lemma_fundamental_div_mod(n, k);
    assert(n == k * nq + nr && 0 <= nr < k);
    assert(nq * k == k * nq) by (nonlinear_arith);
    if c + k < n {
        // Row q + 1 holds the cell c + k, so it is a row of the grid.
        assert(q + 1 < t) by (nonlinear_arith)
            requires c + k < n, c == q * k + r, 0 <= r < k, n == nq * k + nr, 0 <= nr < k, k >= 1,
                t == nq + if nr != 0 { 1int } else { 0int };
    }
    if q > 0 {
        assert(q < t) by (nonlinear_arith)
            requires c < n, c == q * k + r, 0 <= r < k, n == nq * k + nr, 0 <= nr < k, k >= 1,
                t == nq + if nr != 0 { 1int } else { 0int };
    }
}

} // verus!
