//! Scrollable focus list with D-pad navigation and L1/R1 paging.

use vstd::prelude::*;

use crate::input::{Button, InputAction, InputEvent};

verus! {

/// An item in a ListView.
#[derive(Clone, Debug)]
pub struct ListItem {
    pub id: String,
    pub primary_text: String,
    pub secondary_text: String,
    pub right_text: String,
    /// Application-defined tag for custom rendering or data association.
    pub tag: i64,
}

impl ListItem {
    pub fn new(id: &str, primary: &str) -> (item: Self)
        ensures
            item.id@ == id@,
            item.primary_text@ == primary@,
            item.secondary_text@ == Seq::<char>::empty(),
            item.right_text@ == Seq::<char>::empty(),
            item.tag == 0,
    {
        Self {
            id: id.to_owned(),
            primary_text: primary.to_owned(),
            secondary_text: String::new(),
            right_text: String::new(),
            tag: 0,
        }
    }

    pub fn with_secondary(self, text: &str) -> (item: Self)
        ensures
            item == (ListItem { secondary_text: item.secondary_text, ..self }),
            item.secondary_text@ == text@,
    {
        let mut s = self;
        s.secondary_text = text.to_owned();
        s
    }

    pub fn with_right(self, text: &str) -> (item: Self)
        ensures
            item == (ListItem { right_text: item.right_text, ..self }),
            item.right_text@ == text@,
    {
        let mut s = self;
        s.right_text = text.to_owned();
        s
    }

    pub fn with_tag(self, tag: i64) -> (item: Self)
        ensures
            item == (ListItem { tag: tag, ..self }),
    {
        let mut s = self;
        s.tag = tag;
        s
    }
}


/// Scrollable list with card-style items and D-pad navigation.
///
/// Default item height is 48px; 32 for compact mode. D-pad Up/Down moves the
/// cursor, L1/R1 page by the number of rows that fit, A selects.
pub struct ListView {
    pub items: Vec<ListItem>,
    pub cursor: usize,
    pub item_height: i32,
    last_visible_count: usize,
}

/// Where navigation moves a cursor over `len` items, paging by `page` rows;
/// `None` when the button is not a navigation button.
pub open spec fn list_nav(cursor: int, len: int, page: int, button: Button) -> Option<int> {
    match button {
        Button::DpadUp => Some(if cursor > 0 { cursor - 1 } else { cursor }),
        Button::DpadDown => Some(if cursor + 1 < len { cursor + 1 } else { cursor }),
        Button::L1 => Some(if cursor > page { cursor - page } else { 0 }),
        Button::R1 => Some(if cursor + page < len - 1 { cursor + page } else { len - 1 }),
        _ => None,
    }
}

/// Integer division rounding toward zero, as Rust's `/` on signed integers.
pub open spec fn trunc_div(a: int, b: int) -> int {
    let q = (if a < 0 { -a } else { a }) / (if b < 0 { -b } else { b });
    if (a < 0) != (b < 0) { -q } else { q }
}

/// First row of the visible window: the row above the cursor stays in view
/// while the window never runs past the end of the list.
pub open spec fn spec_window_start(cursor: int, total: int, visible: int) -> int {
    if total <= visible {
        0
    } else {
        let start = if cursor > 0 { cursor - 1 } else { 0 };
        if start < total - visible { start } else { total - visible }
    }
}

/// Abstract state of a [`ListView`].
pub struct ListViewModel {
    pub items: Seq<ListItem>,
    pub cursor: int,
    pub item_height: int,
    /// Rows per L1/R1 page: the rows that fit at the last layout, at least one.
    pub page_rows: int,
}

impl View for ListView {
    type V = ListViewModel;

    closed spec fn view(&self) -> ListViewModel {
        ListViewModel {
            items: self.items@,
            cursor: self.cursor as int,
            item_height: self.item_height as int,
            page_rows: if self.last_visible_count == 0 { 1 } else { self.last_visible_count as int },
        }
    }
}

impl ListView {
    /// `items`, as the view holds it.
    pub fn items(&self) -> (r: &Vec<ListItem>)
        ensures
            r@ == self@.items,
    {
        &self.items
    }

    /// `cursor`, as the view holds it.
    pub fn cursor(&self) -> (r: usize)
        ensures
            r == self@.cursor,
    {
        self.cursor
    }

    /// `item_height`, as the view holds it.
    pub fn item_height(&self) -> (r: i32)
        ensures
            r == self@.item_height,
    {
        self.item_height
    }


    pub fn new(items: Vec<ListItem>, item_height: i32) -> (lv: Self)
        ensures
            lv@.items == items@,
            lv@.cursor == 0,
            lv@.item_height == item_height,
            lv@.page_rows == 10,
    {
        Self { items, cursor: 0, item_height, last_visible_count: 10 }
    }

    /// Create with default 48px row height.
    pub fn default_height(items: Vec<ListItem>) -> (lv: Self)
        ensures
            lv@.items == items@,
            lv@.cursor == 0,
            lv@.item_height == 48,
            lv@.page_rows == 10,
    {
        Self::new(items, 48)
    }

    /// Create with compact 32px row height.
    pub fn compact(items: Vec<ListItem>) -> (lv: Self)
        ensures
            lv@.items == items@,
            lv@.cursor == 0,
            lv@.item_height == 32,
            lv@.page_rows == 10,
    {
        Self::new(items, 32)
    }

    /// Get the currently focused item, if any.
    pub fn focused_item(&self) -> (r: Option<&ListItem>)
        ensures
            0 <= self@.cursor < self@.items.len() ==> r == Some(&self@.items[self@.cursor]),
            self@.cursor >= self@.items.len() ==> r.is_none(),
    {
        if self.cursor < self.items.len() {
            Some(&self.items[self.cursor])
        } else {
            None
        }
    }

    /// Handle D-pad and paging input. Returns `true` if consumed.
    pub fn handle_input(&mut self, event: &InputEvent) -> (consumed: bool)
        requires
            old(self)@.items.len() > 0 && event.action != InputAction::Release
                && event.button == Button::DpadDown ==> old(self)@.cursor < usize::MAX,
            old(self)@.items.len() > 0 && event.action != InputAction::Release
                && event.button == Button::R1 ==> old(self)@.cursor + old(self)@.page_rows
                <= usize::MAX,
        ensures
            final(self)@.items == old(self)@.items,
            final(self)@.item_height == old(self)@.item_height,
            final(self)@.page_rows == old(self)@.page_rows,
            ({
                let len = old(self)@.items.len() as int;
                if len == 0 || event.action == InputAction::Release {
                    !consumed && final(self)@.cursor == old(self)@.cursor
                } else {
                    match list_nav(old(self)@.cursor, len, old(self)@.page_rows, event.button) {
                        Some(c) => consumed && final(self)@.cursor == c,
                        None => !consumed && final(self)@.cursor == old(self)@.cursor,
                    }
                }
            }),
            old(self)@.cursor < old(self)@.items.len() ==> final(self)@.cursor < final(self)@.items.len(),
    {
        if self.items.len() == 0 {
            return false;
        }
        if event.action == InputAction::Release {
            return false;
        }
        match event.button {
            Button::DpadUp => {
                if self.cursor > 0 {
                    self.cursor -= 1;
                }
                true
            }
            Button::DpadDown => {
                if self.cursor + 1 < self.items.len() {
                    self.cursor += 1;
                }
                true
            }
            Button::L1 => {
                let page = if self.last_visible_count == 0 { 1 } else { self.last_visible_count };
                self.cursor = self.cursor.saturating_sub(page);
                true
            }
            Button::R1 => {
                let page = if self.last_visible_count == 0 { 1 } else { self.last_visible_count };
                let last = self.items.len() - 1;
                let target = self.cursor + page;
                self.cursor = if target < last { target } else { last };
                true
            }
            _ => false,
        }
    }

    /// Returns true if the event is an A press on the current item.
    pub fn is_select_event(&self, event: &InputEvent) -> (r: bool)
        ensures
            r == (event.button == Button::A && event.action == InputAction::Press
                && self@.items.len() > 0),
    {
        event.button == Button::A && event.action == InputAction::Press && self.items.len() > 0
    }

    /// Layout step of drawing into a rect `rect_height` pixels tall: records
    /// how many rows fit (at least one), clamps the cursor onto the list and
    /// returns the half-open range of item indices to draw.
    pub fn layout(&mut self, rect_height: i32) -> (range: (usize, usize))
        requires
            old(self)@.item_height != 0,
            !(rect_height == i32::MIN && old(self)@.item_height == -1),
        ensures
            ({
                let q = trunc_div(rect_height as int, old(self)@.item_height);
                let rows = if q > 1 { q } else { 1 };
                let n = old(self)@.items.len() as int;
                &&& final(self)@.items == old(self)@.items
                &&& final(self)@.item_height == old(self)@.item_height
                &&& final(self)@.page_rows == rows
                &&& n == 0 ==> final(self)@.cursor == old(self)@.cursor && range == (0usize, 0usize)
                &&& n > 0 ==> {
                    let c = if old(self)@.cursor < n - 1 { old(self)@.cursor } else { n - 1 };
                    let start = spec_window_start(c, n, rows);
                    &&& final(self)@.cursor == c
                    &&& range.0 == start
                    &&& range.1 == (if start + rows < n { start + rows } else { n })
                }
            }),
    {
        let q = trunc_div_i32(rect_height, self.item_height);
        let visible_count: usize = if q > 1 { q as usize } else { 1 };
        self.last_visible_count = visible_count;
        let n = self.items.len();
        if n == 0 {
            return (0, 0);
        }
        if self.cursor > n - 1 {
            self.cursor = n - 1;
        }
        let start = window_start(self.cursor, n, visible_count);
        let end = if start + visible_count < n { start + visible_count } else { n };
        (start, end)
    }
}

/// Rust's truncating `a / b`, computed on magnitudes.
pub(crate) fn trunc_div_i32(a: i32, b: i32) -> (q: i64)
    requires
        b != 0,
    ensures
        q == trunc_div(a as int, b as int),
{
    let a = a as i64;
    let b = b as i64;
    if a >= 0 {
        if b > 0 { a / b } else { -(a / (-b)) }
    } else {
        if b > 0 { -((-a) / b) } else { (-a) / (-b) }
    }
}

/// First row of the sliding window over `total` rows of which `visible` fit.
pub fn window_start(cursor: usize, total: usize, visible: usize) -> (start: usize)
    ensures
        start == spec_window_start(cursor as int, total as int, visible as int),
        start <= cursor,
        total > visible ==> start + visible <= total,
        cursor < total && visible >= 2 ==> cursor < start + visible,
{
    if total <= visible {
        return 0;
    }
    let start = cursor.saturating_sub(1);
    if start < total - visible { start } else { total - visible }
}

/// List navigation moves the cursor one item with Up/Down and one page
/// with L1/R1, stopping at the ends; Down then Up (or Up then Down) comes
/// back to the same item away from the ends.
pub proof fn lemma_list_nav_steps(cursor: int, len: int, page: int)
    requires
        0 <= cursor < len,
        page >= 1,
    ensures
        list_nav(cursor, len, page, Button::DpadDown) == Some(if cursor + 1 < len { cursor + 1 } else { len - 1 }),
        list_nav(cursor, len, page, Button::DpadUp) == Some(if cursor >= 1 { cursor - 1 } else { 0int }),
        list_nav(cursor, len, page, Button::R1) == Some(if cursor + page <= len - 1 { cursor + page } else { len - 1 }),
        list_nav(cursor, len, page, Button::L1) == Some(if cursor >= page { cursor - page } else { 0int }),
        cursor + 1 < len ==> list_nav(list_nav(cursor, len, page, Button::DpadDown)->0, len, page, Button::DpadUp)
            == Some(cursor),
        cursor > 0 ==> list_nav(list_nav(cursor, len, page, Button::DpadUp)->0, len, page, Button::DpadDown)
            == Some(cursor),
        list_nav(cursor, len, page, Button::A) is None,
{
}

} // verus!
