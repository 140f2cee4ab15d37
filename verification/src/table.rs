//! Columnar data table: rows of cells, a cursor row, and per-column colour
//! rules. The column definitions (header, width share, alignment) and the
//! colour rules are carried as given; the table only navigates.

use vstd::prelude::*;

use crate::input::{Button, InputAction, InputEvent};

verus! {

/// A table over columns of type `C` with colour rules of type `F`.
/// D-pad Up/Down moves the cursor; A selects.
pub struct Table<C, F> {
    pub columns: Vec<C>,
    pub rows: Vec<Vec<String>>,
    pub cursor: usize,
    /// Optional colour rule for each column's cells.
    pub color_fns: Vec<Option<F>>,
}

impl<C, F: Copy> Table<C, F> {
    /// A table with the cursor on the first row and no colour rules.
    pub fn new(columns: Vec<C>, rows: Vec<Vec<String>>) -> (t: Self)
        ensures
            t.columns@ == columns@,
            t.rows@ == rows@,
            t.cursor == 0,
            t.color_fns@.len() == columns@.len(),
            forall|i: int| 0 <= i < t.color_fns@.len() ==> t.color_fns@[i] is None,
    {
        let n = columns.len();
        let mut color_fns: Vec<Option<F>> = Vec::new();
        let mut i: usize = 0;
        while i < n
            invariant
                i <= n,
                color_fns@.len() == i,
                forall|j: int| 0 <= j < i ==> color_fns@[j] is None,
            decreases n - i,
        {
            color_fns.push(None);
            i += 1;
        }
        Table { columns, rows, cursor: 0, color_fns }
    }

    /// Set the colour rule of column `col_index` (ignored past the last
    /// column).
    pub fn set_color_fn(&mut self, col_index: usize, f: F)
        ensures
            final(self).columns == old(self).columns,
            final(self).rows == old(self).rows,
            final(self).cursor == old(self).cursor,
            final(self).color_fns@ == (if col_index < old(self).color_fns@.len() {
                old(self).color_fns@.update(col_index as int, Some(f))
            } else {
                old(self).color_fns@
            }),
    {
        if col_index < self.color_fns.len() {
            self.color_fns.set(col_index, Some(f));
        }
    }

    /// The row under the cursor, if any.
    pub fn focused_row(&self) -> (r: Option<&Vec<String>>)
        ensures
            match r {
                Some(row) => self.cursor < self.rows@.len() && *row == self.rows@[self.cursor as int],
                None => self.cursor >= self.rows@.len(),
            },
    {
        if self.cursor < self.rows.len() {
            Some(&self.rows[self.cursor])
        } else {
            None
        }
    }

    /// Handle D-pad input: Up/Down move the cursor within the rows.
    /// Returns `true` if consumed (never on an empty table or a release).
    pub fn handle_input(&mut self, event: &InputEvent) -> (consumed: bool)
        requires
            old(self).rows@.len() > 0 && event.action != InputAction::Release && event.button
                == Button::DpadDown ==> old(self).cursor < usize::MAX,
        ensures
            final(self).columns == old(self).columns,
            final(self).rows == old(self).rows,
            final(self).color_fns == old(self).color_fns,
            ({
                let len = old(self).rows@.len() as int;
                let c = old(self).cursor as int;
                if len == 0 || event.action == InputAction::Release {
                    !consumed && final(self).cursor == c
                } else if event.button == Button::DpadUp {
                    consumed && final(self).cursor == (if c > 0 { c - 1 } else { c })
                } else if event.button == Button::DpadDown {
                    consumed && final(self).cursor == (if c + 1 < len { c + 1 } else { c })
                } else {
                    !consumed && final(self).cursor == c
                }
            }),
    {
        if self.rows.len() == 0 || event.action == InputAction::Release {
            return false;
        }
        match event.button {
            Button::DpadUp => {
                if self.cursor > 0 {
                    self.cursor -= 1;
                }
                true
            },
            Button::DpadDown => {
                if self.cursor + 1 < self.rows.len() {
                    self.cursor += 1;
                }
                true
            },
            _ => false,
        }
    }

    /// An A press on a table with rows selects the current row.
    pub fn is_select_event(&self, event: &InputEvent) -> (r: bool)
        ensures
            r == (event.button == Button::A && event.action == InputAction::Press && self.rows@.len() > 0),
    {
        event.button == Button::A && event.action == InputAction::Press && self.rows.len() > 0
    }
}

} // verus!
