//! On-screen QWERTY keyboard for text entry (WiFi passwords, search, ...).
//!
//! Controls: D-pad navigates the key grid, A types the focused key, B deletes
//! before the cursor (cancels on empty input), X toggles shift, Y inserts a
//! space, L1/R1 move the cursor, START submits and SELECT cancels.

use std::time::Instant;

use vstd::prelude::*;

use crate::clock::{instant_now, nanos_since};
use crate::fmt::string_push;
use crate::input::{Button, InputAction, InputEvent};
use vstd::utf8::is_ascii_chars;
use vstd::string::StringSliceAdditionalSpecFns;

verus! {

broadcast use vstd::string::group_string_axioms;

/// Keys per keyboard row.
pub const COLS: usize = 10;

/// Keyboard rows.
pub const ROWS: usize = 4;

/// Longest text the keyboard accepts.
pub const MAX_INPUT_LEN: usize = 64;

/// Outcome of a text-entry session.
#[derive(Clone, Debug, PartialEq, Eq)]
pub enum TextInputResult {
    Pending,
    Submitted(String),
    Cancelled,
}

/// Abstract [`TextInputResult`].
pub enum InputOutcome {
    Pending,
    Submitted(Seq<char>),
    Cancelled,
}

impl View for TextInputResult {
    type V = InputOutcome;

    open spec fn view(&self) -> InputOutcome {
        match self {
            TextInputResult::Pending => InputOutcome::Pending,
            TextInputResult::Submitted(s) => InputOutcome::Submitted(s@),
            TextInputResult::Cancelled => InputOutcome::Cancelled,
        }
    }
}

/// The character on the key at (`row`, `col`) of the lower or shifted layout.
pub open spec fn key_char(shifted: bool, row: int, col: int) -> char {
    let lower = seq![
        seq!['1', '2', '3', '4', '5', '6', '7', '8', '9', '0'],
        seq!['q', 'w', 'e', 'r', 't', 'y', 'u', 'i', 'o', 'p'],
        seq!['a', 's', 'd', 'f', 'g', 'h', 'j', 'k', 'l', '@'],
        seq!['z', 'x', 'c', 'v', 'b', 'n', 'm', '.', '-', '_'],
    ];
    let upper = seq![
        seq!['!', '#', '$', '%', '&', '*', '(', ')', '+', '='],
        seq!['Q', 'W', 'E', 'R', 'T', 'Y', 'U', 'I', 'O', 'P'],
        seq!['A', 'S', 'D', 'F', 'G', 'H', 'J', 'K', 'L', ':'],
        seq!['Z', 'X', 'C', 'V', 'B', 'N', 'M', ';', '?', '/'],
    ];
    if shifted { upper[row][col] } else { lower[row][col] }
}

fn key_at(shifted: bool, row: usize, col: usize) -> (c: char)
    requires
        row < ROWS,
        col < COLS,
    ensures
        c == key_char(shifted, row as int, col as int),
        '\0' <= c <= '\u{7f}',
{
    let keys: [char; 10] = if shifted {
        match row {
            0 => ['!', '#', '$', '%', '&', '*', '(', ')', '+', '='],
            1 => ['Q', 'W', 'E', 'R', 'T', 'Y', 'U', 'I', 'O', 'P'],
            2 => ['A', 'S', 'D', 'F', 'G', 'H', 'J', 'K', 'L', ':'],
            _ => ['Z', 'X', 'C', 'V', 'B', 'N', 'M', ';', '?', '/'],
        }
    } else {
        match row {
            0 => ['1', '2', '3', '4', '5', '6', '7', '8', '9', '0'],
            1 => ['q', 'w', 'e', 'r', 't', 'y', 'u', 'i', 'o', 'p'],
            2 => ['a', 's', 'd', 'f', 'g', 'h', 'j', 'k', 'l', '@'],
            _ => ['z', 'x', 'c', 'v', 'b', 'n', 'm', '.', '-', '_'],
        }
    };
    keys[col]
}

/// `String::insert`: inserts `ch` at byte position `idx`. On an ASCII string
/// byte positions are character positions, so the character lands at index
/// `idx` of the text.
#[verifier::external_body]
fn string_insert(s: &mut String, idx: usize, ch: char)
    requires
        is_ascii_chars(old(s)@),
        idx <= old(s)@.len(),
    ensures
        final(s)@ == old(s)@.insert(idx as int, ch),
{
    s.insert(idx, ch)
}

/// `String::remove`: removes and returns the character at byte position
/// `idx`, which on an ASCII string is character index `idx`.
#[verifier::external_body]
fn string_remove(s: &mut String, idx: usize) -> (c: char)
    requires
        is_ascii_chars(old(s)@),
        idx < old(s)@.len(),
    ensures
        c == old(s)@[idx as int],
        final(s)@ == old(s)@.remove(idx as int),
{
    s.remove(idx)
}

pub struct TextInput {
    pub label: String,
    pub text: String,
    pub cursor_pos: usize,
    pub visible: bool,
    pub result: TextInputResult,
    /// If true, display characters as '*' in the input field.
    pub masked: bool,
    grid_row: usize,
    grid_col: usize,
    shifted: bool,
    show_time: Instant,
    last_type_time: Option<Instant>,
}

/// Abstract state of a [`TextInput`].
pub struct TextInputModel {
    pub label: Seq<char>,
    pub text: Seq<char>,
    pub cursor_pos: int,
    pub visible: bool,
    pub result: InputOutcome,
    pub masked: bool,
    pub grid_row: int,
    pub grid_col: int,
    pub shifted: bool,
    /// A key was typed or deleted since the keyboard was shown (the time
    /// of the last keystroke is kept).
    pub typed: bool,
}

impl TextInputModel {
    /// The text is ASCII (all keys are), the cursor sits inside it and the
    /// focused key is on the keyboard.
    pub open spec fn wf(self) -> bool {
        &&& is_ascii_chars(self.text)
        &&& self.text.len() <= usize::MAX
        &&& 0 <= self.cursor_pos <= self.text.len()
        &&& 0 <= self.grid_row < ROWS
        &&& 0 <= self.grid_col < COLS
    }

    /// Insert `ch` at the cursor when there is room.
    pub open spec fn typed(self, ch: char) -> TextInputModel {
        if self.text.len() < MAX_INPUT_LEN {
            TextInputModel {
                text: self.text.insert(self.cursor_pos, ch),
                cursor_pos: self.cursor_pos + 1,
                typed: true,
                ..self
            }
        } else {
            self
        }
    }

    /// The state after a press or repeat of `button` on a visible, pending input.
    pub open spec fn step(self, button: Button) -> TextInputModel {
        match button {
            Button::DpadUp => TextInputModel {
                grid_row: if self.grid_row > 0 { self.grid_row - 1 } else { self.grid_row },
                ..self
            },
            Button::DpadDown => TextInputModel {
                grid_row: if self.grid_row < ROWS - 1 { self.grid_row + 1 } else { self.grid_row },
                ..self
            },
            Button::DpadLeft => TextInputModel {
                grid_col: if self.grid_col > 0 { self.grid_col - 1 } else { self.grid_col },
                ..self
            },
            Button::DpadRight => TextInputModel {
                grid_col: if self.grid_col < COLS - 1 { self.grid_col + 1 } else { self.grid_col },
                ..self
            },
            Button::A => self.typed(key_char(self.shifted, self.grid_row, self.grid_col)),
            Button::B => if self.cursor_pos > 0 {
                TextInputModel {
                    text: self.text.remove(self.cursor_pos - 1),
                    cursor_pos: self.cursor_pos - 1,
                    typed: true,
                    ..self
                }
            } else if self.text.len() == 0 {
                TextInputModel { result: InputOutcome::Cancelled, visible: false, ..self }
            } else {
                self
            },
            Button::X => TextInputModel { shifted: !self.shifted, ..self },
            Button::Y => self.typed(' '),
            Button::L1 => TextInputModel {
                cursor_pos: if self.cursor_pos > 0 { self.cursor_pos - 1 } else { 0 },
                ..self
            },
            Button::R1 => TextInputModel {
                cursor_pos: if self.cursor_pos < self.text.len() {
                    self.cursor_pos + 1
                } else {
                    self.cursor_pos
                },
                ..self
            },
            Button::Start => TextInputModel {
                result: InputOutcome::Submitted(self.text),
                visible: false,
                ..self
            },
            Button::Select => TextInputModel {
                result: InputOutcome::Cancelled,
                visible: false,
                ..self
            },
            _ => self,
        }
    }
}

impl TextInputModel {
    /// The state and result after one event.
    pub open spec fn react(self, event: InputEvent) -> (TextInputModel, InputOutcome) {
        if !self.visible || !(self.result is Pending) {
            (self, self.result)
        } else if event.action == InputAction::Release {
            (self, InputOutcome::Pending)
        } else {
            let n = self.step(event.button);
            (n, n.result)
        }
    }
}

/// Half-period of the text cursor's blink, in milliseconds.
pub const CURSOR_BLINK_MS: u64 = 500;

/// How long a typed character is echoed, in milliseconds.
pub const ECHO_MS: u64 = 600;

/// The cursor shows during even half-periods since the keyboard was shown.
pub open spec fn blink_on(ms: int) -> bool {
    (ms / CURSOR_BLINK_MS as int) % 2 == 0
}

impl TextInputModel {
    /// The text as displayed: one `*` per character when masked.
    pub open spec fn display_text(self) -> Seq<char> {
        if self.masked { Seq::new(self.text.len(), |i: int| '*') } else { self.text }
    }

    /// The character echoed `ms` milliseconds after the last keystroke: the
    /// one before the cursor (`*` when masked), for a short while.
    pub open spec fn echo_at(self, ms: int) -> Option<char> {
        if self.typed && ms < ECHO_MS && self.text.len() > 0 && self.cursor_pos > 0 {
            Some(if self.masked { '*' } else { self.text[self.cursor_pos - 1] })
        } else {
            None
        }
    }
}

impl View for TextInput {
    type V = TextInputModel;

    closed spec fn view(&self) -> TextInputModel {
        TextInputModel {
            label: self.label@,
            text: self.text@,
            cursor_pos: self.cursor_pos as int,
            visible: self.visible,
            result: self.result@,
            masked: self.masked,
            grid_row: self.grid_row as int,
            grid_col: self.grid_col as int,
            shifted: self.shifted,
            typed: self.last_type_time is Some,
        }
    }
}

fn clone_result(r: &TextInputResult) -> (c: TextInputResult)
    ensures
        c@ == r@,
{
    match r {
        TextInputResult::Pending => TextInputResult::Pending,
        TextInputResult::Submitted(s) => TextInputResult::Submitted(s.clone()),
        TextInputResult::Cancelled => TextInputResult::Cancelled,
    }
}

impl TextInput {
    /// `label`, as the view holds it.
    pub fn label(&self) -> (r: &String)
        ensures
            r@ == self@.label,
    {
        &self.label
    }

    /// `text`, as the view holds it.
    pub fn text(&self) -> (r: &String)
        ensures
            r@ == self@.text,
    {
        &self.text
    }

    /// `cursor_pos`, as the view holds it.
    pub fn cursor_pos(&self) -> (r: usize)
        ensures
            r == self@.cursor_pos,
    {
        self.cursor_pos
    }

    /// `result`, as the view holds it.
    pub fn result(&self) -> (r: &TextInputResult)
        ensures
            r@ == self@.result,
    {
        &self.result
    }

    /// `masked`, as the view holds it.
    pub fn masked(&self) -> (r: bool)
        ensures
            r == self@.masked,
    {
        self.masked
    }

    pub fn new(label: &str) -> (t: Self)
        ensures
            t@ == (TextInputModel {
                label: label@,
                text: Seq::empty(),
                cursor_pos: 0,
                visible: false,
                result: InputOutcome::Pending,
                masked: false,
                grid_row: 1,
                grid_col: 0,
                shifted: false,
                typed: false,
            }),
            t@.wf(),
    {
        Self {
            label: label.to_owned(),
            text: String::new(),
            cursor_pos: 0,
            visible: false,
            result: TextInputResult::Pending,
            masked: false,
            grid_row: 1,
            grid_col: 0,
            shifted: false,
            show_time: instant_now(),
            last_type_time: None,
        }
    }

    /// The text as displayed: one `*` per character when masked.
    pub fn display_text(&self) -> (r: String)
        ensures
            r@ == self@.display_text(),
    {
        if !self.masked {
            return self.text.clone();
        }
        let n = self.text.unicode_len();
        let mut r = String::new();
        let mut i: usize = 0;
        while i < n
            invariant
                i <= n,
                r@ == Seq::new(i as nat, |k: int| '*'),
            decreases n - i,
        {
            string_push(&mut r, '*');
            assert(r@ =~= Seq::new(i as nat + 1, |k: int| '*'));
            i += 1;
        }
        r
    }

    /// Whether the cursor shows `ms` milliseconds after the keyboard was
    /// shown.
    pub fn cursor_visible_at(ms: u64) -> (b: bool)
        ensures
            b == blink_on(ms as int),
    {
        (ms / CURSOR_BLINK_MS) % 2 == 0
    }

    /// Whether the cursor shows now.
    pub fn cursor_visible(&self) -> (b: bool)
        ensures
            exists|ms: u64| b == #[trigger] blink_on(ms as int),
    {
        let ms = nanos_since(&self.show_time) / 1_000_000;
        Self::cursor_visible_at(ms)
    }

    /// The character echoed `ms` milliseconds after the last keystroke.
    pub fn echo_at(&self, ms: u64) -> (c: Option<char>)
        requires
            self@.wf(),
        ensures
            c == self@.echo_at(ms as int),
    {
        if self.last_type_time.is_some() && ms < ECHO_MS && self.text.unicode_len() > 0 && self.cursor_pos > 0 {
            Some(if self.masked { '*' } else { self.text.as_str().get_char(self.cursor_pos - 1) })
        } else {
            None
        }
    }

    /// The character echoed now, if any.
    pub fn last_typed(&self) -> (c: Option<char>)
        requires
            self@.wf(),
        ensures
            exists|ms: u64| c == #[trigger] self@.echo_at(ms as int),
    {
        match &self.last_type_time {
            Some(t) => {
                let ms = nanos_since(t) / 1_000_000;
                self.echo_at(ms)
            },
            None => {
                assert(self@.echo_at(0) is None);
                None
            },
        }
    }

    /// The keyboard is shown.
    pub fn is_visible(&self) -> (b: bool)
        ensures
            b == self@.visible,
    {
        self.visible
    }

    /// Show the input dialog and reset all state.
    pub fn show(&mut self, label: &str)
        ensures
            final(self)@ == (TextInputModel {
                label: label@,
                text: Seq::empty(),
                cursor_pos: 0,
                visible: true,
                result: InputOutcome::Pending,
                grid_row: 1,
                grid_col: 0,
                shifted: false,
                typed: false,
                ..old(self)@
            }),
            final(self)@.wf(),
    {
        self.label = label.to_owned();
        self.text = String::new();
        self.cursor_pos = 0;
        self.visible = true;
        self.result = TextInputResult::Pending;
        self.grid_row = 1;
        self.grid_col = 0;
        self.shifted = false;
        self.show_time = instant_now();
        self.last_type_time = None;
    }

    /// Handle a single input event. Returns the current result.
    pub fn handle_input(&mut self, event: &InputEvent) -> (r: TextInputResult)
        requires
            old(self)@.wf(),
        ensures
            final(self)@.wf(),
            (final(self)@, r@) == old(self)@.react(*event),
            !old(self)@.visible || !(old(self)@.result is Pending) ==> {
                &&& final(self)@ == old(self)@
                &&& r@ == old(self)@.result
            },
            old(self)@.visible && old(self)@.result is Pending && event.action
                == InputAction::Release ==> {
                &&& final(self)@ == old(self)@
                &&& r@ == InputOutcome::Pending
            },
            old(self)@.visible && old(self)@.result is Pending && event.action
                != InputAction::Release ==> {
                &&& final(self)@ == old(self)@.step(event.button)
                &&& r@ == final(self)@.result
            },
            final(self)@.text.len() <= old(self)@.text.len() || final(self)@.text.len()
                <= MAX_INPUT_LEN,
    {
        if !self.visible || !matches!(self.result, TextInputResult::Pending) {
            return clone_result(&self.result);
        }
        if event.action == InputAction::Release {
            return TextInputResult::Pending;
        }
        let st = self.text.as_str();
        let len = st.len();
        proof {
            vstd::utf8::is_ascii_chars_encode_utf8(self.text@);
            assert(st.spec_bytes() == vstd::utf8::encode_utf8(st@));
        }
        assert(len == self.text@.len());
        match event.button {
            Button::DpadUp => {
                if self.grid_row > 0 {
                    self.grid_row -= 1;
                }
            }
            Button::DpadDown => {
                if self.grid_row < ROWS - 1 {
                    self.grid_row += 1;
                }
            }
            Button::DpadLeft => {
                if self.grid_col > 0 {
                    self.grid_col -= 1;
                }
            }
            Button::DpadRight => {
                if self.grid_col < COLS - 1 {
                    self.grid_col += 1;
                }
            }
            Button::A => {
                if len < MAX_INPUT_LEN {
                    let ch = key_at(self.shifted, self.grid_row, self.grid_col);
                    string_insert(&mut self.text, self.cursor_pos, ch);
                    self.cursor_pos += 1;
                    self.last_type_time = Some(instant_now());
                }
            }
            Button::B => {
                if self.cursor_pos > 0 {
                    self.cursor_pos -= 1;
                    string_remove(&mut self.text, self.cursor_pos);
                    self.last_type_time = Some(instant_now());
                } else if len == 0 {
                    self.result = TextInputResult::Cancelled;
                    self.visible = false;
                }
            }
            Button::X => {
                self.shifted = !self.shifted;
            }
            Button::Y => {
                if len < MAX_INPUT_LEN {
                    string_insert(&mut self.text, self.cursor_pos, ' ');
                    self.cursor_pos += 1;
                    self.last_type_time = Some(instant_now());
                }
            }
            Button::L1 => {
                if self.cursor_pos > 0 {
                    self.cursor_pos -= 1;
                }
            }
            Button::R1 => {
                if self.cursor_pos < len {
                    self.cursor_pos += 1;
                }
            }
            Button::Start => {
                self.result = TextInputResult::Submitted(self.text.clone());
                self.visible = false;
            }
            Button::Select => {
                self.result = TextInputResult::Cancelled;
                self.visible = false;
            }
            _ => {}
        }
        clone_result(&self.result)
    }
}

/// The d-pad moves the focused key one step, stopping at the keyboard's
/// edges, and nothing else: Down and Up go one row (Up then Down, or Down
/// then Up, comes back to the same row away from the edges), Left and
/// Right one column, and the text, cursor and result stay as they are.
pub proof fn lemma_dpad_moves_one_key(m: TextInputModel)
    requires
        m.wf(),
    ensures
        m.step(Button::DpadDown).grid_row == (if m.grid_row + 1 < ROWS { m.grid_row + 1 } else { m.grid_row }),
        m.step(Button::DpadUp).grid_row == (if m.grid_row > 0 { m.grid_row - 1 } else { 0 }),
        m.step(Button::DpadRight).grid_col == (if m.grid_col + 1 < COLS { m.grid_col + 1 } else { m.grid_col }),
        m.step(Button::DpadLeft).grid_col == (if m.grid_col > 0 { m.grid_col - 1 } else { 0 }),
        m.grid_row > 0 ==> m.step(Button::DpadUp).step(Button::DpadDown).grid_row == m.grid_row,
        m.grid_row + 1 < ROWS ==> m.step(Button::DpadDown).step(Button::DpadUp).grid_row == m.grid_row,
        m.grid_col > 0 ==> m.step(Button::DpadLeft).step(Button::DpadRight).grid_col == m.grid_col,
        m.grid_col + 1 < COLS ==> m.step(Button::DpadRight).step(Button::DpadLeft).grid_col == m.grid_col,
        m.step(Button::DpadDown).grid_col == m.grid_col,
        m.step(Button::DpadUp).grid_col == m.grid_col,
        m.step(Button::DpadLeft).grid_row == m.grid_row,
        m.step(Button::DpadRight).grid_row == m.grid_row,
        m.step(Button::DpadDown).text == m.text && m.step(Button::DpadDown).cursor_pos == m.cursor_pos,
        m.step(Button::DpadUp).text == m.text && m.step(Button::DpadUp).cursor_pos == m.cursor_pos,
        m.step(Button::DpadLeft).text == m.text && m.step(Button::DpadLeft).cursor_pos == m.cursor_pos,
        m.step(Button::DpadRight).text == m.text && m.step(Button::DpadRight).cursor_pos == m.cursor_pos,
{
}

/// Typing with A inserts the key under the focus at the cursor and moves
/// the cursor past it, while there is room.
pub proof fn lemma_a_types_focused_key(m: TextInputModel)
    requires
        m.wf(),
        m.text.len() < MAX_INPUT_LEN,
    ensures
        m.step(Button::A).text == m.text.take(m.cursor_pos) + seq![key_char(m.shifted, m.grid_row, m.grid_col)]
            + m.text.skip(m.cursor_pos),
        m.step(Button::A).cursor_pos == m.cursor_pos + 1,
{
    let c = key_char(m.shifted, m.grid_row, m.grid_col);
    assert(m.text.insert(m.cursor_pos, c) =~= m.text.take(m.cursor_pos) + seq![c] + m.text.skip(m.cursor_pos));
}

} // verus!
