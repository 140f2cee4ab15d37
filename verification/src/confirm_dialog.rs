//! Modal yes/no confirmation dialog: two buttons, A confirms the focused
//! button, B cancels.

use vstd::prelude::*;

use crate::input::{Button, InputAction, InputEvent};

verus! {

/// Result of the confirm dialog interaction.
#[derive(Clone, Copy, Debug, PartialEq, Eq, Structural)]
pub enum DialogResult {
    /// Dialog is still active, no decision yet.
    Pending,
    /// User confirmed (pressed A on confirm button).
    Confirmed,
    /// User cancelled (pressed B, or pressed A on cancel button).
    Cancelled,
}

/// Centered modal confirmation dialog with title, body and two buttons
/// (Cancel / Confirm). D-left/D-right switches between buttons, A activates
/// the focused one, B always cancels.
pub struct ConfirmDialog {
    pub title: String,
    pub body: String,
    pub confirm_label: String,
    pub cancel_label: String,
    /// If true, the confirm button is styled for destructive actions.
    pub destructive: bool,
    /// Which button is focused: 0 = cancel, 1 = confirm.
    pub focused_button: usize,
    pub visible: bool,
    pub result: DialogResult,
}

/// The state a dialog moves to on a press or repeat of `button`.
pub open spec fn dialog_step(d: ConfirmDialog, button: Button) -> ConfirmDialog {
    match button {
        Button::DpadLeft => ConfirmDialog { focused_button: 0, ..d },
        Button::DpadRight => ConfirmDialog { focused_button: 1, ..d },
        Button::B => ConfirmDialog { result: DialogResult::Cancelled, visible: false, ..d },
        Button::A => ConfirmDialog {
            result: if d.focused_button == 0 {
                DialogResult::Cancelled
            } else {
                DialogResult::Confirmed
            },
            visible: false,
            ..d
        },
        _ => d,
    }
}

impl ConfirmDialog {
    pub fn new(title: &str, body: &str) -> (d: Self)
        ensures
            d.title@ == title@,
            d.body@ == body@,
            d.confirm_label@ == "Confirm"@,
            d.cancel_label@ == "Cancel"@,
            !d.destructive,
            d.focused_button == 0,
            !d.visible,
            d.result == DialogResult::Pending,
    {
        Self {
            title: title.to_owned(),
            body: body.to_owned(),
            confirm_label: "Confirm".to_owned(),
            cancel_label: "Cancel".to_owned(),
            destructive: false,
            focused_button: 0,
            visible: false,
            result: DialogResult::Pending,
        }
    }

    /// Set custom button labels.
    pub fn with_labels(self, cancel: &str, confirm: &str) -> (d: Self)
        ensures
            d == (ConfirmDialog { cancel_label: d.cancel_label, confirm_label: d.confirm_label, ..self }),
            d.cancel_label@ == cancel@,
            d.confirm_label@ == confirm@,
    {
        let mut s = self;
        s.cancel_label = cancel.to_owned();
        s.confirm_label = confirm.to_owned();
        s
    }

    /// Mark as destructive (confirm button highlighted in the negative color).
    pub fn with_destructive(self, destructive: bool) -> (d: Self)
        ensures
            d == (ConfirmDialog { destructive: destructive, ..self }),
    {
        let mut s = self;
        s.destructive = destructive;
        s
    }

    /// Show the dialog and reset state (cancel focused, no decision).
    pub fn show(&mut self)
        ensures
            *final(self) == (ConfirmDialog {
                visible: true,
                result: DialogResult::Pending,
                focused_button: 0,
                ..*old(self)
            }),
    {
        self.visible = true;
        self.result = DialogResult::Pending;
        self.focused_button = 0;
    }

    /// Handle input. Returns the current `DialogResult`.
    pub fn handle_input(&mut self, event: &InputEvent) -> (r: DialogResult)
        ensures
            !old(self).visible || old(self).result != DialogResult::Pending ==> {
                &&& *final(self) == *old(self)
                &&& r == old(self).result
            },
            old(self).visible && old(self).result == DialogResult::Pending
                && event.action == InputAction::Release ==> {
                &&& *final(self) == *old(self)
                &&& r == DialogResult::Pending
            },
            old(self).visible && old(self).result == DialogResult::Pending
                && event.action != InputAction::Release ==> {
                &&& *final(self) == dialog_step(*old(self), event.button)
                &&& r == final(self).result
            },
            // A decided dialog is hidden and stays decided.
            r != DialogResult::Pending ==> !final(self).visible || old(self).result == r,
    {
        if !self.visible || self.result != DialogResult::Pending {
            return self.result;
        }
        if event.action == InputAction::Release {
            return DialogResult::Pending;
        }
        match event.button {
            Button::DpadLeft => {
                self.focused_button = 0;
            }
            Button::DpadRight => {
                self.focused_button = 1;
            }
            Button::B => {
                self.result = DialogResult::Cancelled;
                self.visible = false;
            }
            Button::A => {
                if self.focused_button == 0 {
                    self.result = DialogResult::Cancelled;
                } else {
                    self.result = DialogResult::Confirmed;
                }
                self.visible = false;
            }
            _ => {}
        }
        self.result
    }
}

} // verus!
