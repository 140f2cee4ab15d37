//! System menu overlay (boot selector): switch to EmulationStation, stay in
//! Cartridge, or restart / shut down after a confirmation.

use vstd::prelude::*;

use crate::input::{Button, InputAction, InputEvent};

verus! {

/// Boot selector overlay result.
#[derive(Debug, Clone, Copy, PartialEq, Eq, Structural)]
pub enum OverlayResult {
    /// Stay visible, no action yet.
    Active,
    /// User cancelled, dismiss overlay.
    Dismiss,
    /// User selected EmulationStation.
    SwitchToES,
    /// User selected Cartridge (already active).
    StayCartridge,
    /// User asked to reboot the device.
    Reboot,
    /// User asked to shut down the device.
    Shutdown,
}

/// Items displayed in the overlay, in order.
#[derive(Debug, Clone, Copy, PartialEq, Eq, Structural)]
pub enum OverlayItem {
    EmulationStation,
    CartridgeOS,
    Restart,
    Shutdown,
}

/// Number of overlay items.
pub const OVERLAY_ITEMS: usize = 4;

/// The item at position `i` (0..4).
pub open spec fn spec_item(i: int) -> OverlayItem {
    if i == 0 {
        OverlayItem::EmulationStation
    } else if i == 1 {
        OverlayItem::CartridgeOS
    } else if i == 2 {
        OverlayItem::Restart
    } else {
        OverlayItem::Shutdown
    }
}

pub fn item_at(i: usize) -> (it: OverlayItem)
    requires
        i < OVERLAY_ITEMS,
    ensures
        it == spec_item(i as int),
{
    match i {
        0 => OverlayItem::EmulationStation,
        1 => OverlayItem::CartridgeOS,
        2 => OverlayItem::Restart,
        _ => OverlayItem::Shutdown,
    }
}

/// Confirmation dialog state for destructive items.
#[derive(Debug, Clone, Copy, PartialEq, Eq, Structural)]
pub enum Confirming {
    Idle,
    Restart,
    Shutdown,
}

pub struct BootOverlay {
    selected: usize,
    confirming: Confirming,
    /// 0 = No (default), 1 = Yes -- inside the confirmation dialog.
    confirm_choice: usize,
}

/// Abstract state of a [`BootOverlay`].
pub struct OverlayModel {
    pub selected: int,
    pub confirming: Confirming,
    pub confirm_choice: int,
}

impl OverlayModel {
    pub open spec fn wf(self) -> bool {
        0 <= self.selected < OVERLAY_ITEMS && 0 <= self.confirm_choice <= 1
    }

    /// One pressed button: the next state, and `Some(result)` when the
    /// press ends the event batch with that result.
    pub open spec fn press(self, button: Button) -> (OverlayModel, Option<OverlayResult>) {
        if self.confirming != Confirming::Idle {
            match button {
                Button::DpadLeft | Button::DpadRight => (
                    OverlayModel { confirm_choice: 1 - self.confirm_choice, ..self },
                    None,
                ),
                Button::A => (
                    OverlayModel { confirming: Confirming::Idle, confirm_choice: 0, ..self },
                    Some(
                        if self.confirm_choice == 1 {
                            match self.confirming {
                                Confirming::Restart => OverlayResult::Reboot,
                                Confirming::Shutdown => OverlayResult::Shutdown,
                                Confirming::Idle => OverlayResult::Active,
                            }
                        } else {
                            OverlayResult::Active
                        },
                    ),
                ),
                Button::B => (
                    OverlayModel { confirming: Confirming::Idle, confirm_choice: 0, ..self },
                    None,
                ),
                _ => (self, None),
            }
        } else {
            match button {
                Button::DpadUp => (
                    OverlayModel {
                        selected: if self.selected > 0 { self.selected - 1 } else { self.selected },
                        ..self
                    },
                    None,
                ),
                Button::DpadDown => (
                    OverlayModel {
                        selected: if self.selected + 1 < OVERLAY_ITEMS {
                            self.selected + 1
                        } else {
                            self.selected
                        },
                        ..self
                    },
                    None,
                ),
                Button::A => match spec_item(self.selected) {
                    OverlayItem::EmulationStation => (self, Some(OverlayResult::SwitchToES)),
                    OverlayItem::CartridgeOS => (self, Some(OverlayResult::StayCartridge)),
                    OverlayItem::Restart => (
                        OverlayModel { confirming: Confirming::Restart, ..self },
                        Some(OverlayResult::Active),
                    ),
                    OverlayItem::Shutdown => (
                        OverlayModel { confirming: Confirming::Shutdown, ..self },
                        Some(OverlayResult::Active),
                    ),
                },
                Button::B => (self, Some(OverlayResult::Dismiss)),
                _ => (self, None),
            }
        }
    }

    /// Process a batch of events: presses only, stopping at the first press
    /// that yields a result (`Active` when none does).
    pub open spec fn run(self, events: Seq<InputEvent>) -> (OverlayModel, OverlayResult)
        decreases events.len(),
    {
        if events.len() == 0 {
            (self, OverlayResult::Active)
        } else if events[0].action != InputAction::Press {
            self.run(events.drop_first())
        } else {
            let (next, out) = self.press(events[0].button);
            match out {
                Some(r) => (next, r),
                None => next.run(events.drop_first()),
            }
        }
    }
}

/// Restart and shut down are never requested by the press that picks them:
/// a press outside the confirmation never yields `Reboot` or `Shutdown`, and
/// inside it only an A press on "Yes" does.
pub proof fn lemma_destructive_needs_confirmation(m: OverlayModel, button: Button)
    ensures
        m.confirming == Confirming::Idle ==> m.press(button).1 != Some(OverlayResult::Reboot)
            && m.press(button).1 != Some(OverlayResult::Shutdown),
        (m.press(button).1 == Some(OverlayResult::Reboot) || m.press(button).1 == Some(
            OverlayResult::Shutdown,
        )) ==> button == Button::A && m.confirm_choice == 1 && m.press(button).0.confirming
            == Confirming::Idle,
{
}

impl View for BootOverlay {
    type V = OverlayModel;

    closed spec fn view(&self) -> OverlayModel {
        OverlayModel {
            selected: self.selected as int,
            confirming: self.confirming,
            confirm_choice: self.confirm_choice as int,
        }
    }
}

impl Default for BootOverlay {
    fn default() -> (o: Self)
        ensures
            o@ == (OverlayModel { selected: 1, confirming: Confirming::Idle, confirm_choice: 0 }),
    {
        Self::new()
    }
}

impl BootOverlay {
    /// Opens with Cartridge (already active) selected.
    pub fn new() -> (o: Self)
        ensures
            o@ == (OverlayModel { selected: 1, confirming: Confirming::Idle, confirm_choice: 0 }),
            o@.wf(),
    {
        Self { selected: 1, confirming: Confirming::Idle, confirm_choice: 0 }
    }

    pub fn handle_input(&mut self, events: &[InputEvent]) -> (r: OverlayResult)
        requires
            old(self)@.wf(),
        ensures
            final(self)@.wf(),
            (final(self)@, r) == old(self)@.run(events@),
    {
        let mut i: usize = 0;
        assert(events@.skip(0) =~= events@);
        while i < events.len()
            invariant
                i <= events@.len(),
                self@.wf(),
                old(self)@.run(events@) == self@.run(events@.skip(i as int)),
            decreases events@.len() - i,
        {
            let ie = events[i];
            proof {
                assert(events@.skip(i as int)[0] == ie);
                assert(events@.skip(i as int).drop_first() =~= events@.skip(i as int + 1));
            }
            if ie.action != InputAction::Press {
                i += 1;
                continue;
            }
            if self.confirming != Confirming::Idle {
                match ie.button {
                    Button::DpadLeft | Button::DpadRight => {
                        self.confirm_choice = 1 - self.confirm_choice;
                    },
                    Button::A => {
                        let action = self.confirming;
                        let yes = self.confirm_choice == 1;
                        self.confirming = Confirming::Idle;
                        self.confirm_choice = 0;
                        if yes {
                            return match action {
                                Confirming::Restart => OverlayResult::Reboot,
                                Confirming::Shutdown => OverlayResult::Shutdown,
                                Confirming::Idle => OverlayResult::Active,
                            };
                        }
                        return OverlayResult::Active;
                    },
                    Button::B => {
                        self.confirming = Confirming::Idle;
                        self.confirm_choice = 0;
                    },
                    _ => {},
                }
                i += 1;
                continue;
            }
            match ie.button {
                Button::DpadUp => {
                    if self.selected > 0 {
                        self.selected -= 1;
                    }
                },
                Button::DpadDown => {
                    if self.selected + 1 < OVERLAY_ITEMS {
                        self.selected += 1;
                    }
                },
                Button::A => {
                    return match item_at(self.selected) {
                        OverlayItem::EmulationStation => OverlayResult::SwitchToES,
                        OverlayItem::CartridgeOS => OverlayResult::StayCartridge,
                        OverlayItem::Restart => {
                            self.confirming = Confirming::Restart;
                            OverlayResult::Active
                        },
                        OverlayItem::Shutdown => {
                            self.confirming = Confirming::Shutdown;
                            OverlayResult::Active
                        },
                    };
                },
                Button::B => {
                    return OverlayResult::Dismiss;
                },
                _ => {},
            }
            i += 1;
        }
        proof {
            assert(events@.skip(i as int).len() == 0);
        }
        OverlayResult::Active
    }
}

/// In the system menu, Up and Down move the selection one item and undo
/// each other away from the ends; in the confirmation, Left or Right
/// flips the answer and twice gives it back.
pub proof fn lemma_overlay_moves(m: OverlayModel)
    requires
        m.wf(),
    ensures
        m.confirming == Confirming::Idle && m.selected > 0 ==> m.press(Button::DpadUp).0.selected == m.selected - 1
            && m.press(Button::DpadUp).0.press(Button::DpadDown).0.selected == m.selected,
        m.confirming == Confirming::Idle && m.selected + 1 < OVERLAY_ITEMS ==> m.press(Button::DpadDown).0.selected
            == m.selected + 1 && m.press(Button::DpadDown).0.press(Button::DpadUp).0.selected == m.selected,
        m.confirming != Confirming::Idle ==> m.press(Button::DpadLeft).0.confirm_choice == 1 - m.confirm_choice
            && m.press(Button::DpadLeft).0.press(Button::DpadRight).0.confirm_choice == m.confirm_choice,
{
}

} // verus!
