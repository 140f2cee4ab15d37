//! Boot selector: choose between Cartridge OS and EmulationStation, with an
//! auto-boot countdown that any button press cancels.

use vstd::prelude::*;

use crate::fmt::owned;
use crate::input::{Button, InputAction, InputEvent};
use crate::strs::str_eq;

verus! {

/// Seconds before the last-used option boots on its own.
pub const AUTO_BOOT_MS: u64 = 5000;

#[derive(Debug, Clone, Copy, PartialEq, Eq, Structural)]
pub enum BootChoice {
    Cartridge,
    EmulationStation,
}

pub open spec fn spec_key(c: BootChoice) -> Seq<char> {
    match c {
        BootChoice::Cartridge => "cartridge"@,
        BootChoice::EmulationStation => "emulationstation"@,
    }
}

pub open spec fn spec_from_key(key: Seq<char>) -> BootChoice {
    if key == "emulationstation"@ {
        BootChoice::EmulationStation
    } else {
        BootChoice::Cartridge
    }
}

/// A persisted key reads back as the choice that wrote it.
pub proof fn lemma_key_round_trip(c: BootChoice)
    ensures
        spec_from_key(spec_key(c)) == c,
{
    reveal_strlit("cartridge");
    reveal_strlit("emulationstation");
    assert("cartridge"@[0] != "emulationstation"@[0]);
}

impl BootChoice {
    pub fn label(self) -> (s: &'static str)
        ensures
            s@ == (match self {
                BootChoice::Cartridge => "Cartridge OS"@,
                BootChoice::EmulationStation => "EmulationStation"@,
            }),
    {
        match self {
            BootChoice::Cartridge => "Cartridge OS",
            BootChoice::EmulationStation => "EmulationStation",
        }
    }

    pub fn description(self) -> (s: &'static str)
        ensures
            s@ == (match self {
                BootChoice::Cartridge => "App launcher, tools, and utilities"@,
                BootChoice::EmulationStation => "Retro game emulation frontend"@,
            }),
    {
        match self {
            BootChoice::Cartridge => "App launcher, tools, and utilities",
            BootChoice::EmulationStation => "Retro game emulation frontend",
        }
    }

    /// The key persisted in the boot state and the choice file.
    pub fn key(self) -> (s: &'static str)
        ensures
            s@ == spec_key(self),
    {
        match self {
            BootChoice::Cartridge => "cartridge",
            BootChoice::EmulationStation => "emulationstation",
        }
    }

    /// Parse a persisted key; anything but `"emulationstation"` is Cartridge.
    pub fn from_key(key: &str) -> (c: Self)
        ensures
            c == spec_from_key(key@),
    {
        if str_eq(key, "emulationstation") {
            BootChoice::EmulationStation
        } else {
            BootChoice::Cartridge
        }
    }

    /// Process exit code that tells the boot script what to start.
    pub fn exit_code(self) -> (code: i32)
        ensures
            code == (match self {
                BootChoice::Cartridge => 0i32,
                BootChoice::EmulationStation => 1i32,
            }),
    {
        match self {
            BootChoice::Cartridge => 0,
            BootChoice::EmulationStation => 1,
        }
    }
}

/// Options in display order.
pub open spec fn spec_option(i: int) -> BootChoice {
    if i == 0 { BootChoice::Cartridge } else { BootChoice::EmulationStation }
}

pub fn option_at(i: usize) -> (c: BootChoice)
    requires
        i < 2,
    ensures
        c == spec_option(i as int),
{
    if i == 0 { BootChoice::Cartridge } else { BootChoice::EmulationStation }
}

/// The option selected when the selector opens: the last-used one.
pub fn initial_selection(last_choice: BootChoice) -> (i: usize)
    ensures
        i < 2,
        spec_option(i as int) == last_choice,
{
    match last_choice {
        BootChoice::Cartridge => 0,
        BootChoice::EmulationStation => 1,
    }
}

/// Selector state between frames.
#[derive(Debug, Clone, Copy, PartialEq, Eq, Structural)]
pub struct SelectorState {
    pub selected: usize,
    pub auto_boot_cancelled: bool,
}

/// One press or repeat of `button`: the next state and the choice it makes,
/// if any.
pub open spec fn selector_press(s: SelectorState, button: Button, last: BootChoice) -> (SelectorState, Option<BootChoice>) {
    let s1 = SelectorState { auto_boot_cancelled: true, ..s };
    match button {
        Button::DpadUp | Button::DpadLeft => (
            SelectorState { selected: if s.selected > 0 { (s.selected - 1) as usize } else { 0 }, ..s1 },
            None,
        ),
        Button::DpadDown | Button::DpadRight => (
            SelectorState { selected: if s.selected < 1 { (s.selected + 1) as usize } else { s.selected }, ..s1 },
            None,
        ),
        Button::A | Button::Start => (s1, Some(spec_option(s.selected as int))),
        Button::B => (s1, Some(last)),
        _ => (s1, None),
    }
}

/// A frame's events: presses and repeats act, in order, until one makes a choice.
pub open spec fn selector_run(s: SelectorState, events: Seq<InputEvent>, last: BootChoice) -> (SelectorState, Option<BootChoice>)
    decreases events.len(),
{
    if events.len() == 0 {
        (s, None)
    } else if events[0].action == InputAction::Press || events[0].action == InputAction::Repeat {
        let (n, c) = selector_press(s, events[0].button, last);
        match c {
            Some(_) => (n, c),
            None => selector_run(n, events.drop_first(), last),
        }
    } else {
        selector_run(s, events.drop_first(), last)
    }
}

/// Decide a frame of the boot selector: apply the frame's input, then boot
/// the last-used option when the countdown ran out uncancelled.
pub fn selector_frame(state: &mut SelectorState, events: &[InputEvent], last_choice: BootChoice, elapsed_ms: u64) -> (r: Option<BootChoice>)
    requires
        old(state).selected < 2,
    ensures
        final(state).selected < 2,
        ({
            let (n, c) = selector_run(*old(state), events@, last_choice);
            &&& *final(state) == n
            &&& r == match c {
                Some(x) => Some(x),
                None => if !n.auto_boot_cancelled && elapsed_ms >= AUTO_BOOT_MS {
                    Some(last_choice)
                } else {
                    None
                },
            }
        }),
{
    let ghost s0 = *state;
    let mut i: usize = 0;
    assert(events@.skip(0) =~= events@);
    while i < events.len()
        invariant
            i <= events@.len(),
            state.selected < 2,
            s0 == *old(state),
            selector_run(s0, events@, last_choice) == selector_run(*state, events@.skip(i as int), last_choice),
        decreases events@.len() - i,
    {
        let ie = events[i];
        proof {
            assert(events@.skip(i as int)[0] == ie);
            assert(events@.skip(i as int).drop_first() =~= events@.skip(i as int + 1));
        }
        if ie.action == InputAction::Press || ie.action == InputAction::Repeat {
            if !state.auto_boot_cancelled {
                state.auto_boot_cancelled = true;
            }
            match ie.button {
                Button::DpadUp | Button::DpadLeft => {
                    state.selected = state.selected.saturating_sub(1);
                },
                Button::DpadDown | Button::DpadRight => {
                    if state.selected < 1 {
                        state.selected += 1;
                    }
                },
                Button::A | Button::Start => {
                    return Some(option_at(state.selected));
                },
                Button::B => {
                    return Some(last_choice);
                },
                _ => {},
            }
        }
        i += 1;
    }
    assert(events@.skip(i as int).len() == 0);
    if !state.auto_boot_cancelled && elapsed_ms >= AUTO_BOOT_MS {
        return Some(last_choice);
    }
    None
}

/// Persisted boot state.
#[derive(Debug, Clone)]
pub struct BootState {
    pub last_choice: String,
    pub boot_count: u64,
}

impl Default for BootState {
    fn default() -> (s: Self)
        ensures
            s.last_choice@ == "cartridge"@,
            s.boot_count == 0,
    {
        Self { last_choice: owned("cartridge"), boot_count: 0 }
    }
}

/// Record a boot: the choice becomes the last used one and the count grows.
pub fn record_boot(state: &mut BootState, choice: BootChoice)
    requires
        old(state).boot_count < u64::MAX,
    ensures
        final(state).last_choice@ == spec_key(choice),
        final(state).boot_count == old(state).boot_count + 1,
{
    state.last_choice = owned(choice.key());
    state.boot_count += 1;
}

} // verus!
