//! Decisions of the launcher's frame loop: scripted input for headless
//! runs, whether a frame had input, the frame rate to pace to, and the
//! click sound of a button.

use vstd::prelude::*;

use crate::input::{Button, InputAction, InputEvent};
use crate::launcher::ScriptStep;

verus! {

/// Frame rate while the user is active.
pub const ACTIVE_FPS: u32 = 30;
/// Frame rate once idle.
pub const IDLE_FPS: u32 = 5;
/// Frame rate once idle while an animated theme runs.
pub const ANIM_IDLE_FPS: u32 = 18;
/// Time without input after which the launcher counts as idle, in
/// milliseconds.
pub const IDLE_AFTER_MS: u64 = 3000;

/// The frame rate to pace to after `idle_ms` without input.
pub fn target_fps(idle_ms: u64, animating: bool) -> (fps: u32)
    ensures
        fps == (if idle_ms > IDLE_AFTER_MS {
            if animating { ANIM_IDLE_FPS } else { IDLE_FPS }
        } else {
            ACTIVE_FPS
        }),
{
    if idle_ms > IDLE_AFTER_MS {
        if animating { ANIM_IDLE_FPS } else { IDLE_FPS }
    } else {
        ACTIVE_FPS
    }
}

/// A press or a repeat: input that keeps the launcher active.
pub open spec fn is_activity(e: InputEvent) -> bool {
    e.action == InputAction::Press || e.action == InputAction::Repeat
}

/// Whether any event is a press or a repeat.
pub fn had_input(events: &[InputEvent]) -> (r: bool)
    ensures
        r == exists|i: int| 0 <= i < events@.len() && is_activity(#[trigger] events@[i]),
{
    let mut i: usize = 0;
    while i < events.len()
        invariant
            i <= events@.len(),
            forall|j: int| 0 <= j < i ==> !is_activity(#[trigger] events@[j]),
        decreases events@.len() - i,
    {
        let e = events[i];
        if e.action == InputAction::Press || e.action == InputAction::Repeat {
            assert(is_activity(events@[i as int]));
            return true;
        }
        i += 1;
    }
    false
}

/// Feedback sounds of the launcher.
#[derive(Debug, Clone, Copy, PartialEq, Eq, Structural)]
pub enum UiSound {
    Click,
    Confirm,
    Back,
    Launch,
}

/// The sound of an event: a press (not a repeat) of the d-pad clicks, of A
/// confirms, of B goes back.
pub fn ui_sound(e: InputEvent) -> (s: Option<UiSound>)
    ensures
        s == (if e.action != InputAction::Press {
            None
        } else {
            match e.button {
                Button::DpadUp | Button::DpadDown | Button::DpadLeft | Button::DpadRight => Some(UiSound::Click),
                Button::A => Some(UiSound::Confirm),
                Button::B => Some(UiSound::Back),
                _ => None,
            }
        }),
{
    if e.action != InputAction::Press {
        return None;
    }
    match e.button {
        Button::DpadUp | Button::DpadDown | Button::DpadLeft | Button::DpadRight => Some(UiSound::Click),
        Button::A => Some(UiSound::Confirm),
        Button::B => Some(UiSound::Back),
        _ => None,
    }
}

/// Plays a script of button presses, one step per frame after the frames
/// the previous step waits.
#[derive(Debug, Clone, Copy, PartialEq, Eq, Structural)]
pub struct ScriptPlayer {
    /// Next step to play.
    pub index: usize,
    /// Frames still to wait before it.
    pub wait_frames: u32,
}

/// Each button of a step pressed and released, in order.
pub open spec fn step_events(buttons: Seq<Button>) -> Seq<InputEvent>
    decreases buttons.len(),
{
    if buttons.len() == 0 {
        Seq::empty()
    } else {
        step_events(buttons.drop_last()) + seq![
            InputEvent { button: buttons.last(), action: InputAction::Press },
            InputEvent { button: buttons.last(), action: InputAction::Release },
        ]
    }
}

impl ScriptPlayer {
    pub fn new() -> (p: Self)
        ensures
            p == (ScriptPlayer { index: 0, wait_frames: 0 }),
    {
        ScriptPlayer { index: 0, wait_frames: 0 }
    }

    /// The scripted events of this frame, appended to `events`: when a
    /// step is due its presses and releases, and the wait before the next;
    /// otherwise one frame of waiting passes.
    pub fn next_frame(&mut self, script: &Vec<ScriptStep>, events: &mut Vec<InputEvent>)
        ensures
            old(self).index >= script@.len() ==> *final(self) == *old(self) && final(events)@ == old(events)@,
            old(self).index < script@.len() && old(self).wait_frames == 0 ==> {
                let step = script@[old(self).index as int];
                &&& final(events)@ == old(events)@ + step_events(step.buttons@)
                &&& *final(self) == (ScriptPlayer { index: (old(self).index + 1) as usize, wait_frames: step.frames_after })
            },
            old(self).index < script@.len() && old(self).wait_frames > 0 ==> {
                &&& final(events)@ == old(events)@
                &&& *final(self) == (ScriptPlayer { wait_frames: (old(self).wait_frames - 1) as u32, ..*old(self) })
            },
    {
        if self.index >= script.len() {
            return;
        }
        if self.wait_frames == 0 {
            let step = &script[self.index];
            let ghost start = events@;
            let mut k: usize = 0;
            assert(step.buttons@.take(0) =~= Seq::<Button>::empty());
            while k < step.buttons.len()
                invariant
                    k <= step.buttons@.len(),
                    events@ == start + step_events(step.buttons@.take(k as int)),
                decreases step.buttons@.len() - k,
            {
                let b = step.buttons[k];
                events.push(InputEvent { button: b, action: InputAction::Press });
                events.push(InputEvent { button: b, action: InputAction::Release });
                proof {
                    let t = step.buttons@.take(k as int + 1);
                    assert(t.drop_last() =~= step.buttons@.take(k as int));
                    assert(t.last() == b);
                    assert(events@ =~= start + step_events(t));
                }
                k += 1;
            }
            assert(step.buttons@.take(step.buttons@.len() as int) =~= step.buttons@);
            self.wait_frames = step.frames_after;
            self.index += 1;
        } else {
            self.wait_frames -= 1;
        }
    }
}

/// Milliseconds to wait for an event when `remaining_nanos` are left until
/// the next update: rounded up, at most `i32::MAX`.
pub fn wait_ms(remaining_nanos: u128) -> (ms: u32)
    ensures
        ms == (if (remaining_nanos + 999_999) / 1_000_000 < i32::MAX {
            (remaining_nanos + 999_999) / 1_000_000
        } else {
            i32::MAX as int
        }),
{
    let q = remaining_nanos / 1_000_000 + if remaining_nanos % 1_000_000 != 0 { 1 } else { 0 };
    assert(q == (remaining_nanos + 999_999) / 1_000_000);
    if q < i32::MAX as u128 {
        q as u32
    } else {
        i32::MAX as u32
    }
}

} // verus!
