//! Buttons, input events, and how raw keyboard, joystick and
//! game-controller events become button presses with key repeat.

use vstd::prelude::*;

use std::time::Instant;

use crate::clock::{instant_now, nanos_since};

verus! {

/// Abstract hardware buttons.
#[derive(Debug, Clone, Copy, PartialEq, Eq, Hash, Structural)]
pub enum Button {
    DpadUp,
    DpadDown,
    DpadLeft,
    DpadRight,
    A,
    B,
    X,
    Y,
    L1,
    R1,
    L2,
    R2,
    Start,
    Select,
}

/// Input action type.
#[derive(Debug, Clone, Copy, PartialEq, Eq, Structural)]
pub enum InputAction {
    Press,
    Release,
    Repeat,
}

/// A processed input event.
#[derive(Debug, Clone, Copy, PartialEq, Eq, Structural)]
pub struct InputEvent {
    pub button: Button,
    pub action: InputAction,
}

/// Keyboard keys, as far as the launcher tells them apart.
#[derive(Debug, Clone, Copy, PartialEq, Eq, Structural)]
pub enum Key {
    Up,
    Down,
    Left,
    Right,
    Z,
    X,
    C,
    V,
    A,
    S,
    Q,
    W,
    Return,
    Space,
    Other,
}

/// Game-controller buttons, as far as the launcher tells them apart.
#[derive(Debug, Clone, Copy, PartialEq, Eq, Structural)]
pub enum PadButton {
    A,
    B,
    X,
    Y,
    Back,
    Start,
    LeftShoulder,
    RightShoulder,
    DPadUp,
    DPadDown,
    DPadLeft,
    DPadRight,
    Other,
}

/// Game-controller axes.
#[derive(Debug, Clone, Copy, PartialEq, Eq, Structural)]
pub enum PadAxis {
    LeftX,
    LeftY,
    RightX,
    RightY,
    TriggerLeft,
    TriggerRight,
}

/// Position of a joystick hat.
#[derive(Debug, Clone, Copy, PartialEq, Eq, Structural)]
pub enum HatState {
    Centered,
    Up,
    Right,
    Down,
    Left,
    RightUp,
    RightDown,
    LeftUp,
    LeftDown,
}

/// A raw event of the window system.
#[derive(Debug, Clone, Copy, PartialEq, Eq, Structural)]
pub enum RawEvent {
    /// A key went down (`repeat`: the system's own key repeat).
    KeyDown { key: Key, repeat: bool },
    KeyUp { key: Key },
    JoyButtonDown { button_idx: u8 },
    JoyButtonUp { button_idx: u8 },
    JoyHatMotion { state: HatState },
    ControllerButtonDown { button: PadButton },
    ControllerButtonUp { button: PadButton },
    ControllerAxisMotion { axis: PadAxis, value: i16 },
    /// Anything else (ignored).
    Other,
}

/// Time a button must be held before it repeats, in nanoseconds.
pub const REPEAT_DELAY_NS: u64 = 400_000_000;
/// Time between repeats, in nanoseconds.
pub const REPEAT_INTERVAL_NS: u64 = 80_000_000;
/// Trigger travel that counts as pressed.
pub const TRIGGER_THRESHOLD: i16 = 8000;
/// Stick travel that counts as a d-pad press.
pub const AXIS_THRESHOLD: i16 = 16000;

/// The button of a keyboard key (arrows, Z X C V for A B X Y, A S for
/// L1 R1, Q W for L2 R2, Return for START and Space for SELECT).
pub open spec fn key_button(k: Key) -> Option<Button> {
    match k {
        Key::Up => Some(Button::DpadUp),
        Key::Down => Some(Button::DpadDown),
        Key::Left => Some(Button::DpadLeft),
        Key::Right => Some(Button::DpadRight),
        Key::Z => Some(Button::A),
        Key::X => Some(Button::B),
        Key::C => Some(Button::X),
        Key::V => Some(Button::Y),
        Key::A => Some(Button::L1),
        Key::S => Some(Button::R1),
        Key::Q => Some(Button::L2),
        Key::W => Some(Button::R2),
        Key::Return => Some(Button::Start),
        Key::Space => Some(Button::Select),
        Key::Other => None,
    }
}

/// The button of a raw joystick button index (R36S Plus layout).
pub open spec fn joy_button(idx: u8) -> Option<Button> {
    if idx == 0 { Some(Button::B) }
    else if idx == 1 { Some(Button::A) }
    else if idx == 2 { Some(Button::Y) }
    else if idx == 3 { Some(Button::X) }
    else if idx == 4 { Some(Button::L1) }
    else if idx == 5 { Some(Button::R1) }
    else if idx == 6 { Some(Button::L2) }
    else if idx == 7 { Some(Button::R2) }
    else if idx == 8 { Some(Button::DpadUp) }
    else if idx == 9 { Some(Button::DpadDown) }
    else if idx == 10 { Some(Button::DpadLeft) }
    else if idx == 11 { Some(Button::DpadRight) }
    else if idx == 12 { Some(Button::Select) }
    else if idx == 13 { Some(Button::Start) }
    else { None }
}

/// The button of a game-controller button.
pub open spec fn pad_button(p: PadButton) -> Option<Button> {
    match p {
        PadButton::A => Some(Button::A),
        PadButton::B => Some(Button::B),
        PadButton::X => Some(Button::X),
        PadButton::Y => Some(Button::Y),
        PadButton::LeftShoulder => Some(Button::L1),
        PadButton::RightShoulder => Some(Button::R1),
        PadButton::Back => Some(Button::Select),
        PadButton::Start => Some(Button::Start),
        PadButton::DPadUp => Some(Button::DpadUp),
        PadButton::DPadDown => Some(Button::DpadDown),
        PadButton::DPadLeft => Some(Button::DpadLeft),
        PadButton::DPadRight => Some(Button::DpadRight),
        PadButton::Other => None,
    }
}

pub fn map_key(k: Key) -> (b: Option<Button>)
    ensures
        b == key_button(k),
{
    match k {
        Key::Up => Some(Button::DpadUp),
        Key::Down => Some(Button::DpadDown),
        Key::Left => Some(Button::DpadLeft),
        Key::Right => Some(Button::DpadRight),
        Key::Z => Some(Button::A),
        Key::X => Some(Button::B),
        Key::C => Some(Button::X),
        Key::V => Some(Button::Y),
        Key::A => Some(Button::L1),
        Key::S => Some(Button::R1),
        Key::Q => Some(Button::L2),
        Key::W => Some(Button::R2),
        Key::Return => Some(Button::Start),
        Key::Space => Some(Button::Select),
        Key::Other => None,
    }
}

pub fn map_joy_button(idx: u8) -> (b: Option<Button>)
    ensures
        b == joy_button(idx),
{
    match idx {
        0 => Some(Button::B),
        1 => Some(Button::A),
        2 => Some(Button::Y),
        3 => Some(Button::X),
        4 => Some(Button::L1),
        5 => Some(Button::R1),
        6 => Some(Button::L2),
        7 => Some(Button::R2),
        8 => Some(Button::DpadUp),
        9 => Some(Button::DpadDown),
        10 => Some(Button::DpadLeft),
        11 => Some(Button::DpadRight),
        12 => Some(Button::Select),
        13 => Some(Button::Start),
        _ => None,
    }
}

/// Map a game-controller button to a launcher button.
pub fn map_controller_button(p: PadButton) -> (b: Option<Button>)
    ensures
        b == pad_button(p),
{
    match p {
        PadButton::A => Some(Button::A),
        PadButton::B => Some(Button::B),
        PadButton::X => Some(Button::X),
        PadButton::Y => Some(Button::Y),
        PadButton::LeftShoulder => Some(Button::L1),
        PadButton::RightShoulder => Some(Button::R1),
        PadButton::Back => Some(Button::Select),
        PadButton::Start => Some(Button::Start),
        PadButton::DPadUp => Some(Button::DpadUp),
        PadButton::DPadDown => Some(Button::DpadDown),
        PadButton::DPadLeft => Some(Button::DpadLeft),
        PadButton::DPadRight => Some(Button::DpadRight),
        PadButton::Other => None,
    }
}

/// A held button: when it went down and when it last repeated.
#[derive(Debug, Clone, Copy, PartialEq, Eq, Structural)]
pub struct HeldButton {
    pub button: Button,
    pub pressed_ns: u64,
    pub last_repeat_ns: u64,
}

/// `b` is among the held buttons.
pub open spec fn holds(h: Seq<HeldButton>, b: Button) -> bool {
    exists|i: int| 0 <= i < h.len() && h[i].button == b
}

/// Each button is held at most once.
pub open spec fn distinct_buttons(h: Seq<HeldButton>) -> bool {
    forall|i: int, j: int| 0 <= i < h.len() && 0 <= j < h.len() && i != j ==> h[i].button != h[j].button
}

/// The held buttons after `b` goes down at `now`: its times restart (it is
/// added when it was not held).
pub open spec fn hold(h: Seq<HeldButton>, b: Button, now: u64) -> Seq<HeldButton> {
    let fresh = HeldButton { button: b, pressed_ns: now, last_repeat_ns: now };
    if holds(h, b) {
        h.map_values(|x: HeldButton| if x.button == b { fresh } else { x })
    } else {
        h.push(fresh)
    }
}

/// The predicate "is not button `b`".
pub open spec fn not_button(b: Button) -> spec_fn(HeldButton) -> bool {
    |x: HeldButton| x.button != b
}

/// The held buttons after `b` goes up.
pub open spec fn unhold(h: Seq<HeldButton>, b: Button) -> Seq<HeldButton> {
    h.filter(not_button(b))
}

pub open spec fn ev(b: Button, a: InputAction) -> InputEvent {
    InputEvent { button: b, action: a }
}

/// A button that is down or up by position (hat, stick, trigger): a press
/// when it becomes active, a release when it stops being so.
pub open spec fn axis_step(h: Seq<HeldButton>, b: Button, active: bool, now: u64) -> (Seq<HeldButton>, Seq<InputEvent>) {
    if active && !holds(h, b) {
        (hold(h, b, now), seq![ev(b, InputAction::Press)])
    } else if !active && holds(h, b) {
        (unhold(h, b), seq![ev(b, InputAction::Release)])
    } else {
        (h, Seq::empty())
    }
}

/// Two positional buttons updated in turn.
pub open spec fn axis_pair(
    h: Seq<HeldButton>,
    b1: Button,
    a1: bool,
    b2: Button,
    a2: bool,
    now: u64,
) -> (Seq<HeldButton>, Seq<InputEvent>) {
    let (h1, o1) = axis_step(h, b1, a1, now);
    let (h2, o2) = axis_step(h1, b2, a2, now);
    (h2, o1 + o2)
}

/// The four d-pad directions of a hat position.
pub open spec fn hat_dirs(s: HatState) -> (bool, bool, bool, bool) {
    (
        s == HatState::Up || s == HatState::LeftUp || s == HatState::RightUp,
        s == HatState::Down || s == HatState::LeftDown || s == HatState::RightDown,
        s == HatState::Left || s == HatState::LeftUp || s == HatState::LeftDown,
        s == HatState::Right || s == HatState::RightUp || s == HatState::RightDown,
    )
}

/// A button going down (`Some`) or up.
pub open spec fn button_edge(h: Seq<HeldButton>, b: Option<Button>, down: bool, now: u64) -> (Seq<HeldButton>, Seq<InputEvent>) {
    match b {
        Some(b) => if down {
            (hold(h, b, now), seq![ev(b, InputAction::Press)])
        } else {
            (unhold(h, b), seq![ev(b, InputAction::Release)])
        },
        None => (h, Seq::empty()),
    }
}

/// The held buttons and the events after one raw event at `now`.
pub open spec fn raw_step(h: Seq<HeldButton>, e: RawEvent, now: u64) -> (Seq<HeldButton>, Seq<InputEvent>) {
    match e {
        RawEvent::KeyDown { key, repeat } => if repeat {
            (h, Seq::empty())
        } else {
            button_edge(h, key_button(key), true, now)
        },
        RawEvent::KeyUp { key } => button_edge(h, key_button(key), false, now),
        RawEvent::JoyButtonDown { button_idx } => button_edge(h, joy_button(button_idx), true, now),
        RawEvent::JoyButtonUp { button_idx } => button_edge(h, joy_button(button_idx), false, now),
        RawEvent::ControllerButtonDown { button } => button_edge(h, pad_button(button), true, now),
        RawEvent::ControllerButtonUp { button } => button_edge(h, pad_button(button), false, now),
        RawEvent::JoyHatMotion { state } => {
            let (up, down, left, right) = hat_dirs(state);
            let (h1, o1) = axis_pair(h, Button::DpadUp, up, Button::DpadDown, down, now);
            let (h2, o2) = axis_pair(h1, Button::DpadLeft, left, Button::DpadRight, right, now);
            (h2, o1 + o2)
        },
        RawEvent::ControllerAxisMotion { axis, value } => match axis {
            PadAxis::TriggerLeft => axis_step(h, Button::L2, value > TRIGGER_THRESHOLD, now),
            PadAxis::TriggerRight => axis_step(h, Button::R2, value > TRIGGER_THRESHOLD, now),
            PadAxis::LeftX => axis_pair(h, Button::DpadLeft, value < -AXIS_THRESHOLD, Button::DpadRight,
                value > AXIS_THRESHOLD, now),
            PadAxis::LeftY => axis_pair(h, Button::DpadUp, value < -AXIS_THRESHOLD, Button::DpadDown,
                value > AXIS_THRESHOLD, now),
            _ => (h, Seq::empty()),
        },
        RawEvent::Other => (h, Seq::empty()),
    }
}

/// A batch of raw events in order.
pub open spec fn raw_run(h: Seq<HeldButton>, es: Seq<RawEvent>, now: u64) -> (Seq<HeldButton>, Seq<InputEvent>)
    decreases es.len(),
{
    if es.len() == 0 {
        (h, Seq::empty())
    } else {
        let (h1, o1) = raw_run(h, es.drop_last(), now);
        let (h2, o2) = raw_step(h1, es.last(), now);
        (h2, o1 + o2)
    }
}

/// `now - t`, or 0 when `t` is later.
pub open spec fn since(now: u64, t: u64) -> int {
    if now >= t { now - t } else { 0 }
}

/// A held button repeats once it has been down for the repeat delay and
/// the repeat interval has passed since it last went down or repeated.
pub open spec fn repeat_due(x: HeldButton, now: u64) -> bool {
    since(now, x.pressed_ns) >= REPEAT_DELAY_NS && since(now, x.last_repeat_ns) >= REPEAT_INTERVAL_NS
}

pub open spec fn due_at(now: u64) -> spec_fn(HeldButton) -> bool {
    |x: HeldButton| repeat_due(x, now)
}

/// A held button after the repeat pass at `now`.
pub open spec fn after_repeat(x: HeldButton, now: u64) -> HeldButton {
    if repeat_due(x, now) { HeldButton { last_repeat_ns: now, ..x } } else { x }
}

pub open spec fn repeat_event(x: HeldButton) -> InputEvent {
    ev(x.button, InputAction::Repeat)
}

/// The held buttons and the events after a batch of raw events at `now`
/// followed by the repeat pass.
pub open spec fn processed(h0: Seq<HeldButton>, events: Seq<RawEvent>, now: u64) -> (Seq<HeldButton>, Seq<InputEvent>) {
    let (h, o) = raw_run(h0, events, now);
    (
        h.map_values(|x: HeldButton| after_repeat(x, now)),
        o + h.filter(due_at(now)).map_values(|x: HeldButton| repeat_event(x)),
    )
}

/// Turns raw events into button events with key repeat.
pub struct InputManager {
    held: Vec<HeldButton>,
    origin: Instant,
}

impl View for InputManager {
    type V = Seq<HeldButton>;

    closed spec fn view(&self) -> Seq<HeldButton> {
        self.held@
    }
}

impl Default for InputManager {
    fn default() -> (m: Self)
        ensures
            m@.len() == 0,
            distinct_buttons(m@),
    {
        Self::new()
    }
}

impl InputManager {
    /// No button held.
    pub fn new() -> (m: Self)
        ensures
            m@.len() == 0,
            distinct_buttons(m@),
    {
        InputManager { held: Vec::new(), origin: instant_now() }
    }

    /// The buttons held down, with their times.
    pub fn held(&self) -> (h: &Vec<HeldButton>)
        ensures
            h@ == self@,
    {
        &self.held
    }

    fn find(&self, b: Button) -> (r: Option<usize>)
        ensures
            match r {
                Some(i) => i < self@.len() && self@[i as int].button == b,
                None => !holds(self@, b),
            },
    {
        let mut i: usize = 0;
        while i < self.held.len()
            invariant
                i <= self.held@.len(),
                forall|j: int| 0 <= j < i ==> self.held@[j].button != b,
            decreases self.held@.len() - i,
        {
            if self.held[i].button == b {
                return Some(i);
            }
            i += 1;
        }
        None
    }

    fn hold_button(&mut self, b: Button, now: u64)
        requires
            distinct_buttons(old(self)@),
        ensures
            final(self)@ == hold(old(self)@, b, now),
            distinct_buttons(final(self)@),
    {
        let fresh = HeldButton { button: b, pressed_ns: now, last_repeat_ns: now };
        match self.find(b) {
            Some(i) => {
                let ghost h = self@;
                self.held.set(i, fresh);
                assert(self@ =~= h.map_values(|x: HeldButton| if x.button == b { fresh } else { x }));
            },
            None => {
                self.held.push(fresh);
            },
        }
    }

    fn unhold_button(&mut self, b: Button)
        requires
            distinct_buttons(old(self)@),
        ensures
            final(self)@ == unhold(old(self)@, b),
            distinct_buttons(final(self)@),
    {
        let ghost h = self@;
        let ghost f = not_button(b);
        let mut kept: Vec<HeldButton> = Vec::new();
        let mut i: usize = 0;
        while i < self.held.len()
            invariant
                self@ == h,
                distinct_buttons(h),
                f == not_button(b),
                i <= h.len(),
                kept@ == h.take(i as int).filter(f),
                distinct_buttons(kept@),
                forall|k: int| 0 <= k < kept@.len() ==> exists|j: int| 0 <= j < i && #[trigger] kept@[k].button == h[j].button,
            decreases h.len() - i,
        {
            proof {
                assert(h.take(i as int + 1) =~= h.take(i as int).push(h[i as int]));
                h.take(i as int).lemma_filter_push(h[i as int], f);
            }
            let x = self.held[i];
            if x.button != b {
                let ghost before = kept@;
                kept.push(x);
                proof {
                    assert forall|p: int, q: int| 0 <= p < kept@.len() && 0 <= q < kept@.len() && p != q implies kept@[p].button != kept@[q].button by {
                        if p == before.len() {
                            let j = choose|j: int| 0 <= j < i && before[q].button == h[j].button;
                            assert(kept@[q] == before[q]);
                        } else if q == before.len() {
                            let j = choose|j: int| 0 <= j < i && before[p].button == h[j].button;
                            assert(kept@[p] == before[p]);
                        } else {
                            assert(kept@[p] == before[p] && kept@[q] == before[q]);
                        }
                    }
                    assert forall|k: int| 0 <= k < kept@.len() implies exists|j: int| 0 <= j < i + 1 && #[trigger] kept@[k].button == h[j].button by {
                        if k == before.len() {
                            assert(kept@[k].button == h[i as int].button);
                        } else {
                            assert(kept@[k] == before[k]);
                            let j = choose|j: int| 0 <= j < i && before[k].button == h[j].button;
                            assert(kept@[k].button == h[j].button);
                        }
                    }
                }
            }
            i += 1;
        }
        assert(h.take(h.len() as int) =~= h);
        self.held = kept;
    }

    /// A button that goes down (`down`) or up, if the event maps to one.
    fn edge(&mut self, b: Option<Button>, down: bool, now: u64, out: &mut Vec<InputEvent>)
        requires
            distinct_buttons(old(self)@),
        ensures
            distinct_buttons(final(self)@),
            final(self)@ == button_edge(old(self)@, b, down, now).0,
            final(out)@ == old(out)@ + button_edge(old(self)@, b, down, now).1,
    {
        match b {
            Some(b) => {
                if down {
                    out.push(InputEvent { button: b, action: InputAction::Press });
                    self.hold_button(b, now);
                } else {
                    out.push(InputEvent { button: b, action: InputAction::Release });
                    self.unhold_button(b);
                }
            },
            None => {},
        }
        assert(final(out)@ =~= old(out)@ + button_edge(old(self)@, b, down, now).1);
    }

    /// A positional button: pressed when it becomes active, released when
    /// it stops being so.
    fn update_axis_button(&mut self, b: Button, active: bool, now: u64, out: &mut Vec<InputEvent>)
        requires
            distinct_buttons(old(self)@),
        ensures
            distinct_buttons(final(self)@),
            final(self)@ == axis_step(old(self)@, b, active, now).0,
            final(out)@ == old(out)@ + axis_step(old(self)@, b, active, now).1,
    {
        let held = self.find(b).is_some();
        if active && !held {
            out.push(InputEvent { button: b, action: InputAction::Press });
            self.hold_button(b, now);
        } else if !active && held {
            out.push(InputEvent { button: b, action: InputAction::Release });
            self.unhold_button(b);
        }
        assert(final(out)@ =~= old(out)@ + axis_step(old(self)@, b, active, now).1);
    }

    fn axis_pair(&mut self, b1: Button, a1: bool, b2: Button, a2: bool, now: u64, out: &mut Vec<InputEvent>)
        requires
            distinct_buttons(old(self)@),
        ensures
            distinct_buttons(final(self)@),
            final(self)@ == axis_pair(old(self)@, b1, a1, b2, a2, now).0,
            final(out)@ == old(out)@ + axis_pair(old(self)@, b1, a1, b2, a2, now).1,
    {
        let ghost o0 = out@;
        self.update_axis_button(b1, a1, now, out);
        self.update_axis_button(b2, a2, now, out);
        proof {
            let (h1, e1) = axis_step(old(self)@, b1, a1, now);
            let (h2, e2) = axis_step(h1, b2, a2, now);
            assert(out@ =~= o0 + (e1 + e2));
        }
    }

    fn process_hat(&mut self, state: HatState, now: u64, out: &mut Vec<InputEvent>)
        requires
            distinct_buttons(old(self)@),
        ensures
            distinct_buttons(final(self)@),
            final(self)@ == raw_step(old(self)@, RawEvent::JoyHatMotion { state }, now).0,
            final(out)@ == old(out)@ + raw_step(old(self)@, RawEvent::JoyHatMotion { state }, now).1,
    {
        let up = state == HatState::Up || state == HatState::LeftUp || state == HatState::RightUp;
        let down = state == HatState::Down || state == HatState::LeftDown || state == HatState::RightDown;
        let left = state == HatState::Left || state == HatState::LeftUp || state == HatState::LeftDown;
        let right = state == HatState::Right || state == HatState::RightUp || state == HatState::RightDown;
        let ghost o0 = out@;
        self.axis_pair(Button::DpadUp, up, Button::DpadDown, down, now, out);
        self.axis_pair(Button::DpadLeft, left, Button::DpadRight, right, now, out);
        proof {
            let (h1, e1) = axis_pair(old(self)@, Button::DpadUp, up, Button::DpadDown, down, now);
            let (h2, e2) = axis_pair(h1, Button::DpadLeft, left, Button::DpadRight, right, now);
            assert(out@ =~= o0 + (e1 + e2));
        }
    }

    fn process_controller_axis(&mut self, axis: PadAxis, value: i16, now: u64, out: &mut Vec<InputEvent>)
        requires
            distinct_buttons(old(self)@),
        ensures
            distinct_buttons(final(self)@),
            final(self)@ == raw_step(old(self)@, RawEvent::ControllerAxisMotion { axis, value }, now).0,
            final(out)@ == old(out)@ + raw_step(old(self)@, RawEvent::ControllerAxisMotion { axis, value }, now).1,
    {
        match axis {
            PadAxis::TriggerLeft => self.update_axis_button(Button::L2, value > TRIGGER_THRESHOLD, now, out),
            PadAxis::TriggerRight => self.update_axis_button(Button::R2, value > TRIGGER_THRESHOLD, now, out),
            PadAxis::LeftX => self.axis_pair(
                Button::DpadLeft,
                value < -AXIS_THRESHOLD,
                Button::DpadRight,
                value > AXIS_THRESHOLD,
                now,
                out,
            ),
            PadAxis::LeftY => self.axis_pair(
                Button::DpadUp,
                value < -AXIS_THRESHOLD,
                Button::DpadDown,
                value > AXIS_THRESHOLD,
                now,
                out,
            ),
            _ => {
                assert(out@ =~= old(out)@ + Seq::<InputEvent>::empty());
            },
        }
    }

    fn raw_event(&mut self, e: RawEvent, now: u64, out: &mut Vec<InputEvent>)
        requires
            distinct_buttons(old(self)@),
        ensures
            distinct_buttons(final(self)@),
            final(self)@ == raw_step(old(self)@, e, now).0,
            final(out)@ == old(out)@ + raw_step(old(self)@, e, now).1,
    {
        match e {
            RawEvent::KeyDown { key, repeat } => {
                if repeat {
                    assert(out@ =~= old(out)@ + Seq::<InputEvent>::empty());
                } else {
                    self.edge(map_key(key), true, now, out);
                }
            },
            RawEvent::KeyUp { key } => self.edge(map_key(key), false, now, out),
            RawEvent::JoyButtonDown { button_idx } => self.edge(map_joy_button(button_idx), true, now, out),
            RawEvent::JoyButtonUp { button_idx } => self.edge(map_joy_button(button_idx), false, now, out),
            RawEvent::ControllerButtonDown { button } => self.edge(map_controller_button(button), true, now, out),
            RawEvent::ControllerButtonUp { button } => self.edge(map_controller_button(button), false, now, out),
            RawEvent::JoyHatMotion { state } => self.process_hat(state, now, out),
            RawEvent::ControllerAxisMotion { axis, value } => self.process_controller_axis(axis, value, now, out),
            RawEvent::Other => {
                assert(out@ =~= old(out)@ + Seq::<InputEvent>::empty());
            },
        }
    }

    /// Turn a batch of raw events at time `now_ns` into button events: each mapped key or
    /// button going down or up gives a press or release, hat, stick and
    /// trigger positions give a press when they become active and a release
    /// when they stop being so. Then every button held for the repeat delay
    /// whose last press or repeat lies the repeat interval back repeats.
    pub fn process_events_at(&mut self, events: &[RawEvent], now_ns: u64) -> (r: Vec<InputEvent>)
        requires
            distinct_buttons(old(self)@),
        ensures
            distinct_buttons(final(self)@),
            (final(self)@, r@) == processed(old(self)@, events@, now_ns),
    {
        let mut result: Vec<InputEvent> = Vec::new();
        let mut i: usize = 0;
        while i < events.len()
            invariant
                i <= events@.len(),
                distinct_buttons(self@),
                (self@, result@) == raw_run(old(self)@, events@.take(i as int), now_ns),
            decreases events@.len() - i,
        {
            proof {
                let t = events@.take(i as int + 1);
                assert(t.drop_last() =~= events@.take(i as int));
                assert(t.last() == events@[i as int]);
            }
            self.raw_event(events[i], now_ns, &mut result);
            i += 1;
        }
        assert(events@.take(events@.len() as int) =~= events@);
        let ghost h = self@;
        let ghost o = result@;
        let ghost f = due_at(now_ns);
        let mut k: usize = 0;
        while k < self.held.len()
            invariant
                k <= h.len(),
                self@.len() == h.len(),
                distinct_buttons(h),
                f == due_at(now_ns),
                forall|j: int| 0 <= j < k ==> self@[j] == after_repeat(h[j], now_ns),
                forall|j: int| k <= j < h.len() ==> self@[j] == h[j],
                result@ == o + h.take(k as int).filter(f).map_values(|x: HeldButton| repeat_event(x)),
            decreases h.len() - k,
        {
            proof {
                assert(h.take(k as int + 1) =~= h.take(k as int).push(h[k as int]));
                h.take(k as int).lemma_filter_push(h[k as int], f);
            }
            let x = self.held[k];
            let p = if now_ns >= x.pressed_ns { now_ns - x.pressed_ns } else { 0 };
            let l = if now_ns >= x.last_repeat_ns { now_ns - x.last_repeat_ns } else { 0 };
            if p >= REPEAT_DELAY_NS && l >= REPEAT_INTERVAL_NS {
                let ghost before = result@;
                result.push(InputEvent { button: x.button, action: InputAction::Repeat });
                self.held.set(k, HeldButton { last_repeat_ns: now_ns, ..x });
                assert(result@ =~= o + h.take(k as int + 1).filter(f).map_values(|x: HeldButton| repeat_event(x)));
            } else {
                assert(result@ =~= o + h.take(k as int + 1).filter(f).map_values(|x: HeldButton| repeat_event(x)));
            }
            k += 1;
        }
        assert(h.take(h.len() as int) =~= h);
        assert(self@ =~= h.map_values(|x: HeldButton| after_repeat(x, now_ns)));
        proof {
            assert forall|p: int, q: int| 0 <= p < self@.len() && 0 <= q < self@.len() && p != q implies self@[p].button != self@[q].button by {
                assert(self@[p].button == h[p].button && self@[q].button == h[q].button);
            }
        }
        result
    }

    /// Turn a batch of raw events into button events now (time measured from when the
    /// manager was made).
    pub fn process_events(&mut self, events: &[RawEvent]) -> (r: Vec<InputEvent>)
        requires
            distinct_buttons(old(self)@),
        ensures
            distinct_buttons(final(self)@),
            exists|now: u64| (final(self)@, r@) == #[trigger] processed(old(self)@, events@, now),
    {
        let now = nanos_since(&self.origin);
        self.process_events_at(events, now)
    }
}

/// The name scripts know a button by.
pub fn button_to_str(button: Button) -> (s: &'static str)
    ensures
        s@ == (match button {
            Button::DpadUp => "dpad_up"@,
            Button::DpadDown => "dpad_down"@,
            Button::DpadLeft => "dpad_left"@,
            Button::DpadRight => "dpad_right"@,
            Button::A => "a"@,
            Button::B => "b"@,
            Button::X => "x"@,
            Button::Y => "y"@,
            Button::L1 => "l1"@,
            Button::R1 => "r1"@,
            Button::L2 => "l2"@,
            Button::R2 => "r2"@,
            Button::Start => "start"@,
            Button::Select => "select"@,
        }),
{
    match button {
        Button::DpadUp => "dpad_up",
        Button::DpadDown => "dpad_down",
        Button::DpadLeft => "dpad_left",
        Button::DpadRight => "dpad_right",
        Button::A => "a",
        Button::B => "b",
        Button::X => "x",
        Button::Y => "y",
        Button::L1 => "l1",
        Button::R1 => "r1",
        Button::L2 => "l2",
        Button::R2 => "r2",
        Button::Start => "start",
        Button::Select => "select",
    }
}

/// The name scripts know an input action by.
pub fn action_to_str(action: InputAction) -> (s: &'static str)
    ensures
        s@ == (match action {
            InputAction::Press => "press"@,
            InputAction::Release => "release"@,
            InputAction::Repeat => "repeat"@,
        }),
{
    match action {
        InputAction::Press => "press",
        InputAction::Release => "release",
        InputAction::Repeat => "repeat",
    }
}

/// Holding `b` adds exactly `b` to the held buttons.
proof fn lemma_hold_holds(h: Seq<HeldButton>, b: Button, now: u64, x: Button)
    ensures
        holds(hold(h, b, now), x) == (holds(h, x) || x == b),
{
    let fresh = HeldButton { button: b, pressed_ns: now, last_repeat_ns: now };
    if holds(h, b) {
        let g = h.map_values(|y: HeldButton| if y.button == b { fresh } else { y });
        if holds(h, x) {
            let i = choose|i: int| 0 <= i < h.len() && h[i].button == x;
            assert(g[i].button == x);
        }
        if holds(g, x) {
            let i = choose|i: int| 0 <= i < g.len() && g[i].button == x;
            assert(h[i].button == x || x == b);
            if x == b {
                let j = choose|j: int| 0 <= j < h.len() && h[j].button == b;
                assert(h[j].button == x);
            }
        }
    } else {
        let g = h.push(fresh);
        assert(g[h.len() as int].button == b);
        if holds(h, x) {
            let i = choose|i: int| 0 <= i < h.len() && h[i].button == x;
            assert(g[i] == h[i]);
        }
        if holds(g, x) {
            let i = choose|i: int| 0 <= i < g.len() && g[i].button == x;
            if i < h.len() {
                assert(g[i] == h[i]);
            }
        }
    }
}

/// Releasing `b` removes exactly `b` from the held buttons.
proof fn lemma_unhold_holds(h: Seq<HeldButton>, b: Button, x: Button)
    ensures
        holds(unhold(h, b), x) == (holds(h, x) && x != b),
{
    let f = not_button(b);
    let g = h.filter(f);
    if holds(g, x) {
        let i = choose|i: int| 0 <= i < g.len() && g[i].button == x;
        h.lemma_filter_pred(f, i);
        h.lemma_filter_contains_rev(f, g[i]);
        let j = choose|j: int| 0 <= j < h.len() && h[j] == g[i];
        assert(h[j].button == x);
    }
    if holds(h, x) && x != b {
        let i = choose|i: int| 0 <= i < h.len() && h[i].button == x;
        h.lemma_filter_contains(f, i);
        let j = choose|j: int| 0 <= j < g.len() && g[j] == h[i];
        assert(g[j].button == x);
    }
}

/// A positional update makes `b` held exactly when `active`, and leaves
/// every other button as it was.
proof fn lemma_axis_step_holds(h: Seq<HeldButton>, b: Button, active: bool, now: u64, x: Button)
    ensures
        holds(axis_step(h, b, active, now).0, x) == (if x == b { active } else { holds(h, x) }),
{
    lemma_hold_holds(h, b, now, x);
    lemma_unhold_holds(h, b, x);
}

/// The left stick's X axis holds d-pad left while pushed past the
/// threshold to the left and d-pad right while pushed past it to the right
/// (never both); its Y axis likewise holds up and down; no other button
/// changes.
pub proof fn lemma_stick_holds_dpad(h: Seq<HeldButton>, value: i16, now: u64, x: Button)
    ensures
        ({
            let hx = raw_step(h, RawEvent::ControllerAxisMotion { axis: PadAxis::LeftX, value }, now).0;
            &&& holds(hx, Button::DpadLeft) == (value < -16000)
            &&& holds(hx, Button::DpadRight) == (value > 16000)
            &&& (x != Button::DpadLeft && x != Button::DpadRight) ==> holds(hx, x) == holds(h, x)
        }),
        ({
            let hy = raw_step(h, RawEvent::ControllerAxisMotion { axis: PadAxis::LeftY, value }, now).0;
            &&& holds(hy, Button::DpadUp) == (value < -16000)
            &&& holds(hy, Button::DpadDown) == (value > 16000)
            &&& (x != Button::DpadUp && x != Button::DpadDown) ==> holds(hy, x) == holds(h, x)
        }),
{
    let (l1, _) = axis_step(h, Button::DpadLeft, value < -AXIS_THRESHOLD, now);
    lemma_axis_step_holds(h, Button::DpadLeft, value < -AXIS_THRESHOLD, now, x);
    lemma_axis_step_holds(h, Button::DpadLeft, value < -AXIS_THRESHOLD, now, Button::DpadLeft);
    lemma_axis_step_holds(h, Button::DpadLeft, value < -AXIS_THRESHOLD, now, Button::DpadRight);
    lemma_axis_step_holds(l1, Button::DpadRight, value > AXIS_THRESHOLD, now, x);
    lemma_axis_step_holds(l1, Button::DpadRight, value > AXIS_THRESHOLD, now, Button::DpadLeft);
    lemma_axis_step_holds(l1, Button::DpadRight, value > AXIS_THRESHOLD, now, Button::DpadRight);
    let (u1, _) = axis_step(h, Button::DpadUp, value < -AXIS_THRESHOLD, now);
    lemma_axis_step_holds(h, Button::DpadUp, value < -AXIS_THRESHOLD, now, x);
    lemma_axis_step_holds(h, Button::DpadUp, value < -AXIS_THRESHOLD, now, Button::DpadUp);
    lemma_axis_step_holds(h, Button::DpadUp, value < -AXIS_THRESHOLD, now, Button::DpadDown);
    lemma_axis_step_holds(u1, Button::DpadDown, value > AXIS_THRESHOLD, now, x);
    lemma_axis_step_holds(u1, Button::DpadDown, value > AXIS_THRESHOLD, now, Button::DpadUp);
    lemma_axis_step_holds(u1, Button::DpadDown, value > AXIS_THRESHOLD, now, Button::DpadDown);
}

/// The triggers hold L2 and R2 while pulled past their threshold.
pub proof fn lemma_triggers_hold_shoulders(h: Seq<HeldButton>, value: i16, now: u64)
    ensures
        holds(raw_step(h, RawEvent::ControllerAxisMotion { axis: PadAxis::TriggerLeft, value }, now).0, Button::L2)
            == (value > 8000),
        holds(raw_step(h, RawEvent::ControllerAxisMotion { axis: PadAxis::TriggerRight, value }, now).0, Button::R2)
            == (value > 8000),
{
    lemma_axis_step_holds(h, Button::L2, value > TRIGGER_THRESHOLD, now, Button::L2);
    lemma_axis_step_holds(h, Button::R2, value > TRIGGER_THRESHOLD, now, Button::R2);
}

/// A hat holds each d-pad direction exactly while it points that way
/// (diagonals hold two).
pub proof fn lemma_hat_holds_dpad(h: Seq<HeldButton>, state: HatState, now: u64)
    ensures
        ({
            let g = raw_step(h, RawEvent::JoyHatMotion { state }, now).0;
            &&& holds(g, Button::DpadUp) == (state == HatState::Up || state == HatState::LeftUp || state
                == HatState::RightUp)
            &&& holds(g, Button::DpadDown) == (state == HatState::Down || state == HatState::LeftDown || state
                == HatState::RightDown)
            &&& holds(g, Button::DpadLeft) == (state == HatState::Left || state == HatState::LeftUp || state
                == HatState::LeftDown)
            &&& holds(g, Button::DpadRight) == (state == HatState::Right || state == HatState::RightUp || state
                == HatState::RightDown)
        }),
{
    let (up, down, left, right) = hat_dirs(state);
    let (a, _) = axis_step(h, Button::DpadUp, up, now);
    let (b, _) = axis_step(a, Button::DpadDown, down, now);
    let (c, _) = axis_step(b, Button::DpadLeft, left, now);
    lemma_axis_step_holds(h, Button::DpadUp, up, now, Button::DpadUp);
    lemma_axis_step_holds(a, Button::DpadDown, down, now, Button::DpadUp);
    lemma_axis_step_holds(b, Button::DpadLeft, left, now, Button::DpadUp);
    lemma_axis_step_holds(c, Button::DpadRight, right, now, Button::DpadUp);
    lemma_axis_step_holds(h, Button::DpadUp, up, now, Button::DpadDown);
    lemma_axis_step_holds(a, Button::DpadDown, down, now, Button::DpadDown);
    lemma_axis_step_holds(b, Button::DpadLeft, left, now, Button::DpadDown);
    lemma_axis_step_holds(c, Button::DpadRight, right, now, Button::DpadDown);
    lemma_axis_step_holds(h, Button::DpadUp, up, now, Button::DpadLeft);
    lemma_axis_step_holds(a, Button::DpadDown, down, now, Button::DpadLeft);
    lemma_axis_step_holds(b, Button::DpadLeft, left, now, Button::DpadLeft);
    lemma_axis_step_holds(c, Button::DpadRight, right, now, Button::DpadLeft);
    lemma_axis_step_holds(h, Button::DpadUp, up, now, Button::DpadRight);
    lemma_axis_step_holds(a, Button::DpadDown, down, now, Button::DpadRight);
    lemma_axis_step_holds(b, Button::DpadLeft, left, now, Button::DpadRight);
    lemma_axis_step_holds(c, Button::DpadRight, right, now, Button::DpadRight);
}

} // verus!
