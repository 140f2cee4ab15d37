//! Shared chrome of the launcher screens: chips, footer hints, the header
//! clock and index labels.

use vstd::prelude::*;

use crate::clock::unix_now;
use crate::fmt::{owned, padded, push_padded, string_push};

verus! {

#[derive(Debug, Clone, Copy, PartialEq, Eq, Structural)]
pub enum Chip {
    /// Red fill, black text (UPDATE, active category).
    FilledRed,
    /// Black fill, warm-white text (chips on top of a red surface).
    FilledBlack,
    /// 1px warm-white outline, warm-white text (category, INSTALLED).
    OutlineWhite,
    /// 1px muted outline, dim text (author, permissions).
    OutlineDim,
    /// 1px black outline, black text (chips on top of a red surface).
    OutlineBlack,
}

/// Footer hint kinds.
#[derive(Debug, Clone, Copy, PartialEq, Eq, Structural)]
pub enum Cap {
    /// 26px square, warm-white fill, black letter (A, Y).
    White,
    /// 26px square, red fill, black letter (B, X).
    Red,
    /// Outlined wide box with small uppercase text (START, L1/R1, SELECT).
    Wide,
}

/// A footer hint: capsule + uppercase label.
pub struct Hint {
    pub label: &'static str,
    pub action: String,
    pub kind: Cap,
    /// Right-aligned group (START SETTINGS sits at the right edge).
    pub right: bool,
}

impl Hint {
    pub fn new(label: &'static str, action: &str, kind: Cap) -> (h: Self)
        ensures
            h.label == label,
            h.action@ == action@,
            h.kind == kind,
            !h.right,
    {
        Self { label, action: owned(action), kind, right: false }
    }

    pub fn right(self) -> (h: Self)
        ensures
            h == (Hint { right: true, ..self }),
    {
        let mut s = self;
        s.right = true;
        s
    }

    pub fn a(action: &str) -> (h: Self)
        ensures
            h.label@ == "A"@,
            h.action@ == action@,
            h.kind == Cap::White,
            !h.right,
    {
        Self::new("A", action, Cap::White)
    }

    pub fn b(action: &str) -> (h: Self)
        ensures
            h.label@ == "B"@,
            h.action@ == action@,
            h.kind == Cap::Red,
            !h.right,
    {
        Self::new("B", action, Cap::Red)
    }

    pub fn x(action: &str) -> (h: Self)
        ensures
            h.label@ == "X"@,
            h.action@ == action@,
            h.kind == Cap::Red,
            !h.right,
    {
        Self::new("X", action, Cap::Red)
    }

    pub fn y(action: &str) -> (h: Self)
        ensures
            h.label@ == "Y"@,
            h.action@ == action@,
            h.kind == Cap::White,
            !h.right,
    {
        Self::new("Y", action, Cap::White)
    }

    pub fn start(action: &str) -> (h: Self)
        ensures
            h.label@ == "START"@,
            h.action@ == action@,
            h.kind == Cap::Wide,
            h.right,
    {
        Self::new("START", action, Cap::Wide).right()
    }

    pub fn wide(label: &'static str, action: &str) -> (h: Self)
        ensures
            h.label == label,
            h.action@ == action@,
            h.kind == Cap::Wide,
            !h.right,
    {
        Self::new(label, action, Cap::Wide)
    }
}

/// `HH:MM` of the instant `now` seconds after the epoch, shifted by
/// `tz_offset` seconds.
pub open spec fn clock_text(now: int, tz_offset: int) -> Seq<char> {
    let secs_today = (now + tz_offset) % 86400;
    padded((secs_today / 3600) as nat, 2) + seq![':'] + padded(((secs_today % 3600) / 60) as nat, 2)
}

fn seconds_of_day(local: i64) -> (r: u64)
    ensures
        r == local as int % 86400,
        r < 86400,
{
    let m = local % 86400;
    if m < 0 {
        (m + 86400) as u64
    } else {
        m as u64
    }
}

/// The clock text for a given instant and time-zone offset.
pub fn clock_string_at(now: u64, tz_offset_secs: i64) -> (r: String)
    requires
        now + tz_offset_secs <= i64::MAX,
        now + tz_offset_secs >= i64::MIN,
    ensures
        r@ == clock_text(now as int, tz_offset_secs as int),
{
    let local = (now as i128 + tz_offset_secs as i128) as i64;
    let secs_today = seconds_of_day(local);
    let mut s = String::new();
    push_padded(&mut s, secs_today / 3600, 2);
    string_push(&mut s, ':');
    push_padded(&mut s, (secs_today % 3600) / 60, 2);
    assert(s@ =~= clock_text(now as int, tz_offset_secs as int));
    s
}

/// Latest instant the clock reads without clamping (far in the future).
pub const CLOCK_MAX_SECS: u64 = 0x4000_0000_0000_0000;

/// "HH:MM" of the current time, `tz_offset_secs` east of UTC.
pub fn clock_string(tz_offset_secs: i64) -> (r: String)
    requires
        -0x1000_0000_0000 <= tz_offset_secs <= 0x1000_0000_0000,
    ensures
        exists|now: u64| #[trigger] clock_text(now as int, tz_offset_secs as int) == r@,
{
    let (now, _) = unix_now();
    let now = if now > CLOCK_MAX_SECS { CLOCK_MAX_SECS } else { now };
    clock_string_at(now, tz_offset_secs)
}

/// Two-character index label ("01", "12") for position `i`.
pub fn index_label(i: usize) -> (r: String)
    requires
        i < usize::MAX,
    ensures
        r@ == padded((i + 1) as nat, 2),
{
    let mut s = String::new();
    push_padded(&mut s, (i + 1) as u64, 2);
    assert(s@ =~= padded((i + 1) as nat, 2));
    s
}

} // verus!
