//! Small widget types: tabs, table alignment, toasts, fonts and the WiFi
//! status shown in the status bar.

use vstd::prelude::*;

use crate::fmt::owned;
use crate::input::{Button, InputAction, InputEvent};

verus! {

/// An RGBA colour.
#[derive(Debug, Clone, Copy, PartialEq, Eq, Structural)]
pub struct Rgba {
    pub r: u8,
    pub g: u8,
    pub b: u8,
    pub a: u8,
}

/// A single tab definition.
#[derive(Clone, Debug)]
pub struct Tab {
    pub label: String,
    pub id: String,
}

impl Tab {
    pub fn new(label: &str, id: &str) -> (t: Self)
        ensures
            t.label@ == label@,
            t.id@ == id@,
    {
        Self { label: owned(label), id: owned(id) }
    }
}

/// Horizontal tab bar. L1 moves left, R1 moves right.
pub struct TabBar {
    pub tabs: Vec<Tab>,
    pub active_index: usize,
    /// Optional accent colour override for the active indicator.
    pub active_color: Option<Rgba>,
}

impl TabBar {
    pub fn new(tabs: Vec<Tab>) -> (b: Self)
        ensures
            b.tabs@ == tabs@,
            b.active_index == 0,
            b.active_color is None,
    {
        Self { tabs, active_index: 0, active_color: None }
    }

    /// Get the currently active tab, if any.
    pub fn active_tab(&self) -> (t: Option<&Tab>)
        ensures
            self.active_index < self.tabs@.len() ==> t == Some(&self.tabs@[self.active_index as int]),
            self.active_index >= self.tabs@.len() ==> t is None,
    {
        if self.active_index < self.tabs.len() {
            Some(&self.tabs[self.active_index])
        } else {
            None
        }
    }

    /// Handle L1/R1 input. Returns `true` if the active tab changed.
    pub fn handle_input(&mut self, event: &InputEvent) -> (changed: bool)
        requires
            old(self).active_index < usize::MAX,
        ensures
            final(self).tabs == old(self).tabs,
            final(self).active_color == old(self).active_color,
            changed == (event.action != InputAction::Release && (
                (event.button == Button::L1 && old(self).active_index > 0)
                || (event.button == Button::R1 && old(self).active_index + 1 < old(self).tabs@.len()))),
            final(self).active_index == (if !changed {
                old(self).active_index as int
            } else if event.button == Button::L1 {
                old(self).active_index - 1
            } else {
                old(self).active_index + 1
            }),
    {
        if event.action == InputAction::Release {
            return false;
        }
        match event.button {
            Button::L1 => {
                if self.active_index > 0 {
                    self.active_index -= 1;
                    return true;
                }
            },
            Button::R1 => {
                if self.active_index + 1 < self.tabs.len() {
                    self.active_index += 1;
                    return true;
                }
            },
            _ => {},
        }
        false
    }
}

/// Column text alignment in a table.
#[derive(Debug, Clone, Copy, PartialEq, Eq, Structural)]
pub enum Align {
    Left,
    Right,
    Center,
}

pub open spec fn spec_aligned_x(x: int, width: int, text_w: int, align: Align) -> int {
    match align {
        Align::Left => x,
        Align::Right => x + width - text_w - 4,
        Align::Center => {
            let v = width - text_w;
            x + if v >= 0 { v / 2 } else { -((-v) / 2) }
        },
    }
}

/// X coordinate of text `text_w` wide in a cell at `x` of `width`: flush
/// left, right with a 4px inset, or centred (rounding toward zero).
pub fn aligned_x(x: i32, width: i32, text_w: i32, align: Align) -> (r: i32)
    requires
        i32::MIN <= spec_aligned_x(x as int, width as int, text_w as int, align) <= i32::MAX,
        i32::MIN <= width - text_w <= i32::MAX,
        align == Align::Right ==> i32::MIN <= x + width <= i32::MAX && i32::MIN <= x + width - text_w <= i32::MAX,
    ensures
        r == spec_aligned_x(x as int, width as int, text_w as int, align),
{
    match align {
        Align::Left => x,
        Align::Right => x + width - text_w - 4,
        Align::Center => {
            let v = width - text_w;
            let half = if v >= 0 { v / 2 } else { -((-(v as i64)) / 2) as i32 };
            x + half
        },
    }
}

/// Toast severity level, determines the coloured dot on the left.
#[derive(Clone, Copy, Debug, PartialEq, Eq, Structural)]
pub enum ToastLevel {
    Info,
    Success,
    Warning,
    Error,
}

/// Font style variants.
#[derive(Debug, Clone, Copy, PartialEq, Eq, Hash, Structural)]
pub enum FontStyle {
    Mono,
    MonoBold,
    /// Display face for titles, numerals and the clock.
    Display,
}

/// WiFi connection status for display in the status bar.
#[derive(Debug, Clone, Copy, PartialEq, Eq, Structural)]
pub struct WifiStatus {
    pub connected: bool,
    /// 0-100, -1 = unknown
    pub signal_strength: i32,
}

impl Default for WifiStatus {
    fn default() -> (w: Self)
        ensures
            !w.connected,
            w.signal_strength == -1,
    {
        Self { connected: false, signal_strength: -1 }
    }
}

/// Append `x` to a queue holding at most `max` items: when the queue grows
/// past `max`, its oldest item is dropped.
pub fn push_capped<T>(items: &mut Vec<T>, x: T, max: usize)
    requires
        old(items)@.len() < usize::MAX,
    ensures
        final(items)@ == (if old(items)@.len() + 1 > max {
            old(items)@.push(x).drop_first()
        } else {
            old(items)@.push(x)
        }),
{
    items.push(x);
    if items.len() > max {
        let ghost before = items@;
        items.remove(0);
        assert(items@ =~= before.drop_first());
    }
}

} // verus!
