//! Theme presets and cycling through them in the settings screen.

use vstd::prelude::*;

use crate::fmt::owned;
use crate::strs::str_eq;

verus! {

/// A theme preset's identifier and display name.
pub struct ThemePreset {
    pub id: &'static str,
    pub name: &'static str,
}

/// Number of built-in presets.
pub const PRESET_COUNT: usize = 3;

/// Preset ids in display order.
pub open spec fn preset_id(i: int) -> Seq<char> {
    if i == 0 {
        "midnight"@
    } else if i == 1 {
        "amber"@
    } else {
        "matrix"@
    }
}

pub open spec fn preset_name(i: int) -> Seq<char> {
    if i == 0 {
        "Midnight"@
    } else if i == 1 {
        "Amber Terminal"@
    } else {
        "Matrix"@
    }
}

/// Built-in theme preset `i`, in display order.
pub fn theme_preset(i: usize) -> (p: ThemePreset)
    requires
        i < PRESET_COUNT,
    ensures
        p.id@ == preset_id(i as int),
        p.name@ == preset_name(i as int),
{
    match i {
        0 => ThemePreset { id: "midnight", name: "Midnight" },
        1 => ThemePreset { id: "amber", name: "Amber Terminal" },
        _ => ThemePreset { id: "matrix", name: "Matrix" },
    }
}

/// Default theme id used when no user choice is set.
pub fn default_theme_id() -> (s: &'static str)
    ensures
        s@ == preset_id(0),
{
    "midnight"
}

/// Position of the first preset with id `id`, if any.
pub open spec fn preset_index(id: Seq<char>) -> Option<int> {
    if id == preset_id(0) {
        Some(0)
    } else if id == preset_id(1) {
        Some(1)
    } else if id == preset_id(2) {
        Some(2)
    } else {
        None
    }
}

fn find_preset(id: &str) -> (r: Option<usize>)
    ensures
        match r {
            Some(i) => preset_index(id@) == Some(i as int),
            None => preset_index(id@) is None,
        },
{
    let mut i: usize = 0;
    while i < PRESET_COUNT
        invariant
            i <= PRESET_COUNT,
            forall|j: int| 0 <= j < i ==> id@ != preset_id(j),
        decreases PRESET_COUNT - i,
    {
        if str_eq(theme_preset(i).id, id) {
            return Some(i);
        }
        i += 1;
    }
    None
}

/// The preset id after (or before) `current`, wrapping around; an unknown
/// id counts as the first preset.
pub open spec fn spec_cycle(current: Seq<char>, forward: bool) -> Seq<char> {
    let idx = match preset_index(current) {
        Some(i) => i,
        None => 0,
    };
    let next = if forward {
        (idx + 1) % 3
    } else if idx == 0 {
        2
    } else {
        idx - 1
    };
    preset_id(next)
}

/// Preset ids are distinct, so each id finds its own position.
pub proof fn lemma_preset_ids_distinct(i: int)
    requires
        0 <= i < 3,
    ensures
        preset_index(preset_id(i)) == Some(i),
{
    reveal_strlit("midnight");
    reveal_strlit("amber");
    reveal_strlit("matrix");
    assert("midnight"@[0] != "amber"@[0]);
    assert("midnight"@[1] != "matrix"@[1]);
    assert("amber"@.len() != "matrix"@.len());
}

/// Cycling forward then back returns to a known preset, and cycling three
/// times in one direction comes back around.
pub proof fn lemma_cycle_round_trip(id: Seq<char>)
    requires
        preset_index(id) is Some,
    ensures
        spec_cycle(spec_cycle(id, true), false) == id,
        spec_cycle(spec_cycle(id, false), true) == id,
        spec_cycle(spec_cycle(spec_cycle(id, true), true), true) == id,
{
    let i = preset_index(id)->0;
    lemma_preset_ids_distinct(0);
    lemma_preset_ids_distinct(1);
    lemma_preset_ids_distinct(2);
}

/// Move to the next/previous theme preset by id, wrapping at the ends; an
/// unknown id counts as the first preset.
pub fn cycle_theme(current: &str, forward: bool) -> (r: String)
    ensures
        r@ == spec_cycle(current@, forward),
{
    let idx = match find_preset(current) {
        Some(i) => i,
        None => 0,
    };
    let n = PRESET_COUNT;
    let next = if forward {
        (idx + 1) % n
    } else if idx == 0 {
        n - 1
    } else {
        idx - 1
    };
    owned(theme_preset(next).id)
}

/// Display name for a theme id ("Unknown" when the id is not a preset).
pub fn theme_display_name(id: &str) -> (r: &'static str)
    ensures
        match preset_index(id@) {
            Some(i) => r@ == preset_name(i),
            None => r@ == "Unknown"@,
        },
{
    match find_preset(id) {
        Some(i) => theme_preset(i).name,
        None => "Unknown",
    }
}

} // verus!
