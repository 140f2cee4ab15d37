//! Backlight and volume levels: the arithmetic between device values and
//! percentages, and reading the volume out of `amixer` output. Reading and
//! writing the device itself is left to the caller.

use vstd::prelude::*;

use crate::sysinfo::{next_char, parse_u64};

verus! {

/// Brightness in percent of a backlight at `cur` out of `max` (capped at
/// 100); none when `max` is 0.
pub fn brightness_percent(cur: u32, max: u32) -> (r: Option<u8>)
    requires
        cur as int * 100 <= u32::MAX,
    ensures
        r == (if max > 0 {
            Some((if (cur as int) * 100 / (max as int) < 100 { (cur as int) * 100 / (max as int) } else { 100 }) as u8)
        } else {
            None
        }),
{
    if max > 0 {
        let p = cur * 100 / max;
        Some(if p < 100 { p as u8 } else { 100 })
    } else {
        None
    }
}

/// Backlight value for `pct` percent (capped at 100) of `max`, at least 1;
/// none when `max` is 0.
pub fn brightness_target(pct: u8, max: u32) -> (r: Option<u32>)
    requires
        (if pct < 100 { pct as int } else { 100 }) * max <= u32::MAX,
    ensures
        r == (if max > 0 {
            let p = if pct < 100 { pct as int } else { 100 };
            Some((if p * max / 100 > 1 { p * max / 100 } else { 1 }) as u32)
        } else {
            None
        }),
{
    if max == 0 {
        return None;
    }
    let p: u32 = if pct < 100 { pct as u32 } else { 100 };
    let t = p * max / 100;
    Some(if t > 1 { t } else { 1 })
}

/// The first `[N%]` of `amixer` output from position `j` on: after a `[`,
/// the text up to the first `%` (before the next `[`) read as `u8`; the
/// level is capped at 100.
pub open spec fn amixer_from(s: Seq<char>, j: int) -> Option<u8>
    decreases s.len() - j,
{
    if j < 0 || j >= s.len() {
        None
    } else if s[j] != '[' {
        amixer_from(s, j + 1)
    } else {
        let nb = next_char(s, j + 1, '[');
        let e = next_char(s, j + 1, '%');
        match parse_u64(s.subrange(j + 1, e)) {
            Some(v) => if e < nb && v <= 255 {
                Some((if v < 100 { v } else { 100 }) as u8)
            } else {
                amixer_from(s, j + 1)
            },
            None => amixer_from(s, j + 1),
        }
    }
}

fn find_from(s: &str, from: usize, c: char) -> (r: usize)
    requires
        from <= s@.len(),
    ensures
        r == next_char(s@, from as int, c),
        from <= r <= s@.len(),
{
    let n = s.unicode_len();
    let mut i = from;
    while i < n && s.get_char(i) != c
        invariant
            n == s@.len(),
            from <= i <= n,
            next_char(s@, i as int, c) == next_char(s@, from as int, c),
        decreases n - i,
    {
        i += 1;
    }
    i
}

/// The master volume in `amixer -M sget Master` output, if it shows one.
pub fn amixer_volume(text: &str) -> (r: Option<u8>)
    ensures
        r == amixer_from(text@, 0),
{
    let n = text.unicode_len();
    let mut j: usize = 0;
    while j < n
        invariant
            n == text@.len(),
            j <= n,
            amixer_from(text@, 0) == amixer_from(text@, j as int),
        decreases n - j,
    {
        if text.get_char(j) == '[' {
            let nb = find_from(text, j + 1, '[');
            let e = find_from(text, j + 1, '%');
            let piece = text.substring_char(j + 1, e);
            match crate::sysinfo::parse_u64_str(piece) {
                Some(v) => {
                    if e < nb && v <= 255 {
                        return Some(if v < 100 { v as u8 } else { 100 });
                    }
                },
                None => {},
            }
        }
        j += 1;
    }
    None
}

} // verus!
