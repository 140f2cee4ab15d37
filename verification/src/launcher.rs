//! Launcher configuration and data types, app ids, and the file-system
//! layout rules.

use vstd::prelude::*;

use std::path::PathBuf;

use crate::fmt::{owned, push_str, string_push};
use crate::input::Button;
use crate::text::{is_blank, is_trim_of, trim};

verus! {

/// `std::path::PathBuf`, carried through as an opaque value.
#[verifier::external_type_specification]
#[verifier::external_body]
pub struct ExPathBuf(PathBuf);

/// Index of the character after the last `.` in `s` (0 when there is none).
pub open spec fn short_name_start(s: Seq<char>) -> int {
    if exists|i: int| 0 <= i < s.len() && s[i] == '.' {
        (choose|i: int| 0 <= i < s.len() && s[i] == '.' && forall|j: int| i < j < s.len() ==> s[j] != '.') + 1
    } else {
        0
    }
}

/// The short name of a dotted app id: the part after the last `.`
/// (e.g. "dev.cartridge.calculator" -> "calculator"; the whole id when it
/// has no dot).
pub fn app_short_name(app_id: &str) -> (r: &str)
    ensures
        r@ == app_id@.subrange(short_name_start(app_id@), app_id@.len() as int),
{
    let n = app_id.unicode_len();
    let mut k: usize = n;
    while k > 0 && app_id.get_char(k - 1) != '.'
        invariant
            n == app_id@.len(),
            k <= n,
            forall|j: int| k <= j < n ==> app_id@[j] != '.',
        decreases k,
    {
        k -= 1;
    }
    proof {
        let s = app_id@;
        if k > 0 {
            assert(s[k - 1] == '.');
            let w = choose|i: int| 0 <= i < s.len() && s[i] == '.' && forall|j: int| i < j < s.len() ==> s[j] != '.';
            assert(s[k - 1] == '.' && forall|j: int| k - 1 < j < s.len() ==> s[j] != '.');
            if w < k - 1 {
                assert(s[k - 1] != '.');
            }
            if w > k - 1 {
                assert(s[w] != '.');
            }
            assert(short_name_start(s) == k);
        } else {
            assert forall|i: int| 0 <= i < s.len() implies s[i] != '.' by {}
            assert(short_name_start(s) == 0);
        }
    }
    app_id.substring_char(k, n)
}

/// The result of running the launcher: the user quit, or wants to launch an app.
pub enum LauncherResult {
    /// User closed the launcher (Escape or window close).
    Quit,
    /// User wants to launch a Lua app at this path.
    LaunchApp(PathBuf),
}

/// One scripted input frame: button presses to inject and how many frames
/// to run before the next entry.
#[derive(Debug, Clone)]
pub struct ScriptStep {
    pub buttons: Vec<Button>,
    pub frames_after: u32,
}

/// Configuration for headless / scripted runs.
#[derive(Default)]
pub struct LauncherConfig {
    /// Stop after this many frames (None = run forever).
    pub max_frames: Option<u64>,
    /// Pre-scripted input. Each ScriptStep injects buttons then waits N frames.
    pub script: Vec<ScriptStep>,
    /// If set, dump the frames listed in `capture_frames` as PNG here.
    pub capture_dir: Option<PathBuf>,
    /// Frames at which to capture.
    pub capture_frames: Vec<u64>,
    /// Skip the frame-rate sleep so benches run as fast as possible.
    pub uncapped: bool,
    /// Print perf stats periodically and before exit.
    pub print_stats: bool,
}

/// Configuration for headless / bench runs of a Lua cartridge.
#[derive(Debug, Clone, Default)]
pub struct LuaAppConfig {
    /// Create the SDL window hidden.
    pub hidden: bool,
    /// Skip the frame-rate sleep so benches run as fast as possible.
    pub uncapped: bool,
    /// Stop after this many frames (None = run until quit).
    pub max_frames: Option<u64>,
    /// If set, frames listed in `capture_frames` are dumped here.
    pub capture_dir: Option<PathBuf>,
    /// Frames at which to capture.
    pub capture_frames: Vec<u64>,
    /// Print the perf summary when the run ends.
    pub print_stats: bool,
    /// Simulator-only HTTP replies; unmatched requests fail offline.
    pub http_fixture: Option<PathBuf>,
    /// Frame-numbered button presses for deterministic interaction checks.
    pub script: Vec<(u64, Button)>,
    /// Automated checks fail on Lua errors instead of capturing an error panel.
    pub fail_on_error: bool,
}

/// Options a call site can force for the SDL window.
#[derive(Debug, Clone, Copy, Default, PartialEq, Eq, Structural)]
pub struct WindowOptions {
    /// Force a hidden window.
    pub hidden: bool,
    /// Force the software renderer.
    pub software: bool,
}

/// A cartridge's `cartridge.json`.
#[derive(Debug)]
pub struct CartridgeManifest {
    pub id: String,
    pub name: String,
    pub version: String,
    pub author: String,
    pub description: String,
    pub category: String,
    pub permissions: Vec<String>,
    pub entry: String,
}

/// Scoped key-value storage for app data.
pub struct AppStorage {
    pub app_id: String,
    pub data_dir: PathBuf,
    pub cache_dir: PathBuf,
}

/// Home directory for all `~/.cartridges` state: `CARTRIDGE_HOME` trimmed
/// when it is set and not blank, else `HOME`, else `.`.
pub open spec fn home_dir_choice(cartridge_home: Option<Seq<char>>, home: Option<Seq<char>>, r: Seq<char>) -> bool {
    let from_home = match home {
        Some(h) => r == h,
        None => r == "."@,
    };
    match cartridge_home {
        Some(h) => if !is_blank(h) { is_trim_of(r, h) } else { from_home },
        None => from_home,
    }
}

/// Pick the home directory from the values of `CARTRIDGE_HOME` and `HOME`.
pub fn home_dir_from(cartridge_home: Option<&str>, home: Option<&str>) -> (r: String)
    ensures
        home_dir_choice(
            match cartridge_home { Some(h) => Some(h@), None => None },
            match home { Some(h) => Some(h@), None => None },
            r@,
        ),
{
    if let Some(h) = cartridge_home {
        let t = trim(h);
        if t.unicode_len() > 0 {
            return owned(t);
        }
    }
    match home {
        Some(h) => owned(h),
        None => owned("."),
    }
}

/// The file of a script module, relative to the app directory: the dotted
/// name with `/` for each `.`, then `.lua` (`"ui.list"` -> `"ui/list.lua"`).
pub open spec fn module_file(name: Seq<char>) -> Seq<char> {
    name.map_values(|c: char| if c == '.' { '/' } else { c }) + ".lua"@
}

/// The file of the script module `name`, relative to the app directory.
pub fn lua_module_file(name: &str) -> (r: String)
    ensures
        r@ == module_file(name@),
{
    let n = name.unicode_len();
    let mut r = String::new();
    let mut i: usize = 0;
    while i < n
        invariant
            n == name@.len(),
            i <= n,
            r@ == name@.take(i as int).map_values(|c: char| if c == '.' { '/' } else { c }),
        decreases n - i,
    {
        let c = name.get_char(i);
        string_push(&mut r, if c == '.' { '/' } else { c });
        assert(name@.take(i as int + 1) =~= name@.take(i as int).push(c));
        assert(r@ =~= name@.take(i as int + 1).map_values(|c: char| if c == '.' { '/' } else { c }));
        i += 1;
    }
    assert(name@.take(n as int) =~= name@);
    push_str(&mut r, ".lua");
    r
}

/// The directory names an app may be installed under: its full id, then
/// its short name.
pub fn name_variants(app_id: &str) -> (r: Vec<String>)
    ensures
        r@.len() == 2,
        r@[0]@ == app_id@,
        r@[1]@ == app_id@.subrange(short_name_start(app_id@), app_id@.len() as int),
{
    let mut r: Vec<String> = Vec::new();
    r.push(owned(app_id));
    r.push(owned(app_short_name(app_id)));
    r
}

} // verus!
