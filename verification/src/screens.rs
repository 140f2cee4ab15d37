//! Launcher screens: navigation state of the home, store, detail and
//! settings screens and the actions they hand back to the launcher loop.

use vstd::prelude::*;

use std::time::Instant;

use crate::clock::{instant_now, nanos_since, unix_now};
use crate::games::GameRequest;
use crate::fmt::{concat, decimal, decimal_string, owned, push_decimal, push_str, string_push};
use crate::input::{Button, InputAction, InputEvent};
use crate::strs::str_eq;
use crate::widgets::Rgba;
use crate::theme::{cycle_theme, spec_cycle};
use crate::data::{
    installed_apps, push_recent, recent_views, spec_install, spec_installed_apps, spec_record, spec_remove, AppEntry,
    InstalledApps, LauncherSettings, RecentEntry, RecentModel, Registry,
};

verus! {

/// Identifies which screen to push.
#[derive(Debug, Clone, Copy, PartialEq, Eq, Structural)]
pub enum ScreenId {
    Home,
    Store,
    /// Index into the registry apps.
    Detail(usize),
    Settings,
    WiFi,
}

/// Result of handling input on a screen.
#[derive(Debug, Clone)]
pub enum ScreenAction {
    /// Stay on current screen, no navigation change.
    Stay,
    /// Push a new screen onto the stack.
    Push(ScreenId),
    /// Pop the current screen (go back).
    Pop,
    /// Show the boot selector overlay.
    ShowOverlay,
    /// Quit the application.
    Quit,
    /// Launch an installed app by its id.
    LaunchApp(String),
    /// Start a stock game once the launcher has closed.
    LaunchGame(GameRequest),
}

/// Press or key repeat: the actions screens react to.
pub open spec fn acts(e: InputEvent) -> bool {
    e.action == InputAction::Press || e.action == InputAction::Repeat
}

// ---------------------------------------------------------------------------
// Home
// ---------------------------------------------------------------------------

/// Focus zone on the home screen.
#[derive(Debug, Clone, Copy, PartialEq, Eq, Structural)]
pub enum HomeZone {
    Dock,
    Recent,
}

/// What a home-screen press asks of the launcher beyond moving the focus.
#[derive(Debug, Clone, Copy, PartialEq, Eq, Structural)]
pub enum HomeCommand {
    /// Keep going with the next event.
    Continue,
    /// Launch the installed app at this dock position.
    LaunchInstalled(usize),
    /// Launch the app of the recent entry at this position (if installed).
    LaunchRecent(usize),
    /// Remove the installed app at this dock position.
    RemoveInstalled(usize),
    /// Open the store.
    OpenStore,
    /// Open the settings.
    OpenSettings,
    /// Show the system menu.
    ShowOverlay,
}

pub struct HomeScreen {
    dock_index: i32,
    recent_index: i32,
    zone: HomeZone,
}

pub struct HomeModel {
    pub dock_index: int,
    pub recent_index: int,
    pub zone: HomeZone,
}

impl View for HomeScreen {
    type V = HomeModel;

    closed spec fn view(&self) -> HomeModel {
        HomeModel { dock_index: self.dock_index as int, recent_index: self.recent_index as int, zone: self.zone }
    }
}

/// `max(v, 0)`.
pub open spec fn at_least_zero(v: int) -> int {
    if v > 0 { v } else { 0 }
}

/// `min(v, hi)`.
pub open spec fn at_most(v: int, hi: int) -> int {
    if v < hi { v } else { hi }
}

impl HomeModel {
    /// Both focus indices are never negative.
    pub open spec fn wf(self) -> bool {
        0 <= self.dock_index && 0 <= self.recent_index
    }

    /// The focus is on an existing app of each list (or the first slot of
    /// an empty one), and on the recent strip only when it has entries.
    pub open spec fn in_range(self, installed: int, recents: int) -> bool {
        &&& 0 <= self.dock_index && (installed > 0 ==> self.dock_index < installed)
        &&& 0 <= self.recent_index && (recents > 0 ==> self.recent_index < recents)
        &&& self.zone == HomeZone::Recent ==> recents > 0
    }

    /// One press: the next focus and the command it issues.
    pub open spec fn press(self, button: Button, installed: int, recents: int) -> (HomeModel, HomeCommand) {
        match button {
            Button::DpadLeft => (match self.zone {
                HomeZone::Dock => if installed > 0 {
                    HomeModel { dock_index: at_least_zero(self.dock_index - 1), ..self }
                } else { self },
                HomeZone::Recent => if recents > 0 {
                    HomeModel { recent_index: at_least_zero(self.recent_index - 1), ..self }
                } else { self },
            }, HomeCommand::Continue),
            Button::DpadRight => (match self.zone {
                HomeZone::Dock => if installed > 0 {
                    HomeModel { dock_index: at_most(self.dock_index + 1, installed - 1), ..self }
                } else { self },
                HomeZone::Recent => if recents > 0 {
                    HomeModel { recent_index: at_most(self.recent_index + 1, recents - 1), ..self }
                } else { self },
            }, HomeCommand::Continue),
            Button::DpadDown => (
                if self.zone == HomeZone::Dock && recents > 0 { HomeModel { zone: HomeZone::Recent, ..self } } else { self },
                HomeCommand::Continue,
            ),
            Button::DpadUp => (HomeModel { zone: HomeZone::Dock, ..self }, HomeCommand::Continue),
            Button::L1 => (
                if self.zone == HomeZone::Dock && installed > 0 {
                    HomeModel { dock_index: at_least_zero(self.dock_index - 5), ..self }
                } else { self },
                HomeCommand::Continue,
            ),
            Button::R1 => (
                if self.zone == HomeZone::Dock && installed > 0 {
                    HomeModel { dock_index: at_most(self.dock_index + 5, installed - 1), ..self }
                } else { self },
                HomeCommand::Continue,
            ),
            Button::A => (self, if self.zone == HomeZone::Dock && installed > 0 {
                HomeCommand::LaunchInstalled(self.dock_index as usize)
            } else if self.zone == HomeZone::Recent && recents > 0 {
                HomeCommand::LaunchRecent(self.recent_index as usize)
            } else {
                HomeCommand::Continue
            }),
            Button::Y => (self, HomeCommand::OpenStore),
            Button::X => (self, if self.zone == HomeZone::Dock && installed > 0 {
                HomeCommand::RemoveInstalled(self.dock_index as usize)
            } else {
                HomeCommand::Continue
            }),
            Button::Start => (self, HomeCommand::OpenSettings),
            Button::Select => (self, HomeCommand::ShowOverlay),
            _ => (self, HomeCommand::Continue),
        }
    }
}

impl Default for HomeScreen {
    fn default() -> (h: Self)
        ensures
            h@ == (HomeModel { dock_index: 0, recent_index: 0, zone: HomeZone::Dock }),
    {
        Self::new()
    }
}

impl HomeScreen {
    pub fn new() -> (h: Self)
        ensures
            h@ == (HomeModel { dock_index: 0, recent_index: 0, zone: HomeZone::Dock }),
    {
        Self { dock_index: 0, recent_index: 0, zone: HomeZone::Dock }
    }

    /// Apply one press or repeat with `installed` apps in the dock and
    /// `recents` recent entries; returns the command it issues. A focus
    /// that was on the lists stays on them.
    pub fn press(&mut self, button: Button, installed: i32, recents: i32) -> (c: HomeCommand)
        requires
            0 <= installed,
            0 <= recents,
            old(self)@.wf(),
            button == Button::DpadRight ==> old(self)@.dock_index < i32::MAX && old(self)@.recent_index < i32::MAX,
            button == Button::R1 ==> old(self)@.dock_index + 5 <= i32::MAX,
        ensures
            (final(self)@, c) == old(self)@.press(button, installed as int, recents as int),
            final(self)@.wf(),
            old(self)@.in_range(installed as int, recents as int) ==> final(self)@.in_range(
                installed as int,
                recents as int,
            ),
    {
        match button {
            Button::DpadLeft => {
                match self.zone {
                    HomeZone::Dock => if installed > 0 {
                        self.dock_index = if self.dock_index - 1 > 0 { self.dock_index - 1 } else { 0 };
                    },
                    HomeZone::Recent => if recents > 0 {
                        self.recent_index = if self.recent_index - 1 > 0 { self.recent_index - 1 } else { 0 };
                    },
                }
                HomeCommand::Continue
            },
            Button::DpadRight => {
                match self.zone {
                    HomeZone::Dock => if installed > 0 {
                        self.dock_index = if self.dock_index + 1 < installed - 1 { self.dock_index + 1 } else { installed - 1 };
                    },
                    HomeZone::Recent => if recents > 0 {
                        self.recent_index = if self.recent_index + 1 < recents - 1 {
                            self.recent_index + 1
                        } else {
                            recents - 1
                        };
                    },
                }
                HomeCommand::Continue
            },
            Button::DpadDown => {
                if self.zone == HomeZone::Dock && recents > 0 {
                    self.zone = HomeZone::Recent;
                }
                HomeCommand::Continue
            },
            Button::DpadUp => {
                self.zone = HomeZone::Dock;
                HomeCommand::Continue
            },
            Button::L1 => {
                if self.zone == HomeZone::Dock && installed > 0 {
                    self.dock_index = if self.dock_index - 5 > 0 { self.dock_index - 5 } else { 0 };
                }
                HomeCommand::Continue
            },
            Button::R1 => {
                if self.zone == HomeZone::Dock && installed > 0 {
                    self.dock_index = if self.dock_index + 5 < installed - 1 { self.dock_index + 5 } else { installed - 1 };
                }
                HomeCommand::Continue
            },
            Button::A => {
                if self.zone == HomeZone::Dock && installed > 0 {
                    HomeCommand::LaunchInstalled(self.dock_index as usize)
                } else if self.zone == HomeZone::Recent && recents > 0 {
                    HomeCommand::LaunchRecent(self.recent_index as usize)
                } else {
                    HomeCommand::Continue
                }
            },
            Button::Y => HomeCommand::OpenStore,
            Button::X => {
                if self.zone == HomeZone::Dock && installed > 0 {
                    HomeCommand::RemoveInstalled(self.dock_index as usize)
                } else {
                    HomeCommand::Continue
                }
            },
            Button::Start => HomeCommand::OpenSettings,
            Button::Select => HomeCommand::ShowOverlay,
            _ => HomeCommand::Continue,
        }
    }

    /// After removing an app, keep the dock focus on an existing app.
    pub fn after_remove(&mut self, new_count: i32)
        requires
            0 <= new_count,
            0 <= old(self)@.dock_index,
        ensures
            final(self)@ == (HomeModel {
                dock_index: if old(self)@.dock_index >= new_count && new_count > 0 {
                    new_count - 1
                } else if new_count == 0 {
                    0
                } else {
                    old(self)@.dock_index
                },
                ..old(self)@
            }),
            new_count > 0 ==> final(self)@.dock_index < new_count,
    {
        if self.dock_index >= new_count && new_count > 0 {
            self.dock_index = new_count - 1;
        } else if new_count == 0 {
            self.dock_index = 0;
        }
    }
}

/// Seconds since the epoch, now (0 when the clock is before the epoch).
pub fn now_secs() -> u64 {
    let (s, _) = unix_now();
    s
}

/// Compact age of a timestamp `diff` seconds ago.
pub open spec fn elapsed_text(now: int, timestamp: int) -> Seq<char> {
    if now <= timestamp {
        "now"@
    } else {
        let diff = now - timestamp;
        if diff < 60 {
            decimal(diff as nat) + seq!['s']
        } else if diff < 3600 {
            decimal((diff / 60) as nat) + seq!['m']
        } else if diff < 86400 {
            decimal((diff / 3600) as nat) + seq!['h']
        } else {
            decimal((diff / 86400) as nat) + seq!['d']
        }
    }
}

/// Age of `timestamp_secs` at `now`: "now", then seconds, minutes, hours
/// or days ("42s", "5m", "3h", "2d").
pub fn format_elapsed_at(now: u64, timestamp_secs: u64) -> (r: String)
    ensures
        r@ == elapsed_text(now as int, timestamp_secs as int),
{
    if now <= timestamp_secs {
        return owned("now");
    }
    let diff = now - timestamp_secs;
    let mut s = String::new();
    let unit = if diff < 60 {
        push_decimal(&mut s, diff);
        's'
    } else if diff < 3600 {
        push_decimal(&mut s, diff / 60);
        'm'
    } else if diff < 86400 {
        push_decimal(&mut s, diff / 3600);
        'h'
    } else {
        push_decimal(&mut s, diff / 86400);
        'd'
    };
    string_push(&mut s, unit);
    assert(s@ =~= elapsed_text(now as int, timestamp_secs as int));
    s
}

/// Age of `timestamp_secs` now.
pub fn format_elapsed(timestamp_secs: u64) -> (r: String)
    ensures
        exists|now: u64| #[trigger] elapsed_text(now as int, timestamp_secs as int) == r@,
{
    format_elapsed_at(now_secs(), timestamp_secs)
}

/// Cache duration label: minutes below an hour, whole hours above.
pub open spec fn cache_duration_text(mins: int) -> Seq<char> {
    if mins < 60 {
        decimal(mins as nat) + " min"@
    } else {
        decimal((mins / 60) as nat) + " hr"@
    }
}

pub fn format_cache_duration(mins: u32) -> (r: String)
    ensures
        r@ == cache_duration_text(mins as int),
{
    let mut s = decimal_string(if mins < 60 { mins as u64 } else { (mins / 60) as u64 });
    let ghost before = s@;
    if mins < 60 {
        s.append(" min");
    } else {
        s.append(" hr");
    }
    s
}


/// What a home-screen command comes to.
pub enum HomeOutcome {
    /// Go on with the next event.
    Continue,
    /// Leave the screen with this action (for `LaunchApp` the recent
    /// launches were updated and are to be saved).
    Leave(ScreenAction),
    /// Remove the app with this id from disk, then call
    /// `HomeScreen::finish_remove`.
    Remove(String),
}

/// The registry index of the installed app at dock position `i`.
pub open spec fn dock_app(registry: Registry, installed: InstalledApps, i: int) -> Option<int> {
    let apps = spec_installed_apps(registry.apps@, installed.ids());
    if 0 <= i < apps.len() { Some(apps[i]) } else { None }
}

/// Carry out a home-screen command with the registry, the installed apps
/// and the recent launches: launching an installed app (from the dock, or
/// a recent one that is still installed) records the launch at `now_secs`;
/// removing asks for the app to go from disk; the others leave the screen.
pub fn home_command(
    cmd: HomeCommand,
    registry: &Registry,
    installed: &InstalledApps,
    recents: &mut Vec<RecentEntry>,
    now_secs: u64,
) -> (r: HomeOutcome)
    ensures
        match cmd {
            HomeCommand::Continue => r is Continue && final(recents)@ == old(recents)@,
            HomeCommand::LaunchInstalled(i) => match dock_app(*registry, *installed, i as int) {
                Some(k) => {
                    let app = registry.apps@[k];
                    &&& (r matches HomeOutcome::Leave(ScreenAction::LaunchApp(id)) && id@ == app.id@)
                    &&& recent_views(final(recents)@) == spec_record(
                        recent_views(old(recents)@),
                        RecentModel { app_id: app.id@, name: app.name@, timestamp_secs: now_secs },
                    )
                },
                None => r is Continue && final(recents)@ == old(recents)@,
            },
            HomeCommand::LaunchRecent(i) => if i < old(recents)@.len() && installed.ids().contains(
                old(recents)@[i as int].app_id@,
            ) {
                let e = old(recents)@[i as int];
                &&& (r matches HomeOutcome::Leave(ScreenAction::LaunchApp(id)) && id@ == e.app_id@)
                &&& recent_views(final(recents)@) == spec_record(
                    recent_views(old(recents)@),
                    RecentModel { app_id: e.app_id@, name: e.name@, timestamp_secs: now_secs },
                )
            } else {
                r is Continue && final(recents)@ == old(recents)@
            },
            HomeCommand::RemoveInstalled(i) => final(recents)@ == old(recents)@ && match dock_app(
                *registry,
                *installed,
                i as int,
            ) {
                Some(k) => r matches HomeOutcome::Remove(id) && id@ == registry.apps@[k].id@,
                None => r is Continue,
            },
            HomeCommand::OpenStore => r == HomeOutcome::Leave(ScreenAction::Push(ScreenId::Store))
                && final(recents)@ == old(recents)@,
            HomeCommand::OpenSettings => r == HomeOutcome::Leave(ScreenAction::Push(ScreenId::Settings))
                && final(recents)@ == old(recents)@,
            HomeCommand::ShowOverlay => r == HomeOutcome::Leave(ScreenAction::ShowOverlay) && final(recents)@
                == old(recents)@,
        },
{
    match cmd {
        HomeCommand::Continue => HomeOutcome::Continue,
        HomeCommand::LaunchInstalled(i) | HomeCommand::RemoveInstalled(i) => {
            let apps = installed_apps(registry, installed);
            proof {
                assert(apps@.len() == spec_installed_apps(registry.apps@, installed.ids()).len());
            }
            if i >= apps.len() {
                return HomeOutcome::Continue;
            }
            let k = apps[i];
            proof {
                assert(spec_installed_apps(registry.apps@, installed.ids())[i as int] == k as int);
                lemma_installed_apps_in_range(registry.apps@, installed.ids(), i as int);
            }
            let app = &registry.apps[k];
            let id = app.id.clone();
            if matches!(cmd, HomeCommand::LaunchInstalled(_)) {
                push_recent(recents, app.id.as_str(), app.name.as_str(), now_secs);
                HomeOutcome::Leave(ScreenAction::LaunchApp(id))
            } else {
                HomeOutcome::Remove(id)
            }
        },
        HomeCommand::LaunchRecent(i) => {
            if i >= recents.len() {
                return HomeOutcome::Continue;
            }
            let app_id = recents[i].app_id.clone();
            let name = recents[i].name.clone();
            if installed.is_installed(app_id.as_str()) {
                push_recent(recents, app_id.as_str(), name.as_str(), now_secs);
                HomeOutcome::Leave(ScreenAction::LaunchApp(app_id))
            } else {
                HomeOutcome::Continue
            }
        },
        HomeCommand::OpenStore => HomeOutcome::Leave(ScreenAction::Push(ScreenId::Store)),
        HomeCommand::OpenSettings => HomeOutcome::Leave(ScreenAction::Push(ScreenId::Settings)),
        HomeCommand::ShowOverlay => HomeOutcome::Leave(ScreenAction::ShowOverlay),
    }
}

/// The installed apps are registry indices.
proof fn lemma_installed_apps_in_range(apps: Seq<AppEntry>, ids: Seq<Seq<char>>, i: int)
    requires
        0 <= i < spec_installed_apps(apps, ids).len(),
    ensures
        0 <= spec_installed_apps(apps, ids)[i] < apps.len(),
{
    let all = Seq::new(apps.len(), |k: int| k);
    let f = |k: int| ids.contains(apps[k].id@);
    all.lemma_filter_contains_rev(f, all.filter(f)[i]);
    assert(all.filter(f).contains(all.filter(f)[i]));
}

impl HomeScreen {
    /// After the app `app_id` went from disk: it is no longer installed and
    /// the dock focus stays on an existing app.
    pub fn finish_remove(&mut self, app_id: &str, registry: &Registry, installed: &mut InstalledApps)
        requires
            0 <= old(self)@.dock_index,
            registry.apps@.len() <= i32::MAX,
        ensures
            final(installed).ids() == spec_remove(old(installed).ids(), app_id@),
            ({
                let n = spec_installed_apps(registry.apps@, final(installed).ids()).len() as int;
                final(self)@ == (HomeModel {
                    dock_index: if old(self)@.dock_index >= n && n > 0 {
                        n - 1
                    } else if n == 0 {
                        0
                    } else {
                        old(self)@.dock_index
                    },
                    ..old(self)@
                })
            }),
    {
        installed.remove(app_id);
        let apps = installed_apps(registry, installed);
        proof {
            assert(apps@.len() == spec_installed_apps(registry.apps@, installed.ids()).len());
            assert(spec_installed_apps(registry.apps@, installed.ids()).len() <= registry.apps@.len()) by {
                let all = Seq::new(registry.apps@.len(), |k: int| k);
                all.lemma_filter_len(|k: int| installed.ids().contains(registry.apps@[k].id@));
            }
        }
        self.after_remove(apps.len() as i32);
    }
}

/// A home-screen command does something with this registry, these
/// installed apps and these recent launches (else the batch goes on).
pub open spec fn command_acts(cmd: HomeCommand, registry: Registry, installed: InstalledApps, recents: Seq<RecentEntry>) -> bool {
    match cmd {
        HomeCommand::Continue => false,
        HomeCommand::LaunchInstalled(i) => dock_app(registry, installed, i as int) is Some,
        HomeCommand::RemoveInstalled(i) => dock_app(registry, installed, i as int) is Some,
        HomeCommand::LaunchRecent(i) => i < recents.len() && installed.ids().contains(recents[i as int].app_id@),
        _ => true,
    }
}

impl HomeModel {
    /// Presses and repeats from event `i` on, with `inst` installed apps and
    /// `rec` recent launches counted at the start of the batch: the focus
    /// after them, and the first command that does something with the
    /// index of the event after it.
    pub open spec fn batch(
        self,
        events: Seq<InputEvent>,
        i: int,
        inst: int,
        rec: int,
        registry: Registry,
        installed: InstalledApps,
        recents: Seq<RecentEntry>,
    ) -> (HomeModel, Option<(HomeCommand, int)>)
        decreases events.len() - i,
    {
        if i < 0 || i >= events.len() {
            (self, None)
        } else if !acts(events[i]) {
            self.batch(events, i + 1, inst, rec, registry, installed, recents)
        } else {
            let (n, c) = self.press(events[i].button, inst, rec);
            if command_acts(c, registry, installed, recents) {
                (n, Some((c, i + 1)))
            } else {
                n.batch(events, i + 1, inst, rec, registry, installed, recents)
            }
        }
    }
}

/// A press moves the focus no further than the end of the lists or where
/// it already was.
proof fn lemma_press_bounds(m: HomeModel, b: Button, inst: int, rec: int)
    requires
        m.wf(),
    ensures
        m.press(b, inst, rec).0.dock_index <= (if m.dock_index > inst - 1 { m.dock_index } else { inst - 1 }),
        m.press(b, inst, rec).0.recent_index <= (if m.recent_index > rec - 1 { m.recent_index } else { rec - 1 }),
{
}

fn command_acts_exec(
    cmd: HomeCommand,
    registry: &Registry,
    installed: &InstalledApps,
    recents: &Vec<RecentEntry>,
) -> (r: bool)
    ensures
        r == command_acts(cmd, *registry, *installed, recents@),
{
    match cmd {
        HomeCommand::Continue => false,
        HomeCommand::LaunchInstalled(i) | HomeCommand::RemoveInstalled(i) => {
            let apps = installed_apps(registry, installed);
            proof {
                assert(apps@.len() == spec_installed_apps(registry.apps@, installed.ids()).len());
            }
            i < apps.len()
        },
        HomeCommand::LaunchRecent(i) => i < recents.len() && installed.is_installed(recents[i].app_id.as_str()),
        _ => true,
    }
}

impl HomeScreen {
    /// Handle the presses and repeats of a batch from event `start` on,
    /// with `installed_count` apps in the dock and `recent_count` recent
    /// launches counted when the batch began. Stops at the first command
    /// that does something (hand it to `home_command`) and returns it with
    /// the index of the next event; `None` when the batch ran out.
    pub fn handle_input(
        &mut self,
        events: &[InputEvent],
        start: usize,
        installed_count: i32,
        recent_count: i32,
        registry: &Registry,
        installed: &InstalledApps,
        recents: &Vec<RecentEntry>,
    ) -> (r: Option<(HomeCommand, usize)>)
        requires
            old(self)@.wf(),
            0 <= installed_count <= i32::MAX - 5,
            0 <= recent_count < i32::MAX,
            old(self)@.dock_index <= i32::MAX - 5,
            old(self)@.recent_index < i32::MAX,
        ensures
            final(self)@.wf(),
            ({
                let (m, c) = old(self)@.batch(
                    events@,
                    start as int,
                    installed_count as int,
                    recent_count as int,
                    *registry,
                    *installed,
                    recents@,
                );
                &&& final(self)@ == m
                &&& match r {
                    Some((cmd, k)) => c == Some((cmd, k as int)),
                    None => c is None,
                }
            }),
    {
        let ghost m0 = self@;
        let ghost inst = installed_count as int;
        let ghost rec = recent_count as int;
        let ghost hi_dock = if m0.dock_index > inst - 1 { m0.dock_index } else { inst - 1 };
        let ghost hi_rec = if m0.recent_index > rec - 1 { m0.recent_index } else { rec - 1 };
        let mut i = start;
        while i < events.len()
            invariant
                self@.wf(),
                start <= i,
                self@.dock_index <= hi_dock,
                self@.recent_index <= hi_rec,
                hi_dock <= i32::MAX - 5,
                hi_rec < i32::MAX,
                hi_dock >= inst - 1,
                hi_rec >= rec - 1,
                m0 == old(self)@,
                inst == installed_count,
                rec == recent_count,
                0 <= installed_count,
                0 <= recent_count,
                m0.batch(events@, start as int, inst, rec, *registry, *installed, recents@) == self@.batch(
                    events@,
                    i as int,
                    inst,
                    rec,
                    *registry,
                    *installed,
                    recents@,
                ),
            decreases events@.len() - i,
        {
            let ie = events[i];
            if ie.action != InputAction::Press && ie.action != InputAction::Repeat {
                assert(events@[i as int] == ie);
                i += 1;
                continue;
            }
            let ghost before = self@;
            proof {
                lemma_press_bounds(before, ie.button, inst, rec);
            }
            let cmd = self.press(ie.button, installed_count, recent_count);
            assert(events@[i as int] == ie);
            i += 1;
            if command_acts_exec(cmd, registry, installed, recents) {
                assert(before.batch(events@, i - 1, inst, rec, *registry, *installed, recents@) == (self@, Some((cmd, i as int))));
                return Some((cmd, i));
            }
        }
        None
    }
}

// ---------------------------------------------------------------------------
// Store
// ---------------------------------------------------------------------------

/// Number of store categories, "All" included.
pub const CATEGORY_COUNT: usize = 8;

/// Store categories in tab order; "All" is the pseudo-category of every app.
pub open spec fn category(i: int) -> Seq<char> {
    if i == 0 {
        "All"@
    } else if i == 1 {
        "News"@
    } else if i == 2 {
        "Finance"@
    } else if i == 3 {
        "Tools"@
    } else if i == 4 {
        "Productivity"@
    } else if i == 5 {
        "Games"@
    } else if i == 6 {
        "Social"@
    } else {
        "Media"@
    }
}

pub fn category_name(i: usize) -> (s: &'static str)
    requires
        i < CATEGORY_COUNT,
    ensures
        s@ == category(i as int),
{
    match i {
        0 => "All",
        1 => "News",
        2 => "Finance",
        3 => "Tools",
        4 => "Productivity",
        5 => "Games",
        6 => "Social",
        _ => "Media",
    }
}

pub open spec fn ascii_lower(c: char) -> char {
    if 'A' <= c && c <= 'Z' { ((c as u32) + 32) as char } else { c }
}

/// `str::eq_ignore_ascii_case`: equal once ASCII letters are lowercased.
pub open spec fn eq_ignore_ascii_case(a: Seq<char>, b: Seq<char>) -> bool {
    a.len() == b.len() && forall|i: int| 0 <= i < a.len() ==> ascii_lower(#[trigger] a[i]) == ascii_lower(b[i])
}

fn lower_char(c: char) -> (r: char)
    ensures
        r == ascii_lower(c),
{
    if 'A' <= c && c <= 'Z' {
        ((c as u8) + 32) as char
    } else {
        c
    }
}

pub fn str_eq_ignore_ascii_case(a: &str, b: &str) -> (r: bool)
    ensures
        r == eq_ignore_ascii_case(a@, b@),
{
    let n = a.unicode_len();
    if n != b.unicode_len() {
        return false;
    }
    let mut i: usize = 0;
    while i < n
        invariant
            n == a@.len(),
            n == b@.len(),
            i <= n,
            forall|j: int| 0 <= j < i ==> ascii_lower(#[trigger] a@[j]) == ascii_lower(b@[j]),
        decreases n - i,
    {
        if lower_char(a.get_char(i)) != lower_char(b.get_char(i)) {
            return false;
        }
        i += 1;
    }
    true
}

/// Indices of the apps shown under category `cat`: all of them for "All",
/// else those whose category matches ignoring ASCII case.
/// The colour of a category's pills and strips (any letter case), grey
/// for an unknown category.
pub open spec fn category_rgb(c: Seq<char>) -> (u8, u8, u8) {
    if eq_ignore_ascii_case(c, "news"@) { (74, 158, 255) }
    else if eq_ignore_ascii_case(c, "finance"@) { (74, 222, 128) }
    else if eq_ignore_ascii_case(c, "tools"@) { (167, 139, 250) }
    else if eq_ignore_ascii_case(c, "productivity"@) { (251, 191, 36) }
    else if eq_ignore_ascii_case(c, "games"@) { (239, 68, 68) }
    else if eq_ignore_ascii_case(c, "social"@) { (249, 146, 60) }
    else if eq_ignore_ascii_case(c, "media"@) { (236, 72, 153) }
    else { (140, 140, 160) }
}

/// Opaque colour of a category.
pub fn category_color(category: &str) -> (c: Rgba)
    ensures
        (c.r, c.g, c.b) == category_rgb(category@),
        c.a == 255,
{
    let (r, g, b) = if str_eq_ignore_ascii_case(category, "news") {
        (74, 158, 255)
    } else if str_eq_ignore_ascii_case(category, "finance") {
        (74, 222, 128)
    } else if str_eq_ignore_ascii_case(category, "tools") {
        (167, 139, 250)
    } else if str_eq_ignore_ascii_case(category, "productivity") {
        (251, 191, 36)
    } else if str_eq_ignore_ascii_case(category, "games") {
        (239, 68, 68)
    } else if str_eq_ignore_ascii_case(category, "social") {
        (249, 146, 60)
    } else if str_eq_ignore_ascii_case(category, "media") {
        (236, 72, 153)
    } else {
        (140, 140, 160)
    };
    Rgba { r, g, b, a: 255 }
}

pub open spec fn in_category(app_category: Seq<char>, cat: int) -> bool {
    cat == 0 || eq_ignore_ascii_case(app_category, category(cat))
}

/// Registry indices of the apps listed under category `cat`, in order.
pub fn filtered_indices(app_categories: &Vec<String>, cat: usize) -> (r: Vec<usize>)
    requires
        cat < CATEGORY_COUNT,
    ensures
        forall|k: int| 0 <= k < r@.len() ==> r@[k] < app_categories@.len() && in_category(
            app_categories@[r@[k] as int]@,
            cat as int,
        ),
        forall|k: int, l: int| 0 <= k < l < r@.len() ==> r@[k] < r@[l],
        forall|i: int|
            0 <= i < app_categories@.len() && in_category(#[trigger] app_categories@[i]@, cat as int)
                ==> r@.contains(i as usize),
{
    let name = category_name(cat);
    let mut out: Vec<usize> = Vec::new();
    let mut i: usize = 0;
    while i < app_categories.len()
        invariant
            i <= app_categories@.len(),
            name@ == category(cat as int),
            cat < CATEGORY_COUNT,
            forall|k: int| 0 <= k < out@.len() ==> out@[k] < i && in_category(
                app_categories@[out@[k] as int]@,
                cat as int,
            ),
            forall|k: int, l: int| 0 <= k < l < out@.len() ==> out@[k] < out@[l],
            forall|j: int|
                0 <= j < i && in_category(#[trigger] app_categories@[j]@, cat as int)
                    ==> out@.contains(j as usize),
        decreases app_categories@.len() - i,
    {
        let keep = cat == 0 || str_eq_ignore_ascii_case(app_categories[i].as_str(), name);
        let ghost prev = out@;
        if keep {
            out.push(i);
            assert(out@[out@.len() - 1] == i);
        }
        assert forall|j: int| 0 <= j < i && #[trigger] prev.contains(j as usize) implies out@.contains(j as usize) by {
            let k = choose|k: int| 0 <= k < prev.len() && prev[k] == j as usize;
            assert(out@[k] == prev[k]);
        }
        i += 1;
    }
    out
}

/// Cards that fit below the category tabs.
pub const STORE_VISIBLE_CARDS: i32 = 7;

pub struct StoreScreen {
    category_index: usize,
    selected_index: i32,
    scroll_offset: i32,
}

pub struct StoreModel {
    pub category_index: int,
    pub selected_index: int,
    pub scroll_offset: int,
}

impl View for StoreScreen {
    type V = StoreModel;

    closed spec fn view(&self) -> StoreModel {
        StoreModel {
            category_index: self.category_index as int,
            selected_index: self.selected_index as int,
            scroll_offset: self.scroll_offset as int,
        }
    }
}

/// How a store input batch ends early.
pub enum StoreExit {
    /// Open the detail screen of this registry index.
    Detail(usize),
    Pop,
    Settings,
    Overlay,
}

impl StoreModel {
    /// Category in range; selection and scroll never negative, and far
    /// enough from the top of `i32` to move.
    pub open spec fn wf(self) -> bool {
        &&& 0 <= self.category_index < CATEGORY_COUNT
        &&& 0 <= self.scroll_offset <= i32::MAX - STORE_VISIBLE_CARDS
        &&& 0 <= self.selected_index <= i32::MAX - STORE_VISIBLE_CARDS - 1
    }

    /// The selection is on one of the `count` listed apps (or the first
    /// slot).
    pub open spec fn in_range(self, count: int) -> bool {
        self.selected_index == 0 || self.selected_index < count
    }

    /// One press or repeat with the listed registry indices `filtered`.
    pub open spec fn press(self, button: Button, filtered: Seq<usize>) -> (StoreModel, Option<StoreExit>) {
        let count = filtered.len() as int;
        match button {
            Button::DpadDown => (
                if count > 0 {
                    StoreModel { selected_index: at_most(self.selected_index + 1, count - 1), ..self }
                } else {
                    self
                },
                None,
            ),
            Button::DpadUp => (
                if count > 0 {
                    StoreModel { selected_index: at_least_zero(self.selected_index - 1), ..self }
                } else {
                    self
                },
                None,
            ),
            Button::L1 => (
                StoreModel {
                    category_index: if self.category_index > 0 {
                        self.category_index - 1
                    } else {
                        CATEGORY_COUNT - 1
                    },
                    selected_index: 0,
                    scroll_offset: 0,
                },
                None,
            ),
            Button::R1 => (
                StoreModel {
                    category_index: (self.category_index + 1) % (CATEGORY_COUNT as int),
                    selected_index: 0,
                    scroll_offset: 0,
                },
                None,
            ),
            Button::A => (
                self,
                if count > 0 { Some(StoreExit::Detail(filtered[self.selected_index])) } else { None },
            ),
            Button::B => (self, Some(StoreExit::Pop)),
            Button::Start => (self, Some(StoreExit::Settings)),
            Button::Select => (self, Some(StoreExit::Overlay)),
            _ => (self, None),
        }
    }

    /// A batch of events, presses and repeats in order, up to the first
    /// that leaves the screen.
    pub open spec fn run(self, events: Seq<InputEvent>, filtered: Seq<usize>) -> (StoreModel, Option<StoreExit>)
        decreases events.len(),
    {
        if events.len() == 0 {
            (self, None)
        } else if !acts(events[0]) {
            self.run(events.drop_first(), filtered)
        } else {
            let (n, e) = self.press(events[0].button, filtered);
            match e {
                Some(_) => (n, e),
                None => n.run(events.drop_first(), filtered),
            }
        }
    }
}

impl StoreModel {
    /// The batch reaches an A press while the selection is past the listed
    /// apps (the selection cannot be opened).
    pub open spec fn faults(self, events: Seq<InputEvent>, filtered: Seq<usize>) -> bool
        decreases events.len(),
    {
        if events.len() == 0 {
            false
        } else if !acts(events[0]) {
            self.faults(events.drop_first(), filtered)
        } else if events[0].button == Button::A && filtered.len() > 0 && self.selected_index >= filtered.len() {
            true
        } else {
            let (n, e) = self.press(events[0].button, filtered);
            match e {
                Some(_) => false,
                None => n.faults(events.drop_first(), filtered),
            }
        }
    }
}

/// The launcher action of a store exit.
pub open spec fn store_action(a: ScreenAction, e: Option<StoreExit>) -> bool {
    match e {
        Some(StoreExit::Detail(i)) => a == ScreenAction::Push(ScreenId::Detail(i)),
        Some(StoreExit::Pop) => a == ScreenAction::Pop,
        Some(StoreExit::Settings) => a == ScreenAction::Push(ScreenId::Settings),
        Some(StoreExit::Overlay) => a == ScreenAction::ShowOverlay,
        None => a == ScreenAction::Stay,
    }
}

/// Scroll offset that keeps card `selected` within the visible cards.
pub open spec fn store_scroll(selected: int, scroll: int) -> int {
    let s1 = if selected < scroll { selected } else { scroll };
    if selected >= s1 + STORE_VISIBLE_CARDS { selected - STORE_VISIBLE_CARDS + 1 } else { s1 }
}

impl Default for StoreScreen {
    fn default() -> (s: Self)
        ensures
            s@ == (StoreModel { category_index: 0, selected_index: 0, scroll_offset: 0 }),
    {
        Self::new()
    }
}

impl StoreScreen {
    pub fn new() -> (s: Self)
        ensures
            s@ == (StoreModel { category_index: 0, selected_index: 0, scroll_offset: 0 }),
    {
        Self { category_index: 0, selected_index: 0, scroll_offset: 0 }
    }

    /// The category shown.
    pub fn category_index(&self) -> (c: usize)
        ensures
            c == self@.category_index,
    {
        self.category_index
    }

    /// Handle a batch of events with the listed apps `filtered` (registry
    /// indices). Up/Down move the selection, L1/R1 switch category; A opens
    /// the selected app, B goes back, START opens the settings and SELECT
    /// the system menu, ending the batch. Otherwise the scroll then follows
    /// the selection.
    pub fn handle_input(&mut self, events: &[InputEvent], filtered: &Vec<usize>) -> (a: ScreenAction)
        requires
            old(self)@.wf(),
            filtered@.len() <= i32::MAX - STORE_VISIBLE_CARDS,
            !old(self)@.faults(events@, filtered@),
        ensures
            final(self)@.wf(),
            old(self)@.in_range(filtered@.len() as int) ==> final(self)@.in_range(filtered@.len() as int),
            ({
                let (m, e) = old(self)@.run(events@, filtered@);
                &&& store_action(a, e)
                &&& e is Some ==> final(self)@ == m
                &&& e is None ==> final(self)@ == (StoreModel {
                    scroll_offset: store_scroll(m.selected_index, m.scroll_offset),
                    ..m
                })
            }),
    {
        let count = filtered.len() as i32;
        let ghost m0 = self@;
        let mut i: usize = 0;
        assert(events@.skip(0) =~= events@);
        while i < events.len()
            invariant
                i <= events@.len(),
                self@.wf(),
                count == filtered@.len(),
                count <= i32::MAX - STORE_VISIBLE_CARDS,
                m0 == old(self)@,
                m0.run(events@, filtered@) == self@.run(events@.skip(i as int), filtered@),
                !self@.faults(events@.skip(i as int), filtered@),
                m0.in_range(count as int) ==> self@.in_range(count as int),
            decreases events@.len() - i,
        {
            let ie = events[i];
            proof {
                assert(events@.skip(i as int)[0] == ie);
                assert(events@.skip(i as int).drop_first() =~= events@.skip(i as int + 1));
            }
            i += 1;
            if ie.action != InputAction::Press && ie.action != InputAction::Repeat {
                continue;
            }
            match ie.button {
                Button::DpadDown => {
                    if count > 0 {
                        self.selected_index = if self.selected_index + 1 < count - 1 {
                            self.selected_index + 1
                        } else {
                            count - 1
                        };
                    }
                },
                Button::DpadUp => {
                    if count > 0 {
                        self.selected_index = if self.selected_index - 1 > 0 { self.selected_index - 1 } else { 0 };
                    }
                },
                Button::L1 => {
                    if self.category_index > 0 {
                        self.category_index -= 1;
                    } else {
                        self.category_index = CATEGORY_COUNT - 1;
                    }
                    self.selected_index = 0;
                    self.scroll_offset = 0;
                },
                Button::R1 => {
                    self.category_index = (self.category_index + 1) % CATEGORY_COUNT;
                    self.selected_index = 0;
                    self.scroll_offset = 0;
                },
                Button::A => {
                    if count > 0 {
                        let reg_index = filtered[self.selected_index as usize];
                        return ScreenAction::Push(ScreenId::Detail(reg_index));
                    }
                },
                Button::B => {
                    return ScreenAction::Pop;
                },
                Button::Start => {
                    return ScreenAction::Push(ScreenId::Settings);
                },
                Button::Select => {
                    return ScreenAction::ShowOverlay;
                },
                _ => {},
            }
        }
        assert(events@.skip(i as int).len() == 0);
        if self.selected_index < self.scroll_offset {
            self.scroll_offset = self.selected_index;
        }
        if self.selected_index >= self.scroll_offset + STORE_VISIBLE_CARDS {
            self.scroll_offset = self.selected_index - STORE_VISIBLE_CARDS + 1;
        }
        ScreenAction::Stay
    }
}

// ---------------------------------------------------------------------------
// Detail
// ---------------------------------------------------------------------------

/// Focus zone on the detail screen.
#[derive(Debug, Clone, Copy, PartialEq, Eq, Structural)]
pub enum DetailFocus {
    Info,
    Action,
}

pub struct DetailScreen {
    app_index: usize,
    focus: DetailFocus,
    scroll_y: i32,
    /// (message, when, is_error)
    status_msg: Option<(String, Instant, bool)>,
}

pub struct DetailModel {
    pub app_index: int,
    pub focus: DetailFocus,
    pub scroll_y: int,
    /// (message, is_error)
    pub status: Option<(Seq<char>, bool)>,
}

impl View for DetailScreen {
    type V = DetailModel;

    closed spec fn view(&self) -> DetailModel {
        DetailModel {
            app_index: self.app_index as int,
            focus: self.focus,
            scroll_y: self.scroll_y as int,
            status: match self.status_msg {
                Some((m, _, e)) => Some((m@, e)),
                None => None,
            },
        }
    }
}

impl DetailModel {
    /// The info pane scrolls between 0 and 100.
    pub open spec fn wf(self) -> bool {
        0 <= self.scroll_y <= 100
    }

    /// Up/Down move between the info pane and the action button, and scroll
    /// the info in 20px steps between 0 and 100 once on the far side.
    pub open spec fn navigate(self, button: Button) -> DetailModel {
        match button {
            Button::DpadDown => if self.focus == DetailFocus::Info {
                DetailModel { focus: DetailFocus::Action, ..self }
            } else {
                DetailModel { scroll_y: if self.scroll_y + 20 < 100 { self.scroll_y + 20 } else { 100 }, ..self }
            },
            Button::DpadUp => if self.focus == DetailFocus::Action {
                DetailModel { focus: DetailFocus::Info, ..self }
            } else {
                DetailModel { scroll_y: if self.scroll_y - 20 > 0 { self.scroll_y - 20 } else { 0 }, ..self }
            },
            _ => self,
        }
    }
}

impl DetailScreen {
    pub fn new(app_index: usize) -> (d: Self)
        ensures
            d@ == (DetailModel { app_index: app_index as int, focus: DetailFocus::Info, scroll_y: 0, status: None }),
    {
        Self { app_index, focus: DetailFocus::Info, scroll_y: 0, status_msg: None }
    }

    /// Registry index of the app shown.
    pub fn app_index(&self) -> (i: usize)
        ensures
            i == self@.app_index,
    {
        self.app_index
    }

    /// Whether the action button has the focus.
    pub fn action_focused(&self) -> (b: bool)
        ensures
            b == (self@.focus == DetailFocus::Action),
    {
        self.focus == DetailFocus::Action
    }

    /// The status line shown, with whether it reports an error.
    pub fn status(&self) -> (r: Option<(&str, bool)>)
        ensures
            match r {
                Some((m, e)) => self@.status == Some((m@, e)),
                None => self@.status is None,
            },
    {
        match &self.status_msg {
            Some((m, _, e)) => Some((m.as_str(), *e)),
            None => None,
        }
    }

    /// The status line as drawn `elapsed_ns` nanoseconds after it was set:
    /// shown for five seconds, then no more.
    pub fn status_shown_at(&self, elapsed_ns: u64) -> (r: Option<(&str, bool)>)
        ensures
            match r {
                Some((m, e)) => shown_status(self@, elapsed_ns as int) == Some((m@, e)),
                None => shown_status(self@, elapsed_ns as int) is None,
            },
    {
        if elapsed_ns < STATUS_SHOW_NS {
            self.status()
        } else {
            None
        }
    }

    /// The status line as drawn now.
    pub fn status_shown(&self) -> (r: Option<(&str, bool)>)
        ensures
            exists|ns: u64| match r {
                Some((m, e)) => #[trigger] shown_status(self@, ns as int) == Some((m@, e)),
                None => shown_status(self@, ns as int) is None,
            },
    {
        match &self.status_msg {
            Some((_, when, _)) => {
                let ns = nanos_since(when);
                self.status_shown_at(ns)
            },
            None => {
                assert(shown_status(self@, 0) is None);
                None
            },
        }
    }

    /// Show a status line (stamped with the current time).
    pub fn set_status(&mut self, msg: &str, is_error: bool)
        ensures
            final(self)@ == (DetailModel { status: Some((msg@, is_error)), ..old(self)@ }),
    {
        self.status_msg = Some((owned(msg), instant_now(), is_error));
    }

    /// Apply an Up/Down press (other buttons leave the screen as it is).
    pub fn navigate(&mut self, button: Button)
        requires
            i32::MIN + 20 <= old(self)@.scroll_y <= i32::MAX - 20,
        ensures
            final(self)@ == old(self)@.navigate(button),
    {
        match button {
            Button::DpadDown => {
                if self.focus == DetailFocus::Info {
                    self.focus = DetailFocus::Action;
                } else {
                    self.scroll_y = if self.scroll_y + 20 < 100 { self.scroll_y + 20 } else { 100 };
                }
            },
            Button::DpadUp => {
                if self.focus == DetailFocus::Action {
                    self.focus = DetailFocus::Info;
                } else {
                    self.scroll_y = if self.scroll_y - 20 > 0 { self.scroll_y - 20 } else { 0 };
                }
            },
            _ => {},
        }
    }
}

/// How long a status line shows, in nanoseconds.
pub const STATUS_SHOW_NS: u64 = 5_000_000_000;

/// The status line shown `ns` nanoseconds after it was set.
pub open spec fn shown_status(m: DetailModel, ns: int) -> Option<(Seq<char>, bool)> {
    if ns < STATUS_SHOW_NS { m.status } else { None }
}

/// What a press on the detail screen asks of the launcher.
pub enum DetailCommand {
    /// Nothing more: go on with the next event.
    Stay,
    /// Leave the screen with this action. For `LaunchApp` the recent
    /// launches were updated and are to be saved.
    Leave(ScreenAction),
    /// Install the shown app from the network ("Installing..." is shown),
    /// then report with `finish_install`.
    Install,
    /// Remove the shown app from disk, then report with `finish_remove`.
    Remove,
    /// Look up the installed version of the shown app, then call
    /// `begin_update`.
    Update,
}

pub open spec fn status_of(msg: &str, is_error: bool) -> Option<(Seq<char>, bool)> {
    Some((msg@, is_error))
}

/// The kind of a detail-screen command.
pub enum DetailStep {
    Stay,
    Pop,
    Settings,
    Overlay,
    Launch,
    Install,
    Remove,
    Update,
}

pub open spec fn step_of(c: DetailCommand) -> DetailStep {
    match c {
        DetailCommand::Stay => DetailStep::Stay,
        DetailCommand::Leave(ScreenAction::Pop) => DetailStep::Pop,
        DetailCommand::Leave(ScreenAction::Push(_)) => DetailStep::Settings,
        DetailCommand::Leave(ScreenAction::ShowOverlay) => DetailStep::Overlay,
        DetailCommand::Leave(_) => DetailStep::Launch,
        DetailCommand::Install => DetailStep::Install,
        DetailCommand::Remove => DetailStep::Remove,
        DetailCommand::Update => DetailStep::Update,
    }
}

pub open spec fn app_opt(app: Option<&AppEntry>) -> Option<AppEntry> {
    match app {
        Some(a) => Some(*a),
        None => None,
    }
}

impl DetailModel {
    /// The screen and the kind of command after one press with `app` shown
    /// and `ids` installed.
    pub open spec fn after(self, button: Button, app: Option<AppEntry>, ids: Seq<Seq<char>>) -> (DetailModel, DetailStep) {
        let is_inst = match app {
            Some(a) => ids.contains(a.id@),
            None => false,
        };
        match button {
            Button::B => (self, DetailStep::Pop),
            Button::Start => (self, DetailStep::Settings),
            Button::Select => (self, DetailStep::Overlay),
            Button::DpadDown | Button::DpadUp => (self.navigate(button), DetailStep::Stay),
            Button::A => match app {
                Some(a) => if self.focus != DetailFocus::Action {
                    (self, DetailStep::Stay)
                } else if is_inst {
                    (self, DetailStep::Launch)
                } else if a.repo_url@.len() == 0 {
                    (DetailModel {
                        status: status_of("This app is bundled and cannot be installed separately", true),
                        ..self
                    }, DetailStep::Stay)
                } else {
                    (DetailModel { status: status_of("Installing...", false), ..self }, DetailStep::Install)
                },
                None => (self, DetailStep::Stay),
            },
            Button::X => (self, if is_inst { DetailStep::Remove } else { DetailStep::Stay }),
            Button::Y => (self, if is_inst { DetailStep::Update } else { DetailStep::Stay }),
            _ => (self, DetailStep::Stay),
        }
    }

    /// Presses and repeats from event `i` on: the screen after them and the
    /// first command that is not `Stay`, with the index of the next event.
    pub open spec fn batch(self, events: Seq<InputEvent>, i: int, app: Option<AppEntry>, ids: Seq<Seq<char>>) -> (
        DetailModel,
        Option<(DetailStep, int)>,
    )
        decreases events.len() - i,
    {
        if i < 0 || i >= events.len() {
            (self, None)
        } else if !acts(events[i]) {
            self.batch(events, i + 1, app, ids)
        } else {
            let (n, k) = self.after(events[i].button, app, ids);
            if k is Stay {
                n.batch(events, i + 1, app, ids)
            } else {
                (n, Some((k, i + 1)))
            }
        }
    }
}

impl DetailScreen {
    /// Handle one press or repeat, with `app` the registry entry shown (if
    /// the index is still valid). B goes back, START opens the settings and
    /// SELECT the system menu; Up/Down navigate. A on the action button
    /// launches an installed app (recording the launch at `now_secs` in
    /// `recents`), refuses a bundled app, or asks for an install. X asks to
    /// remove and Y to update an installed app.
    pub fn press(
        &mut self,
        button: Button,
        app: Option<&AppEntry>,
        installed: &InstalledApps,
        recents: &mut Vec<RecentEntry>,
        now_secs: u64,
    ) -> (c: DetailCommand)
        requires
            old(self)@.wf(),
        ensures
            final(self)@.wf(),
            ({
                let m = old(self)@;
                let is_inst = match app {
                    Some(a) => installed.ids().contains(a.id@),
                    None => false,
                };
                match button {
                    Button::B => c == DetailCommand::Leave(ScreenAction::Pop) && final(self)@ == m,
                    Button::Start => c == DetailCommand::Leave(ScreenAction::Push(ScreenId::Settings))
                        && final(self)@ == m,
                    Button::Select => c == DetailCommand::Leave(ScreenAction::ShowOverlay) && final(self)@ == m,
                    Button::DpadDown | Button::DpadUp => c == DetailCommand::Stay && final(self)@ == m.navigate(button),
                    Button::A => match app {
                        Some(a) => if m.focus != DetailFocus::Action {
                            c == DetailCommand::Stay && final(self)@ == m
                        } else if is_inst {
                            &&& final(self)@ == m
                            &&& match c {
                                DetailCommand::Leave(ScreenAction::LaunchApp(id)) => id@ == a.id@,
                                _ => false,
                            }
                            &&& recent_views(final(recents)@) == spec_record(
                                recent_views(old(recents)@),
                                RecentModel { app_id: a.id@, name: a.name@, timestamp_secs: now_secs },
                            )
                        } else if a.repo_url@.len() == 0 {
                            &&& c == DetailCommand::Stay
                            &&& final(self)@ == (DetailModel {
                                status: status_of("This app is bundled and cannot be installed separately", true),
                                ..m
                            })
                        } else {
                            &&& c == DetailCommand::Install
                            &&& final(self)@ == (DetailModel { status: status_of("Installing...", false), ..m })
                        },
                        None => c == DetailCommand::Stay && final(self)@ == m,
                    },
                    Button::X => final(self)@ == m && (if is_inst { c == DetailCommand::Remove } else { c == DetailCommand::Stay }),
                    Button::Y => final(self)@ == m && (if is_inst { c == DetailCommand::Update } else { c == DetailCommand::Stay }),
                    _ => c == DetailCommand::Stay && final(self)@ == m,
                }
            }),
            !(button == Button::A && c is Leave) ==> final(recents)@ == old(recents)@,
            (final(self)@, step_of(c)) == old(self)@.after(button, app_opt(app), installed.ids()),
    {
        match button {
            Button::B => DetailCommand::Leave(ScreenAction::Pop),
            Button::Start => DetailCommand::Leave(ScreenAction::Push(ScreenId::Settings)),
            Button::Select => DetailCommand::Leave(ScreenAction::ShowOverlay),
            Button::DpadDown | Button::DpadUp => {
                self.navigate(button);
                DetailCommand::Stay
            },
            Button::A => {
                if self.focus != DetailFocus::Action {
                    return DetailCommand::Stay;
                }
                match app {
                    Some(a) => {
                        if installed.is_installed(a.id.as_str()) {
                            push_recent(recents, a.id.as_str(), a.name.as_str(), now_secs);
                            DetailCommand::Leave(ScreenAction::LaunchApp(a.id.clone()))
                        } else if a.repo_url.unicode_len() == 0 {
                            self.set_status("This app is bundled and cannot be installed separately", true);
                            DetailCommand::Stay
                        } else {
                            self.set_status("Installing...", false);
                            DetailCommand::Install
                        }
                    },
                    None => DetailCommand::Stay,
                }
            },
            Button::X | Button::Y => {
                match app {
                    Some(a) => {
                        if installed.is_installed(a.id.as_str()) {
                            if button == Button::X { DetailCommand::Remove } else { DetailCommand::Update }
                        } else {
                            DetailCommand::Stay
                        }
                    },
                    None => DetailCommand::Stay,
                }
            },
            _ => DetailCommand::Stay,
        }
    }

    /// Handle the presses and repeats of a batch from event `start` on,
    /// with `app` shown: stops at the first command that is not `Stay`
    /// (leaving, or asking the launcher for work, after which the batch
    /// goes on from the returned index) and returns it; `None` when the
    /// batch ran out.
    pub fn handle_input(
        &mut self,
        events: &[InputEvent],
        start: usize,
        app: Option<&AppEntry>,
        installed: &InstalledApps,
        recents: &mut Vec<RecentEntry>,
        now_secs: u64,
    ) -> (r: Option<(DetailCommand, usize)>)
        requires
            old(self)@.wf(),
        ensures
            final(self)@.wf(),
            ({
                let (m, k) = old(self)@.batch(events@, start as int, app_opt(app), installed.ids());
                &&& final(self)@ == m
                &&& match r {
                    Some((c, j)) => k == Some((step_of(c), j as int)),
                    None => k is None,
                }
            }),
            match r {
                Some((c, _)) => match app {
                    Some(a) => if step_of(c) is Launch {
                        &&& (c matches DetailCommand::Leave(ScreenAction::LaunchApp(id)) && id@ == a.id@)
                        &&& recent_views(final(recents)@) == spec_record(
                            recent_views(old(recents)@),
                            RecentModel { app_id: a.id@, name: a.name@, timestamp_secs: now_secs },
                        )
                    } else {
                        &&& final(recents)@ == old(recents)@
                        &&& (step_of(c) is Pop ==> c == DetailCommand::Leave(ScreenAction::Pop))
                        &&& (step_of(c) is Settings ==> c == DetailCommand::Leave(ScreenAction::Push(ScreenId::Settings)))
                        &&& (step_of(c) is Overlay ==> c == DetailCommand::Leave(ScreenAction::ShowOverlay))
                    },
                    None => final(recents)@ == old(recents)@ && !(step_of(c) is Launch),
                },
                None => final(recents)@ == old(recents)@,
            },
    {
        let ghost m0 = self@;
        let ghost ids = installed.ids();
        let mut i = start;
        while i < events.len()
            invariant
                self@.wf(),
                start <= i,
                m0 == old(self)@,
                ids == installed.ids(),
                recents@ == old(recents)@,
                m0.batch(events@, start as int, app_opt(app), ids) == self@.batch(events@, i as int, app_opt(app), ids),
            decreases events@.len() - i,
        {
            let ie = events[i];
            assert(events@[i as int] == ie);
            if ie.action != InputAction::Press && ie.action != InputAction::Repeat {
                i += 1;
                continue;
            }
            let ghost before = self@;
            let c = self.press(ie.button, app, installed, recents, now_secs);
            i += 1;
            if !matches!(c, DetailCommand::Stay) {
                assert(before.batch(events@, i - 1, app_opt(app), ids) == (self@, Some((step_of(c), i as int))));
                return Some((c, i));
            }
        }
        None
    }

    /// Report a network install of `app_id`: on success the app is marked
    /// installed (to be saved) and "Installed successfully" is shown, else
    /// "Install failed: " and the error.
    pub fn finish_install(&mut self, result: Result<(), String>, app_id: &str, installed: &mut InstalledApps)
        ensures
            match result {
                Ok(()) => {
                    &&& final(installed).ids() == spec_install(old(installed).ids(), app_id@)
                    &&& final(self)@ == (DetailModel { status: status_of("Installed successfully", false), ..old(self)@ })
                },
                Err(e) => {
                    &&& final(installed).ids() == old(installed).ids()
                    &&& final(self)@ == (DetailModel {
                        status: Some(("Install failed: "@ + e@, true)),
                        ..old(self)@
                    })
                },
            },
    {
        match result {
            Ok(()) => {
                installed.install(app_id);
                self.set_status("Installed successfully", false);
            },
            Err(e) => {
                let msg = concat("Install failed: ", e.as_str());
                self.set_status(msg.as_str(), true);
            },
        }
    }

    /// Report a removal of `app_id`: the outcome of the removal from disk,
    /// when there was one, is shown ("Removed" or "Remove failed: " and the
    /// error), and the app is no longer listed as installed either way.
    pub fn finish_remove(&mut self, result: Option<Result<(), String>>, app_id: &str, installed: &mut InstalledApps)
        ensures
            final(installed).ids() == spec_remove(old(installed).ids(), app_id@),
            final(self)@ == (DetailModel {
                status: match result {
                    Some(Ok(())) => status_of("Removed", false),
                    Some(Err(e)) => Some(("Remove failed: "@ + e@, true)),
                    None => old(self)@.status,
                },
                ..old(self)@
            }),
    {
        match result {
            Some(Ok(())) => {
                self.set_status("Removed", false);
            },
            Some(Err(e)) => {
                let msg = concat("Remove failed: ", e.as_str());
                self.set_status(msg.as_str(), true);
            },
            None => {},
        }
        installed.remove(app_id);
    }

    /// Decide on an update: when the installed version differs from the
    /// registry's `version` (or is unknown), "Updating to v<version>..." is
    /// shown and `true` returned: install, then call `finish_update`.
    pub fn begin_update(&mut self, installed_version: Option<&str>, version: &str) -> (go: bool)
        ensures
            go == match installed_version {
                Some(v) => v@ != version@,
                None => true,
            },
            final(self)@ == (if go {
                DetailModel { status: Some(("Updating to v"@ + version@ + "..."@, false)), ..old(self)@ }
            } else {
                old(self)@
            }),
    {
        let same = match installed_version {
            Some(v) => str_eq(v, version),
            None => false,
        };
        if same {
            return false;
        }
        let mut msg = concat("Updating to v", version);
        push_str(&mut msg, "...");
        self.set_status(msg.as_str(), false);
        true
    }

    /// Report an update to `version`: "Updated to v<version>" or "Update
    /// failed: " and the error.
    pub fn finish_update(&mut self, result: Result<(), String>, version: &str)
        ensures
            final(self)@ == (DetailModel {
                status: match result {
                    Ok(()) => Some(("Updated to v"@ + version@, false)),
                    Err(e) => Some(("Update failed: "@ + e@, true)),
                },
                ..old(self)@
            }),
    {
        match result {
            Ok(()) => {
                let msg = concat("Updated to v", version);
                self.set_status(msg.as_str(), false);
            },
            Err(e) => {
                let msg = concat("Update failed: ", e.as_str());
                self.set_status(msg.as_str(), true);
            },
        }
    }
}

// ---------------------------------------------------------------------------
// Settings
// ---------------------------------------------------------------------------

/// Rows of the settings list.
pub const SETTINGS_ROWS: usize = 11;

/// Step of brightness/volume left/right adjustments.
pub const HW_STEP: u8 = 10;

/// Cache duration choices, in minutes.
pub open spec fn cache_option(i: int) -> u32 {
    if i == 0 {
        15
    } else if i == 1 {
        30
    } else if i == 2 {
        60
    } else if i == 3 {
        120
    } else {
        360
    }
}

pub const CACHE_OPTION_COUNT: usize = 5;

fn cache_option_at(i: usize) -> (v: u32)
    requires
        i < CACHE_OPTION_COUNT,
    ensures
        v == cache_option(i as int),
{
    match i {
        0 => 15,
        1 => 30,
        2 => 60,
        3 => 120,
        _ => 360,
    }
}

/// The next (or previous) cache duration choice, wrapping; an unknown value
/// counts as the first choice.
pub open spec fn spec_cycle_cache(current: u32, forward: bool) -> u32 {
    let idx: int = if current == 15 {
        0
    } else if current == 30 {
        1
    } else if current == 60 {
        2
    } else if current == 120 {
        3
    } else if current == 360 {
        4
    } else {
        0
    };
    cache_option(if forward { (idx + 1) % 5 } else if idx == 0 { 4 } else { idx - 1 })
}

pub fn cycle_cache_duration(current: u32, forward: bool) -> (r: u32)
    ensures
        r == spec_cycle_cache(current, forward),
{
    let idx: usize = if current == 15 {
        0
    } else if current == 30 {
        1
    } else if current == 60 {
        2
    } else if current == 120 {
        3
    } else if current == 360 {
        4
    } else {
        0
    };
    let next = if forward {
        (idx + 1) % CACHE_OPTION_COUNT
    } else if idx == 0 {
        CACHE_OPTION_COUNT - 1
    } else {
        idx - 1
    };
    cache_option_at(next)
}

/// Cycling the cache duration forward and then back returns to the same
/// choice.
pub proof fn lemma_cache_cycle_round_trip(current: u32)
    requires
        current == 15 || current == 30 || current == 60 || current == 120 || current == 360,
    ensures
        spec_cycle_cache(spec_cycle_cache(current, true), false) == current,
        spec_cycle_cache(spec_cycle_cache(current, false), true) == current,
{
}

/// Brightness/volume after one step up (capped at 100) or down (floored at 0).
pub fn step_level(cur: u8, up: bool) -> (r: u8)
    ensures
        r == (if up {
            if cur + HW_STEP < 100 { cur + HW_STEP } else { 100 }
        } else if cur > HW_STEP {
            cur - HW_STEP
        } else {
            0
        }),
{
    if up {
        let n = cur.saturating_add(HW_STEP);
        if n < 100 { n } else { 100 }
    } else {
        cur.saturating_sub(HW_STEP)
    }
}

/// Brightness and volume of the device, in percent.
#[derive(Debug, Clone, Copy, PartialEq, Eq, Structural)]
pub struct DeviceLevels {
    pub brightness: u8,
    pub volume: u8,
}

/// What the settings screen reads and changes.
pub struct SettingsModel {
    pub row: int,
    pub auto_refresh: bool,
    pub cache_duration_mins: u32,
    pub show_processes: bool,
    pub theme_id: Seq<char>,
    pub animations_enabled: bool,
    pub sounds_enabled: bool,
    pub levels: DeviceLevels,
    /// A stored setting was changed (the settings are to be saved).
    pub changed: bool,
}

/// How a batch of events on the settings screen ends early.
pub enum SettingsExit {
    Pop,
    WiFi,
    Overlay,
}

/// Row of the auto-refresh toggle.
pub const ROW_AUTO_REFRESH: usize = 1;
/// Row of the cache duration choice.
pub const ROW_CACHE: usize = 2;
/// Row of the process panel toggle.
pub const ROW_PROCESSES: usize = 3;
/// Row of the theme choice.
pub const ROW_THEME: usize = 4;
/// Row of the animations toggle.
pub const ROW_ANIMATIONS: usize = 5;
/// Row of the sounds toggle.
pub const ROW_SOUNDS: usize = 6;
/// Row that opens the WiFi screen.
pub const ROW_WIFI: usize = 7;
/// Row of the brightness level.
pub const ROW_BRIGHTNESS: usize = 8;
/// Row of the volume level.
pub const ROW_VOLUME: usize = 9;

pub open spec fn spec_step_level(cur: u8, up: bool) -> u8 {
    if up {
        if cur + HW_STEP < 100 { (cur + HW_STEP) as u8 } else { 100 }
    } else if cur > HW_STEP {
        (cur - HW_STEP) as u8
    } else {
        0
    }
}

impl SettingsModel {
    /// Change the value on the selected row: A / Right go forward, Left
    /// back.
    pub open spec fn adjust(self, forward: bool) -> (SettingsModel, Option<SettingsExit>) {
        if self.row == ROW_AUTO_REFRESH {
            (SettingsModel { auto_refresh: !self.auto_refresh, changed: true, ..self }, None)
        } else if self.row == ROW_CACHE {
            (SettingsModel {
                cache_duration_mins: spec_cycle_cache(self.cache_duration_mins, forward),
                changed: true,
                ..self
            }, None)
        } else if self.row == ROW_PROCESSES {
            (SettingsModel { show_processes: !self.show_processes, changed: true, ..self }, None)
        } else if self.row == ROW_THEME {
            (SettingsModel { theme_id: spec_cycle(self.theme_id, forward), changed: true, ..self }, None)
        } else if self.row == ROW_ANIMATIONS {
            (SettingsModel { animations_enabled: !self.animations_enabled, changed: true, ..self }, None)
        } else if self.row == ROW_SOUNDS {
            (SettingsModel { sounds_enabled: !self.sounds_enabled, changed: true, ..self }, None)
        } else if self.row == ROW_WIFI && forward {
            (self, Some(SettingsExit::WiFi))
        } else if self.row == ROW_BRIGHTNESS {
            (SettingsModel {
                levels: DeviceLevels { brightness: spec_step_level(self.levels.brightness, forward), ..self.levels },
                ..self
            }, None)
        } else if self.row == ROW_VOLUME {
            (SettingsModel {
                levels: DeviceLevels { volume: spec_step_level(self.levels.volume, forward), ..self.levels },
                ..self
            }, None)
        } else {
            (self, None)
        }
    }

    /// One press or repeat.
    pub open spec fn press(self, button: Button) -> (SettingsModel, Option<SettingsExit>) {
        match button {
            Button::B => (self, Some(SettingsExit::Pop)),
            Button::DpadDown => (
                SettingsModel { row: if self.row + 1 < SETTINGS_ROWS { self.row + 1 } else { self.row }, ..self },
                None,
            ),
            Button::DpadUp => (SettingsModel { row: if self.row > 0 { self.row - 1 } else { self.row }, ..self }, None),
            Button::A | Button::DpadRight => self.adjust(true),
            Button::DpadLeft => self.adjust(false),
            Button::Select => (self, Some(SettingsExit::Overlay)),
            _ => (self, None),
        }
    }

    /// A batch of events in order, up to the first that leaves the screen.
    pub open spec fn run(self, events: Seq<InputEvent>) -> (SettingsModel, Option<SettingsExit>)
        decreases events.len(),
    {
        if events.len() == 0 {
            (self, None)
        } else if !acts(events[0]) {
            self.run(events.drop_first())
        } else {
            let (n, e) = self.press(events[0].button);
            match e {
                Some(_) => (n, e),
                None => n.run(events.drop_first()),
            }
        }
    }
}

/// On the brightness and volume rows, Right (or A) raises that level by
/// ten, capped at 100, and Left lowers it by ten, floored at 0; the other
/// level and the stored settings stay as they are, and a step up undoes a
/// step down away from the ends.
pub proof fn lemma_level_rows_step_by_ten(m: SettingsModel)
    ensures
        ({
            let v = m.levels.volume as int;
            let b = m.levels.brightness as int;
            let mv = SettingsModel { row: ROW_VOLUME as int, ..m };
            let mb = SettingsModel { row: ROW_BRIGHTNESS as int, ..m };
            &&& mv.press(Button::DpadLeft).0.levels.volume == (if v >= 10 { v - 10 } else { 0 })
            &&& mv.press(Button::DpadRight).0.levels.volume == (if v + 10 <= 100 { v + 10 } else { 100 })
            &&& mv.press(Button::A).0.levels.volume == (if v + 10 <= 100 { v + 10 } else { 100 })
            &&& mv.press(Button::DpadLeft).0.levels.brightness == b
            &&& mv.press(Button::DpadRight).0.levels.brightness == b
            &&& mb.press(Button::DpadLeft).0.levels.brightness == (if b >= 10 { b - 10 } else { 0 })
            &&& mb.press(Button::DpadRight).0.levels.brightness == (if b + 10 <= 100 { b + 10 } else { 100 })
            &&& mb.press(Button::A).0.levels.brightness == (if b + 10 <= 100 { b + 10 } else { 100 })
            &&& mb.press(Button::DpadLeft).0.levels.volume == v
            &&& mb.press(Button::DpadRight).0.levels.volume == v
            &&& mv.press(Button::DpadLeft).0.changed == m.changed
            &&& mb.press(Button::DpadLeft).0.changed == m.changed
            &&& (10 <= v <= 100 ==> mv.press(Button::DpadLeft).0.press(Button::DpadRight).0.levels.volume == v)
            &&& (10 <= b <= 100 ==> mb.press(Button::DpadLeft).0.press(Button::DpadRight).0.levels.brightness == b)
        }),
{
}

/// The launcher action of a settings exit.
pub open spec fn settings_action(a: ScreenAction, e: Option<SettingsExit>) -> bool {
    match e {
        Some(SettingsExit::Pop) => a == ScreenAction::Pop,
        Some(SettingsExit::WiFi) => a == ScreenAction::Push(ScreenId::WiFi),
        Some(SettingsExit::Overlay) => a == ScreenAction::ShowOverlay,
        None => a == ScreenAction::Stay,
    }
}

pub struct SettingsScreen {
    selected_row: usize,
}

impl View for SettingsScreen {
    type V = int;

    closed spec fn view(&self) -> int {
        self.selected_row as int
    }
}

impl Default for SettingsScreen {
    fn default() -> (s: Self)
        ensures
            s@ == 0,
    {
        Self::new()
    }
}

impl SettingsScreen {
    pub fn new() -> (s: Self)
        ensures
            s@ == 0,
    {
        Self { selected_row: 0 }
    }

    /// The highlighted row.
    pub fn selected_row(&self) -> (r: usize)
        ensures
            r == self@,
    {
        self.selected_row
    }

    /// Move the highlight with Up/Down, staying on the list.
    pub fn move_selection(&mut self, button: Button)
        requires
            old(self)@ < SETTINGS_ROWS,
        ensures
            final(self)@ == (if button == Button::DpadDown && old(self)@ + 1 < SETTINGS_ROWS {
                old(self)@ + 1
            } else if button == Button::DpadUp && old(self)@ > 0 {
                old(self)@ - 1
            } else {
                old(self)@
            }),
            final(self)@ < SETTINGS_ROWS,
    {
        if button == Button::DpadDown && self.selected_row + 1 < SETTINGS_ROWS {
            self.selected_row += 1;
        } else if button == Button::DpadUp && self.selected_row > 0 {
            self.selected_row -= 1;
        }
    }
    /// Handle a batch of events. Up/Down move the highlight; A or Right
    /// moves the value of the highlighted row forward and Left back
    /// (the toggles flip, the cache duration and the theme cycle through
    /// their choices, brightness and volume step by 10 within 0..=100); A
    /// or Right on the WiFi row opens the WiFi screen, B goes back and
    /// SELECT opens the system menu. Returns the action and whether a stored
    /// setting changed. The registry URL and About rows change nothing.
    pub fn handle_input(
        &mut self,
        events: &[InputEvent],
        settings: &mut LauncherSettings,
        levels: &mut DeviceLevels,
    ) -> (r: (ScreenAction, bool))
        requires
            old(self)@ < SETTINGS_ROWS,
        ensures
            ({
                let m0 = SettingsModel {
                    row: old(self)@,
                    auto_refresh: old(settings).auto_refresh,
                    cache_duration_mins: old(settings).cache_duration_mins,
                    show_processes: old(settings).show_processes,
                    theme_id: old(settings).theme_id@,
                    animations_enabled: old(settings).animations_enabled,
                    sounds_enabled: old(settings).sounds_enabled,
                    levels: *old(levels),
                    changed: false,
                };
                let (m, e) = m0.run(events@);
                &&& final(self)@ == m.row
                &&& final(settings).auto_refresh == m.auto_refresh
                &&& final(settings).cache_duration_mins == m.cache_duration_mins
                &&& final(settings).show_processes == m.show_processes
                &&& final(settings).theme_id@ == m.theme_id
                &&& final(settings).animations_enabled == m.animations_enabled
                &&& final(settings).sounds_enabled == m.sounds_enabled
                &&& final(settings).registry_url == old(settings).registry_url
                &&& *final(levels) == m.levels
                &&& r.1 == m.changed
                &&& settings_action(r.0, e)
            }),
            final(self)@ < SETTINGS_ROWS,
    {
        let ghost m0 = SettingsModel {
            row: self@,
            auto_refresh: settings.auto_refresh,
            cache_duration_mins: settings.cache_duration_mins,
            show_processes: settings.show_processes,
            theme_id: settings.theme_id@,
            animations_enabled: settings.animations_enabled,
            sounds_enabled: settings.sounds_enabled,
            levels: *levels,
            changed: false,
        };
        let mut changed = false;
        let mut i: usize = 0;
        assert(events@.skip(0) =~= events@);
        while i < events.len()
            invariant
                i <= events@.len(),
                self@ < SETTINGS_ROWS,
                m0.row == old(self)@,
                m0.auto_refresh == old(settings).auto_refresh,
                m0.cache_duration_mins == old(settings).cache_duration_mins,
                m0.show_processes == old(settings).show_processes,
                m0.theme_id == old(settings).theme_id@,
                m0.animations_enabled == old(settings).animations_enabled,
                m0.sounds_enabled == old(settings).sounds_enabled,
                m0.levels == *old(levels),
                !m0.changed,
                settings.registry_url == old(settings).registry_url,
                m0.run(events@) == (SettingsModel {
                    row: self@,
                    auto_refresh: settings.auto_refresh,
                    cache_duration_mins: settings.cache_duration_mins,
                    show_processes: settings.show_processes,
                    theme_id: settings.theme_id@,
                    animations_enabled: settings.animations_enabled,
                    sounds_enabled: settings.sounds_enabled,
                    levels: *levels,
                    changed,
                }).run(events@.skip(i as int)),
            decreases events@.len() - i,
        {
            let ie = events[i];
            proof {
                assert(events@.skip(i as int)[0] == ie);
                assert(events@.skip(i as int).drop_first() =~= events@.skip(i as int + 1));
            }
            i += 1;
            if ie.action != InputAction::Press && ie.action != InputAction::Repeat {
                continue;
            }
            match ie.button {
                Button::B => {
                    return (ScreenAction::Pop, changed);
                },
                Button::DpadDown | Button::DpadUp => {
                    self.move_selection(ie.button);
                },
                Button::A | Button::DpadRight | Button::DpadLeft => {
                    let forward = ie.button != Button::DpadLeft;
                    let row = self.selected_row;
                    if row == ROW_AUTO_REFRESH {
                        settings.auto_refresh = !settings.auto_refresh;
                        changed = true;
                    } else if row == ROW_CACHE {
                        settings.cache_duration_mins = cycle_cache_duration(settings.cache_duration_mins, forward);
                        changed = true;
                    } else if row == ROW_PROCESSES {
                        settings.show_processes = !settings.show_processes;
                        changed = true;
                    } else if row == ROW_THEME {
                        settings.theme_id = cycle_theme(settings.theme_id.as_str(), forward);
                        changed = true;
                    } else if row == ROW_ANIMATIONS {
                        settings.animations_enabled = !settings.animations_enabled;
                        changed = true;
                    } else if row == ROW_SOUNDS {
                        settings.sounds_enabled = !settings.sounds_enabled;
                        changed = true;
                    } else if row == ROW_WIFI && forward {
                        return (ScreenAction::Push(ScreenId::WiFi), changed);
                    } else if row == ROW_BRIGHTNESS {
                        levels.brightness = step_level(levels.brightness, forward);
                    } else if row == ROW_VOLUME {
                        levels.volume = step_level(levels.volume, forward);
                    }
                },
                Button::Select => {
                    return (ScreenAction::ShowOverlay, changed);
                },
                _ => {},
            }
        }
        assert(events@.skip(i as int).len() == 0);
        (ScreenAction::Stay, changed)
    }
}

/// Settings rows: Down and Up move the highlight one row, stopping at the
/// ends, and undo each other away from them.
pub proof fn lemma_settings_rows_step(m: SettingsModel)
    requires
        0 <= m.row < SETTINGS_ROWS,
    ensures
        m.press(Button::DpadDown).0.row == (if m.row + 1 < SETTINGS_ROWS { m.row + 1 } else { m.row }),
        m.press(Button::DpadUp).0.row == (if m.row > 0 { m.row - 1 } else { 0 }),
        m.row + 1 < SETTINGS_ROWS ==> m.press(Button::DpadDown).0.press(Button::DpadUp).0.row == m.row,
        m.row > 0 ==> m.press(Button::DpadUp).0.press(Button::DpadDown).0.row == m.row,
        m.press(Button::DpadDown).0.levels == m.levels && m.press(Button::DpadDown).0.changed == m.changed,
{
}

/// On the detail screen, Down moves from the info to the action button and
/// then scrolls down by 20 (up to 100); Up scrolls back up by 20 (down to
/// 0) and then returns to the info. Down then Up undoes itself.
pub proof fn lemma_detail_navigation(m: DetailModel)
    requires
        m.wf(),
    ensures
        m.focus == DetailFocus::Info ==> m.navigate(Button::DpadDown).focus == DetailFocus::Action
            && m.navigate(Button::DpadDown).navigate(Button::DpadUp) == m,
        m.focus == DetailFocus::Action ==> m.navigate(Button::DpadUp).focus == DetailFocus::Info
            && m.navigate(Button::DpadUp).navigate(Button::DpadDown) == m,
        m.focus == DetailFocus::Action ==> m.navigate(Button::DpadDown).scroll_y == (if m.scroll_y + 20 <= 100 {
            m.scroll_y + 20
        } else {
            100
        }),
        m.focus == DetailFocus::Info ==> m.navigate(Button::DpadUp).scroll_y == (if m.scroll_y >= 20 {
            m.scroll_y - 20
        } else {
            0
        }),
        m.navigate(Button::A) == m,
{
}

/// Home dock: Right and Left move the focus one app within the dock and
/// undo each other; L1 and R1 move five apps, stopping at the ends.
pub proof fn lemma_home_dock_moves(m: HomeModel, installed: int, recents: int)
    requires
        m.wf(),
        m.in_range(installed, recents),
        m.zone == HomeZone::Dock,
        installed > 0,
    ensures
        m.press(Button::DpadRight, installed, recents).0.dock_index == (if m.dock_index + 1 < installed {
            m.dock_index + 1
        } else {
            installed - 1
        }),
        m.press(Button::DpadLeft, installed, recents).0.dock_index == (if m.dock_index >= 1 { m.dock_index - 1 } else { 0 }),
        m.press(Button::R1, installed, recents).0.dock_index == (if m.dock_index + 5 < installed {
            m.dock_index + 5
        } else {
            installed - 1
        }),
        m.press(Button::L1, installed, recents).0.dock_index == (if m.dock_index >= 5 { m.dock_index - 5 } else { 0 }),
        m.dock_index + 1 < installed ==> m.press(Button::DpadRight, installed, recents).0.press(
            Button::DpadLeft,
            installed,
            recents,
        ).0.dock_index == m.dock_index,
        m.press(Button::A, installed, recents).1 == HomeCommand::LaunchInstalled(m.dock_index as usize),
        m.press(Button::X, installed, recents).1 == HomeCommand::RemoveInstalled(m.dock_index as usize),
{
}

/// Store list: Down and Up move the selection one app within the listed
/// apps and undo each other away from the ends; L1/R1 change category and
/// go back to the first app.
pub proof fn lemma_store_moves(m: StoreModel, filtered: Seq<usize>)
    requires
        m.wf(),
        m.in_range(filtered.len() as int),
        filtered.len() > 0,
    ensures
        m.press(Button::DpadDown, filtered).0.selected_index == (if m.selected_index + 1 < filtered.len() {
            m.selected_index + 1
        } else {
            filtered.len() - 1
        }),
        m.press(Button::DpadUp, filtered).0.selected_index == (if m.selected_index >= 1 { m.selected_index - 1 } else { 0 }),
        m.selected_index + 1 < filtered.len() ==> m.press(Button::DpadDown, filtered).0.press(Button::DpadUp, filtered).0.selected_index
            == m.selected_index,
        m.press(Button::R1, filtered).0.category_index == (m.category_index + 1) % 8,
        m.press(Button::R1, filtered).0.selected_index == 0,
        m.press(Button::L1, filtered).0.category_index == (if m.category_index > 0 { m.category_index - 1 } else { 7 }),
        m.press(Button::A, filtered).1 == Some(StoreExit::Detail(filtered[m.selected_index])),
{
}

} // verus!
