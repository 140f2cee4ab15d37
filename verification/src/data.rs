//! Launcher data: the app registry, installed apps, recent launches and
//! launcher settings.

use vstd::prelude::*;

use crate::strs::{str_eq, views};
use crate::theme::{default_theme_id, preset_id};

verus! {

/// A single app entry from the registry.
#[derive(Debug, Clone)]
pub struct AppEntry {
    pub id: String,
    pub name: String,
    pub description: String,
    pub version: String,
    pub author: String,
    pub category: String,
    pub tags: Vec<String>,
    pub repo_url: String,
    pub permissions: Vec<String>,
}

/// The registry file format.
#[derive(Debug, Clone)]
pub struct Registry {
    pub version: u32,
    pub apps: Vec<AppEntry>,
}

impl Registry {
    /// Create an empty registry as fallback.
    pub fn empty() -> (r: Self)
        ensures
            r.version == 1,
            r.apps@.len() == 0,
    {
        Self { version: 1, apps: Vec::new() }
    }
}

/// Tracks which apps are installed locally.
#[derive(Debug, Clone, Default)]
pub struct InstalledApps {
    pub app_ids: Vec<String>,
}

/// The ids after installing `id`: appended unless already present.
pub open spec fn spec_install(ids: Seq<Seq<char>>, id: Seq<char>) -> Seq<Seq<char>> {
    if ids.contains(id) { ids } else { ids.push(id) }
}

/// The ids after removing every occurrence of `id`, order kept.
pub open spec fn spec_remove(ids: Seq<Seq<char>>, id: Seq<char>) -> Seq<Seq<char>> {
    ids.filter(differs_from(id))
}

/// The predicate "is not `id`".
pub open spec fn differs_from(id: Seq<char>) -> spec_fn(Seq<char>) -> bool {
    |x: Seq<char>| x != id
}

impl InstalledApps {
    /// The installed app ids.
    pub open spec fn ids(self) -> Seq<Seq<char>> {
        views(self.app_ids@)
    }

    pub fn is_installed(&self, app_id: &str) -> (r: bool)
        ensures
            r == self.ids().contains(app_id@),
    {
        let mut i: usize = 0;
        while i < self.app_ids.len()
            invariant
                i <= self.app_ids@.len(),
                forall|j: int| 0 <= j < i ==> self.ids()[j] != app_id@,
            decreases self.app_ids@.len() - i,
        {
            if str_eq(self.app_ids[i].as_str(), app_id) {
                assert(self.ids()[i as int] == app_id@);
                return true;
            }
            i += 1;
        }
        false
    }

    pub fn install(&mut self, app_id: &str)
        ensures
            final(self).ids() == spec_install(old(self).ids(), app_id@),
    {
        if !self.is_installed(app_id) {
            self.app_ids.push(app_id.to_owned());
            assert(final(self).ids() =~= old(self).ids().push(app_id@));
        }
    }

    pub fn remove(&mut self, app_id: &str)
        ensures
            final(self).ids() == spec_remove(old(self).ids(), app_id@),
    {
        let ghost old_ids = self.ids();
        let mut kept: Vec<String> = Vec::new();
        let mut i: usize = 0;
        while i < self.app_ids.len()
            invariant
                i <= self.app_ids@.len(),
                self.ids() == old_ids,
                views(kept@) == spec_remove(old_ids.take(i as int), app_id@),
            decreases self.app_ids@.len() - i,
        {
            proof {
                assert(old_ids.take(i as int + 1).drop_last() == old_ids.take(i as int));
                reveal(Seq::filter);
            }
            if !str_eq(self.app_ids[i].as_str(), app_id) {
                kept.push(self.app_ids[i].clone());
                assert(views(kept@) =~= spec_remove(old_ids.take(i as int + 1), app_id@));
            } else {
                assert(views(kept@) =~= spec_remove(old_ids.take(i as int + 1), app_id@));
            }
            i += 1;
        }
        assert(old_ids.take(self.app_ids@.len() as int) =~= old_ids);
        self.app_ids = kept;
    }
}

/// Registry indices of the installed apps, in registry order.
pub open spec fn spec_installed_apps(apps: Seq<AppEntry>, ids: Seq<Seq<char>>) -> Seq<int> {
    Seq::new(apps.len(), |i: int| i).filter(|i: int| ids.contains(apps[i].id@))
}

/// The registry apps that are installed (by registry index, in registry
/// order).
pub fn installed_apps(registry: &Registry, installed: &InstalledApps) -> (r: Vec<usize>)
    ensures
        r@.map_values(|i: usize| i as int) == spec_installed_apps(registry.apps@, installed.ids()),
{
    let ghost apps = registry.apps@;
    let ghost ids = installed.ids();
    let ghost f = |i: int| ids.contains(apps[i].id@);
    let n = registry.apps.len();
    let mut r: Vec<usize> = Vec::new();
    let mut i: usize = 0;
    while i < n
        invariant
            n == apps.len(),
            apps == registry.apps@,
            ids == installed.ids(),
            f == (|k: int| ids.contains(apps[k].id@)),
            i <= n,
            r@.map_values(|k: usize| k as int) == Seq::new(i as nat, |k: int| k).filter(f),
        decreases n - i,
    {
        let ghost prev = Seq::new(i as nat, |k: int| k);
        let ghost before = r@;
        proof {
            assert(Seq::new(i as nat + 1, |k: int| k) =~= prev.push(i as int));
            prev.lemma_filter_push(i as int, f);
        }
        let inst = installed.is_installed(registry.apps[i].id.as_str());
        assert(inst == f(i as int));
        if inst {
            r.push(i);
            assert(r@ =~= before.push(i));
            assert(r@.map_values(|k: usize| k as int) =~= before.map_values(|k: usize| k as int).push(i as int));
        }
        i += 1;
    }
    r
}

/// The ids after installing each of `more` in turn.
pub open spec fn spec_install_all(ids: Seq<Seq<char>>, more: Seq<Seq<char>>) -> Seq<Seq<char>>
    decreases more.len(),
{
    if more.len() == 0 {
        ids
    } else {
        spec_install(spec_install_all(ids, more.drop_last()), more.last())
    }
}

/// Add the apps found on disk to the installed list (those already listed
/// stay where they are, new ones follow in the order given).
pub fn merge_installed(installed: &mut InstalledApps, on_disk: &Vec<String>)
    ensures
        final(installed).ids() == spec_install_all(old(installed).ids(), views(on_disk@)),
{
    let mut i: usize = 0;
    while i < on_disk.len()
        invariant
            i <= on_disk@.len(),
            installed.ids() == spec_install_all(old(installed).ids(), views(on_disk@.take(i as int))),
        decreases on_disk@.len() - i,
    {
        proof {
            let t = views(on_disk@.take(i as int + 1));
            assert(t.drop_last() =~= views(on_disk@.take(i as int)));
            assert(t.last() == on_disk@[i as int]@);
        }
        installed.install(on_disk[i].as_str());
        i += 1;
    }
    assert(on_disk@.take(on_disk@.len() as int) =~= on_disk@);
}

fn registry_lists(registry: &Registry, id: &str) -> (r: bool)
    ensures
        r == exists|i: int| 0 <= i < registry.apps@.len() && registry.apps@[i].id@ == id@,
{
    let mut i: usize = 0;
    while i < registry.apps.len()
        invariant
            i <= registry.apps@.len(),
            forall|j: int| 0 <= j < i ==> registry.apps@[j].id@ != id@,
        decreases registry.apps@.len() - i,
    {
        if str_eq(registry.apps[i].id.as_str(), id) {
            return true;
        }
        i += 1;
    }
    false
}

/// Merging ids found on disk keeps the installed list free of duplicates.
pub proof fn lemma_merge_no_duplicates(ids: Seq<Seq<char>>, more: Seq<Seq<char>>)
    requires
        ids.no_duplicates(),
    ensures
        spec_install_all(ids, more).no_duplicates(),
    decreases more.len(),
{
    if more.len() > 0 {
        lemma_merge_no_duplicates(ids, more.drop_last());
        lemma_install_no_duplicates(spec_install_all(ids, more.drop_last()), more.last());
    }
}

/// Mark a bundled cartridge with id `id` as installed when the registry
/// lists it and it is not installed yet; returns whether it was added.
pub fn adopt_bundled(installed: &mut InstalledApps, registry: &Registry, id: &str) -> (added: bool)
    ensures
        added == ((exists|i: int| 0 <= i < registry.apps@.len() && registry.apps@[i].id@ == id@)
            && !old(installed).ids().contains(id@)),
        final(installed).ids() == (if added { old(installed).ids().push(id@) } else { old(installed).ids() }),
{
    let listed = registry_lists(registry, id);
    if listed && !installed.is_installed(id) {
        installed.install(id);
        true
    } else {
        false
    }
}

/// After `install`, the app is installed.
pub proof fn lemma_install_then_installed(ids: Seq<Seq<char>>, id: Seq<char>)
    ensures
        spec_install(ids, id).contains(id),
{
    if !ids.contains(id) {
        assert(ids.push(id)[ids.len() as int] == id);
    }
}

/// After `remove`, the app is not installed, and every other app keeps its
/// installed state.
pub proof fn lemma_remove_then_not_installed(ids: Seq<Seq<char>>, id: Seq<char>, other: Seq<char>)
    ensures
        !spec_remove(ids, id).contains(id),
        other != id ==> (spec_remove(ids, id).contains(other) <==> ids.contains(other)),
{
    let f = differs_from(id);
    let r = ids.filter(f);
    if r.contains(id) {
        let k = choose|k: int| 0 <= k < r.len() && r[k] == id;
        ids.lemma_filter_pred(f, k);
    }
    if other != id {
        if ids.contains(other) {
            let k = choose|k: int| 0 <= k < ids.len() && ids[k] == other;
            ids.lemma_filter_contains(f, k);
        }
        if r.contains(other) {
            let k = choose|k: int| 0 <= k < r.len() && r[k] == other;
            ids.lemma_filter_contains_rev(f, other);
        }
    }
}

/// Installing twice is the same as installing once.
pub proof fn lemma_install_idempotent(ids: Seq<Seq<char>>, id: Seq<char>)
    ensures
        spec_install(spec_install(ids, id), id) == spec_install(ids, id),
{
    lemma_install_then_installed(ids, id);
}

/// Installing keeps the list free of duplicates.
pub proof fn lemma_install_no_duplicates(ids: Seq<Seq<char>>, id: Seq<char>)
    requires
        ids.no_duplicates(),
    ensures
        spec_install(ids, id).no_duplicates(),
{
    if !ids.contains(id) {
        let r = ids.push(id);
        assert forall|i: int, j: int| 0 <= i < r.len() && 0 <= j < r.len() && i != j implies r[i]
            != r[j] by {
            if i == ids.len() as int {
                assert(r[j] == ids[j]);
            } else if j == ids.len() as int {
                assert(r[i] == ids[i]);
            }
        }
    }
}

/// Removing an app that was just installed gives back the list as it was.
pub proof fn lemma_install_then_remove(ids: Seq<Seq<char>>, id: Seq<char>)
    requires
        !ids.contains(id),
    ensures
        spec_remove(spec_install(ids, id), id) == ids,
{
    let f = differs_from(id);
    ids.lemma_filter_push(id, f);
    assert(ids.push(id).drop_last() =~= ids);
    lemma_filter_all_kept(ids, id);
}

/// Filtering out an id that does not occur keeps the sequence.
proof fn lemma_filter_all_kept(ids: Seq<Seq<char>>, id: Seq<char>)
    requires
        !ids.contains(id),
    ensures
        spec_remove(ids, id) == ids,
    decreases ids.len(),
{
    reveal(Seq::filter);
    if ids.len() > 0 {
        let init = ids.drop_last();
        assert(!init.contains(id)) by {
            if init.contains(id) {
                let k = choose|k: int| 0 <= k < init.len() && init[k] == id;
                assert(ids[k] == id);
            }
        }
        lemma_filter_all_kept(init, id);
        assert(ids.last() != id) by {
            assert(ids[ids.len() - 1] == ids.last());
        }
        assert(init.push(ids.last()) =~= ids);
    } else {
        assert(ids.filter(differs_from(id)) =~= ids);
    }
}

/// Recent app launch record.
#[derive(Debug, Clone)]
pub struct RecentEntry {
    pub app_id: String,
    pub name: String,
    pub timestamp_secs: u64,
}

/// Abstract [`RecentEntry`].
pub struct RecentModel {
    pub app_id: Seq<char>,
    pub name: Seq<char>,
    pub timestamp_secs: u64,
}

impl View for RecentEntry {
    type V = RecentModel;

    open spec fn view(&self) -> RecentModel {
        RecentModel { app_id: self.app_id@, name: self.name@, timestamp_secs: self.timestamp_secs }
    }
}

/// Most recent launches kept.
pub const MAX_RECENTS: usize = 10;

pub open spec fn recent_views(v: Seq<RecentEntry>) -> Seq<RecentModel> {
    v.map_values(|e: RecentEntry| e@)
}

/// The predicate "is a launch of some app other than `id`".
pub open spec fn other_app(id: Seq<char>) -> spec_fn(RecentModel) -> bool {
    |e: RecentModel| e.app_id != id
}

/// Recent launches after launching `entry`: it goes first, earlier launches
/// of the same app are dropped, and at most [`MAX_RECENTS`] are kept.
pub open spec fn spec_record(recents: Seq<RecentModel>, entry: RecentModel) -> Seq<RecentModel> {
    let all = seq![entry] + recents.filter(other_app(entry.app_id));
    if all.len() > MAX_RECENTS { all.take(MAX_RECENTS as int) } else { all }
}

fn clone_recent(e: &RecentEntry) -> (c: RecentEntry)
    ensures
        c@ == e@,
{
    RecentEntry { app_id: e.app_id.clone(), name: e.name.clone(), timestamp_secs: e.timestamp_secs }
}

/// Record a launch of `app_id` at `timestamp_secs` in the recent list.
pub fn push_recent(recents: &mut Vec<RecentEntry>, app_id: &str, app_name: &str, timestamp_secs: u64)
    ensures
        recent_views(final(recents)@) == spec_record(
            recent_views(old(recents)@),
            RecentModel { app_id: app_id@, name: app_name@, timestamp_secs },
        ),
{
    let ghost old_v = recent_views(recents@);
    let ghost entry = RecentModel { app_id: app_id@, name: app_name@, timestamp_secs };
    let mut out: Vec<RecentEntry> = Vec::new();
    out.push(RecentEntry { app_id: app_id.to_owned(), name: app_name.to_owned(), timestamp_secs });
    let mut i: usize = 0;
    while i < recents.len()
        invariant
            i <= recents@.len(),
            recent_views(recents@) == old_v,
            recent_views(out@) == seq![entry] + old_v.take(i as int).filter(other_app(app_id@)),
        decreases recents@.len() - i,
    {
        proof {
            assert(old_v.take(i as int + 1) =~= old_v.take(i as int).push(old_v[i as int]));
            old_v.take(i as int).lemma_filter_push(old_v[i as int], other_app(app_id@));
        }
        assert(old_v[i as int] == recents@[i as int]@);
        if !str_eq(recents[i].app_id.as_str(), app_id) {
            let ghost prev = recent_views(out@);
            out.push(clone_recent(&recents[i]));
            assert(recent_views(out@) =~= prev.push(old_v[i as int]));
            assert(recent_views(out@) =~= seq![entry] + old_v.take(i as int + 1).filter(other_app(app_id@)));
        } else {
            assert(recent_views(out@) =~= seq![entry] + old_v.take(i as int + 1).filter(other_app(app_id@)));
        }
        i += 1;
    }
    assert(old_v.take(recents@.len() as int) =~= old_v);
    if out.len() > MAX_RECENTS {
        out.truncate(MAX_RECENTS);
        assert(recent_views(out@) =~= spec_record(old_v, entry));
    }
    *recents = out;
}

/// The most recent launch is first, is the app just launched, the list never
/// exceeds [`MAX_RECENTS`], and an app appears at most once when it did so
/// before.
pub proof fn lemma_record_shape(recents: Seq<RecentModel>, entry: RecentModel)
    ensures
        spec_record(recents, entry).len() >= 1,
        spec_record(recents, entry)[0] == entry,
        spec_record(recents, entry).len() <= MAX_RECENTS,
        forall|i: int|
            1 <= i < spec_record(recents, entry).len() ==> (#[trigger] spec_record(recents, entry)[i]).app_id
                != entry.app_id,
{
    let f = other_app(entry.app_id);
    let kept = recents.filter(f);
    let r = spec_record(recents, entry);
    assert forall|i: int| 1 <= i < r.len() implies (#[trigger] r[i]).app_id != entry.app_id by {
        assert(r[i] == kept[i - 1]);
        recents.lemma_filter_pred(f, i - 1);
    }
}

/// Launcher settings persisted via app storage.
#[derive(Debug, Clone)]
pub struct LauncherSettings {
    pub registry_url: String,
    pub auto_refresh: bool,
    pub cache_duration_mins: u32,
    /// Show the top processes on the home screen.
    pub show_processes: bool,
    /// The theme preset chosen (see `theme`).
    pub theme_id: String,
    /// Moving theme effects.
    pub animations_enabled: bool,
    /// Click feedback on navigation and launch.
    pub sounds_enabled: bool,
}

impl Default for LauncherSettings {
    /// The public registry, refreshed automatically and cached for an hour;
    /// the default theme with its effects, sounds and the process panel on.
    fn default() -> (s: Self)
        ensures
            s.registry_url@ == "https://raw.githubusercontent.com/Strizzo/Cartridge/main/registry.json"@,
            s.auto_refresh,
            s.cache_duration_mins == 60,
            s.show_processes,
            s.theme_id@ == preset_id(0),
            s.animations_enabled,
            s.sounds_enabled,
    {
        Self {
            registry_url: "https://raw.githubusercontent.com/Strizzo/Cartridge/main/registry.json".to_owned(),
            auto_refresh: true,
            cache_duration_mins: 60,
            show_processes: true,
            theme_id: default_theme_id().to_owned(),
            animations_enabled: true,
            sounds_enabled: true,
        }
    }
}

/// `t` occurs in `s`.
pub open spec fn has_substring(s: Seq<char>, t: Seq<char>) -> bool {
    exists|i: int| 0 <= i && i + t.len() <= s.len() && #[trigger] s.subrange(i, i + t.len()) == t
}

fn matches_at(s: &str, t: &str, i: usize) -> (r: bool)
    requires
        i + t@.len() <= s@.len(),
    ensures
        r == (s@.subrange(i as int, i + t@.len()) == t@),
{
    let n = t.unicode_len();
    let total = s.unicode_len();
    let mut k: usize = 0;
    while k < n
        invariant
            n == t@.len(),
            total == s@.len(),
            i + n <= s@.len(),
            k <= n,
            forall|j: int| 0 <= j < k ==> s@[i + j] == t@[j],
        decreases n - k,
    {
        if s.get_char(i + k) != t.get_char(k) {
            assert(s@.subrange(i as int, i + t@.len())[k as int] != t@[k as int]);
            return false;
        }
        k += 1;
    }
    assert(s@.subrange(i as int, i + t@.len()) =~= t@);
    true
}

/// Whether `t` occurs in `s`.
pub fn str_contains(s: &str, t: &str) -> (r: bool)
    ensures
        r == has_substring(s@, t@),
{
    let n = s.unicode_len();
    let m = t.unicode_len();
    if m > n {
        return false;
    }
    let mut i: usize = 0;
    while i < n - m
        invariant
            n == s@.len(),
            m == t@.len(),
            m <= n,
            i <= n - m,
            forall|j: int| 0 <= j < i ==> #[trigger] s@.subrange(j, j + m) != t@,
        decreases n - m - i,
    {
        if matches_at(s, t, i) {
            return true;
        }
        i += 1;
    }
    matches_at(s, t, i)
}

/// Replace a registry URL on the retired `cartridge.dev` host by the
/// default one; returns whether the settings changed (and are to be saved).
pub fn migrate_settings(settings: &mut LauncherSettings) -> (changed: bool)
    ensures
        changed == has_substring(old(settings).registry_url@, "cartridge.dev"@),
        final(settings).registry_url@ == (if changed {
            "https://raw.githubusercontent.com/Strizzo/Cartridge/main/registry.json"@
        } else {
            old(settings).registry_url@
        }),
        final(settings).auto_refresh == old(settings).auto_refresh,
        final(settings).cache_duration_mins == old(settings).cache_duration_mins,
        final(settings).show_processes == old(settings).show_processes,
        final(settings).theme_id == old(settings).theme_id,
        final(settings).animations_enabled == old(settings).animations_enabled,
        final(settings).sounds_enabled == old(settings).sounds_enabled,
{
    if str_contains(settings.registry_url.as_str(), "cartridge.dev") {
        let d = LauncherSettings::default();
        settings.registry_url = d.registry_url;
        true
    } else {
        false
    }
}

} // verus!
