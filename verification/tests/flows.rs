use cartridge::app::{LauncherApp, ScreenState};
use cartridge::data::{
    adopt_bundled, installed_apps, merge_installed, migrate_settings, str_contains, AppEntry,
    InstalledApps, LauncherSettings, RecentEntry, Registry,
};
use cartridge::input::{Button, InputAction, InputEvent};
use cartridge::overlay::OverlayResult;
use cartridge::screens::{
    home_command, DetailCommand, DetailScreen, DeviceLevels, HomeCommand, HomeOutcome, HomeScreen, ScreenAction, ScreenId,
    SettingsScreen,
};
use cartridge::wifi::{visible_rows, LinkStatus, ScanOutcome, WifiCommand, WifiNetwork, WifiScreen};

fn press(b: Button) -> InputEvent {
    InputEvent { button: b, action: InputAction::Press }
}

fn app(id: &str, repo: &str) -> AppEntry {
    AppEntry {
        id: id.to_string(),
        name: id.to_uppercase(),
        description: String::new(),
        version: "1.2.0".to_string(),
        author: String::new(),
        category: "tools".to_string(),
        tags: vec![],
        repo_url: repo.to_string(),
        permissions: vec![],
    }
}

fn installed(ids: &[&str]) -> InstalledApps {
    InstalledApps { app_ids: ids.iter().map(|s| s.to_string()).collect() }
}

#[test]
fn settings_rows_change_values() {
    let mut s = SettingsScreen::new();
    let mut st = LauncherSettings::default();
    let mut lv = DeviceLevels { brightness: 95, volume: 5 };
    // Row 1 toggles auto-refresh.
    let (a, changed) = s.handle_input(&[press(Button::DpadDown), press(Button::A)], &mut st, &mut lv);
    assert!(matches!(a, ScreenAction::Stay));
    assert!(changed);
    assert!(!st.auto_refresh);
    // Row 2 cycles the cache duration both ways.
    let (_, changed) = s.handle_input(&[press(Button::DpadDown), press(Button::DpadRight)], &mut st, &mut lv);
    assert!(changed);
    assert_eq!(st.cache_duration_mins, 120);
    s.handle_input(&[press(Button::DpadLeft), press(Button::DpadLeft)], &mut st, &mut lv);
    assert_eq!(st.cache_duration_mins, 30);
    // Brightness and volume rows step the device levels.
    for _ in 0..6 {
        s.handle_input(&[press(Button::DpadDown)], &mut st, &mut lv);
    }
    assert_eq!(s.selected_row(), 8);
    let (_, changed) = s.handle_input(&[press(Button::A)], &mut st, &mut lv);
    assert!(!changed);
    assert_eq!(lv.brightness, 100);
    s.handle_input(&[press(Button::DpadDown), press(Button::DpadLeft)], &mut st, &mut lv);
    assert_eq!(lv.volume, 0);
    // Row 7 opens the WiFi screen with A or Right, not Left.
    let (a, _) = s.handle_input(&[press(Button::DpadUp), press(Button::DpadUp), press(Button::DpadLeft)], &mut st, &mut lv);
    assert!(matches!(a, ScreenAction::Stay));
    let (a, _) = s.handle_input(&[press(Button::DpadRight), press(Button::B)], &mut st, &mut lv);
    assert!(matches!(a, ScreenAction::Push(ScreenId::WiFi)));
    let (a, _) = s.handle_input(&[press(Button::B)], &mut st, &mut lv);
    assert!(matches!(a, ScreenAction::Pop));
    let (a, _) = s.handle_input(&[press(Button::Select)], &mut st, &mut lv);
    assert!(matches!(a, ScreenAction::ShowOverlay));
}

#[test]
fn detail_launch_install_remove_update() {
    let calc = app("dev.cartridge.calculator", "https://example.org/calc");
    let bundled = app("dev.cartridge.clock", "");
    let mut inst = installed(&["dev.cartridge.calculator"]);
    let mut recents: Vec<RecentEntry> = vec![RecentEntry {
        app_id: "dev.cartridge.clock".into(),
        name: "Clock".into(),
        timestamp_secs: 5,
    }];

    let mut d = DetailScreen::new(0);
    // A on the info pane does nothing; Down focuses the action button.
    assert!(matches!(d.press(Button::A, Some(&calc), &inst, &mut recents, 100), DetailCommand::Stay));
    assert!(matches!(d.press(Button::DpadDown, Some(&calc), &inst, &mut recents, 100), DetailCommand::Stay));
    match d.press(Button::A, Some(&calc), &inst, &mut recents, 100) {
        DetailCommand::Leave(ScreenAction::LaunchApp(id)) => assert_eq!(id, "dev.cartridge.calculator"),
        _ => panic!("expected a launch"),
    }
    assert_eq!(recents.len(), 2);
    assert_eq!(recents[0].app_id, "dev.cartridge.calculator");
    assert_eq!(recents[0].timestamp_secs, 100);

    let mut d = DetailScreen::new(1);
    d.press(Button::DpadDown, Some(&bundled), &inst, &mut recents, 100);
    assert!(matches!(d.press(Button::A, Some(&bundled), &inst, &mut recents, 100), DetailCommand::Stay));
    assert_eq!(d.status(), Some(("This app is bundled and cannot be installed separately", true)));

    let other = app("dev.cartridge.weather", "https://example.org/w");
    assert!(matches!(d.press(Button::A, Some(&other), &inst, &mut recents, 100), DetailCommand::Install));
    assert_eq!(d.status(), Some(("Installing...", false)));
    d.finish_install(Err("timeout".into()), "dev.cartridge.weather", &mut inst);
    assert_eq!(d.status(), Some(("Install failed: timeout", true)));
    d.finish_install(Ok(()), "dev.cartridge.weather", &mut inst);
    assert_eq!(d.status(), Some(("Installed successfully", false)));
    assert!(inst.is_installed("dev.cartridge.weather"));

    assert!(matches!(d.press(Button::Y, Some(&other), &inst, &mut recents, 100), DetailCommand::Update));
    assert!(!d.begin_update(Some("1.2.0"), "1.2.0"));
    assert!(d.begin_update(Some("1.1.0"), "1.2.0"));
    assert_eq!(d.status(), Some(("Updating to v1.2.0...", false)));
    d.finish_update(Ok(()), "1.2.0");
    assert_eq!(d.status(), Some(("Updated to v1.2.0", false)));
    d.finish_update(Err("disk full".into()), "1.2.0");
    assert_eq!(d.status(), Some(("Update failed: disk full", true)));

    assert!(matches!(d.press(Button::X, Some(&other), &inst, &mut recents, 100), DetailCommand::Remove));
    d.finish_remove(Some(Ok(())), "dev.cartridge.weather", &mut inst);
    assert_eq!(d.status(), Some(("Removed", false)));
    assert!(!inst.is_installed("dev.cartridge.weather"));
    assert!(matches!(d.press(Button::X, Some(&other), &inst, &mut recents, 100), DetailCommand::Stay));
    assert!(matches!(d.press(Button::X, None, &inst, &mut recents, 100), DetailCommand::Stay));
    assert!(matches!(d.press(Button::B, None, &inst, &mut recents, 100), DetailCommand::Leave(ScreenAction::Pop)));
}

fn net(ssid: &str, security: &str, saved: bool) -> WifiNetwork {
    WifiNetwork { ssid: ssid.to_string(), signal: 70, security: security.to_string(), is_saved: saved }
}

#[test]
fn wifi_screen_connects() {
    let mut w = WifiScreen::new();
    assert!(w.first_visit());
    assert!(!w.first_visit());
    assert!(w.refresh(LinkStatus::Disconnected));
    assert!(w.is_loading());
    assert!(!w.refresh(LinkStatus::Disconnected));
    w.poll_scan(ScanOutcome::Done(
        vec![net("home", "WPA2", true), net("cafe", "--", false), net("office", "WPA2", false)],
        LinkStatus::Disconnected,
    ));
    assert!(!w.is_loading());
    assert_eq!(w.total_rows(), 4);
    // The status row does nothing while disconnected.
    assert!(matches!(w.press(&press(Button::A)), WifiCommand::Stay));
    w.press(&press(Button::DpadDown));
    match w.press(&press(Button::A)) {
        WifiCommand::ConnectSaved(s) => assert_eq!(s, "home"),
        _ => panic!("expected a saved connect"),
    }
    assert!(!w.finish_connect_saved("home".to_string(), Err("no secret".into())));
    assert!(w.password_active());
    // Type the focused key, then submit.
    for b in [Button::A, Button::Start] {
        match w.password_event(&press(b)) {
            WifiCommand::ConnectWith(s, p) => {
                assert_eq!(s, "home");
                assert_eq!(p, "q");
            }
            WifiCommand::Stay => {}
            _ => panic!("unexpected command"),
        }
    }
    assert!(!w.password_active());
    w.finish_connect("home", Ok(()));
    assert_eq!(w.message(), Some("Connected to home"));
    w.press(&press(Button::DpadDown));
    match w.press(&press(Button::A)) {
        WifiCommand::ConnectWith(s, p) => {
            assert_eq!(s, "cafe");
            assert!(p.is_empty());
        }
        _ => panic!("expected an open connect"),
    }
    w.press(&press(Button::DpadDown));
    assert!(matches!(w.press(&press(Button::A)), WifiCommand::Stay));
    assert!(w.password_active());
    // An empty password is refused.
    assert!(matches!(w.password_event(&press(Button::Start)), WifiCommand::Stay));
    assert_eq!(w.message(), Some("Password cannot be empty"));
    assert!(matches!(w.press(&press(Button::Y)), WifiCommand::Refresh));
    assert_eq!(w.message(), Some("Scanning..."));
    w.finish_disconnect(Err("busy".into()));
    assert_eq!(w.message(), Some("Error: busy"));
    w.poll_scan(ScanOutcome::Failed("no adapter".into()));
    assert_eq!(w.selected_row(), 0);
    assert_eq!(w.total_rows(), 1);
    w.poll_scan(ScanOutcome::Stopped);
    assert!(matches!(w.press(&press(Button::B)), WifiCommand::Leave(ScreenAction::Pop)));
}

#[test]
fn wifi_list_scrolls_with_selection() {
    assert_eq!(visible_rows(true), 9);
    assert_eq!(visible_rows(false), 9);
    let mut w = WifiScreen::new();
    w.refresh(LinkStatus::Connected { ssid: "n0".into(), signal: 80 });
    let nets: Vec<WifiNetwork> = (0..20).map(|i| net(&format!("n{i}"), "WPA2", false)).collect();
    w.poll_scan(ScanOutcome::Done(nets, LinkStatus::Connected { ssid: "n0".into(), signal: 80 }));
    assert!(matches!(w.press(&press(Button::A)), WifiCommand::Disconnect));
    for _ in 0..12 {
        w.press(&press(Button::DpadDown));
    }
    w.follow_selection(9);
    assert_eq!(w.scroll_offset(), 3);
    for _ in 0..10 {
        w.press(&press(Button::DpadUp));
    }
    w.follow_selection(9);
    assert_eq!(w.scroll_offset(), 1);
    w.press(&press(Button::DpadUp));
    w.press(&press(Button::DpadUp));
    w.follow_selection(9);
    assert_eq!(w.scroll_offset(), 0);
}

#[test]
fn launcher_stack_and_overlay() {
    let mut l = LauncherApp::new();
    assert_eq!(l.depth(), 1);
    assert!(matches!(l.current_id(), ScreenId::Home));
    assert!(!l.apply(ScreenAction::Pop));
    assert_eq!(l.depth(), 1);
    assert!(!l.apply(ScreenAction::Push(ScreenId::Store)));
    assert!(!l.apply(ScreenAction::Push(ScreenId::Detail(3))));
    assert!(matches!(l.current_id(), ScreenId::Detail(3)));
    assert!(matches!(l.current(), ScreenState::Detail(_)));
    assert!(!l.apply(ScreenAction::Pop));
    assert!(matches!(l.current_id(), ScreenId::Store));
    assert!(!l.apply(ScreenAction::ShowOverlay));
    assert!(l.overlay_active());
    assert_eq!(l.overlay_input(&[press(Button::DpadDown)]), OverlayResult::Active);
    assert!(l.overlay_active());
    assert_eq!(l.overlay_input(&[press(Button::B)]), OverlayResult::Dismiss);
    assert!(!l.overlay_active());
    assert!(l.pending_launch().is_none());
    assert!(l.apply(ScreenAction::LaunchApp("dev.cartridge.notes".into())));
    assert_eq!(l.pending_launch(), Some("dev.cartridge.notes"));
    assert!(l.apply(ScreenAction::Quit));
}

#[test]
fn installed_list_helpers() {
    let reg = Registry {
        version: 1,
        apps: vec![app("a.one", "r"), app("a.two", "r"), app("a.three", "r")],
    };
    let mut inst = installed(&["a.three", "x.gone", "a.one"]);
    assert_eq!(installed_apps(&reg, &inst), vec![0, 2]);
    merge_installed(&mut inst, &vec!["a.one".to_string(), "b.new".to_string(), "b.new".to_string()]);
    assert_eq!(inst.app_ids, vec!["a.three", "x.gone", "a.one", "b.new"]);
    assert!(adopt_bundled(&mut inst, &reg, "a.two"));
    assert!(!adopt_bundled(&mut inst, &reg, "a.two"));
    assert!(!adopt_bundled(&mut inst, &reg, "not.listed"));
    assert_eq!(installed_apps(&reg, &inst), vec![0, 1, 2]);
}

#[test]
fn stale_registry_url_is_replaced() {
    assert!(str_contains("https://cartridge.dev/registry.json", "cartridge.dev"));
    assert!(!str_contains("cartridge.de", "cartridge.dev"));
    assert!(str_contains("abc", ""));
    let mut s = LauncherSettings::default();
    s.registry_url = "https://registry.cartridge.dev/v1".into();
    s.cache_duration_mins = 15;
    assert!(migrate_settings(&mut s));
    assert_eq!(s.registry_url, LauncherSettings::default().registry_url);
    assert_eq!(s.cache_duration_mins, 15);
    assert!(!migrate_settings(&mut s));
}

#[test]
fn settings_display_rows() {
    let mut s = SettingsScreen::new();
    let mut st = LauncherSettings::default();
    assert_eq!(st.theme_id, "midnight");
    assert!(st.show_processes && st.animations_enabled && st.sounds_enabled);
    let mut lv = DeviceLevels { brightness: 50, volume: 50 };
    let down = press(Button::DpadDown);
    let (_, changed) = s.handle_input(&[down, down, down, press(Button::A)], &mut st, &mut lv);
    assert!(changed);
    assert!(!st.show_processes);
    s.handle_input(&[down, press(Button::DpadRight)], &mut st, &mut lv);
    assert_eq!(st.theme_id, "amber");
    s.handle_input(&[press(Button::DpadLeft), press(Button::DpadLeft)], &mut st, &mut lv);
    assert_eq!(st.theme_id, "matrix");
    s.handle_input(&[down, press(Button::A), down, press(Button::DpadLeft)], &mut st, &mut lv);
    assert!(!st.animations_enabled);
    assert!(!st.sounds_enabled);
    // The About row changes nothing.
    for _ in 0..5 {
        s.handle_input(&[down], &mut st, &mut lv);
    }
    assert_eq!(s.selected_row(), 10);
    let (a, changed) = s.handle_input(&[press(Button::A)], &mut st, &mut lv);
    assert!(matches!(a, ScreenAction::Stay));
    assert!(!changed);
}

#[test]
fn home_commands_launch_and_remove() {
    let reg = Registry {
        version: 1,
        apps: vec![app("a.one", "r"), app("a.two", "r"), app("a.three", "r")],
    };
    let mut inst = installed(&["a.three", "a.one"]);
    let mut recents: Vec<RecentEntry> = vec![RecentEntry { app_id: "a.two".into(), name: "Two".into(), timestamp_secs: 1 }];
    // Dock position 1 is the second installed app in registry order.
    match home_command(HomeCommand::LaunchInstalled(1), &reg, &inst, &mut recents, 50) {
        HomeOutcome::Leave(ScreenAction::LaunchApp(id)) => assert_eq!(id, "a.three"),
        _ => panic!("expected a launch"),
    }
    assert_eq!(recents[0].app_id, "a.three");
    assert_eq!(recents[0].timestamp_secs, 50);
    assert!(matches!(home_command(HomeCommand::LaunchInstalled(2), &reg, &inst, &mut recents, 50), HomeOutcome::Continue));
    // A recent app that is no longer installed does not launch.
    assert!(matches!(home_command(HomeCommand::LaunchRecent(1), &reg, &inst, &mut recents, 60), HomeOutcome::Continue));
    assert!(matches!(home_command(HomeCommand::LaunchRecent(0), &reg, &inst, &mut recents, 60), HomeOutcome::Leave(_)));
    assert!(matches!(home_command(HomeCommand::OpenStore, &reg, &inst, &mut recents, 60), HomeOutcome::Leave(ScreenAction::Push(ScreenId::Store))));
    let mut h = HomeScreen::new();
    h.press(Button::DpadRight, 2, 2);
    match home_command(HomeCommand::RemoveInstalled(1), &reg, &inst, &mut recents, 60) {
        HomeOutcome::Remove(id) => {
            h.finish_remove(&id, &reg, &mut inst);
            assert_eq!(id, "a.three");
        }
        _ => panic!("expected a removal"),
    }
    assert!(!inst.is_installed("a.three"));
    // The focus moved back onto the one app left.
    assert_eq!(h.press(Button::A, 1, 2), HomeCommand::LaunchInstalled(0));
}

#[test]
fn home_and_detail_batches() {
    let reg = Registry { version: 1, apps: vec![app("a.one", "r"), app("a.two", "")] };
    let inst = installed(&["a.one"]);
    let mut recents: Vec<RecentEntry> = vec![];
    let rel = InputEvent { button: Button::A, action: InputAction::Release };
    let mut h = HomeScreen::new();
    // Releases are skipped; Right on a dock of one stays; A launches.
    let evs = [rel, press(Button::DpadRight), press(Button::A), press(Button::B)];
    assert_eq!(h.handle_input(&evs, 0, 1, 0, &reg, &inst, &recents), Some((HomeCommand::LaunchInstalled(0), 3)));
    // Commands that do nothing do not stop the batch.
    let evs = [press(Button::X), press(Button::DpadDown), press(Button::Y)];
    let empty = installed(&[]);
    assert_eq!(h.handle_input(&evs, 0, 0, 0, &reg, &empty, &recents), Some((HomeCommand::OpenStore, 3)));
    assert_eq!(h.handle_input(&[rel], 0, 0, 0, &reg, &empty, &recents), None);

    let mut d = DetailScreen::new(1);
    let bundled = &reg.apps[1];
    let evs = [rel, press(Button::A), press(Button::DpadDown), press(Button::A), press(Button::X), press(Button::B)];
    // A on info does nothing; A on the action of a bundled app shows an error and goes on; B leaves.
    match d.handle_input(&evs, 0, Some(bundled), &inst, &mut recents, 9) {
        Some((DetailCommand::Leave(ScreenAction::Pop), 6)) => {}
        _ => panic!("expected to leave"),
    }
    assert_eq!(d.status(), Some(("This app is bundled and cannot be installed separately", true)));
    let one = &reg.apps[0];
    match d.handle_input(&[press(Button::A), press(Button::B)], 0, Some(one), &inst, &mut recents, 9) {
        Some((DetailCommand::Leave(ScreenAction::LaunchApp(id)), 1)) => assert_eq!(id, "a.one"),
        _ => panic!("expected a launch"),
    }
    assert_eq!(recents.len(), 1);
    assert!(d.handle_input(&[press(Button::DpadUp)], 0, Some(one), &inst, &mut recents, 9).is_none());
    assert_eq!(d.status_shown_at(4_999_999_999), Some(("This app is bundled and cannot be installed separately", true)));
    assert_eq!(d.status_shown_at(5_000_000_000), None);
}

#[test]
fn wifi_message_expires() {
    let mut w = WifiScreen::new();
    w.set_message("Scanning...");
    w.expire_message_after(3_000_000_000);
    assert_eq!(w.message(), Some("Scanning..."));
    w.expire_message();
    assert_eq!(w.message(), Some("Scanning..."));
    w.expire_message_after(3_000_000_001);
    assert_eq!(w.message(), None);
}
