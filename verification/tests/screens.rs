use cartridge::boot::{
    initial_selection, record_boot, selector_frame, BootChoice, BootState, SelectorState,
};
use cartridge::input::{Button, InputAction, InputEvent};
use cartridge::launcher::{app_short_name, home_dir_from};
use cartridge::neo::{Cap, Hint};
use cartridge::overlay::{BootOverlay, OverlayResult};
use cartridge::screens::{
    cycle_cache_duration, filtered_indices, step_level, DetailScreen, HomeCommand, HomeScreen,
    ScreenAction, ScreenId, SettingsScreen, StoreScreen,
};
use cartridge::theme::{cycle_theme, theme_display_name};
use cartridge::screens::category_color;
use cartridge::widgets::Rgba;

fn press(b: Button) -> InputEvent {
    InputEvent { button: b, action: InputAction::Press }
}

#[test]
fn overlay_requires_confirmation_for_shutdown() {
    let mut o = BootOverlay::new();
    assert_eq!(o.handle_input(&[press(Button::A)]), OverlayResult::StayCartridge);
    let mut o = BootOverlay::new();
    assert_eq!(o.handle_input(&[press(Button::DpadUp), press(Button::A)]), OverlayResult::SwitchToES);
    let mut o = BootOverlay::default();
    let evs = [press(Button::DpadDown), press(Button::DpadDown), press(Button::DpadDown)];
    assert_eq!(o.handle_input(&evs), OverlayResult::Active);
    assert_eq!(o.handle_input(&[press(Button::A)]), OverlayResult::Active);
    // "No" is the default answer.
    assert_eq!(o.handle_input(&[press(Button::A)]), OverlayResult::Active);
    // Choosing the item again opens the question and ends the batch.
    assert_eq!(o.handle_input(&[press(Button::A), press(Button::B)]), OverlayResult::Active);
    assert_eq!(o.handle_input(&[press(Button::DpadRight), press(Button::A)]), OverlayResult::Shutdown);
    let mut o = BootOverlay::new();
    assert_eq!(o.handle_input(&[press(Button::DpadDown), press(Button::A)]), OverlayResult::Active);
    assert_eq!(o.handle_input(&[press(Button::DpadLeft), press(Button::A)]), OverlayResult::Reboot);
    let mut o = BootOverlay::new();
    let rel = InputEvent { button: Button::A, action: InputAction::Release };
    assert_eq!(o.handle_input(&[rel]), OverlayResult::Active);
    assert_eq!(o.handle_input(&[press(Button::B)]), OverlayResult::Dismiss);
}

#[test]
fn boot_choice_keys_round_trip() {
    for c in [BootChoice::Cartridge, BootChoice::EmulationStation] {
        assert_eq!(BootChoice::from_key(c.key()), c);
    }
    assert_eq!(BootChoice::from_key("whatever"), BootChoice::Cartridge);
    assert_eq!(BootChoice::EmulationStation.exit_code(), 1);
    assert_eq!(BootChoice::Cartridge.label(), "Cartridge OS");
    assert_eq!(BootChoice::EmulationStation.description(), "Retro game emulation frontend");
}

#[test]
fn boot_selector_frames() {
    let last = BootChoice::EmulationStation;
    let mut st = SelectorState { selected: initial_selection(last), auto_boot_cancelled: false };
    assert_eq!(st.selected, 1);
    assert_eq!(selector_frame(&mut st, &[], last, 1000), None);
    assert_eq!(selector_frame(&mut st, &[], last, 5000), Some(BootChoice::EmulationStation));
    let mut st = SelectorState { selected: 1, auto_boot_cancelled: false };
    assert_eq!(selector_frame(&mut st, &[press(Button::DpadUp)], last, 0), None);
    assert!(st.auto_boot_cancelled);
    assert_eq!(selector_frame(&mut st, &[], last, 10_000), None);
    assert_eq!(selector_frame(&mut st, &[press(Button::Start)], last, 0), Some(BootChoice::Cartridge));
    assert_eq!(selector_frame(&mut st, &[press(Button::B)], last, 0), Some(last));
    let mut bs = BootState::default();
    record_boot(&mut bs, BootChoice::EmulationStation);
    assert_eq!(bs.last_choice, "emulationstation");
    assert_eq!(bs.boot_count, 1);
}

#[test]
fn home_navigation() {
    let mut h = HomeScreen::new();
    assert_eq!(h.press(Button::DpadRight, 3, 2), HomeCommand::Continue);
    assert_eq!(h.press(Button::R1, 3, 2), HomeCommand::Continue);
    assert_eq!(h.press(Button::A, 3, 2), HomeCommand::LaunchInstalled(2));
    assert_eq!(h.press(Button::X, 3, 2), HomeCommand::RemoveInstalled(2));
    h.after_remove(2);
    assert_eq!(h.press(Button::A, 2, 2), HomeCommand::LaunchInstalled(1));
    h.press(Button::DpadDown, 2, 2);
    h.press(Button::DpadRight, 2, 2);
    assert_eq!(h.press(Button::A, 2, 2), HomeCommand::LaunchRecent(1));
    h.press(Button::DpadUp, 2, 2);
    assert_eq!(h.press(Button::Y, 2, 2), HomeCommand::OpenStore);
    assert_eq!(h.press(Button::Start, 2, 2), HomeCommand::OpenSettings);
    let mut empty = HomeScreen::default();
    assert_eq!(empty.press(Button::A, 0, 0), HomeCommand::Continue);
    assert_eq!(empty.press(Button::DpadDown, 0, 0), HomeCommand::Continue);
    assert_eq!(empty.press(Button::Select, 0, 0), HomeCommand::ShowOverlay);
}

#[test]
fn store_filters_and_navigates() {
    let cats: Vec<String> = vec!["news".into(), "Tools".into(), "NEWS".into(), "Games".into()];
    assert_eq!(filtered_indices(&cats, 0), vec![0, 1, 2, 3]);
    assert_eq!(filtered_indices(&cats, 1), vec![0, 2]);
    assert_eq!(filtered_indices(&cats, 7), Vec::<usize>::new());
    let mut s = StoreScreen::new();
    let f = filtered_indices(&cats, 0);
    assert!(matches!(s.handle_input(&[press(Button::DpadDown), press(Button::DpadDown)], &f), ScreenAction::Stay));
    assert!(matches!(s.handle_input(&[press(Button::A)], &f), ScreenAction::Push(ScreenId::Detail(2))));
    assert!(matches!(s.handle_input(&[press(Button::R1)], &f), ScreenAction::Stay));
    assert_eq!(s.category_index(), 1);
    assert!(matches!(s.handle_input(&[press(Button::L1), press(Button::L1)], &f), ScreenAction::Stay));
    assert_eq!(s.category_index(), 7);
    assert!(matches!(s.handle_input(&[press(Button::B)], &f), ScreenAction::Pop));
    assert!(matches!(s.handle_input(&[press(Button::Start)], &f), ScreenAction::Push(ScreenId::Settings)));
}

#[test]
fn detail_and_settings_helpers() {
    let mut d = DetailScreen::new(4);
    assert_eq!(d.app_index(), 4);
    assert!(!d.action_focused());
    d.navigate(Button::DpadDown);
    assert!(d.action_focused());
    d.set_status("Installed successfully", false);
    let mut s = SettingsScreen::new();
    s.move_selection(Button::DpadUp);
    assert_eq!(s.selected_row(), 0);
    for _ in 0..20 {
        s.move_selection(Button::DpadDown);
    }
    assert_eq!(s.selected_row(), 10);
    assert_eq!(cycle_cache_duration(60, true), 120);
    assert_eq!(cycle_cache_duration(360, true), 15);
    assert_eq!(cycle_cache_duration(15, false), 360);
    assert_eq!(cycle_cache_duration(42, true), 30);
    assert_eq!(step_level(95, true), 100);
    assert_eq!(step_level(5, false), 0);
    assert_eq!(step_level(50, false), 40);
}

#[test]
fn themes_cycle() {
    assert_eq!(cycle_theme("midnight", true), "amber");
    assert_eq!(cycle_theme("matrix", true), "midnight");
    assert_eq!(cycle_theme("midnight", false), "matrix");
    assert_eq!(cycle_theme("bogus", true), "amber");
    assert_eq!(cycle_theme(&cycle_theme("amber", true), false), "amber");
    assert_eq!(theme_display_name("amber"), "Amber Terminal");
    assert_eq!(theme_display_name("nope"), "Unknown");
}

#[test]
fn names_and_hints() {
    assert_eq!(app_short_name("dev.cartridge.calculator"), "calculator");
    assert_eq!(app_short_name("plain"), "plain");
    assert_eq!(app_short_name("trailing."), "");
    let h = Hint::start("Settings");
    assert!(h.right);
    assert_eq!(h.label, "START");
    assert!(matches!(Hint::b("Back").kind, Cap::Red));
    assert!(!Hint::wide("L1/R1", "Page").right);
    assert_eq!(home_dir_from(Some("  /tmp/h  "), Some("/home/u")), "/tmp/h");
    assert_eq!(home_dir_from(Some("   "), Some("/home/u")), "/home/u");
    assert_eq!(home_dir_from(None, None), ".");
}

#[test]
fn category_colors() {
    assert_eq!(category_color("NEWS"), Rgba { r: 74, g: 158, b: 255, a: 255 });
    assert_eq!(category_color("Media"), Rgba { r: 236, g: 72, b: 153, a: 255 });
    assert_eq!(category_color("misc"), Rgba { r: 140, g: 140, b: 160, a: 255 });
}
