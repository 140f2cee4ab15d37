use cartridge::games::{Game, GameRequest, GameSystem, GamesLoad, GamesScreen, Loaded};
use cartridge::input::{Button, InputAction, InputEvent};
use cartridge::screens::ScreenAction;

fn press(b: Button) -> InputEvent {
    InputEvent { button: b, action: InputAction::Press }
}

fn system(id: &str) -> GameSystem {
    GameSystem { id: id.to_string(), name: id.to_uppercase(), theme: id.to_string() }
}

fn game(path: &str) -> Game {
    Game {
        path: path.to_string(),
        name: path.to_string(),
        image: None,
        favorite: false,
        description: String::new(),
        players: String::new(),
    }
}

fn is_systems(l: &Option<GamesLoad>) -> bool {
    matches!(l, Some(GamesLoad::Systems))
}

fn games_of(l: &Option<GamesLoad>) -> Option<String> {
    match l {
        Some(GamesLoad::Games(id)) => Some(id.clone()),
        _ => None,
    }
}

#[test]
fn games_screen_browses_and_launches() {
    let mut s = GamesScreen::new(None);
    assert!(s.is_loading());
    assert!(is_systems(&s.take_load()));
    assert!(s.take_load().is_none());
    // Input waits for the listing, but B still leaves.
    assert!(matches!(s.handle_input(&[press(Button::DpadDown)]), ScreenAction::Stay));
    assert_eq!(s.selected_system(), 0);
    s.update(Ok(Loaded::Systems(vec![system("nes"), system("snes"), system("gba")])));
    assert!(!s.is_loading());
    s.handle_input(&[press(Button::DpadDown), press(Button::DpadDown), press(Button::DpadDown)]);
    assert_eq!(s.selected_system(), 2);
    s.handle_input(&[press(Button::L1)]);
    assert_eq!(s.selected_system(), 0);
    s.handle_input(&[press(Button::R1)]);
    assert_eq!(s.selected_system(), 2);
    s.handle_input(&[press(Button::DpadUp), press(Button::A)]);
    assert!(s.in_system());
    assert_eq!(games_of(&s.take_load()), Some("snes".to_string()));
    let games: Vec<Game> = (0..20).map(|i| game(&format!("/roms/snes/{i}.sfc"))).collect();
    s.update(Ok(Loaded::Games(games)));
    s.handle_input(&[press(Button::R1), press(Button::DpadDown)]);
    assert_eq!(s.selected_game(), 9);
    match s.handle_input(&[press(Button::A)]) {
        ScreenAction::LaunchGame(r) => {
            assert_eq!(r.system, "snes");
            assert_eq!(r.path, "/roms/snes/9.sfc");
            assert!(r.error.is_none());
        }
        _ => panic!("expected a launch"),
    }
    // B leaves the system, then the screen.
    assert!(matches!(s.handle_input(&[press(Button::B)]), ScreenAction::Stay));
    assert!(!s.in_system());
    assert!(matches!(s.handle_input(&[press(Button::B)]), ScreenAction::Pop));
    assert!(matches!(s.handle_input(&[press(Button::Select)]), ScreenAction::ShowOverlay));
}

#[test]
fn games_screen_resumes_and_reports_errors() {
    let req = GameRequest {
        system: "gba".to_string(),
        path: "/roms/gba/b.gba".to_string(),
        error: Some("emulator failed".to_string()),
    };
    let mut s = GamesScreen::new(Some(req));
    assert_eq!(s.error().as_deref(), Some("emulator failed"));
    assert!(is_systems(&s.take_load()));
    s.update(Ok(Loaded::Systems(vec![system("nes"), system("gba")])));
    assert_eq!(s.selected_system(), 1);
    assert!(s.in_system());
    assert_eq!(games_of(&s.take_load()), Some("gba".to_string()));
    s.update(Ok(Loaded::Games(vec![game("/roms/gba/a.gba"), game("/roms/gba/b.gba")])));
    assert_eq!(s.selected_game(), 1);
    // Y clears the error and reads the system again.
    s.handle_input(&[press(Button::Y)]);
    assert!(s.error().is_none());
    assert_eq!(s.selected_game(), 0);
    assert_eq!(games_of(&s.take_load()), Some("gba".to_string()));
    s.update(Err("Library reader stopped unexpectedly".to_string()));
    assert_eq!(s.error().as_deref(), Some("Library reader stopped unexpectedly"));
    assert!(!s.is_loading());

    // A resumed system that is gone drops the resume.
    let req = GameRequest { system: "n64".to_string(), path: "x".to_string(), error: None };
    let mut s = GamesScreen::new(Some(req));
    s.update(Ok(Loaded::Systems(vec![system("nes")])));
    assert!(!s.in_system());
    // The listing already arrived: nothing is left to read.
    assert!(s.take_load().is_none());
    // An empty system cannot launch anything.
    s.handle_input(&[press(Button::A)]);
    s.update(Ok(Loaded::Games(vec![])));
    assert!(matches!(s.handle_input(&[press(Button::A), press(Button::DpadDown)]), ScreenAction::Stay));
    assert_eq!(s.selected_game(), 0);
}
