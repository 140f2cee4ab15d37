use cartridge::confirm_dialog::{ConfirmDialog, DialogResult};
use cartridge::detail_view::DetailView;
use cartridge::grid_view::{GridItem, GridLayout, GridView};
use cartridge::frame_loop::{had_input, target_fps, ui_sound, ScriptPlayer, UiSound};
use cartridge::input::{Button, InputAction, InputEvent};
use cartridge::input::{HatState, InputManager, Key, PadAxis, PadButton, RawEvent};
use cartridge::list_view::{window_start, ListItem, ListView};
use cartridge::text_input::{TextInput, TextInputResult};
use cartridge::widgets::{aligned_x, Align, Tab, TabBar, WifiStatus};

fn press(b: Button) -> InputEvent {
    InputEvent { button: b, action: InputAction::Press }
}

fn release(b: Button) -> InputEvent {
    InputEvent { button: b, action: InputAction::Release }
}

fn items(n: usize) -> Vec<ListItem> {
    (0..n).map(|i| ListItem::new(&format!("id{i}"), &format!("Item {i}"))).collect()
}

#[test]
fn list_item_builders_set_fields() {
    let it = ListItem::new("a", "Alpha").with_secondary("sec").with_right("R").with_tag(7);
    assert_eq!(it.id, "a");
    assert_eq!(it.primary_text, "Alpha");
    assert_eq!(it.secondary_text, "sec");
    assert_eq!(it.right_text, "R");
    assert_eq!(it.tag, 7);
}

#[test]
fn list_view_moves_and_clamps() {
    let mut lv = ListView::default_height(items(3));
    assert_eq!(lv.item_height, 48);
    assert!(lv.handle_input(&press(Button::DpadUp)));
    assert_eq!(lv.cursor, 0);
    assert!(lv.handle_input(&press(Button::DpadDown)));
    assert!(lv.handle_input(&press(Button::DpadDown)));
    assert!(lv.handle_input(&press(Button::DpadDown)));
    assert_eq!(lv.cursor, 2);
    assert!(!lv.handle_input(&release(Button::DpadUp)));
    assert_eq!(lv.cursor, 2);
    assert!(!lv.handle_input(&press(Button::X)));
    assert_eq!(lv.focused_item().unwrap().id, "id2");
}

#[test]
fn list_view_pages_by_visible_rows() {
    let mut lv = ListView::compact(items(30));
    assert_eq!(lv.item_height, 32);
    // Default page is ten rows until a layout says otherwise.
    lv.handle_input(&press(Button::R1));
    assert_eq!(lv.cursor, 10);
    // 100px / 32px = 3 rows fit.
    let range = lv.layout(100);
    assert_eq!(range, (9, 12));
    lv.handle_input(&press(Button::R1));
    assert_eq!(lv.cursor, 13);
    lv.handle_input(&press(Button::L1));
    lv.handle_input(&press(Button::L1));
    lv.handle_input(&press(Button::L1));
    lv.handle_input(&press(Button::L1));
    lv.handle_input(&press(Button::L1));
    assert_eq!(lv.cursor, 0);
    for _ in 0..20 {
        lv.handle_input(&press(Button::R1));
    }
    assert_eq!(lv.cursor, 29);
}

#[test]
fn empty_list_consumes_nothing() {
    let mut lv = ListView::new(Vec::new(), 48);
    assert!(!lv.handle_input(&press(Button::DpadDown)));
    assert!(lv.focused_item().is_none());
    assert!(!lv.is_select_event(&press(Button::A)));
    assert_eq!(lv.layout(480), (0, 0));
}

#[test]
fn list_layout_clamps_cursor_and_windows() {
    let mut lv = ListView::new(items(5), 10);
    lv.cursor = 99;
    assert_eq!(lv.layout(30), (2, 5));
    assert_eq!(lv.cursor, 4);
    // Negative height still shows one row.
    let mut lv2 = ListView::new(items(5), 10);
    assert_eq!(lv2.layout(-7), (0, 1));
    assert!(lv2.is_select_event(&press(Button::A)));
    assert!(!lv2.is_select_event(&InputEvent { button: Button::A, action: InputAction::Repeat }));
}

#[test]
fn window_start_keeps_row_above_cursor() {
    assert_eq!(window_start(0, 3, 5), 0);
    assert_eq!(window_start(5, 20, 4), 4);
    assert_eq!(window_start(19, 20, 4), 16);
    assert_eq!(window_start(0, 20, 4), 0);
}

#[test]
fn grid_moves_in_two_dimensions() {
    let its: Vec<GridItem> = (0..12).map(|i| GridItem::new(&format!("g{i}"), "L")).collect();
    let mut g = GridView::new(its).with_cell_size(100, 80);
    assert_eq!(g.cell_width, 100);
    assert_eq!(g.cell_height, 80);
    // Five columns by default: 12 items -> 3 rows.
    assert!(g.handle_input(&press(Button::DpadRight)));
    assert_eq!(g.cursor, 1);
    g.handle_input(&press(Button::DpadDown));
    assert_eq!(g.cursor, 6);
    g.handle_input(&press(Button::DpadDown));
    assert_eq!(g.cursor, 11);
    g.handle_input(&press(Button::DpadDown));
    assert_eq!(g.cursor, 11);
    g.handle_input(&press(Button::DpadRight));
    assert_eq!(g.cursor, 11);
    g.handle_input(&press(Button::DpadUp));
    assert_eq!(g.cursor, 6);
    g.handle_input(&press(Button::DpadLeft));
    g.handle_input(&press(Button::DpadLeft));
    assert_eq!(g.cursor, 5);
    g.handle_input(&press(Button::L1));
    assert_eq!(g.cursor, 0);
    g.handle_input(&press(Button::R1));
    assert_eq!(g.cursor, 11);
    assert!(!g.handle_input(&release(Button::DpadLeft)));
    assert!(!g.handle_input(&press(Button::A)));
    assert!(g.is_select_event(&press(Button::A)));
    assert_eq!(g.focused_item().unwrap().id, "g11");
}

#[test]
fn grid_item_builders() {
    let g = GridItem::new("x", "Label").with_secondary("sub").with_tag(-3);
    assert_eq!(g.label, "Label");
    assert_eq!(g.secondary, "sub");
    assert_eq!(g.tag, -3);
}

#[test]
fn confirm_dialog_flow() {
    let mut d = ConfirmDialog::new("Delete?", "Really").with_labels("No", "Yes").with_destructive(true);
    assert_eq!(d.cancel_label, "No");
    assert_eq!(d.confirm_label, "Yes");
    assert!(d.destructive);
    assert!(!d.visible);
    // Hidden dialogs ignore input.
    assert_eq!(d.handle_input(&press(Button::A)), DialogResult::Pending);
    d.show();
    assert!(d.visible);
    assert_eq!(d.handle_input(&press(Button::DpadRight)), DialogResult::Pending);
    assert_eq!(d.handle_input(&release(Button::A)), DialogResult::Pending);
    assert_eq!(d.handle_input(&press(Button::A)), DialogResult::Confirmed);
    assert!(!d.visible);
    // Decided dialogs keep their answer.
    assert_eq!(d.handle_input(&press(Button::B)), DialogResult::Confirmed);
    d.show();
    assert_eq!(d.focused_button, 0);
    assert_eq!(d.handle_input(&press(Button::A)), DialogResult::Cancelled);
    d.show();
    d.handle_input(&press(Button::DpadRight));
    assert_eq!(d.handle_input(&press(Button::B)), DialogResult::Cancelled);
}

#[test]
fn text_input_types_deletes_and_submits() {
    let mut t = TextInput::new("SSID");
    assert_eq!(t.handle_input(&press(Button::A)), TextInputResult::Pending);
    assert_eq!(t.text, "");
    t.show("Password");
    assert_eq!(t.label, "Password");
    // Focus starts on row 1, col 0: 'q'.
    t.handle_input(&press(Button::A));
    t.handle_input(&press(Button::DpadRight));
    t.handle_input(&press(Button::A));
    assert_eq!(t.text, "qw");
    t.handle_input(&press(Button::X));
    t.handle_input(&press(Button::A));
    assert_eq!(t.text, "qwW");
    t.handle_input(&press(Button::Y));
    assert_eq!(t.text, "qwW ");
    t.handle_input(&press(Button::L1));
    t.handle_input(&press(Button::L1));
    t.handle_input(&press(Button::B));
    assert_eq!(t.text, "qW ");
    assert_eq!(t.cursor_pos, 1);
    t.handle_input(&press(Button::DpadUp));
    t.handle_input(&press(Button::A));
    assert_eq!(t.text, "q#W ");
    t.handle_input(&press(Button::R1));
    t.handle_input(&press(Button::R1));
    t.handle_input(&press(Button::R1));
    t.handle_input(&press(Button::R1));
    assert_eq!(t.cursor_pos, 4);
    assert_eq!(
        t.handle_input(&press(Button::Start)),
        TextInputResult::Submitted("q#W ".to_string())
    );
    assert!(!t.visible);
}

#[test]
fn text_input_caps_length_and_cancels() {
    let mut t = TextInput::new("x");
    t.show("x");
    for _ in 0..70 {
        t.handle_input(&press(Button::Y));
    }
    assert_eq!(t.text.len(), 64);
    t.show("x");
    assert_eq!(t.handle_input(&press(Button::B)), TextInputResult::Cancelled);
    t.show("x");
    assert_eq!(t.handle_input(&press(Button::Select)), TextInputResult::Cancelled);
}

#[test]
fn detail_view_scrolls() {
    let mut v = DetailView::new("T", "B");
    assert!(v.handle_input(&press(Button::DpadUp)));
    assert!(v.handle_input(&press(Button::R1)));
    assert!(v.handle_input(&press(Button::DpadDown)));
    assert!(!v.handle_input(&press(Button::A)));
    assert!(!v.handle_input(&release(Button::DpadDown)));
    // 11 lines down; with 20 lines of which 15 fit, scroll stops at 5.
    assert!(v.begin_layout(300));
    assert!(!v.begin_layout(300));
    assert_eq!(v.clamp_scroll(20, 15), (5, 20));
    v.set_content("New", "Body");
    assert_eq!(v.title, "New");
    assert!(v.begin_layout(300));
    assert_eq!(v.clamp_scroll(3, 10), (0, 3));
}

#[test]
fn tabs_switch_with_shoulders() {
    let mut bar = TabBar::new(vec![Tab::new("One", "1"), Tab::new("Two", "2")]);
    assert!(!bar.handle_input(&press(Button::L1)));
    assert!(bar.handle_input(&press(Button::R1)));
    assert!(!bar.handle_input(&press(Button::R1)));
    assert_eq!(bar.active_tab().unwrap().id, "2");
    assert!(!bar.handle_input(&release(Button::L1)));
    assert!(bar.handle_input(&press(Button::L1)));
    assert_eq!(bar.active_index, 0);
}

#[test]
fn aligned_x_positions() {
    assert_eq!(aligned_x(10, 100, 40, Align::Left), 10);
    assert_eq!(aligned_x(10, 100, 40, Align::Right), 66);
    assert_eq!(aligned_x(10, 100, 40, Align::Center), 40);
    assert_eq!(aligned_x(10, 10, 15, Align::Center), 8);
}

#[test]
fn wifi_status_default_is_unknown() {
    let w = WifiStatus::default();
    assert!(!w.connected);
    assert_eq!(w.signal_strength, -1);
}

#[test]
fn raw_events_become_presses_and_repeats() {
    let mut m = InputManager::new();
    let r = m.process_events_at(
        &[
            RawEvent::KeyDown { key: Key::Z, repeat: false },
            RawEvent::KeyDown { key: Key::Other, repeat: false },
            RawEvent::KeyDown { key: Key::X, repeat: true },
            RawEvent::JoyButtonDown { button_idx: 13 },
        ],
        1_000,
    );
    assert_eq!(
        r,
        vec![
            InputEvent { button: Button::A, action: InputAction::Press },
            InputEvent { button: Button::Start, action: InputAction::Press },
        ]
    );
    assert_eq!(m.held().len(), 2);
    // Not yet due.
    assert!(m.process_events_at(&[], 400_000_999).is_empty());
    // Held for the delay and the interval: both repeat, once.
    let r = m.process_events_at(&[], 400_001_000);
    assert_eq!(r.len(), 2);
    assert!(r.iter().all(|e| e.action == InputAction::Repeat));
    assert!(m.process_events_at(&[], 420_000_000).is_empty());
    assert_eq!(m.process_events_at(&[], 480_001_000).len(), 2);
    // Releases.
    let r = m.process_events_at(&[RawEvent::KeyUp { key: Key::Z }, RawEvent::JoyButtonUp { button_idx: 13 }], 500_000_000);
    assert_eq!(r[0], InputEvent { button: Button::A, action: InputAction::Release });
    assert_eq!(r[1], InputEvent { button: Button::Start, action: InputAction::Release });
    assert!(m.held().is_empty());
    // Hat and stick positions press and release the d-pad.
    let r = m.process_events_at(&[RawEvent::JoyHatMotion { state: HatState::LeftUp }], 0);
    assert_eq!(r.len(), 2);
    assert_eq!(r[0].button, Button::DpadUp);
    assert_eq!(r[1].button, Button::DpadLeft);
    let r = m.process_events_at(&[RawEvent::JoyHatMotion { state: HatState::Up }], 0);
    assert_eq!(r, vec![InputEvent { button: Button::DpadLeft, action: InputAction::Release }]);
    let r = m.process_events_at(&[RawEvent::ControllerAxisMotion { axis: PadAxis::LeftY, value: 20_000 }], 0);
    assert_eq!(r, vec![
        InputEvent { button: Button::DpadUp, action: InputAction::Release },
        InputEvent { button: Button::DpadDown, action: InputAction::Press },
    ]);
    let r = m.process_events_at(&[RawEvent::ControllerAxisMotion { axis: PadAxis::LeftY, value: 16_000 }], 0);
    assert_eq!(r, vec![InputEvent { button: Button::DpadDown, action: InputAction::Release }]);
    let r = m.process_events_at(&[RawEvent::ControllerAxisMotion { axis: PadAxis::TriggerRight, value: 8_001 }], 0);
    assert_eq!(r, vec![InputEvent { button: Button::R2, action: InputAction::Press }]);
    let r = m.process_events_at(&[RawEvent::ControllerButtonDown { button: PadButton::Back }], 0);
    assert_eq!(r, vec![InputEvent { button: Button::Select, action: InputAction::Press }]);
    assert!(m.process_events_at(&[RawEvent::ControllerButtonDown { button: PadButton::Other }], 0).is_empty());
    assert!(m.process_events(&[RawEvent::Other]).len() <= 2);
}

#[test]
fn script_names() {
    assert_eq!(cartridge::input::button_to_str(Button::DpadLeft), "dpad_left");
    assert_eq!(cartridge::input::button_to_str(Button::Select), "select");
    assert_eq!(cartridge::input::action_to_str(InputAction::Repeat), "repeat");
    assert_eq!(cartridge::launcher::lua_module_file("ui.list"), "ui/list.lua");
    assert_eq!(cartridge::launcher::lua_module_file("main"), "main.lua");
}

#[test]
fn grid_layout_fits_columns_and_rows() {
    let its: Vec<GridItem> = (0..7).map(|i| GridItem::new(&format!("g{i}"), "L")).collect();
    let mut g = GridView::new(its);
    assert_eq!(
        g.layout(720, 400),
        Some(GridLayout { columns: 5, visible_rows: 3, total_rows: 2, x_offset: 44 })
    );
    // A narrow rectangle still has one column.
    assert_eq!(g.layout(50, 50).map(|l| (l.columns, l.visible_rows, l.total_rows)), Some((1, 1, 7)));
    let mut empty = GridView::new(Vec::new());
    assert_eq!(empty.layout(720, 400), None);
}

fn wrap_with(text: &str, max: i32) -> Vec<String> {
    let mut w = cartridge::wrap::WordWrap::new(text, max);
    while let Some(t) = w.request() {
        w.feed(t.chars().count() as i32 * 10);
    }
    assert!(w.is_done());
    w.lines().clone()
}

fn fit_with(text: &str, max_w: u32, max_lines: usize) -> Vec<String> {
    let mut f = cartridge::wrap::LineFit::new(text, max_w, max_lines);
    while let Some(t) = f.request() {
        f.feed(t.chars().count() as u32 * 10);
    }
    assert!(f.is_done());
    f.lines().clone()
}

#[test]
fn word_wrap_breaks_lines_and_long_words() {
    assert_eq!(wrap_with("hello world foo", 110), vec!["hello world", "foo"]);
    assert_eq!(wrap_with("abcdefghijklmnop", 50), vec!["abcde", "fghij", "klmno", "p"]);
    assert_eq!(wrap_with("", 50), vec![""]);
    assert_eq!(wrap_with(" ", 50), vec![""]);
    assert_eq!(wrap_with("a bb", 10), vec!["a", "b", "b"]);
}

#[test]
fn line_fit_marks_continuation() {
    assert_eq!(fit_with("one two three four", 80, 2), vec!["one two", "three.."]);
    assert_eq!(fit_with("one two three four", 50, 2), vec!["one", "two.."]);
    assert_eq!(fit_with("abcdef x", 40, 1), vec!["ab.."]);
    assert_eq!(fit_with("one two", 80, 3), vec!["one two"]);
    assert!(fit_with("   ", 80, 3).is_empty());
}

#[test]
fn body_paragraph_styles() {
    let ps = cartridge::detail_view::body_paragraphs("Intro\n  \n~note~\n~~\nend");
    let got: Vec<(&str, cartridge::detail_view::LineStyle)> = ps.iter().map(|(t, s)| (t.as_str(), *s)).collect();
    let normal = cartridge::detail_view::LineStyle::Normal;
    let dim = cartridge::detail_view::LineStyle::Dim;
    assert_eq!(got, vec![("Intro", normal), ("", normal), ("note", dim), ("~~", normal), ("end", normal)]);
}

#[test]
fn keyboard_controls() {
    let cases = [
        (Key::Up, Button::DpadUp),
        (Key::Down, Button::DpadDown),
        (Key::Left, Button::DpadLeft),
        (Key::Right, Button::DpadRight),
        (Key::Z, Button::A),
        (Key::X, Button::B),
        (Key::C, Button::X),
        (Key::V, Button::Y),
        (Key::A, Button::L1),
        (Key::S, Button::R1),
        (Key::Q, Button::L2),
        (Key::W, Button::R2),
        (Key::Return, Button::Start),
        (Key::Space, Button::Select),
    ];
    for (k, b) in cases {
        assert_eq!(cartridge::input::map_key(k), Some(b));
    }
    assert_eq!(cartridge::input::map_key(Key::Other), None);
    assert_eq!(cartridge::input::map_joy_button(1), Some(Button::A));
    assert_eq!(cartridge::input::map_joy_button(0), Some(Button::B));
    assert_eq!(cartridge::input::map_joy_button(14), None);
}

#[test]
fn table_navigation() {
    let rows: Vec<Vec<String>> = vec![vec!["a".into(), "1".into()], vec!["b".into(), "2".into()]];
    let mut t: cartridge::table::Table<&str, u8> = cartridge::table::Table::new(vec!["Name", "Value"], rows);
    assert_eq!(t.color_fns, vec![None, None]);
    t.set_color_fn(1, 7);
    t.set_color_fn(5, 9);
    assert_eq!(t.color_fns, vec![None, Some(7)]);
    assert_eq!(t.focused_row().map(|r| r[0].as_str()), Some("a"));
    assert!(t.handle_input(&press(Button::DpadDown)));
    assert!(t.handle_input(&press(Button::DpadDown)));
    assert_eq!(t.cursor, 1);
    assert!(t.is_select_event(&press(Button::A)));
    assert!(!t.handle_input(&press(Button::A)));
    assert!(t.handle_input(&press(Button::DpadUp)));
    assert_eq!(t.cursor, 0);
    let rel = InputEvent { button: Button::DpadDown, action: InputAction::Release };
    assert!(!t.handle_input(&rel));
    let mut empty: cartridge::table::Table<&str, u8> = cartridge::table::Table::new(vec![], vec![]);
    assert!(!empty.handle_input(&press(Button::DpadDown)));
    assert!(!empty.is_select_event(&press(Button::A)));
    assert!(empty.focused_row().is_none());
}

#[test]
fn capped_queue_drops_oldest() {
    let mut q: Vec<u32> = vec![];
    for i in 0..5 {
        cartridge::widgets::push_capped(&mut q, i, 3);
    }
    assert_eq!(q, vec![2, 3, 4]);
    let mut none: Vec<u32> = vec![];
    cartridge::widgets::push_capped(&mut none, 1, 0);
    assert!(none.is_empty());
}

#[test]
fn frame_loop_decisions() {
    assert_eq!(target_fps(0, false), 30);
    assert_eq!(target_fps(3000, true), 30);
    assert_eq!(target_fps(3001, false), 5);
    assert_eq!(target_fps(3001, true), 18);
    let rel = InputEvent { button: Button::A, action: InputAction::Release };
    let rep = InputEvent { button: Button::A, action: InputAction::Repeat };
    assert!(!had_input(&[rel]));
    assert!(had_input(&[rel, rep]));
    assert_eq!(ui_sound(press(Button::DpadLeft)), Some(UiSound::Click));
    assert_eq!(ui_sound(press(Button::B)), Some(UiSound::Back));
    assert_eq!(ui_sound(rep), None);
    assert_eq!(ui_sound(press(Button::Start)), None);
    let script = vec![
        cartridge::launcher::ScriptStep { buttons: vec![Button::DpadDown, Button::A], frames_after: 2 },
        cartridge::launcher::ScriptStep { buttons: vec![Button::B], frames_after: 0 },
    ];
    let mut p = ScriptPlayer::new();
    let mut frames: Vec<Vec<InputEvent>> = vec![];
    for _ in 0..6 {
        let mut ev = vec![];
        p.next_frame(&script, &mut ev);
        frames.push(ev);
    }
    assert_eq!(frames[0].len(), 4);
    assert_eq!(frames[0][0], press(Button::DpadDown));
    assert_eq!(frames[0][1], InputEvent { button: Button::DpadDown, action: InputAction::Release });
    assert!(frames[1].is_empty() && frames[2].is_empty());
    assert_eq!(frames[3], vec![press(Button::B), InputEvent { button: Button::B, action: InputAction::Release }]);
    assert!(frames[4].is_empty() && frames[5].is_empty());
    let v = cartridge::launcher::name_variants("dev.cartridge.notes");
    assert_eq!(v, vec!["dev.cartridge.notes".to_string(), "notes".to_string()]);
}

#[test]
fn event_wait_rounds_up() {
    assert_eq!(cartridge::frame_loop::wait_ms(0), 0);
    assert_eq!(cartridge::frame_loop::wait_ms(1), 1);
    assert_eq!(cartridge::frame_loop::wait_ms(2_000_000), 2);
    assert_eq!(cartridge::frame_loop::wait_ms(2_000_001), 3);
    assert_eq!(cartridge::frame_loop::wait_ms(u128::MAX), i32::MAX as u32);
}

#[test]
fn text_input_display_and_echo() {
    let mut t = TextInput::new("Password");
    t.masked = true;
    t.show("Password");
    assert_eq!(t.last_typed(), None);
    t.handle_input(&press(Button::A));
    t.handle_input(&press(Button::DpadRight));
    t.handle_input(&press(Button::A));
    assert_eq!(t.text(), "qw");
    assert_eq!(t.display_text(), "**");
    assert_eq!(t.echo_at(599), Some('*'));
    assert_eq!(t.echo_at(600), None);
    t.masked = false;
    assert_eq!(t.display_text(), "qw");
    assert_eq!(t.echo_at(10), Some('w'));
    assert!(TextInput::cursor_visible_at(499));
    assert!(!TextInput::cursor_visible_at(500));
    assert!(TextInput::cursor_visible_at(1000));
}
