//! The launcher's screen stack, the system menu on top of it, and the
//! launch it ends with.

use vstd::prelude::*;

use crate::games::GameRequest;
use crate::input::InputEvent;
use crate::overlay::{BootOverlay, OverlayModel, OverlayResult};
use crate::screens::{
    DetailFocus, DetailScreen, HomeModel, HomeScreen, HomeZone, ScreenAction, ScreenId, SettingsScreen,
    StoreModel, StoreScreen,
};
use crate::wifi::WifiScreen;

verus! {

/// One screen of the stack with its state.
pub enum ScreenState {
    Home(HomeScreen),
    Store(StoreScreen),
    Detail(DetailScreen),
    Settings(SettingsScreen),
    WiFi(WifiScreen),
}

/// Which screen a state belongs to.
pub open spec fn screen_id(s: ScreenState) -> ScreenId {
    match s {
        ScreenState::Home(_) => ScreenId::Home,
        ScreenState::Store(_) => ScreenId::Store,
        ScreenState::Detail(d) => ScreenId::Detail(d@.app_index as usize),
        ScreenState::Settings(_) => ScreenId::Settings,
        ScreenState::WiFi(_) => ScreenId::WiFi,
    }
}

/// A screen as it is when first opened.
pub open spec fn is_fresh(s: ScreenState) -> bool {
    match s {
        ScreenState::Home(h) => h@ == (HomeModel { dock_index: 0, recent_index: 0, zone: HomeZone::Dock }),
        ScreenState::Store(st) => st@ == (StoreModel { category_index: 0, selected_index: 0, scroll_offset: 0 }),
        ScreenState::Detail(d) => d@.focus == DetailFocus::Info && d@.scroll_y == 0 && d@.status is None,
        ScreenState::Settings(x) => x@ == 0,
        ScreenState::WiFi(w) => w@.is_initial() && w@.wf(),
    }
}

/// A fresh screen for `id`.
pub fn create_screen(id: ScreenId) -> (s: ScreenState)
    ensures
        screen_id(s) == id,
        is_fresh(s),
{
    match id {
        ScreenId::Home => ScreenState::Home(HomeScreen::new()),
        ScreenId::Store => ScreenState::Store(StoreScreen::new()),
        ScreenId::Detail(idx) => ScreenState::Detail(DetailScreen::new(idx)),
        ScreenId::Settings => ScreenState::Settings(SettingsScreen::new()),
        ScreenId::WiFi => ScreenState::WiFi(WifiScreen::new()),
    }
}

/// The launcher: a stack of screens (never empty), the system menu when it
/// is open, and the app or game to start once the launcher closes.
pub struct LauncherApp {
    screen_stack: Vec<ScreenState>,
    overlay: Option<BootOverlay>,
    pending_launch: Option<String>,
    pending_game: Option<GameRequest>,
}

pub struct LauncherModel {
    pub stack: Seq<ScreenState>,
    pub overlay: Option<OverlayModel>,
    pub pending_launch: Option<Seq<char>>,
    pub pending_game: Option<GameRequest>,
}

impl View for LauncherApp {
    type V = LauncherModel;

    closed spec fn view(&self) -> LauncherModel {
        LauncherModel {
            stack: self.screen_stack@,
            overlay: match self.overlay {
                Some(o) => Some(o@),
                None => None,
            },
            pending_launch: match self.pending_launch {
                Some(s) => Some(s@),
                None => None,
            },
            pending_game: self.pending_game,
        }
    }
}

impl LauncherModel {
    /// The stack holds at least one screen and an open menu is in a valid
    /// state.
    pub open spec fn wf(self) -> bool {
        &&& self.stack.len() >= 1
        &&& match self.overlay {
            Some(o) => o.wf(),
            None => true,
        }
    }

    /// The screen that gets the input.
    pub open spec fn top(self) -> ScreenState {
        self.stack.last()
    }
}

/// What an action of the current screen did to the launcher: whether it
/// ends (quits or launches something).
pub open spec fn apply_action(m: LauncherModel, a: ScreenAction, n: LauncherModel, quit: bool) -> bool {
    match a {
        ScreenAction::Stay => n == m && !quit,
        ScreenAction::Push(id) => {
            &&& n.stack.len() == m.stack.len() + 1
            &&& n.stack.drop_last() == m.stack
            &&& screen_id(n.top()) == id
            &&& is_fresh(n.top())
            &&& n.overlay == m.overlay
            &&& n.pending_launch == m.pending_launch
            &&& n.pending_game == m.pending_game
            &&& !quit
        },
        ScreenAction::Pop => n == (LauncherModel {
            stack: if m.stack.len() > 1 { m.stack.drop_last() } else { m.stack },
            ..m
        }) && !quit,
        ScreenAction::ShowOverlay => n == (LauncherModel {
            overlay: Some(OverlayModel { selected: 1, confirming: crate::overlay::Confirming::Idle, confirm_choice: 0 }),
            ..m
        }) && !quit,
        ScreenAction::LaunchApp(id) => n == (LauncherModel { pending_launch: Some(id@), ..m }) && quit,
        ScreenAction::LaunchGame(g) => n == (LauncherModel { pending_game: Some(g), ..m }) && quit,
        ScreenAction::Quit => n == m && quit,
    }
}

impl LauncherApp {
    /// A launcher showing the home screen.
    pub fn new() -> (a: Self)
        ensures
            a@.stack.len() == 1,
            screen_id(a@.top()) == ScreenId::Home,
            is_fresh(a@.top()),
            a@.overlay is None,
            a@.pending_launch is None,
            a@.pending_game is None,
            a@.wf(),
    {
        let mut stack: Vec<ScreenState> = Vec::new();
        stack.push(ScreenState::Home(HomeScreen::new()));
        LauncherApp { screen_stack: stack, overlay: None, pending_launch: None, pending_game: None }
    }

    /// Screens on the stack.
    pub fn depth(&self) -> (n: usize)
        ensures
            n == self@.stack.len(),
    {
        self.screen_stack.len()
    }

    /// The screen that gets the input, to hand it events and draw it.
    pub fn current(&mut self) -> (s: &mut ScreenState)
        requires
            old(self)@.wf(),
        ensures
            *s == old(self)@.top(),
            final(self)@ == (LauncherModel {
                stack: old(self)@.stack.update(old(self)@.stack.len() - 1, *final(s)),
                ..old(self)@
            }),
    {
        let last = self.screen_stack.len() - 1;
        &mut self.screen_stack[last]
    }

    /// Which screen gets the input.
    pub fn current_id(&self) -> (id: ScreenId)
        requires
            self@.wf(),
        ensures
            id == screen_id(self@.top()),
    {
        let last = self.screen_stack.len() - 1;
        match &self.screen_stack[last] {
            ScreenState::Home(_) => ScreenId::Home,
            ScreenState::Store(_) => ScreenId::Store,
            ScreenState::Detail(d) => ScreenId::Detail(d.app_index()),
            ScreenState::Settings(_) => ScreenId::Settings,
            ScreenState::WiFi(_) => ScreenId::WiFi,
        }
    }

    /// The system menu is open (it then gets the input).
    pub fn overlay_active(&self) -> (b: bool)
        ensures
            b == self@.overlay is Some,
    {
        self.overlay.is_some()
    }

    /// Hand a batch of events to the open system menu. Dismissing it or
    /// staying in Cartridge closes it; its other results are handed on.
    pub fn overlay_input(&mut self, events: &[InputEvent]) -> (r: OverlayResult)
        requires
            old(self)@.wf(),
            old(self)@.overlay is Some,
        ensures
            final(self)@.wf(),
            ({
                let (o, res) = old(self)@.overlay.unwrap().run(events@);
                &&& r == res
                &&& final(self)@ == (LauncherModel {
                    overlay: if res == OverlayResult::Dismiss || res == OverlayResult::StayCartridge {
                        None
                    } else {
                        Some(o)
                    },
                    ..old(self)@
                })
            }),
    {
        let mut o = self.overlay.take().unwrap();
        let r = o.handle_input(events);
        if r != OverlayResult::Dismiss && r != OverlayResult::StayCartridge {
            self.overlay = Some(o);
        }
        r
    }

    /// Carry out the action of the current screen; returns `true` when the
    /// launcher is to close (quit, or start the app or game now pending).
    /// Going back never leaves the stack empty.
    pub fn apply(&mut self, action: ScreenAction) -> (quit: bool)
        requires
            old(self)@.wf(),
        ensures
            final(self)@.wf(),
            apply_action(old(self)@, action, final(self)@, quit),
    {
        match action {
            ScreenAction::Stay => false,
            ScreenAction::Push(id) => {
                let s = create_screen(id);
                self.screen_stack.push(s);
                assert(self@.stack.drop_last() =~= old(self)@.stack);
                false
            },
            ScreenAction::Pop => {
                if self.screen_stack.len() > 1 {
                    self.screen_stack.pop();
                }
                false
            },
            ScreenAction::ShowOverlay => {
                self.overlay = Some(BootOverlay::new());
                false
            },
            ScreenAction::LaunchApp(id) => {
                self.pending_launch = Some(id);
                true
            },
            ScreenAction::LaunchGame(g) => {
                self.pending_game = Some(g);
                true
            },
            ScreenAction::Quit => true,
        }
    }

    /// The app the user wants to launch, if any.
    pub fn pending_launch(&self) -> (r: Option<&str>)
        ensures
            match r {
                Some(s) => self@.pending_launch == Some(s@),
                None => self@.pending_launch is None,
            },
    {
        match &self.pending_launch {
            Some(s) => Some(s.as_str()),
            None => None,
        }
    }

    /// The stock game the user wants to start, if any.
    pub fn pending_game(&self) -> (r: &Option<GameRequest>)
        ensures
            *r == self@.pending_game,
    {
        &self.pending_game
    }
}

/// Whatever actions the screens hand back, the launcher always has a
/// screen to show: no sequence of actions empties the stack.
pub proof fn lemma_stack_never_empty(m: LauncherModel, a: ScreenAction, n: LauncherModel, quit: bool)
    requires
        m.wf(),
        apply_action(m, a, n, quit),
    ensures
        n.stack.len() >= 1,
{
}

/// Going back from a screen that was just opened returns to the screen
/// underneath, as it was.
pub proof fn lemma_push_then_pop(
    m: LauncherModel,
    id: ScreenId,
    n: LauncherModel,
    q1: bool,
    k: LauncherModel,
    q2: bool,
)
    requires
        m.wf(),
        apply_action(m, ScreenAction::Push(id), n, q1),
        apply_action(n, ScreenAction::Pop, k, q2),
    ensures
        k == m,
        !q1 && !q2,
{
}

} // verus!
