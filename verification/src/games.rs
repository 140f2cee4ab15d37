//! The stock game library screen: choose a system, then one of its games.
//!
//! The library itself is read by the launcher outside this crate; the
//! screen only says which listing it wants next and takes the listing back
//! when it arrives. Paths are kept as the text the reader reported.

use vstd::prelude::*;

use crate::input::{Button, InputAction, InputEvent};
use crate::screens::{acts, ScreenAction};
use crate::strs::str_eq;

verus! {

/// A stock game the launcher should start after it closes.
#[derive(Clone, Debug, Default)]
pub struct GameRequest {
    pub system: String,
    pub path: String,
    pub error: Option<String>,
}

/// One emulated system of the library.
#[derive(Clone, Debug)]
pub struct GameSystem {
    pub id: String,
    pub name: String,
    pub theme: String,
}

/// One game of a system.
#[derive(Clone, Debug)]
pub struct Game {
    pub path: String,
    pub name: String,
    pub image: Option<String>,
    pub favorite: bool,
    pub description: String,
    pub players: String,
}

/// What the game-library reader returns.
pub enum Loaded {
    Systems(Vec<GameSystem>),
    Games(Vec<Game>),
}

/// A listing the screen asks the reader for.
#[derive(Clone, Debug)]
pub enum GamesLoad {
    /// The list of systems.
    Systems,
    /// The games of the system with this id.
    Games(String),
}

/// A listing asked for, by the system id's characters.
pub enum PendingLoad {
    Systems,
    Games(Seq<char>),
}

pub open spec fn load_view(l: GamesLoad) -> PendingLoad {
    match l {
        GamesLoad::Systems => PendingLoad::Systems,
        GamesLoad::Games(id) => PendingLoad::Games(id@),
    }
}

/// Rows of the list shown at once; L1 / R1 move by this many.
pub const GAME_ROWS: usize = 8;

pub struct GamesScreen {
    systems: Vec<GameSystem>,
    games: Vec<Game>,
    selected_system: usize,
    selected_game: usize,
    in_system: bool,
    pending: Option<GamesLoad>,
    /// A load was asked for that the launcher has not taken yet.
    started: bool,
    resume: Option<GameRequest>,
    error: Option<String>,
}

pub struct GamesModel {
    pub systems: Seq<GameSystem>,
    pub games: Seq<Game>,
    pub selected_system: int,
    pub selected_game: int,
    pub in_system: bool,
    pub pending: Option<PendingLoad>,
    pub started: bool,
    pub resume: Option<GameRequest>,
    pub error: Option<String>,
}

impl View for GamesScreen {
    type V = GamesModel;

    closed spec fn view(&self) -> GamesModel {
        GamesModel {
            systems: self.systems@,
            games: self.games@,
            selected_system: self.selected_system as int,
            selected_game: self.selected_game as int,
            in_system: self.in_system,
            pending: match self.pending {
                Some(l) => Some(load_view(l)),
                None => None,
            },
            started: self.started,
            resume: self.resume,
            error: self.error,
        }
    }
}

/// How a batch of events on the games screen ends early.
pub enum GamesExit {
    Pop,
    Overlay,
    /// Start the selected game of the selected system.
    Launch,
}

/// `max(v - d, 0)`.
pub open spec fn sat_sub(v: int, d: int) -> int {
    if v >= d { v - d } else { 0 }
}

/// Move a selection of a list of `len` items by one press.
pub open spec fn games_nav(index: int, len: int, button: Button) -> int {
    let last = sat_sub(len, 1);
    match button {
        Button::DpadUp => sat_sub(index, 1),
        Button::DpadDown => if index + 1 < last { index + 1 } else { last },
        Button::L1 => sat_sub(index, GAME_ROWS as int),
        Button::R1 => if index + GAME_ROWS < last { index + GAME_ROWS } else { last },
        _ => index,
    }
}

impl GamesModel {
    /// Open the selected system: its games are asked for.
    pub open spec fn enter_system(self) -> GamesModel {
        if 0 <= self.selected_system < self.systems.len() {
            GamesModel {
                in_system: true,
                games: Seq::empty(),
                selected_game: 0,
                pending: Some(PendingLoad::Games(self.systems[self.selected_system].id@)),
                started: true,
                ..self
            }
        } else {
            self
        }
    }

    /// One press or repeat.
    pub open spec fn press(self, button: Button) -> (GamesModel, Option<GamesExit>) {
        if button == Button::B {
            if self.in_system {
                (GamesModel { pending: None, in_system: false, error: None, resume: None, ..self }, None)
            } else {
                (self, Some(GamesExit::Pop))
            }
        } else if button == Button::Select {
            (self, Some(GamesExit::Overlay))
        } else if self.pending is Some {
            (self, None)
        } else {
            match button {
                Button::DpadUp | Button::DpadDown | Button::L1 | Button::R1 => (
                    if self.in_system {
                        GamesModel {
                            selected_game: games_nav(self.selected_game, self.games.len() as int, button),
                            ..self
                        }
                    } else {
                        GamesModel {
                            selected_system: games_nav(self.selected_system, self.systems.len() as int, button),
                            ..self
                        }
                    },
                    None,
                ),
                Button::Y => {
                    let m = GamesModel { error: None, ..self };
                    if self.in_system {
                        (m.enter_system(), None)
                    } else {
                        (GamesModel { pending: Some(PendingLoad::Systems), started: true, ..m }, None)
                    }
                },
                Button::A => if self.in_system {
                    if self.selected_system < self.systems.len() && self.selected_game < self.games.len() {
                        (self, Some(GamesExit::Launch))
                    } else {
                        (self, None)
                    }
                } else {
                    (self.enter_system(), None)
                },
                _ => (self, None),
            }
        }
    }

    /// A batch of events in order, up to the first that leaves the screen
    /// or starts a game.
    pub open spec fn run(self, events: Seq<InputEvent>) -> (GamesModel, Option<GamesExit>)
        decreases events.len(),
    {
        if events.len() == 0 {
            (self, None)
        } else if !acts(events[0]) {
            self.run(events.drop_first())
        } else {
            let (n, e) = self.press(events[0].button);
            match e {
                Some(_) => (n, e),
                None => n.run(events.drop_first()),
            }
        }
    }
}

/// The launcher action that ends a batch on model `m`.
pub open spec fn games_action(a: ScreenAction, e: Option<GamesExit>, m: GamesModel) -> bool {
    match e {
        Some(GamesExit::Pop) => a == ScreenAction::Pop,
        Some(GamesExit::Overlay) => a == ScreenAction::ShowOverlay,
        Some(GamesExit::Launch) => match a {
            ScreenAction::LaunchGame(r) => {
                &&& r.system@ == m.systems[m.selected_system].id@
                &&& r.path@ == m.games[m.selected_game].path@
                &&& r.error is None
            },
            _ => false,
        },
        None => a == ScreenAction::Stay,
    }
}

/// `i` is the first index of `s` whose id is `id`.
pub open spec fn first_system(s: Seq<GameSystem>, id: Seq<char>, i: int) -> bool {
    &&& 0 <= i < s.len()
    &&& s[i].id@ == id
    &&& forall|j: int| 0 <= j < i ==> s[j].id@ != id
}

/// `i` is the first index of `g` whose path is `path`.
pub open spec fn first_game(g: Seq<Game>, path: Seq<char>, i: int) -> bool {
    &&& 0 <= i < g.len()
    &&& g[i].path@ == path
    &&& forall|j: int| 0 <= j < i ==> g[j].path@ != path
}

fn string_eq(a: &String, b: &String) -> (r: bool)
    ensures
        r == (a@ == b@),
{
    str_eq(a.as_str(), b.as_str())
}

/// Index of the first system with id `id`.
fn system_position(s: &Vec<GameSystem>, id: &String) -> (r: Option<usize>)
    ensures
        match r {
            Some(i) => first_system(s@, id@, i as int),
            None => forall|j: int| 0 <= j < s@.len() ==> s@[j].id@ != id@,
        },
{
    let mut i: usize = 0;
    while i < s.len()
        invariant
            i <= s@.len(),
            forall|j: int| 0 <= j < i ==> s@[j].id@ != id@,
        decreases s@.len() - i,
    {
        if string_eq(&s[i].id, id) {
            return Some(i);
        }
        i += 1;
    }
    None
}

/// Index of the first game with path `path`.
fn game_position(g: &Vec<Game>, path: &String) -> (r: Option<usize>)
    ensures
        match r {
            Some(i) => first_game(g@, path@, i as int),
            None => forall|j: int| 0 <= j < g@.len() ==> g@[j].path@ != path@,
        },
{
    let mut i: usize = 0;
    while i < g.len()
        invariant
            i <= g@.len(),
            forall|j: int| 0 <= j < i ==> g@[j].path@ != path@,
        decreases g@.len() - i,
    {
        if string_eq(&g[i].path, path) {
            return Some(i);
        }
        i += 1;
    }
    None
}

fn nav_step(index: usize, len: usize, button: Button) -> (r: usize)
    ensures
        r == games_nav(index as int, len as int, button),
{
    let last = len.saturating_sub(1);
    match button {
        Button::DpadUp => index.saturating_sub(1),
        Button::DpadDown => if index < last && last - index > 1 { index + 1 } else { last },
        Button::L1 => index.saturating_sub(GAME_ROWS),
        Button::R1 => if index < last && last - index > GAME_ROWS { index + GAME_ROWS } else { last },
        _ => index,
    }
}

impl GamesScreen {
    /// A screen that asks for the list of systems, and, when `resume` names
    /// a game, reopens its system and selects it once the listings come in.
    /// The request's error, if any, is shown.
    pub fn new(resume: Option<GameRequest>) -> (s: Self)
        ensures
            s@.systems.len() == 0,
            s@.games.len() == 0,
            s@.selected_system == 0,
            s@.selected_game == 0,
            !s@.in_system,
            s@.pending == Some(PendingLoad::Systems),
            s@.started,
            s@.resume == resume,
            match resume {
                Some(r) => match (s@.error, r.error) {
                    (Some(e), Some(f)) => e@ == f@,
                    (None, None) => true,
                    _ => false,
                },
                None => s@.error is None,
            },
    {
        let error = match &resume {
            Some(r) => match &r.error {
                Some(e) => Some(e.clone()),
                None => None,
            },
            None => None,
        };
        GamesScreen {
            systems: Vec::new(),
            games: Vec::new(),
            selected_system: 0,
            selected_game: 0,
            in_system: false,
            pending: Some(GamesLoad::Systems),
            started: true,
            resume,
            error,
        }
    }

    /// A listing is being read.
    pub fn is_loading(&self) -> (b: bool)
        ensures
            b == self@.pending is Some,
    {
        self.pending.is_some()
    }

    /// Index of the selected system.
    pub fn selected_system(&self) -> (i: usize)
        ensures
            i == self@.selected_system,
    {
        self.selected_system
    }

    /// Index of the selected game.
    pub fn selected_game(&self) -> (i: usize)
        ensures
            i == self@.selected_game,
    {
        self.selected_game
    }

    /// A system is open.
    pub fn in_system(&self) -> (b: bool)
        ensures
            b == self@.in_system,
    {
        self.in_system
    }

    /// The error shown, if any.
    pub fn error(&self) -> (e: &Option<String>)
        ensures
            *e == self@.error,
    {
        &self.error
    }

    /// The listing asked for since the last call, if any: the launcher runs
    /// the reader for it and drops any earlier one.
    pub fn take_load(&mut self) -> (l: Option<GamesLoad>)
        ensures
            final(self)@ == (GamesModel { started: false, ..old(self)@ }),
            match l {
                Some(x) => old(self)@.started && old(self)@.pending == Some(load_view(x)),
                None => !old(self)@.started || old(self)@.pending is None,
            },
    {
        if !self.started {
            return None;
        }
        self.started = false;
        match &self.pending {
            Some(GamesLoad::Systems) => Some(GamesLoad::Systems),
            Some(GamesLoad::Games(id)) => Some(GamesLoad::Games(id.clone())),
            None => None,
        }
    }

    fn enter_system(&mut self)
        ensures
            final(self)@ == old(self)@.enter_system(),
    {
        if self.selected_system < self.systems.len() {
            let id = self.systems[self.selected_system].id.clone();
            self.in_system = true;
            self.games.clear();
            self.selected_game = 0;
            self.pending = Some(GamesLoad::Games(id));
            self.started = true;
            assert(self@.games =~= Seq::<Game>::empty());
        }
    }

    /// Take in a listing that arrived. Systems replace the system list; when
    /// a game is being resumed its system is reopened (or the resume is
    /// dropped when that system is gone). Games replace the game list, and a
    /// resumed game is selected (the first game when it is gone). An error
    /// is kept to be shown.
    pub fn update(&mut self, result: Result<Loaded, String>)
        ensures
            ({
                let m = GamesModel { pending: None, ..old(self)@ };
                match result {
                    Ok(Loaded::Systems(v)) => {
                        let m1 = GamesModel { systems: v@, ..m };
                        match m.resume {
                            Some(r) => if exists|i: int| first_system(v@, r.system@, i) {
                                exists|i: int| first_system(v@, r.system@, i)
                                    && final(self)@ == (GamesModel { selected_system: i, ..m1 }).enter_system()
                            } else {
                                final(self)@ == (GamesModel { resume: None, ..m1 })
                            },
                            None => final(self)@ == m1,
                        }
                    },
                    Ok(Loaded::Games(v)) => {
                        let m1 = GamesModel { games: v@, ..m };
                        match m.resume {
                            Some(r) => if exists|i: int| first_game(v@, r.path@, i) {
                                exists|i: int| first_game(v@, r.path@, i)
                                    && final(self)@ == (GamesModel { selected_game: i, resume: None, ..m1 })
                            } else {
                                final(self)@ == (GamesModel { selected_game: 0, resume: None, ..m1 })
                            },
                            None => final(self)@ == m1,
                        }
                    },
                    Err(e) => final(self)@ == (GamesModel { error: Some(e), ..m }),
                }
            }),
    {
        self.pending = None;
        match result {
            Ok(Loaded::Systems(v)) => {
                self.systems = v;
                let pos = match &self.resume {
                    Some(r) => Some(system_position(&self.systems, &r.system)),
                    None => None,
                };
                match pos {
                    Some(Some(i)) => {
                        self.selected_system = i;
                        self.enter_system();
                    },
                    Some(None) => {
                        self.resume = None;
                    },
                    None => {},
                }
            },
            Ok(Loaded::Games(v)) => {
                self.games = v;
                let resume = self.resume.take();
                if let Some(r) = resume {
                    match game_position(&self.games, &r.path) {
                        Some(i) => {
                            self.selected_game = i;
                        },
                        None => {
                            self.selected_game = 0;
                        },
                    }
                }
            },
            Err(e) => {
                self.error = Some(e);
            },
        }
    }
    /// Handle a batch of events. B leaves a system (dropping any listing
    /// being read) or the screen; SELECT opens the system menu. While a
    /// listing is read nothing else is taken. Up/Down move by one and L1/R1
    /// by a page in the list shown; Y reads the list again; A opens the
    /// selected system, or in a system starts the selected game.
    pub fn handle_input(&mut self, events: &[InputEvent]) -> (a: ScreenAction)
        ensures
            ({
                let (m, e) = old(self)@.run(events@);
                &&& final(self)@ == m
                &&& games_action(a, e, m)
            }),
    {
        let ghost m0 = self@;
        let mut i: usize = 0;
        assert(events@.skip(0) =~= events@);
        while i < events.len()
            invariant
                i <= events@.len(),
                m0 == old(self)@,
                m0.run(events@) == self@.run(events@.skip(i as int)),
            decreases events@.len() - i,
        {
            let ie = events[i];
            proof {
                assert(events@.skip(i as int)[0] == ie);
                assert(events@.skip(i as int).drop_first() =~= events@.skip(i as int + 1));
            }
            i += 1;
            if ie.action != InputAction::Press && ie.action != InputAction::Repeat {
                continue;
            }
            if ie.button == Button::B {
                if self.in_system {
                    self.pending = None;
                    self.in_system = false;
                    self.error = None;
                    self.resume = None;
                    continue;
                } else {
                    return ScreenAction::Pop;
                }
            }
            if ie.button == Button::Select {
                return ScreenAction::ShowOverlay;
            }
            if self.pending.is_some() {
                continue;
            }
            match ie.button {
                Button::DpadUp | Button::DpadDown | Button::L1 | Button::R1 => {
                    if self.in_system {
                        self.selected_game = nav_step(self.selected_game, self.games.len(), ie.button);
                    } else {
                        self.selected_system = nav_step(self.selected_system, self.systems.len(), ie.button);
                    }
                },
                Button::Y => {
                    self.error = None;
                    if self.in_system {
                        self.enter_system();
                    } else {
                        self.pending = Some(GamesLoad::Systems);
                        self.started = true;
                    }
                },
                Button::A => {
                    if self.in_system {
                        if self.selected_system < self.systems.len() && self.selected_game < self.games.len() {
                            let system = self.systems[self.selected_system].id.clone();
                            let path = self.games[self.selected_game].path.clone();
                            return ScreenAction::LaunchGame(GameRequest { system, path, error: None });
                        }
                    } else {
                        self.enter_system();
                    }
                },
                _ => {},
            }
        }
        assert(events@.skip(i as int).len() == 0);
        ScreenAction::Stay
    }
}

/// Game-list navigation moves one entry with Up/Down and a page with
/// L1/R1, stopping at the ends; Down then Up comes back away from the ends.
pub proof fn lemma_games_nav_steps(index: int, len: int)
    requires
        0 <= index < len,
    ensures
        games_nav(index, len, Button::DpadDown) == (if index + 1 < len { index + 1 } else { len - 1 }),
        games_nav(index, len, Button::DpadUp) == (if index >= 1 { index - 1 } else { 0 }),
        games_nav(index, len, Button::R1) == (if index + 8 < len { index + 8 } else { len - 1 }),
        games_nav(index, len, Button::L1) == (if index >= 8 { index - 8 } else { 0 }),
        index + 1 < len ==> games_nav(games_nav(index, len, Button::DpadDown), len, Button::DpadUp) == index,
        index > 0 ==> games_nav(games_nav(index, len, Button::DpadUp), len, Button::DpadDown) == index,
{
}

} // verus!
