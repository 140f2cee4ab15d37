//! The WiFi screen: a status row, the scanned networks, and the on-screen
//! keyboard for passwords.
//!
//! The wifi manager itself (status, scans, connecting) is driven by the
//! launcher: the screen says what to do next and is told what came of it.

use std::time::Instant;

use vstd::prelude::*;

use crate::clock::{instant_now, nanos_since};
use crate::fmt::concat;
use crate::input::{InputAction, InputEvent, Button};
use crate::screens::ScreenAction;
use crate::text_input::{InputOutcome, TextInput, TextInputModel, TextInputResult};

verus! {

/// A network found by a scan.
#[derive(Clone, Debug)]
pub struct WifiNetwork {
    pub ssid: String,
    /// Signal quality in percent.
    pub signal: u8,
    /// Security kind as reported (`--` or empty for an open network).
    pub security: String,
    /// A password for it is stored.
    pub is_saved: bool,
}

/// What the wifi manager reports about the link.
#[derive(Clone, Debug)]
pub enum LinkStatus {
    Connected { ssid: String, signal: u8 },
    Disconnected,
    Unknown,
}

/// Height of a network row.
pub const NET_ROW_H: i32 = 48;
/// Height of the status row.
pub const STATUS_ROW_H: i32 = 52;
/// Top of the content area.
pub const CONTENT_TOP: i32 = 36;
/// Bottom of the content area.
pub const CONTENT_BOTTOM: i32 = 684;
/// Gap between cards.
pub const MARGIN: i32 = 8;
/// Top of the network list.
pub const LIST_START: i32 = CONTENT_TOP + 12 + STATUS_ROW_H + MARGIN + 20;
/// Network row height of the neo style.
pub const NEO_NET_ROW_H: i32 = 48;
/// Top of the network list of the neo style.
pub const NEO_LIST_Y: i32 = 70 + 12 + 60 + 34;
/// Top of the footer of the neo style.
pub const NEO_FOOTER_Y: i32 = 672;

/// Network rows shown at once, in the neo style or the classic one (at
/// least one).
pub fn visible_rows(neo: bool) -> (n: usize)
    ensures
        n as int == (if neo {
            (NEO_FOOTER_Y - 30 - NEO_LIST_Y) as int / NEO_NET_ROW_H as int
        } else {
            (CONTENT_BOTTOM - 28 - LIST_START) as int / (NET_ROW_H + MARGIN) as int
        }),
        n >= 1,
{
    if neo {
        ((NEO_FOOTER_Y - 30 - NEO_LIST_Y) / NEO_NET_ROW_H) as usize
    } else {
        ((CONTENT_BOTTOM - 28 - LIST_START) / (NET_ROW_H + MARGIN)) as usize
    }
}

/// A network needs no password: its security is `--` or empty.
pub open spec fn is_open(security: Seq<char>) -> bool {
    security == "--"@ || security.len() == 0
}

/// How long a message shows, in nanoseconds.
pub const MESSAGE_SHOW_NS: u64 = 3_000_000_000;

/// The screen `ns` nanoseconds after its message was set: the message is
/// cleared once it is older than three seconds.
pub open spec fn expired(m: WifiModel, ns: int) -> WifiModel {
    if ns > MESSAGE_SHOW_NS { WifiModel { message: None, ..m } } else { m }
}

/// What a press asks of the launcher.
pub enum WifiCommand {
    /// Nothing more: go on with the next event.
    Stay,
    /// Leave the screen with this action.
    Leave(ScreenAction),
    /// Disconnect, report with `finish_disconnect`, then refresh.
    Disconnect,
    /// Connect with the stored password, then report with
    /// `finish_connect_saved` (and refresh when it says so).
    ConnectSaved(String),
    /// Connect with this password, report with `finish_connect`, then
    /// refresh.
    ConnectWith(String, String),
    /// Refresh: read the link status and hand it to `refresh`.
    Refresh,
}

/// How a scan ended.
pub enum ScanOutcome {
    /// The networks found, and the link status read afterwards.
    Done(Vec<WifiNetwork>, LinkStatus),
    Failed(String),
    /// The scanner went away without an answer.
    Stopped,
}

pub struct WifiScreen {
    selected_row: usize,
    networks: Vec<WifiNetwork>,
    scan_error: Option<String>,
    scanning: bool,
    status: LinkStatus,
    status_message: Option<String>,
    message_time: Option<Instant>,
    scanned: bool,
    scroll_offset: usize,
    /// On-screen keyboard for WiFi password entry.
    password_input: TextInput,
    /// SSID being connected to while the password keyboard is open.
    connecting_ssid: Option<String>,
}

pub struct WifiModel {
    pub selected_row: int,
    pub networks: Seq<WifiNetwork>,
    pub scan_error: Option<String>,
    pub scanning: bool,
    pub status: LinkStatus,
    pub message: Option<Seq<char>>,
    pub scanned: bool,
    pub scroll_offset: int,
    pub password: TextInputModel,
    pub connecting_ssid: Option<Seq<char>>,
}

impl View for WifiScreen {
    type V = WifiModel;

    closed spec fn view(&self) -> WifiModel {
        WifiModel {
            selected_row: self.selected_row as int,
            networks: self.networks@,
            scan_error: self.scan_error,
            scanning: self.scanning,
            status: self.status,
            message: match self.status_message {
                Some(m) => Some(m@),
                None => None,
            },
            scanned: self.scanned,
            scroll_offset: self.scroll_offset as int,
            password: self.password_input@,
            connecting_ssid: match self.connecting_ssid {
                Some(s) => Some(s@),
                None => None,
            },
        }
    }
}

impl WifiModel {
    /// The selection is on the status row or a network, and the keyboard is
    /// in a valid state.
    pub open spec fn wf(self) -> bool {
        &&& 0 <= self.selected_row <= self.networks.len()
        &&& self.password.wf()
    }

    /// A screen just opened: nothing scanned, nothing shown.
    pub open spec fn is_initial(self) -> bool {
        &&& self.selected_row == 0
        &&& self.networks.len() == 0
        &&& self.scan_error is None
        &&& !self.scanning
        &&& self.status is Unknown
        &&& self.message is None
        &&& !self.scanned
        &&& self.scroll_offset == 0
        &&& !self.password.visible
        &&& self.connecting_ssid is None
    }

    /// Rows: the status row and one per network.
    pub open spec fn total_rows(self) -> int {
        1 + self.networks.len() as int
    }

    /// Open the password keyboard for `ssid`.
    pub open spec fn ask_password(self, ssid: Seq<char>) -> WifiModel {
        WifiModel {
            password: TextInputModel {
                label: "Password for "@ + ssid,
                text: Seq::empty(),
                cursor_pos: 0,
                visible: true,
                result: InputOutcome::Pending,
                grid_row: 1,
                grid_col: 0,
                shifted: false,
                typed: false,
                ..self.password
            },
            connecting_ssid: Some(ssid),
            ..self
        }
    }
}

impl WifiScreen {
    pub fn new() -> (s: Self)
        ensures
            s@.is_initial(),
            s@.wf(),
    {
        WifiScreen {
            selected_row: 0,
            networks: Vec::new(),
            scan_error: None,
            scanning: false,
            status: LinkStatus::Unknown,
            status_message: None,
            message_time: None,
            scanned: false,
            scroll_offset: 0,
            password_input: TextInput::new(""),
            connecting_ssid: None,
        }
    }

    /// A scan is under way.
    pub fn is_loading(&self) -> (b: bool)
        ensures
            b == self@.scanning,
    {
        self.scanning
    }

    /// Rows: the status row and one per network.
    pub fn total_rows(&self) -> (n: usize)
        requires
            self@.networks.len() < usize::MAX,
        ensures
            n == self@.total_rows(),
    {
        1 + self.networks.len()
    }

    /// The highlighted row (0 is the status row).
    pub fn selected_row(&self) -> (r: usize)
        ensures
            r == self@.selected_row,
    {
        self.selected_row
    }

    /// First network row shown.
    pub fn scroll_offset(&self) -> (r: usize)
        ensures
            r == self@.scroll_offset,
    {
        self.scroll_offset
    }

    /// The message shown, if any.
    pub fn message(&self) -> (m: Option<&str>)
        ensures
            match m {
                Some(x) => self@.message == Some(x@),
                None => self@.message is None,
            },
    {
        match &self.status_message {
            Some(s) => Some(s.as_str()),
            None => None,
        }
    }

    /// The password keyboard is open.
    pub fn password_active(&self) -> (b: bool)
        ensures
            b == self@.password.visible,
    {
        self.password_input.is_visible()
    }

    /// The password keyboard (to draw it).
    pub fn password_input(&self) -> (t: &TextInput)
        ensures
            t@ == self@.password,
    {
        &self.password_input
    }

    /// Show a message (stamped with the current time).
    pub fn set_message(&mut self, msg: &str)
        ensures
            final(self)@ == (WifiModel { message: Some(msg@), ..old(self)@ }),
    {
        self.status_message = Some(msg.to_owned());
        self.message_time = Some(instant_now());
    }

    /// Note the first visit: returns `true` once, and the launcher then
    /// refreshes.
    pub fn first_visit(&mut self) -> (first: bool)
        ensures
            first == !old(self)@.scanned,
            final(self)@ == (WifiModel { scanned: true, ..old(self)@ }),
    {
        let first = !self.scanned;
        self.scanned = true;
        first
    }

    /// Take the link status read by the launcher; unless a scan is under
    /// way one is started (the result is `true`: run the scanner) and the
    /// last scan error is cleared.
    pub fn refresh(&mut self, status: LinkStatus) -> (start_scan: bool)
        ensures
            start_scan == !old(self)@.scanning,
            final(self)@ == (if old(self)@.scanning {
                WifiModel { status, ..old(self)@ }
            } else {
                WifiModel { status, scan_error: None, scanning: true, ..old(self)@ }
            }),
    {
        self.status = status;
        if self.scanning {
            return false;
        }
        self.scan_error = None;
        self.scanning = true;
        true
    }

    /// Take the end of a scan. Found networks replace the list (the
    /// selection stays on the list) and the message is cleared; a failure
    /// empties the list, keeps the error and selects the status row; a lost
    /// scanner is reported as an error.
    pub fn poll_scan(&mut self, outcome: ScanOutcome)
        requires
            old(self)@.wf(),
        ensures
            final(self)@.wf(),
            match outcome {
                ScanOutcome::Done(n, st) => final(self)@ == (WifiModel {
                    networks: n@,
                    scan_error: None,
                    scanning: false,
                    message: None,
                    selected_row: if old(self)@.selected_row < n@.len() {
                        old(self)@.selected_row
                    } else {
                        n@.len() as int
                    },
                    status: st,
                    ..old(self)@
                }),
                ScanOutcome::Failed(e) => final(self)@ == (WifiModel {
                    networks: Seq::empty(),
                    scan_error: Some(e),
                    scanning: false,
                    message: None,
                    selected_row: 0,
                    ..old(self)@
                }),
                ScanOutcome::Stopped => {
                    &&& final(self)@.scan_error matches Some(e) && e@ == "Wi-Fi scanner stopped unexpectedly"@
                    &&& final(self)@ == (WifiModel {
                        scanning: false,
                        scan_error: final(self)@.scan_error,
                        ..old(self)@
                    })
                },
            },
    {
        match outcome {
            ScanOutcome::Done(n, st) => {
                self.networks = n;
                self.scan_error = None;
                self.scanning = false;
                self.status_message = None;
                self.message_time = None;
                if self.selected_row >= self.networks.len() {
                    self.selected_row = self.networks.len();
                }
                self.status = st;
            },
            ScanOutcome::Failed(e) => {
                self.networks = Vec::new();
                self.scan_error = Some(e);
                self.scanning = false;
                self.status_message = None;
                self.message_time = None;
                self.selected_row = 0;
            },
            ScanOutcome::Stopped => {
                self.scanning = false;
                self.scan_error = Some("Wi-Fi scanner stopped unexpectedly".to_owned());
            },
        }
    }

    fn ask_password(&mut self, ssid: String)
        requires
            old(self)@.wf(),
        ensures
            final(self)@ == old(self)@.ask_password(ssid@),
            final(self)@.wf(),
    {
        let label = concat("Password for ", ssid.as_str());
        self.password_input.show(label.as_str());
        self.connecting_ssid = Some(ssid);
    }

    /// Handle one event while the keyboard is closed. B goes back and
    /// SELECT opens the system menu; Up/Down move over the rows. A on the
    /// status row disconnects a connected link; on a network it connects
    /// with the stored password, connects an open network, or opens the
    /// keyboard for the password. Y rescans ("Scanning..." is shown).
    pub fn press(&mut self, event: &InputEvent) -> (c: WifiCommand)
        requires
            old(self)@.wf(),
            old(self)@.networks.len() < usize::MAX,
        ensures
            final(self)@.wf(),
            ({
                let m = old(self)@;
                if event.action != InputAction::Press && event.action != InputAction::Repeat {
                    c == WifiCommand::Stay && final(self)@ == m
                } else {
                    match event.button {
                        Button::B => c == WifiCommand::Leave(ScreenAction::Pop) && final(self)@ == m,
                        Button::Select => c == WifiCommand::Leave(ScreenAction::ShowOverlay) && final(self)@ == m,
                        Button::DpadDown => c == WifiCommand::Stay && final(self)@ == (WifiModel {
                            selected_row: if m.selected_row + 1 < m.total_rows() { m.selected_row + 1 } else { m.selected_row },
                            ..m
                        }),
                        Button::DpadUp => c == WifiCommand::Stay && final(self)@ == (WifiModel {
                            selected_row: if m.selected_row > 0 { m.selected_row - 1 } else { 0 },
                            ..m
                        }),
                        Button::A => if m.selected_row == 0 {
                            final(self)@ == m && (if m.status is Connected {
                                c == WifiCommand::Disconnect
                            } else {
                                c == WifiCommand::Stay
                            })
                        } else {
                            let net = m.networks[m.selected_row - 1];
                            if net.is_saved {
                                final(self)@ == m && (c matches WifiCommand::ConnectSaved(s) && s@ == net.ssid@)
                            } else if is_open(net.security@) {
                                final(self)@ == m && (c matches WifiCommand::ConnectWith(s, p) && s@ == net.ssid@
                                    && p@.len() == 0)
                            } else {
                                c == WifiCommand::Stay && final(self)@ == m.ask_password(net.ssid@)
                            }
                        },
                        Button::Y => c == WifiCommand::Refresh && final(self)@ == (WifiModel {
                            message: Some("Scanning..."@),
                            ..m
                        }),
                        _ => c == WifiCommand::Stay && final(self)@ == m,
                    }
                }
            }),
    {
        if event.action != InputAction::Press && event.action != InputAction::Repeat {
            return WifiCommand::Stay;
        }
        let total = self.networks.len() + 1;
        match event.button {
            Button::B => WifiCommand::Leave(ScreenAction::Pop),
            Button::Select => WifiCommand::Leave(ScreenAction::ShowOverlay),
            Button::DpadDown => {
                if self.selected_row + 1 < total {
                    self.selected_row += 1;
                }
                WifiCommand::Stay
            },
            Button::DpadUp => {
                if self.selected_row > 0 {
                    self.selected_row -= 1;
                }
                WifiCommand::Stay
            },
            Button::A => {
                if self.selected_row == 0 {
                    if matches!(self.status, LinkStatus::Connected { .. }) {
                        WifiCommand::Disconnect
                    } else {
                        WifiCommand::Stay
                    }
                } else {
                    let network = &self.networks[self.selected_row - 1];
                    let ssid = network.ssid.clone();
                    let sec = network.security.as_str();
                    let open = sec.unicode_len() == 0 || (sec.unicode_len() == 2 && sec.get_char(0) == '-'
                        && sec.get_char(1) == '-');
                    proof {
                        reveal_strlit("--");
                        if sec@.len() == 2 && sec@[0] == '-' && sec@[1] == '-' {
                            assert(sec@ =~= "--"@);
                        }
                    }
                    if network.is_saved {
                        WifiCommand::ConnectSaved(ssid)
                    } else if open {
                        WifiCommand::ConnectWith(ssid, String::new())
                    } else {
                        self.ask_password(ssid);
                        WifiCommand::Stay
                    }
                }
            },
            Button::Y => {
                self.set_message("Scanning...");
                WifiCommand::Refresh
            },
            _ => WifiCommand::Stay,
        }
    }
    /// Handle one event while the keyboard is open. A submitted password
    /// connects to the network asked about (an empty one is refused with
    /// "Password cannot be empty"); cancelling forgets the network.
    pub fn password_event(&mut self, event: &InputEvent) -> (c: WifiCommand)
        requires
            old(self)@.wf(),
        ensures
            final(self)@.wf(),
            ({
                let m = old(self)@;
                let (p, out) = m.password.react(*event);
                match out {
                    InputOutcome::Submitted(pw) => match m.connecting_ssid {
                        Some(ssid) => if pw.len() == 0 {
                            &&& c == WifiCommand::Stay
                            &&& final(self)@ == (WifiModel {
                                password: p,
                                connecting_ssid: None,
                                message: Some("Password cannot be empty"@),
                                ..m
                            })
                        } else {
                            &&& c matches WifiCommand::ConnectWith(s, q) && s@ == ssid && q@ == pw
                            &&& final(self)@ == (WifiModel { password: p, connecting_ssid: None, ..m })
                        },
                        None => c == WifiCommand::Stay && final(self)@ == (WifiModel { password: p, ..m }),
                    },
                    InputOutcome::Cancelled => c == WifiCommand::Stay && final(self)@ == (WifiModel {
                        password: p,
                        connecting_ssid: None,
                        ..m
                    }),
                    InputOutcome::Pending => c == WifiCommand::Stay && final(self)@ == (WifiModel { password: p, ..m }),
                }
            }),
    {
        let r = self.password_input.handle_input(event);
        match r {
            TextInputResult::Submitted(pw) => {
                let ssid = self.connecting_ssid.take();
                match ssid {
                    Some(ssid) => {
                        if pw.unicode_len() == 0 {
                            self.set_message("Password cannot be empty");
                            WifiCommand::Stay
                        } else {
                            WifiCommand::ConnectWith(ssid, pw)
                        }
                    },
                    None => WifiCommand::Stay,
                }
            },
            TextInputResult::Cancelled => {
                self.connecting_ssid = None;
                WifiCommand::Stay
            },
            TextInputResult::Pending => WifiCommand::Stay,
        }
    }

    /// Report a disconnect: "Disconnected" or "Error: " and the error.
    pub fn finish_disconnect(&mut self, result: Result<(), String>)
        ensures
            final(self)@ == (WifiModel {
                message: Some(match result {
                    Ok(()) => "Disconnected"@,
                    Err(e) => "Error: "@ + e@,
                }),
                ..old(self)@
            }),
    {
        match result {
            Ok(()) => self.set_message("Disconnected"),
            Err(e) => {
                let msg = concat("Error: ", e.as_str());
                self.set_message(msg.as_str());
            },
        }
    }

    /// Report a connection with a password: "Connected to <ssid>" or
    /// "Error: " and the error.
    pub fn finish_connect(&mut self, ssid: &str, result: Result<(), String>)
        ensures
            final(self)@ == (WifiModel {
                message: Some(match result {
                    Ok(()) => "Connected to "@ + ssid@,
                    Err(e) => "Error: "@ + e@,
                }),
                ..old(self)@
            }),
    {
        match result {
            Ok(()) => {
                let msg = concat("Connected to ", ssid);
                self.set_message(msg.as_str());
            },
            Err(e) => {
                let msg = concat("Error: ", e.as_str());
                self.set_message(msg.as_str());
            },
        }
    }

    /// Report a connection with the stored password. On success "Connected
    /// to <ssid>" is shown and the result is `true` (refresh); on failure
    /// the keyboard asks for the password.
    pub fn finish_connect_saved(&mut self, ssid: String, result: Result<(), String>) -> (refresh: bool)
        requires
            old(self)@.wf(),
        ensures
            final(self)@.wf(),
            refresh == result is Ok,
            final(self)@ == (if result is Ok {
                WifiModel { message: Some("Connected to "@ + ssid@), ..old(self)@ }
            } else {
                old(self)@.ask_password(ssid@)
            }),
    {
        match result {
            Ok(()) => {
                let msg = concat("Connected to ", ssid.as_str());
                self.set_message(msg.as_str());
                true
            },
            Err(_) => {
                self.ask_password(ssid);
                false
            },
        }
    }

    /// Scroll so that the selected network is among the `visible` rows
    /// shown (the status row resets the scroll).
    pub fn follow_selection(&mut self, visible: usize)
        requires
            visible >= 1,
        ensures
            ({
                let m = old(self)@;
                let i = m.selected_row - 1;
                final(self)@ == (WifiModel {
                    scroll_offset: if m.selected_row == 0 {
                        0
                    } else {
                        let s1 = if i >= m.scroll_offset + visible { i + 1 - visible } else { m.scroll_offset };
                        if i < s1 { i } else { s1 }
                    },
                    ..m
                })
            }),
    {
        if self.selected_row > 0 {
            let net_idx = self.selected_row - 1;
            if net_idx >= self.scroll_offset && net_idx - self.scroll_offset >= visible {
                self.scroll_offset = net_idx + 1 - visible;
            }
            if net_idx < self.scroll_offset {
                self.scroll_offset = net_idx;
            }
        } else {
            self.scroll_offset = 0;
        }
    }

    /// Clear the message when its age, `elapsed_ns`, is over three
    /// seconds.
    pub fn expire_message_after(&mut self, elapsed_ns: u64)
        ensures
            final(self)@ == expired(old(self)@, elapsed_ns as int),
    {
        if elapsed_ns > MESSAGE_SHOW_NS {
            self.status_message = None;
            self.message_time = None;
        }
    }

    /// Clear the message once it is older than three seconds (done before
    /// each frame is drawn).
    pub fn expire_message(&mut self)
        ensures
            exists|ns: u64| final(self)@ == #[trigger] expired(old(self)@, ns as int),
    {
        let age = match &self.message_time {
            Some(t) => nanos_since(t),
            None => 0,
        };
        self.expire_message_after(age);
    }
}

} // verus!
