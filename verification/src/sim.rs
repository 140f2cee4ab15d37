//! Simulated device profile for desktop runs: battery, WiFi networks and the
//! mutable brightness / volume / connection state that settings change.
//!
//! The profile and the process-wide state live with the caller; this module
//! holds the rules that read and update them.

use vstd::prelude::*;

use crate::data::spec_install;
use crate::strs::{str_eq, views};
use crate::screens::{eq_ignore_ascii_case, str_eq_ignore_ascii_case};
use crate::sysinfo::{parse_i32, parse_i32_str};
use crate::text::{is_blank, is_blank_str, is_trim_of, trim};

verus! {

#[derive(Debug, Clone)]
pub struct SimBattery {
    pub percent: i32,
    pub charging: bool,
}

impl Default for SimBattery {
    fn default() -> (b: Self)
        ensures
            b.percent == 72,
            !b.charging,
    {
        Self { percent: 72, charging: false }
    }
}

#[derive(Debug, Clone)]
pub struct SimNetwork {
    pub ssid: String,
    /// 0..100
    pub signal: u8,
    pub security: String,
    pub saved: bool,
}

/// Abstract [`SimNetwork`].
pub struct NetworkModel {
    pub ssid: Seq<char>,
    pub signal: u8,
    pub security: Seq<char>,
    pub saved: bool,
}

impl View for SimNetwork {
    type V = NetworkModel;

    open spec fn view(&self) -> NetworkModel {
        NetworkModel { ssid: self.ssid@, signal: self.signal, security: self.security@, saved: self.saved }
    }
}

impl Default for SimNetwork {
    fn default() -> (n: Self)
        ensures
            n.ssid@ == Seq::<char>::empty(),
            n.signal == 50,
            n.security@ == "WPA2"@,
            !n.saved,
    {
        Self { ssid: String::new(), signal: 50, security: "WPA2".to_owned(), saved: false }
    }
}

fn clone_network(n: &SimNetwork) -> (c: SimNetwork)
    ensures
        c@ == n@,
{
    SimNetwork { ssid: n.ssid.clone(), signal: n.signal, security: n.security.clone(), saved: n.saved }
}

#[derive(Debug, Clone)]
pub struct SimWifi {
    pub connected: bool,
    pub ssid: String,
    /// dBm (e.g. -55)
    pub rssi: i32,
    /// Networks returned by a scan. The connected SSID is added if missing.
    pub networks: Vec<SimNetwork>,
}

pub open spec fn network_views(v: Seq<SimNetwork>) -> Seq<NetworkModel> {
    v.map_values(|n: SimNetwork| n@)
}

/// Convert dBm to a 0..100 percentage the same way the Linux path does:
/// -90 dBm and below is 0, -30 dBm and above is 100, linear in between.
pub open spec fn spec_rssi_to_percent(dbm: int) -> int {
    let x = if dbm + 90 < 0 { 0 } else if dbm + 90 > 60 { 60 } else { dbm + 90 };
    x * 100 / 60
}

pub fn rssi_to_percent(dbm: i32) -> (p: u8)
    requires
        dbm <= i32::MAX - 90,
    ensures
        p == spec_rssi_to_percent(dbm as int),
        p <= 100,
{
    let v = dbm + 90;
    let x: u32 = if v < 0 { 0 } else if v > 60 { 60 } else { v as u32 };
    (x * 100 / 60) as u8
}

/// Mutable simulator state: brightness, volume and the WiFi connection.
#[derive(Debug, Clone)]
pub struct SimState {
    pub brightness: u8,
    pub volume: u8,
    /// Connected SSID, if any.
    pub wifi_ssid: Option<String>,
    pub wifi_rssi: i32,
    /// Every SSID connected to during this process, each once.
    pub connected_during: Vec<String>,
}

/// Start state from the profile: levels capped at 100, connected to the
/// profile SSID when the profile says connected and names one.
pub fn initial_state(brightness: u8, volume: u8, wifi: &SimWifi) -> (s: SimState)
    ensures
        s.brightness == (if brightness < 100 { brightness } else { 100 }),
        s.volume == (if volume < 100 { volume } else { 100 }),
        (wifi.connected && wifi.ssid@.len() > 0) ==> s.wifi_ssid is Some && s.wifi_ssid->0@
            == wifi.ssid@,
        !(wifi.connected && wifi.ssid@.len() > 0) ==> s.wifi_ssid is None,
        s.wifi_rssi == wifi.rssi,
        views(s.connected_during@) == (if wifi.connected && wifi.ssid@.len() > 0 {
            seq![wifi.ssid@]
        } else {
            Seq::<Seq<char>>::empty()
        }),
{
    let mut during: Vec<String> = Vec::new();
    let connected = wifi.connected && wifi.ssid.as_str().unicode_len() > 0;
    if connected {
        during.push(wifi.ssid.clone());
    }
    let s = SimState {
        brightness: if brightness < 100 { brightness } else { 100 },
        volume: if volume < 100 { volume } else { 100 },
        wifi_ssid: if connected {
            Some(wifi.ssid.clone())
        } else {
            None
        },
        wifi_rssi: wifi.rssi,
        connected_during: during,
    };
    assert(views(s.connected_during@) =~= (if wifi.connected && wifi.ssid@.len() > 0 {
        seq![wifi.ssid@]
    } else {
        Seq::<Seq<char>>::empty()
    }));
    s
}

pub fn brightness(state: &SimState) -> (b: u8)
    ensures
        b == state.brightness,
{
    state.brightness
}

/// Set the brightness, capped at 100.
pub fn set_brightness(state: &mut SimState, pct: u8)
    ensures
        *final(state) == (SimState { brightness: if pct < 100 { pct } else { 100 }, ..*old(state) }),
{
    state.brightness = if pct < 100 { pct } else { 100 };
}

pub fn volume(state: &SimState) -> (v: u8)
    ensures
        v == state.volume,
{
    state.volume
}

/// Set the volume, capped at 100.
pub fn set_volume(state: &mut SimState, pct: u8)
    ensures
        *final(state) == (SimState { volume: if pct < 100 { pct } else { 100 }, ..*old(state) }),
{
    state.volume = if pct < 100 { pct } else { 100 };
}

/// `(ssid, rssi_dbm)` when connected.
pub fn wifi_status(state: &SimState) -> (r: Option<(String, i32)>)
    ensures
        state.wifi_ssid is None ==> r is None,
        state.wifi_ssid is Some ==> (r matches Some((name, dbm)) && name@ == state.wifi_ssid->0@
            && dbm == state.wifi_rssi),
{
    match &state.wifi_ssid {
        Some(ssid) => Some((ssid.clone(), state.wifi_rssi)),
        None => None,
    }
}

/// The SSID connected to, if any.
pub open spec fn connected_ssid(state: SimState) -> Option<Seq<char>> {
    match state.wifi_ssid {
        Some(s) => Some(s@),
        None => None,
    }
}

/// The SSIDs connected to during this process (the current one included).
pub open spec fn ever_connected(state: SimState) -> Seq<Seq<char>> {
    match connected_ssid(state) {
        Some(c) => spec_install(views(state.connected_during@), c),
        None => views(state.connected_during@),
    }
}

/// A scanned network as reported: saved when the profile says so or when it
/// was connected to at any point during this process.
pub open spec fn scanned(n: NetworkModel, connected: Seq<Seq<char>>) -> NetworkModel {
    NetworkModel { saved: n.saved || connected.contains(n.ssid), ..n }
}

/// Whether `ssid` is among `list`.
fn listed(list: &Vec<String>, ssid: &str) -> (r: bool)
    ensures
        r == views(list@).contains(ssid@),
{
    let mut i: usize = 0;
    while i < list.len()
        invariant
            i <= list@.len(),
            forall|j: int| 0 <= j < i ==> views(list@)[j] != ssid@,
        decreases list@.len() - i,
    {
        if str_eq(list[i].as_str(), ssid) {
            assert(views(list@)[i as int] == ssid@);
            return true;
        }
        i += 1;
    }
    false
}

/// Whether `ssid` was connected to during this process.
fn was_connected(state: &SimState, ssid: &str) -> (r: bool)
    ensures
        r == ever_connected(*state).contains(ssid@),
{
    let in_list = listed(&state.connected_during, ssid);
    let now = match &state.wifi_ssid {
        Some(c) => str_eq(c.as_str(), ssid),
        None => false,
    };
    proof {
        let v = views(state.connected_during@);
        match connected_ssid(*state) {
            Some(c) => {
                if !v.contains(c) {
                    let e = v.push(c);
                    if e.contains(ssid@) {
                        let k = choose|k: int| 0 <= k < e.len() && e[k] == ssid@;
                        if k < v.len() {
                            assert(v[k] == e[k]);
                        }
                    }
                    if v.contains(ssid@) {
                        let k = choose|k: int| 0 <= k < v.len() && v[k] == ssid@;
                        assert(e[k] == v[k]);
                    }
                    if now {
                        assert(e[v.len() as int] == c);
                    }
                }
            },
            None => {},
        }
    }
    in_list || now
}

/// Networks visible to a scan of the profile networks.
pub fn wifi_networks(state: &SimState, networks: &Vec<SimNetwork>) -> (r: Vec<SimNetwork>)
    ensures
        r@.len() == networks@.len(),
        forall|i: int|
            0 <= i < r@.len() ==> (#[trigger] r@[i])@ == scanned(
                networks@[i]@,
                ever_connected(*state),
            ),
{
    let mut out: Vec<SimNetwork> = Vec::new();
    let mut i: usize = 0;
    while i < networks.len()
        invariant
            i <= networks@.len(),
            out@.len() == i,
            forall|j: int|
                0 <= j < i ==> (#[trigger] out@[j])@ == scanned(
                    networks@[j]@,
                    ever_connected(*state),
                ),
        decreases networks@.len() - i,
    {
        let mut n = clone_network(&networks[i]);
        if was_connected(state, n.ssid.as_str()) {
            n.saved = true;
        }
        out.push(n);
        i += 1;
    }
    out
}

/// SSIDs of the saved networks, in scan order.
pub fn wifi_saved(state: &SimState, networks: &Vec<SimNetwork>) -> (r: Vec<String>)
    ensures
        ({
            let conn = ever_connected(*state);
            let scan = network_views(networks@).map_values(|n: NetworkModel| scanned(n, conn));
            r@.map_values(|s: String| s@) == scan.filter(|n: NetworkModel| n.saved).map_values(
                |n: NetworkModel| n.ssid,
            )
        }),
{
    let scan = wifi_networks(state, networks);
    let ghost conn = ever_connected(*state);
    let ghost sv = network_views(networks@).map_values(|n: NetworkModel| scanned(n, conn));
    assert(network_views(scan@) =~= sv);
    let mut out: Vec<String> = Vec::new();
    let mut i: usize = 0;
    while i < scan.len()
        invariant
            i <= scan@.len(),
            network_views(scan@) == sv,
            out@.map_values(|s: String| s@) == sv.take(i as int).filter(
                |n: NetworkModel| n.saved,
            ).map_values(|n: NetworkModel| n.ssid),
        decreases scan@.len() - i,
    {
        proof {
            assert(sv.take(i as int + 1) =~= sv.take(i as int).push(sv[i as int]));
            sv.take(i as int).lemma_filter_push(sv[i as int], |n: NetworkModel| n.saved);
            assert(sv[i as int] == scan@[i as int]@);
        }
        if scan[i].saved {
            let ghost prev = out@.map_values(|s: String| s@);
            out.push(scan[i].ssid.clone());
            assert(out@.map_values(|s: String| s@) =~= prev.push(sv[i as int].ssid));
            assert(sv.take(i as int + 1).filter(|n: NetworkModel| n.saved).map_values(
                |n: NetworkModel| n.ssid,
            ) =~= sv.take(i as int).filter(|n: NetworkModel| n.saved).map_values(
                |n: NetworkModel| n.ssid,
            ).push(sv[i as int].ssid));
        }
        i += 1;
    }
    assert(sv.take(scan@.len() as int) =~= sv);
    out
}

/// Signal strength in dBm reported after connecting to `ssid`: derived from
/// the first profile network of that name, -60 dBm when none.
pub open spec fn connect_rssi(networks: Seq<NetworkModel>, ssid: Seq<char>) -> int
    decreases networks.len(),
{
    if networks.len() == 0 {
        -60
    } else if networks[0].ssid == ssid {
        -90 + (networks[0].signal as int) * 60 / 100
    } else {
        connect_rssi(networks.drop_first(), ssid)
    }
}

/// Connect to `ssid`. A blank SSID is refused.
pub fn wifi_connect(state: &mut SimState, networks: &Vec<SimNetwork>, ssid: &str) -> (r: Result<(), String>)
    ensures
        is_blank(ssid@) ==> r is Err && *final(state) == *old(state),
        is_blank(ssid@) ==> r->Err_0@ == "empty SSID"@,
        !is_blank(ssid@) ==> {
            &&& r is Ok
            &&& final(state).brightness == old(state).brightness
            &&& final(state).volume == old(state).volume
            &&& final(state).wifi_ssid is Some
            &&& final(state).wifi_ssid->0@ == ssid@
            &&& final(state).wifi_rssi == connect_rssi(network_views(networks@), ssid@)
            &&& views(final(state).connected_during@) == spec_install(ever_connected(*old(state)), ssid@)
        },
{
    if is_blank_str(ssid) {
        return Err("empty SSID".to_owned());
    }
    let ghost nv = network_views(networks@);
    let mut rssi: i32 = -60;
    let mut found = false;
    let mut i: usize = 0;
    assert(nv.skip(0) =~= nv);
    while i < networks.len() && !found
        invariant
            i <= networks@.len(),
            nv == network_views(networks@),
            !found ==> connect_rssi(nv, ssid@) == connect_rssi(nv.skip(i as int), ssid@),
            found ==> rssi == connect_rssi(nv, ssid@),
            !found ==> rssi == -60,
        decreases networks@.len() - i + (if found { 0int } else { 1int }),
    {
        proof {
            assert(nv.skip(i as int)[0] == nv[i as int]);
            assert(nv.skip(i as int).drop_first() =~= nv.skip(i as int + 1));
        }
        if str_eq(networks[i].ssid.as_str(), ssid) {
            rssi = -90 + (networks[i].signal as i32 * 60 / 100);
            found = true;
        } else {
            i += 1;
        }
    }
    if !found {
        assert(nv.skip(i as int).len() == 0);
    }
    let ghost before = views(state.connected_during@);
    let prev = match &state.wifi_ssid {
        Some(c) => Some(c.clone()),
        None => None,
    };
    match prev {
        Some(c) => {
            if !listed(&state.connected_during, c.as_str()) {
                state.connected_during.push(c);
                assert(views(state.connected_during@) =~= before.push(connected_ssid(*old(state))->0));
            }
        },
        None => {},
    }
    assert(views(state.connected_during@) == ever_connected(*old(state)));
    let ghost mid = views(state.connected_during@);
    if !listed(&state.connected_during, ssid) {
        state.connected_during.push(ssid.to_owned());
        assert(views(state.connected_during@) =~= mid.push(ssid@));
    }
    state.wifi_ssid = Some(ssid.to_owned());
    state.wifi_rssi = rssi;
    Ok(())
}

/// A network connected to stays saved in later scans, also after
/// disconnecting: what a successful connect records (its `ensures`) makes
/// the network's scan entry saved, connected or not.
pub proof fn lemma_connected_network_stays_saved(before: SimState, after: SimState, n: NetworkModel)
    requires
        views(after.connected_during@) == spec_install(ever_connected(before), n.ssid),
    ensures
        scanned(n, ever_connected(after)).saved,
        scanned(n, ever_connected(SimState { wifi_ssid: None, ..after })).saved,
{
    crate::data::lemma_install_then_installed(ever_connected(before), n.ssid);
    let l = views(after.connected_during@);
    match connected_ssid(after) {
        Some(c) => {
            crate::data::lemma_install_then_installed(l, c);
            let k = choose|k: int| 0 <= k < l.len() && l[k] == n.ssid;
            if !l.contains(c) {
                assert(l.push(c)[k] == n.ssid);
            }
        },
        None => {},
    }
}

pub fn wifi_disconnect(state: &mut SimState)
    ensures
        *final(state) == (SimState { wifi_ssid: None, ..*old(state) }),
{
    state.wifi_ssid = None;
}

fn network(ssid: &str, signal: u8, security: &str, saved: bool) -> (n: SimNetwork)
    ensures
        n@ == (NetworkModel { ssid: ssid@, signal, security: security@, saved }),
{
    SimNetwork { ssid: ssid.to_owned(), signal, security: security.to_owned(), saved }
}

impl Default for SimWifi {
    /// Connected to "HomeNet" at -55 dBm, with four networks in range.
    fn default() -> (w: Self)
        ensures
            w.connected,
            w.ssid@ == "HomeNet"@,
            w.rssi == -55,
            network_views(w.networks@) == seq![
                NetworkModel { ssid: "HomeNet"@, signal: 85, security: "WPA2"@, saved: true },
                NetworkModel { ssid: "Neighbor5G"@, signal: 45, security: "WPA3"@, saved: false },
                NetworkModel { ssid: "CoffeeShop"@, signal: 60, security: "WPA2"@, saved: true },
                NetworkModel { ssid: "OpenWifi"@, signal: 30, security: "--"@, saved: false },
            ],
    {
        let mut networks: Vec<SimNetwork> = Vec::new();
        networks.push(network("HomeNet", 85, "WPA2", true));
        networks.push(network("Neighbor5G", 45, "WPA3", false));
        networks.push(network("CoffeeShop", 60, "WPA2", true));
        networks.push(network("OpenWifi", 30, "--", false));
        let w = SimWifi { connected: true, ssid: "HomeNet".to_owned(), rssi: -55, networks };
        assert(network_views(w.networks@) =~= seq![
            NetworkModel { ssid: "HomeNet"@, signal: 85, security: "WPA2"@, saved: true },
            NetworkModel { ssid: "Neighbor5G"@, signal: 45, security: "WPA3"@, saved: false },
            NetworkModel { ssid: "CoffeeShop"@, signal: 60, security: "WPA2"@, saved: true },
            NetworkModel { ssid: "OpenWifi"@, signal: 30, security: "--"@, saved: false },
        ]);
        w
    }
}

/// Apply a battery override (`CARTRIDGE_SIM_BATTERY`): a number, after
/// trimming, sets the percentage clamped to 0..=100; anything else is
/// refused (`false`) and changes nothing.
pub fn battery_override(battery: &mut SimBattery, value: &str) -> (ok: bool)
    ensures
        exists|t: Seq<char>| #[trigger] is_trim_of(t, value@) && match parse_i32(t) {
            Some(v) => ok && final(battery).percent == (if v < 0 { 0 } else if v > 100 { 100 } else { v })
                && final(battery).charging == old(battery).charging,
            None => !ok && final(battery).percent == old(battery).percent
                && final(battery).charging == old(battery).charging,
        },
{
    let t = trim(value);
    match parse_i32_str(t) {
        Some(v) => {
            battery.percent = if v < 0 { 0 } else if v > 100 { 100 } else { v };
            true
        },
        None => false,
    }
}

/// Apply a wifi override (`CARTRIDGE_SIM_WIFI`): `off` (any case) or a
/// blank value disconnects; anything else connects to that SSID (trimmed).
pub fn wifi_override(wifi: &mut SimWifi, value: &str)
    ensures
        final(wifi).rssi == old(wifi).rssi,
        final(wifi).networks == old(wifi).networks,
        exists|t: Seq<char>| #[trigger] is_trim_of(t, value@) && if eq_ignore_ascii_case(t, "off"@) || t.len() == 0 {
            !final(wifi).connected && final(wifi).ssid == old(wifi).ssid
        } else {
            final(wifi).connected && final(wifi).ssid@ == t
        },
{
    let t = trim(value);
    if str_eq_ignore_ascii_case(t, "off") || t.unicode_len() == 0 {
        wifi.connected = false;
    } else {
        wifi.connected = true;
        wifi.ssid = t.to_owned();
    }
}

/// A hostname override (`CARTRIDGE_SIM_HOSTNAME`): the trimmed value, when
/// it is not blank.
pub fn hostname_override(value: &str) -> (r: Option<String>)
    ensures
        exists|t: Seq<char>| #[trigger] is_trim_of(t, value@) && match r {
            Some(h) => t.len() > 0 && h@ == t,
            None => t.len() == 0,
        },
{
    let t = trim(value);
    if t.unicode_len() == 0 {
        None
    } else {
        Some(t.to_owned())
    }
}

/// Some network of `networks` has this SSID.
pub open spec fn lists_ssid(networks: Seq<NetworkModel>, ssid: Seq<char>) -> bool {
    exists|i: int| 0 <= i < networks.len() && networks[i].ssid == ssid
}

/// Make sure a scan shows the network connected to: when connected to a
/// named SSID that no listed network has, it goes first (saved, WPA2, its
/// signal from the link's dBm).
pub fn ensure_connected_listed(wifi: &mut SimWifi)
    requires
        old(wifi).rssi <= i32::MAX - 90,
    ensures
        final(wifi).connected == old(wifi).connected,
        final(wifi).ssid == old(wifi).ssid,
        final(wifi).rssi == old(wifi).rssi,
        network_views(final(wifi).networks@) == (if old(wifi).connected && old(wifi).ssid@.len() > 0
            && !lists_ssid(network_views(old(wifi).networks@), old(wifi).ssid@) {
            seq![NetworkModel {
                ssid: old(wifi).ssid@,
                signal: spec_rssi_to_percent(old(wifi).rssi as int) as u8,
                security: "WPA2"@,
                saved: true,
            }] + network_views(old(wifi).networks@)
        } else {
            network_views(old(wifi).networks@)
        }),
{
    if !wifi.connected || wifi.ssid.as_str().unicode_len() == 0 {
        return;
    }
    let ghost nv = network_views(wifi.networks@);
    let mut i: usize = 0;
    while i < wifi.networks.len()
        invariant
            i <= wifi.networks@.len(),
            nv == network_views(wifi.networks@),
            forall|j: int| 0 <= j < i ==> nv[j].ssid != wifi.ssid@,
        decreases wifi.networks@.len() - i,
    {
        if str_eq(wifi.networks[i].ssid.as_str(), wifi.ssid.as_str()) {
            assert(nv[i as int].ssid == wifi.ssid@);
            return;
        }
        i += 1;
    }
    let n = SimNetwork {
        ssid: wifi.ssid.clone(),
        signal: rssi_to_percent(wifi.rssi),
        security: "WPA2".to_owned(),
        saved: true,
    };
    wifi.networks.insert(0, n);
    assert(network_views(wifi.networks@) =~= seq![n@] + nv);
}

} // verus!
