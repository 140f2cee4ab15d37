use cartridge::data::{push_recent, InstalledApps, LauncherSettings, RecentEntry, Registry};
use cartridge::sim::{
    brightness, initial_state, rssi_to_percent, set_brightness, set_volume, volume, wifi_connect,
    wifi_disconnect, wifi_networks, wifi_saved, wifi_status, SimBattery, SimNetwork, SimWifi,
};
use cartridge::sim::{battery_override, ensure_connected_listed, hostname_override, wifi_override};

#[test]
fn install_and_remove_apps() {
    let mut apps = InstalledApps::default();
    assert!(!apps.is_installed("a"));
    apps.install("a");
    apps.install("b");
    apps.install("a");
    assert_eq!(apps.app_ids, vec!["a".to_string(), "b".to_string()]);
    assert!(apps.is_installed("a"));
    apps.remove("a");
    assert!(!apps.is_installed("a"));
    assert!(apps.is_installed("b"));
    apps.remove("zzz");
    assert_eq!(apps.app_ids, vec!["b".to_string()]);
}

#[test]
fn install_then_remove_restores_list() {
    let mut apps = InstalledApps { app_ids: vec!["x".to_string(), "y".to_string()] };
    apps.install("new");
    apps.remove("new");
    assert_eq!(apps.app_ids, vec!["x".to_string(), "y".to_string()]);
}

#[test]
fn registry_and_settings_defaults() {
    let r = Registry::empty();
    assert_eq!(r.version, 1);
    assert!(r.apps.is_empty());
    let s = LauncherSettings::default();
    assert!(s.auto_refresh);
    assert_eq!(s.cache_duration_mins, 60);
    assert!(s.registry_url.starts_with("https://"));
}

#[test]
fn recents_move_to_front_and_cap_at_ten() {
    let mut rec: Vec<RecentEntry> = Vec::new();
    for i in 0..12u64 {
        push_recent(&mut rec, &format!("app{i}"), "N", i);
    }
    assert_eq!(rec.len(), 10);
    assert_eq!(rec[0].app_id, "app11");
    assert_eq!(rec[9].app_id, "app2");
    push_recent(&mut rec, "app5", "Five", 99);
    assert_eq!(rec.len(), 10);
    assert_eq!(rec[0].app_id, "app5");
    assert_eq!(rec[0].timestamp_secs, 99);
    assert_eq!(rec.iter().filter(|r| r.app_id == "app5").count(), 1);
    assert_eq!(rec[1].app_id, "app11");
}

#[test]
fn rssi_maps_to_percent() {
    assert_eq!(rssi_to_percent(-100), 0);
    assert_eq!(rssi_to_percent(-90), 0);
    assert_eq!(rssi_to_percent(-55), 58);
    assert_eq!(rssi_to_percent(-30), 100);
    assert_eq!(rssi_to_percent(0), 100);
    assert_eq!(rssi_to_percent(-87), 5);
}

fn nets() -> Vec<SimNetwork> {
    vec![
        SimNetwork { ssid: "HomeNet".into(), signal: 85, security: "WPA2".into(), saved: true },
        SimNetwork { ssid: "Neighbor5G".into(), signal: 45, security: "WPA3".into(), saved: false },
        SimNetwork { ssid: "OpenWifi".into(), signal: 30, security: "--".into(), saved: false },
    ]
}

#[test]
fn sim_levels_are_capped() {
    let wifi = SimWifi { connected: true, ssid: "HomeNet".into(), rssi: -55, networks: nets() };
    let mut st = initial_state(150, 60, &wifi);
    assert_eq!(brightness(&st), 100);
    assert_eq!(volume(&st), 60);
    set_brightness(&mut st, 30);
    set_volume(&mut st, 200);
    assert_eq!(brightness(&st), 30);
    assert_eq!(volume(&st), 100);
    assert_eq!(wifi_status(&st), Some(("HomeNet".to_string(), -55)));
    let b = SimBattery::default();
    assert_eq!(b.percent, 72);
}

#[test]
fn sim_wifi_connect_and_saved() {
    let wifi = SimWifi { connected: false, ssid: String::new(), rssi: -55, networks: nets() };
    let mut st = initial_state(80, 60, &wifi);
    assert_eq!(wifi_status(&st), None);
    assert_eq!(wifi_saved(&st, &nets()), vec!["HomeNet".to_string()]);
    assert_eq!(wifi_connect(&mut st, &nets(), "  \t"), Err("empty SSID".to_string()));
    assert_eq!(wifi_connect(&mut st, &nets(), "Neighbor5G"), Ok(()));
    assert_eq!(wifi_status(&st), Some(("Neighbor5G".to_string(), -63)));
    let scan = wifi_networks(&st, &nets());
    assert!(scan[1].saved);
    assert_eq!(wifi_saved(&st, &nets()), vec!["HomeNet".to_string(), "Neighbor5G".to_string()]);
    assert_eq!(wifi_connect(&mut st, &nets(), "Elsewhere"), Ok(()));
    assert_eq!(wifi_status(&st), Some(("Elsewhere".to_string(), -60)));
    wifi_disconnect(&mut st);
    assert_eq!(wifi_status(&st), None);
    // Networks connected to earlier in the process stay saved.
    let scan = wifi_networks(&st, &nets());
    assert!(scan[1].saved);
    assert_eq!(wifi_saved(&st, &nets()), vec!["HomeNet".to_string(), "Neighbor5G".to_string()]);
}

#[test]
fn sim_profile_overrides() {
    let w = SimWifi::default();
    assert!(w.connected);
    assert_eq!(w.ssid, "HomeNet");
    assert_eq!(w.rssi, -55);
    let names: Vec<&str> = w.networks.iter().map(|n| n.ssid.as_str()).collect();
    assert_eq!(names, vec!["HomeNet", "Neighbor5G", "CoffeeShop", "OpenWifi"]);
    assert_eq!(w.networks[3].security, "--");

    let mut b = SimBattery::default();
    assert!(battery_override(&mut b, " 150 "));
    assert_eq!(b.percent, 100);
    assert!(battery_override(&mut b, "-3"));
    assert_eq!(b.percent, 0);
    assert!(!battery_override(&mut b, "full"));
    assert_eq!(b.percent, 0);

    let mut w = SimWifi::default();
    wifi_override(&mut w, " OFF ");
    assert!(!w.connected);
    assert_eq!(w.ssid, "HomeNet");
    wifi_override(&mut w, "  Cafe 2 ");
    assert!(w.connected);
    assert_eq!(w.ssid, "Cafe 2");
    ensure_connected_listed(&mut w);
    assert_eq!(w.networks.len(), 5);
    assert_eq!(w.networks[0].ssid, "Cafe 2");
    assert_eq!(w.networks[0].signal, 58);
    assert!(w.networks[0].saved);
    assert_eq!(w.networks[0].security, "WPA2");
    ensure_connected_listed(&mut w);
    assert_eq!(w.networks.len(), 5);
    wifi_override(&mut w, "");
    assert!(!w.connected);

    assert_eq!(hostname_override("  r36s "), Some("r36s".to_string()));
    assert_eq!(hostname_override("   "), None);
}
