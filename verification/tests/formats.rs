use cartridge::device::{amixer_volume, brightness_percent, brightness_target};
use cartridge::paths::{
    cartridges_dir, installed_apps_dir, join_path, json_key, ssh_dir, storage_cache_dir, storage_data_dir,
    storage_file,
};
use cartridge::calendar::{civil_from_days, utc_timestamp, utc_timestamp_at};
use cartridge::fmt::decimal_string;
use cartridge::neo::{clock_string, clock_string_at, index_label};
use cartridge::screens::{format_cache_duration, format_elapsed, format_elapsed_at};
use cartridge::sysinfo::{
    cpu_busy, cpu_counters, df_sizes, format_uptime, is_charging, is_pid_name, mem_info, net_totals,
    nmcli_wifi_ssid, parse_capacity, parse_i32_str, parse_kb, parse_u64_str, split_lines, split_words,
    wifi_bars, wireless_signal,
};
use cartridge::text::{is_blank_str, trim};
use cartridge::text_hash::{hash_key, hash_run, mix};

#[test]
fn civil_dates() {
    assert_eq!(civil_from_days(0), (1970, 1, 1));
    assert_eq!(civil_from_days(31), (1970, 2, 1));
    assert_eq!(civil_from_days(59), (1970, 3, 1));
    assert_eq!(civil_from_days(-1), (1969, 12, 31));
    assert_eq!(civil_from_days(11016), (2000, 2, 29));
    assert_eq!(civil_from_days(19723), (2024, 1, 1));
    assert_eq!(civil_from_days(-719468), (0, 3, 1));
}

#[test]
fn timestamps() {
    assert_eq!(utc_timestamp_at(0, 0), "19700101-000000-000");
    assert_eq!(utc_timestamp_at(1_725_029_869, 7), "20240830-145749-007");
    let now = utc_timestamp();
    assert_eq!(now.len(), 19);
    assert_eq!(&now[8..9], "-");
}

#[test]
fn clock_and_labels() {
    assert_eq!(clock_string_at(0, 0), "00:00");
    assert_eq!(clock_string_at(3_600 * 13 + 60 * 7 + 5, 0), "13:07");
    assert_eq!(clock_string_at(60, -120), "23:59");
    assert_eq!(clock_string(0).len(), 5);
    assert_eq!(index_label(0), "01");
    assert_eq!(index_label(11), "12");
    assert_eq!(index_label(99), "100");
    assert_eq!(decimal_string(0), "0");
    assert_eq!(decimal_string(u64::MAX), "18446744073709551615");
}

#[test]
fn elapsed_and_cache_labels() {
    assert_eq!(format_elapsed_at(100, 100), "now");
    assert_eq!(format_elapsed_at(100, 200), "now");
    assert_eq!(format_elapsed_at(142, 100), "42s");
    assert_eq!(format_elapsed_at(100 + 300, 100), "5m");
    assert_eq!(format_elapsed_at(3 * 3600 + 5, 0), "3h");
    assert_eq!(format_elapsed_at(2 * 86400 + 5, 0), "2d");
    assert_eq!(format_elapsed(u64::MAX), "now");
    assert_eq!(format_cache_duration(15), "15 min");
    assert_eq!(format_cache_duration(60), "1 hr");
    assert_eq!(format_cache_duration(360), "6 hr");
}

#[test]
fn meminfo_values() {
    assert_eq!(parse_kb("  2048 kB"), 2048);
    assert_eq!(parse_kb("+17"), 17);
    assert_eq!(parse_kb(""), 0);
    assert_eq!(parse_kb("   "), 0);
    assert_eq!(parse_kb("abc 12"), 0);
    assert_eq!(parse_kb("12a"), 0);
    assert_eq!(parse_kb("18446744073709551615"), u64::MAX);
    assert_eq!(parse_kb("18446744073709551616"), 0);
    assert_eq!(parse_kb("-5"), 0);
}

#[test]
fn trimming() {
    assert_eq!(trim("  ab c \n"), "ab c");
    assert_eq!(trim("\u{3000}x\u{a0}"), "x");
    assert_eq!(trim("   "), "");
    assert!(is_blank_str(" \t\r\n"));
    assert!(!is_blank_str(" a "));
}

fn fnv_reference(text: &str, size: u16, bold: bool) -> u64 {
    let mut h: u64 = 0xcbf2_9ce4_8422_2325;
    for b in text.bytes() {
        h ^= b as u64;
        h = h.wrapping_mul(0x0000_0100_0000_01b3);
    }
    h ^= ((size as u64) << 1) | (bold as u64);
    h = h.wrapping_mul(0x0000_0100_0000_01b3);
    mix(h)
}

#[test]
fn text_hashes() {
    assert_eq!(mix(0), 0);
    assert_eq!(mix(1), 0xb456_bcfc_34c2_cb2c);
    assert_eq!(hash_run("Hello", 14, false), fnv_reference("Hello", 14, false));
    assert_ne!(hash_run("Hello", 14, false), hash_run("Hello", 14, true));
    assert_ne!(hash_run("Hello", 14, false), hash_run("Hello", 16, false));
    let r = hash_run("é", 12, true);
    assert_eq!(r, fnv_reference("é", 12, true));
    assert_ne!(hash_key(r, (1, 2, 3, 4)), hash_key(r, (4, 3, 2, 1)));
    assert_eq!(
        hash_key(5, (1, 2, 3, 4)),
        mix(5 ^ 0x0102_0304u64.wrapping_mul(0x9e37_79b9_7f4a_7c15))
    );
}

#[test]
fn state_dirs_sit_below_home() {
    assert_eq!(cartridges_dir("/home/ark"), "/home/ark/.cartridges");
    assert_eq!(cartridges_dir("/root/"), "/root/.cartridges");
    assert_eq!(cartridges_dir(""), ".cartridges");
    assert_eq!(cartridges_dir("."), "./.cartridges");
    assert_eq!(installed_apps_dir("/home/ark"), "/home/ark/.cartridges/apps");
    assert_eq!(ssh_dir("/home/ark"), "/home/ark/.ssh");
    assert_eq!(join_path("a/b", "c.json"), "a/b/c.json");
}

#[test]
fn words_and_lines() {
    assert_eq!(split_words("  cpu  12 3\t4\n"), vec!["cpu", "12", "3", "4"]);
    assert!(split_words(" \t ").is_empty());
    assert_eq!(split_lines("a\r\nb\n\nc"), vec!["a", "b", "", "c"]);
    assert_eq!(split_lines("a\n"), vec!["a"]);
    assert!(split_lines("").is_empty());
    assert_eq!(split_lines("x\r"), vec!["x\r"]);
    assert_eq!(parse_u64_str("+42"), Some(42));
    assert_eq!(parse_u64_str("4 2"), None);
    assert_eq!(parse_u64_str(""), None);
    assert_eq!(parse_i32_str("-2147483648"), Some(i32::MIN));
    assert_eq!(parse_i32_str("2147483648"), None);
    assert_eq!(parse_i32_str("-"), None);
    assert_eq!(parse_i32_str("+7"), Some(7));
}

#[test]
fn proc_files() {
    let stat = "cpu  100 0 50 850 0 0 0 0 0 0\ncpu0 1 2 3 4\n";
    assert_eq!(cpu_counters(stat), Some((850, 1000)));
    assert_eq!(cpu_counters("cpu 1 2 x"), None);
    assert_eq!(cpu_counters(""), None);
    assert_eq!(cpu_busy(0, 0, 850, 1000), None);
    assert_eq!(cpu_busy(850, 1000, 900, 1100), Some((50, 100)));
    assert_eq!(cpu_busy(850, 1000, 900, 1000), None);
    let mem = "MemTotal:        2048000 kB\nMemFree:  1 kB\nMemAvailable:     1024000 kB\n";
    let m = mem_info(mem);
    assert_eq!(m.total_kb, 2048000);
    assert_eq!(m.used_kb, 1024000);
    assert_eq!(m.total_mb, 2000);
    assert_eq!(m.used_mb, 1000);
    let net = "Inter-| Receive\n face |bytes\n    lo: 500 1 0 0 0 0 0 0 500 1\n  wlan0: 1000 1 0 0 0 0 0 0 2000 1\n  eth0: 10 1 0 0 0 0 0 0 20 1\n";
    assert_eq!(net_totals(net), (1010, 2020));
    assert_eq!(net_totals("only one line"), (0, 0));
    assert_eq!(df_sizes(" 1B-blocks Used\n34359738368 13314398208\n"), Some((34359738368, 13314398208)));
    assert_eq!(df_sizes("header\n12 x\n"), None);
    let nm = "eth0:ethernet:unavailable:\nwlan0:wifi:connected:Home:Net\r\nwlan1:wifi:connected:Other\n";
    assert_eq!(nmcli_wifi_ssid(nm).as_deref(), Some("Home:Net"));
    assert_eq!(nmcli_wifi_ssid("wlan0:wifi:connected:\n"), None);
    assert_eq!(nmcli_wifi_ssid("wlan0:wifi:disconnected:X"), None);
    let wireless = "Inter-| sta-|   Quality\n face | tus | link level noise\nwlan0: 0000   54.  -56.  -256\n";
    assert_eq!(wireless_signal(wireless), Some(-56));
    assert_eq!(wireless_signal("a\nb\n"), None);
    assert_eq!(parse_capacity(" 87\n"), Some(87));
    assert_eq!(parse_capacity("101"), None);
    assert_eq!(parse_capacity("-1"), None);
    assert!(is_charging("Charging\n"));
    assert!(is_charging(" Full "));
    assert!(!is_charging("Discharging"));
    assert!(is_pid_name("1234"));
    assert!(!is_pid_name("self"));
}

#[test]
fn uptime_and_bars() {
    assert_eq!(format_uptime(59), "0m");
    assert_eq!(format_uptime(3 * 3600 + 5 * 60), "3h 5m");
    assert_eq!(format_uptime(2 * 86400 + 60), "2d 0h 1m");
    assert_eq!(wifi_bars(false, -40), 0);
    assert_eq!(wifi_bars(true, 0), 0);
    assert_eq!(wifi_bars(true, -50), 4);
    assert_eq!(wifi_bars(true, -60), 3);
    assert_eq!(wifi_bars(true, -61), 2);
    assert_eq!(wifi_bars(true, -80), 1);
    assert_eq!(wifi_bars(true, -95), 1);
}

#[test]
fn device_levels() {
    assert_eq!(brightness_percent(128, 255), Some(50));
    assert_eq!(brightness_percent(300, 255), Some(100));
    assert_eq!(brightness_percent(5, 0), None);
    assert_eq!(brightness_target(50, 255), Some(127));
    assert_eq!(brightness_target(0, 255), Some(1));
    assert_eq!(brightness_target(200, 10), Some(10));
    assert_eq!(brightness_target(50, 0), None);
    let out = "Simple mixer control 'Master',0\n  Mono: Playback 65 [74%] [on]\n";
    assert_eq!(amixer_volume(out), Some(74));
    assert_eq!(amixer_volume("[on] [300%] [x%] [12%]"), Some(12));
    assert_eq!(amixer_volume("[abc] [5"), None);
    assert_eq!(amixer_volume("nothing"), None);
    assert_eq!(amixer_volume("[250%]"), Some(100));
}

#[test]
fn app_storage_layout() {
    assert_eq!(storage_data_dir("/home/ark", "cartridge-launcher"), "/home/ark/.cartridges/cartridge-launcher/data");
    assert_eq!(storage_cache_dir("/home/ark/", "notes"), "/home/ark/.cartridges/notes/cache");
    assert_eq!(storage_file("settings"), "settings.json");
    assert_eq!(json_key("recents.json"), Some("recents"));
    assert_eq!(json_key("a.b.json"), Some("a.b"));
    assert_eq!(json_key(".json"), None);
    assert_eq!(json_key("notes.txt"), None);
    assert_eq!(json_key("json"), None);
}

#[test]
fn sample_window_keeps_recent_or_all() {
    let mut w = cartridge::perf::SampleWindow::new(false);
    w.push(50u32);
    for _ in 0..100_000 {
        w.push(1u32);
    }
    assert_eq!(w.samples().len(), 1024);
    assert!(w.samples().iter().all(|&x| x == 1));
    let mut w = cartridge::perf::SampleWindow::new(false);
    for i in 0..1030u32 {
        w.push(i);
    }
    // The six oldest were overwritten, in place.
    assert_eq!(w.samples()[0], 1024);
    assert_eq!(w.samples()[5], 1029);
    assert_eq!(w.samples()[6], 6);
    let mut full = cartridge::perf::SampleWindow::new(true);
    for i in 1..=2000u32 {
        full.push(i);
    }
    assert_eq!(full.samples().len(), 2000);
    assert_eq!(cartridge::perf::p95_index(2000), 1899);
    assert_eq!(cartridge::perf::p95_index(2), 1);
    assert_eq!(cartridge::perf::p95_index(1), 0);
    assert_eq!(cartridge::perf::p95_index(1024), 972);
}

#[test]
fn width_index_remembers_and_rebuilds() {
    let mut w = cartridge::text_hash::WidthIndex::new();
    let run = hash_run("Hello", 14, false);
    assert_eq!(w.lookup(run, "Hello", 14, false), None);
    w.remember(run, "Hello", 14, false, 42);
    assert_eq!(w.lookup(run, "Hello", 14, false), Some(42));
    // Same hash, other key: a collision is not a hit.
    assert_eq!(w.lookup(run, "Hellp", 14, false), None);
    assert_eq!(w.lookup(run, "Hello", 16, false), None);
    // A run already present keeps its entry.
    w.remember(run, "Other", 12, true, 7);
    assert_eq!(w.lookup(run, "Hello", 14, false), Some(42));
    for i in 0..2047u64 {
        w.remember(i, "x", 10, false, 1);
    }
    assert_eq!(w.len(), 2048);
    w.remember(u64::MAX, "y", 10, false, 3);
    assert_eq!(w.len(), 1);
    assert_eq!(w.lookup(u64::MAX, "y", 10, false), Some(3));
}

#[test]
fn absolute_app_ids_are_their_own_directory() {
    assert_eq!(storage_data_dir("/home/ark", "/srv/app"), "/srv/app/data");
    assert_eq!(storage_cache_dir("/home/ark", "/srv/app/"), "/srv/app/cache");
    assert_eq!(cartridge::paths::join_any("/a", "/b"), "/b");
    assert_eq!(cartridge::paths::join_any("/a", "b"), "/a/b");
}
