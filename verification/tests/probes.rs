use obutils::battery::{energy_path, get_battery_info, BatteryInfo};
use obutils::brightness::{brightness_icon, get_brightness, path_of};
use obutils::cpu::{get_cpu_usage, CpuUsage};
use obutils::disk::{get_disk_io, DiskIo};
use obutils::memory::{extract_number, get_mem_usage, get_ram_usage, get_swap_usage, MemInfo};
use obutils::network::{
    get_network_io, get_networks, get_wifi_name, net_stat_path, read_stat, NetworkIo,
};
use obutils::pulseaudio::{get_sink_state, sink_icon, SinkState};
use obutils::text::{parse_u64, split_whitespace, strip_prefix, trim, u64_to_string};
use obutils::wallpaper::{accepts_index, is_image_path};

fn s(x: &str) -> String {
    x.to_string()
}

#[test]
fn trim_removes_surrounding_whitespace() {
    assert_eq!(trim("  x y\t\n"), "x y");
    assert_eq!(trim("   "), "");
    assert_eq!(trim("z"), "z");
}

#[test]
fn strip_prefix_only_at_start() {
    assert_eq!(strip_prefix("Keyboard - English (US)", "Keyboard - "), "English (US)");
    assert_eq!(strip_prefix("English (US)", "Keyboard - "), "English (US)");
    assert_eq!(strip_prefix("US Keyboard - layout", "Keyboard - "), "US Keyboard - layout");
}

#[test]
fn parse_u64_exact_bounds() {
    assert_eq!(parse_u64("0"), Some(0));
    assert_eq!(parse_u64("123"), Some(123));
    assert_eq!(parse_u64("18446744073709551615"), Some(u64::MAX));
    assert_eq!(parse_u64("18446744073709551616"), None);
    assert_eq!(parse_u64(""), None);
    assert_eq!(parse_u64("12a"), None);
    assert_eq!(parse_u64("-3"), None);
}

#[test]
fn u64_renders_in_decimal() {
    assert_eq!(u64_to_string(0), "0");
    assert_eq!(u64_to_string(7), "7");
    assert_eq!(u64_to_string(255), "255");
    assert_eq!(u64_to_string(1000), "1000");
}

#[test]
fn split_whitespace_keeps_token_order() {
    assert_eq!(split_whitespace("  a bb\t c "), vec![s("a"), s("bb"), s("c")]);
    assert_eq!(split_whitespace(""), Vec::<String>::new());
    assert_eq!(split_whitespace("  \t "), Vec::<String>::new());
}

#[test]
fn extract_number_between_colon_and_kb() {
    assert_eq!(extract_number("MemTotal:       16256332 kB"), Some(16256332));
    assert_eq!(extract_number("MemTotal 16256332 kB"), None);
    assert_eq!(extract_number("MemTotal:       16256332"), None);
    assert_eq!(extract_number("MemTotal:       x kB"), None);
}

#[test]
fn mem_usage_takes_both_counters() {
    let lines = vec![
        s("MemTotal:       1024 kB"),
        s("MemFree:          99 kB"),
        s("MemAvailable:    512 kB"),
        s("Buffers:          11 kB"),
    ];
    assert_eq!(get_ram_usage(&lines), Some(MemInfo { total: 1024, avail: 512 }));
}

#[test]
fn mem_usage_stops_after_two_hits() {
    let lines = vec![
        s("SwapTotal:       100 kB"),
        s("SwapFree:         40 kB"),
        s("SwapTotal:       broken kB"),
    ];
    assert_eq!(get_swap_usage(&lines), Some(MemInfo { total: 100, avail: 40 }));
}

#[test]
fn mem_usage_two_total_hits_consume_the_budget() {
    let lines = vec![
        s("SwapTotal:       100 kB"),
        s("SwapTotal:       200 kB"),
        s("SwapFree:         40 kB"),
    ];
    // The second title hit overwrites the first and exhausts the scan
    // before the free counter is ever seen.
    assert_eq!(get_swap_usage(&lines), Some(MemInfo { total: 200, avail: 0 }));
}

#[test]
fn mem_usage_rejects_bad_hit_line() {
    let lines = vec![s("SwapTotal: x kB")];
    assert_eq!(get_mem_usage(&lines, "SwapTotal", "SwapFree"), None);
}

#[test]
fn cpu_usage_sums_the_consulted_fields() {
    let lines = vec![
        s("cpu  100 200 300 400 500 600 700 0 0 0"),
        s("cpu0 1 2 3 4 5 6 7 0 0 0"),
    ];
    // work = 100 + 200 + 300; total adds the fifth field once and the
    // sixth field three times over.
    assert_eq!(get_cpu_usage(&lines), Some(CpuUsage { work: 600, total: 2500 }));
}

#[test]
fn cpu_usage_without_cpu_line_is_zero() {
    let lines = vec![s("intr 1 2 3")];
    assert_eq!(get_cpu_usage(&lines), Some(CpuUsage { work: 0, total: 0 }));
}

#[test]
fn network_io_parses_both_counters() {
    assert_eq!(
        get_network_io("123\n", " 456 "),
        Some(NetworkIo { received: 123, sent: 456 })
    );
    assert_eq!(get_network_io("123\n", "x"), None);
}

#[test]
fn read_stat_trims_the_counter_file() {
    assert_eq!(read_stat(" 42\n"), Some(42));
    assert_eq!(read_stat("many"), None);
}

#[test]
fn networks_classify_by_first_letter() {
    let names = vec![s("lo"), s("enp3s0"), s("wlp2s0"), s("docker0")];
    let nets = get_networks(&names);
    assert_eq!(nets.wired, Some(s("enp3s0")));
    assert_eq!(nets.wireless, Some(s("wlp2s0")));
}

#[test]
fn wifi_name_from_info_output() {
    let iw = "Interface wlp2s0\n\tifindex 3\n\tssid HomeNet\n\ttype managed\n";
    assert_eq!(get_wifi_name(Some(iw), None), Some(s("HomeNet")));
}

#[test]
fn wifi_name_falls_back_and_rejects_empty() {
    assert_eq!(get_wifi_name(None, Some("HomeNet\n")), Some(s("HomeNet")));
    assert_eq!(get_wifi_name(None, Some("\n")), None);
    assert_eq!(get_wifi_name(None, None), None);
}

#[test]
fn net_stat_path_is_assembled() {
    assert_eq!(
        net_stat_path("eth0", "rx_bytes"),
        "/sys/class/net/eth0/statistics/rx_bytes"
    );
}

#[test]
fn disk_io_counts_only_listed_drives() {
    let drives = vec![s("sda"), s("nvme0n1")];
    let lines = vec![
        s("   8       0 sda 5 0 10 0 0 0 20 0 0 0 0 0 0"),
        s("   8       1 sda1 5 0 99 0 0 0 99 0 0 0 0 0 0"),
        s(" 259       0 nvme0n1 5 0 4 0 0 0 6 0 0 0 0 0 0"),
    ];
    // (10 + 4) and (20 + 6) sectors of 512 bytes.
    assert_eq!(get_disk_io(&drives, &lines), Some(DiskIo { read: 7168, write: 13312 }));
}

#[test]
fn disk_io_rejects_short_counted_line() {
    let drives = vec![s("sda")];
    let lines = vec![s("8 0 sda 5 0 10")];
    assert_eq!(get_disk_io(&drives, &lines), None);
}

#[test]
fn battery_info_from_file_contents() {
    assert_eq!(
        get_battery_info("1000\n", "2000\n", "2500\n", "1\n"),
        Some(BatteryInfo { now: 1000, full: 2000, full_design: 2500, charging: true })
    );
    assert_eq!(
        get_battery_info("1000\n", "2000\n", "2500\n", "0\n"),
        Some(BatteryInfo { now: 1000, full: 2000, full_design: 2500, charging: false })
    );
    assert_eq!(get_battery_info("x", "2000", "2500", "1"), None);
}

#[test]
fn battery_path_is_assembled() {
    assert_eq!(energy_path("now"), "/sys/class/power_supply/BAT1/energy_now");
}

#[test]
fn brightness_rounds_half_up() {
    assert_eq!(get_brightness(50, 100), 50);
    assert_eq!(get_brightness(1, 3), 33);
    assert_eq!(get_brightness(2, 3), 67);
    assert_eq!(get_brightness(0, 7), 0);
    assert_eq!(get_brightness(7, 7), 100);
}

#[test]
fn brightness_path_is_assembled() {
    assert_eq!(
        path_of("max_brightness"),
        "/sys/class/backlight/intel_backlight/max_brightness"
    );
}

#[test]
fn sink_state_from_listing() {
    let raw = "Sink #0\n\tState: RUNNING\n\tMute: no\n\tVolume: front-left: 43250 /  66% / -10.87 dB\n";
    assert_eq!(get_sink_state(raw), Some(SinkState { muted: false, volume: 66 }));
}

#[test]
fn sink_state_muted() {
    let raw = "Mute: yes\n\tVolume: front-left: 0 /   0% / -inf dB\n";
    assert_eq!(get_sink_state(raw), Some(SinkState { muted: true, volume: 0 }));
}

#[test]
fn sink_state_rejects_unknown_mute_value() {
    assert_eq!(get_sink_state("Mute: maybe\n 10%"), None);
    assert_eq!(get_sink_state("no mute marker at all"), None);
}

#[test]
fn brightness_icon_by_band() {
    assert_eq!(brightness_icon(0), "🌑");
    assert_eq!(brightness_icon(20), "🌘");
    assert_eq!(brightness_icon(59), "🌗");
    assert_eq!(brightness_icon(60), "🌖");
    assert_eq!(brightness_icon(100), "🌕");
}

#[test]
fn sink_icon_by_volume_and_mute() {
    assert_eq!(sink_icon(&SinkState { muted: true, volume: 99 }), "🔇");
    assert_eq!(sink_icon(&SinkState { muted: false, volume: 10 }), "🔈");
    assert_eq!(sink_icon(&SinkState { muted: false, volume: 50 }), "🔉");
    assert_eq!(sink_icon(&SinkState { muted: false, volume: 90 }), "🔊");
}

#[test]
fn image_paths_by_extension() {
    assert!(is_image_path("/backgrounds/a.jpg"));
    assert!(is_image_path("/backgrounds/b.webp"));
    assert!(!is_image_path("/backgrounds/notes.txt"));
}

#[test]
fn index_draw_rejects_previous_only() {
    assert!(accepts_index(3, None));
    assert!(accepts_index(3, Some(4)));
    assert!(!accepts_index(3, Some(3)));
}
