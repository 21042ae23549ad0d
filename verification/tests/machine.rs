use tri_mon::control::{quits, remaining_nanos, Key, REFRESH_MS};
use tri_mon::discover::{
    core_freq_path, core_freq_paths, find_gpu_card, find_hwmon, gpu_dir, join, proc_stat_path,
    read_card_number, read_pid, vram_probe_path, DrmEntry, HwmonEntry,
};

fn entry(name: &str, vram: bool) -> DrmEntry {
    DrmEntry { name: Some(name.to_string()), vram }
}

#[test]
fn connectors_are_no_cards() {
    assert_eq!(read_card_number("card1"), Some(1));
    assert_eq!(read_card_number("card12"), Some(12));
    assert_eq!(read_card_number("card1-DP-1"), None);
    assert_eq!(read_card_number("card"), None);
    assert_eq!(read_card_number("renderD128"), None);
    assert_eq!(read_card_number("card4294967296"), None);
}

#[test]
fn first_card_with_memory_is_found() {
    let list = vec![
        entry("version", true),
        entry("card1-DP-1", true),
        entry("card0", false),
        entry("card2", true),
        entry("card3", true),
    ];
    assert_eq!(find_gpu_card(&list), Some(2));
    assert_eq!(find_gpu_card(&vec![]), None);
    assert_eq!(find_gpu_card(&vec![entry("card0", false)]), None);
}

#[test]
fn unreadable_entry_ends_the_search() {
    let list = vec![DrmEntry { name: None, vram: false }, entry("card1", true)];
    assert_eq!(find_gpu_card(&list), None);
    let monitor = HwmonEntry { path: "/a".to_string(), name: "k10temp\n".to_string() };
    assert_eq!(find_hwmon(&vec![None, Some(monitor)], "k10temp"), None);
}

#[test]
fn first_monitor_of_a_name_is_found() {
    let found = [("/h0", "nvme\n"), ("/h1", " k10temp\n"), ("/h2", "k10temp")];
    let list: Vec<Option<HwmonEntry>> = found
        .iter()
        .map(|(path, name)| Some(HwmonEntry { path: path.to_string(), name: name.to_string() }))
        .collect();
    assert_eq!(find_hwmon(&list, "k10temp"), Some("/h1".to_string()));
    assert_eq!(find_hwmon(&list, "amdgpu"), None);
}

#[test]
fn paths_are_put_together() {
    assert_eq!(gpu_dir(1), "/sys/class/drm/card1/device");
    assert_eq!(
        core_freq_path(23),
        "/sys/devices/system/cpu/cpu23/cpufreq/scaling_cur_freq"
    );
    assert_eq!(core_freq_paths().len(), 24);
    assert_eq!(core_freq_paths()[7], core_freq_path(7));
    assert_eq!(proc_stat_path(4321), "/proc/4321/stat");
    assert_eq!(join("/a/b", "temp1_input"), "/a/b/temp1_input");
    assert_eq!(
        vram_probe_path("card0"),
        Some("/sys/class/drm/card0/device/mem_info_vram_total".to_string())
    );
    assert_eq!(vram_probe_path("card0-HDMI-A-1"), None);
}

#[test]
fn processes_are_entries_with_a_number() {
    assert_eq!(read_pid("4321"), Some(4321));
    assert_eq!(read_pid("self"), None);
    assert_eq!(read_pid("4294967296"), None);
}

#[test]
fn q_and_escape_quit() {
    assert!(quits(true, Key::Char('q')));
    assert!(quits(true, Key::Esc));
    assert!(!quits(true, Key::Char('Q')));
    assert!(!quits(true, Key::Other));
    assert!(!quits(false, Key::Char('q')));
    assert!(!quits(false, Key::Esc));
}

#[test]
fn refresh_takes_its_full_time() {
    assert_eq!(REFRESH_MS, 200);
    assert_eq!(remaining_nanos(0), 200_000_000);
    assert_eq!(remaining_nanos(1_500_000), 198_500_000);
    assert_eq!(remaining_nanos(200_000_000), 0);
    assert_eq!(remaining_nanos(u128::MAX), 0);
}
