//! The probe layer: each probe on well-formed input, on malformed input,
//! and on a missing source, where its documented fallback must appear.

use fortfetch::get_battery_info;
use fortfetch::get_cpu_model;
use fortfetch::get_cpu_usage;
use fortfetch::get_desktop_environment;
use fortfetch::get_disk_info;
use fortfetch::get_gpu_model;
use fortfetch::get_load_average;
use fortfetch::get_locale_info;
use fortfetch::get_memory_info;
use fortfetch::get_network_info;
use fortfetch::get_package_count;
use fortfetch::get_processes_count;
use fortfetch::get_resolution;
use fortfetch::get_shell;
use fortfetch::get_temperature;
use fortfetch::get_terminal;
use fortfetch::get_users_count;
use fortfetch::probes::count_package_lines;
use fortfetch::probes::count_rpm_entries;
use fortfetch::probes::default_route_interface;
use fortfetch::probes::parse_interface_address;
use fortfetch::probes::parse_xdpyinfo_resolution;
use fortfetch::probes::parse_xrandr_resolution;
use fortfetch::probes::parse_wlr_resolution;

#[test]
fn desktop_environment_priority_order() {
    let r = get_desktop_environment(Some("GNOME"), Some("gnome"), Some("gdm"));
    assert_eq!(r, Some("GNOME".to_string()));
    let r = get_desktop_environment(Some(""), Some("plasma"), None);
    assert_eq!(r, Some("plasma".to_string()));
    let r = get_desktop_environment(None, None, Some("xfce"));
    assert_eq!(r, Some("xfce".to_string()));
    assert_eq!(get_desktop_environment(None, Some(""), None), None);
    assert_eq!(get_desktop_environment(None, None, None), None);
}

#[test]
fn shell_reduces_to_final_component() {
    assert_eq!(get_shell(Some("/usr/bin/zsh")), "zsh");
    assert_eq!(get_shell(Some("bash")), "bash");
    assert_eq!(get_shell(Some("/bin/")), "");
    assert_eq!(get_shell(None), "?");
}

#[test]
fn shell_empty_value_falls_back() {
    assert_eq!(get_shell(Some("")), "?");
}

#[test]
fn terminal_and_locale_fall_back() {
    assert_eq!(get_terminal(Some("xterm-256color")), "xterm-256color");
    assert_eq!(get_terminal(None), "?");
    assert_eq!(get_terminal(Some("")), "?");
    assert_eq!(get_locale_info(Some("en_US.UTF-8")), "en_US.UTF-8");
    assert_eq!(get_locale_info(None), "?");
    assert_eq!(get_locale_info(Some("")), "?");
}

#[test]
fn battery_reading_is_trimmed_and_framed() {
    let r = get_battery_info(Some(("85\n", "Charging\n")));
    assert_eq!(r, "85% [Charging]");
}

#[test]
fn battery_absence_reports_mains_power() {
    let r = get_battery_info(None);
    assert_eq!(r, "Подключен к сети");
    assert_ne!(r, "?");
}

#[test]
fn users_count_counts_lines() {
    assert_eq!(get_users_count(Some("alice tty1\nbob tty2\n")), "2");
    assert_eq!(get_users_count(Some("")), "0");
    assert_eq!(get_users_count(None), "?");
}

#[test]
fn load_average_takes_three_fields() {
    assert_eq!(get_load_average(Some("0.52 0.58 0.59 1/234 5678\n")), "0.52 0.58 0.59");
    assert_eq!(get_load_average(Some("0.52 0.58")), "?");
    assert_eq!(get_load_average(None), "?");
}

#[test]
fn processes_count_keeps_numeric_names() {
    let names = vec![
        "1".to_string(),
        "23".to_string(),
        "cpuinfo".to_string(),
        "45x".to_string(),
        "678".to_string(),
    ];
    assert_eq!(get_processes_count(Some(&names)), "3");
    assert_eq!(get_processes_count(None), "?");
}

#[test]
fn package_status_file_is_counted() {
    let status = "Package: alpha\nVersion: 1\n\nPackage: beta\nVersion: 2\nPackages: not-a-marker\n";
    assert_eq!(count_package_lines(status), 2);
}

#[test]
fn rpm_entries_need_the_extension() {
    let names = vec![
        "alpha-1.rpm".to_string(),
        "notes.txt".to_string(),
        ".rpm".to_string(),
        "beta-2.x86_64.rpm".to_string(),
        "rpm".to_string(),
    ];
    assert_eq!(count_rpm_entries(&names), 2);
}

#[test]
fn package_count_prefers_the_status_file() {
    let status = "Package: alpha\nPackage: beta\n".to_string();
    let rpms = vec!["one.rpm".to_string()];
    let r = get_package_count(Some(&status), true, Some(&rpms), Some(9));
    assert_eq!(r, Some(2));
}

#[test]
fn package_count_falls_through_in_order() {
    let rpms = vec!["one.rpm".to_string(), "two.rpm".to_string()];
    assert_eq!(get_package_count(None, true, Some(&rpms), Some(9)), Some(2));
    assert_eq!(get_package_count(None, true, None, Some(9)), None);
    assert_eq!(get_package_count(None, false, None, Some(9)), Some(9));
    assert_eq!(get_package_count(None, false, None, None), None);
}

#[test]
fn cpu_model_reads_the_first_model_line() {
    let cpuinfo = "processor\t: 0\nvendor_id\t: Genuine\nmodel name\t: Neat CPU @ 3.50GHz\nmodel name\t: Other CPU\n";
    assert_eq!(get_cpu_model(Some(cpuinfo)), Some("Neat CPU @ 3.50GHz".to_string()));
}

#[test]
fn cpu_model_keeps_colons_inside_the_value() {
    let cpuinfo = "model name\t: Neat CPU: Turbo Edition\n";
    assert_eq!(get_cpu_model(Some(cpuinfo)), Some("Neat CPU: Turbo Edition".to_string()));
}

#[test]
fn cpu_model_without_colon_yields_nothing() {
    assert_eq!(get_cpu_model(Some("model name without separator\n")), None);
    assert_eq!(get_cpu_model(Some("processor: 0\n")), None);
    assert_eq!(get_cpu_model(None), None);
}

#[test]
fn gpu_model_takes_text_after_second_colon() {
    let out = "00:01.0 Audio device: Vendor Audio\n00:02.0 VGA compatible controller: Vendor Graphics 620 (rev 07)\n";
    assert_eq!(get_gpu_model(Some(out)), Some("Vendor Graphics 620 (rev 07)".to_string()));
}

#[test]
fn gpu_match_is_case_insensitive() {
    let out = "01:00.0 3d controller: Accel Unit\n";
    assert_eq!(get_gpu_model(Some(out)), Some("Accel Unit".to_string()));
    assert_eq!(get_gpu_model(Some("no display device here\n")), None);
    assert_eq!(get_gpu_model(None), None);
}

#[test]
fn memory_info_formats_used_and_percentage() {
    let eight_gb = 8 * 1024 * 1024;
    let two_gb = 2 * 1024 * 1024;
    let r = get_memory_info(Some((eight_gb, two_gb)));
    assert_eq!(r, Some("6.00GB / 8.00GB (75%)".to_string()));
}

#[test]
fn memory_small_values_and_zero_total() {
    assert_eq!(get_memory_info(Some((1024, 512))), Some("0.00GB / 0.00GB (50%)".to_string()));
    assert_eq!(get_memory_info(Some((0, 0))), None);
    assert_eq!(get_memory_info(None), None);
}

#[test]
fn disk_info_formats_megabytes() {
    assert_eq!(get_disk_info(Some((1024, 512))), Some("0.50GB / 1.00GB (50%)".to_string()));
    assert_eq!(get_disk_info(Some((0, 0))), None);
    assert_eq!(get_disk_info(None), None);
}

#[test]
fn temperature_divides_to_whole_degrees() {
    assert_eq!(get_temperature(Some("45500\n")), "45°C");
    assert_eq!(get_temperature(Some("-5500")), "-5°C");
    assert_eq!(get_temperature(Some("-500")), "0°C");
}

#[test]
fn temperature_falls_back_on_bad_input() {
    assert_eq!(get_temperature(Some("warm")), "?");
    assert_eq!(get_temperature(Some("2147483648")), "?");
    assert_eq!(get_temperature(None), "?");
}

#[test]
fn cpu_usage_from_jiffie_counters() {
    let stat = "cpu  100 0 0 100 0 0 0 0 0 0\ncpu0 50 0 0 50 0 0 0 0 0 0\n";
    assert_eq!(get_cpu_usage(Some(stat)), "50%");
}

#[test]
fn cpu_usage_fallbacks() {
    assert_eq!(get_cpu_usage(Some("cpu 0 0 0 0 0 0 0\n")), "?");
    assert_eq!(get_cpu_usage(Some("cpu 1 2 3\n")), "?");
    assert_eq!(get_cpu_usage(Some("")), "?");
    assert_eq!(get_cpu_usage(None), "?");
}

#[test]
fn cpu_usage_treats_bad_fields_as_zero() {
    let stat = "cpu x 0 0 100 0 0 0 0\n";
    assert_eq!(get_cpu_usage(Some(stat)), "0%");
}

#[test]
fn default_route_interface_is_fifth_field() {
    let route = "default via 192.168.1.1 dev wlan0 proto dhcp metric 600\n";
    assert_eq!(default_route_interface(route), Some("wlan0".to_string()));
    assert_eq!(default_route_interface(""), None);
    assert_eq!(default_route_interface("default via 10.0.0.1\n"), None);
}

#[test]
fn interface_address_skips_loopback() {
    let addr = "1: lo: <LOOPBACK>\n    inet 127.0.0.1/8 scope host lo\n    inet 192.168.1.7/24 brd 192.168.1.255\n";
    assert_eq!(parse_interface_address(addr), Some("192.168.1.7".to_string()));
    assert_eq!(parse_interface_address("no addresses here\n"), None);
}

#[test]
fn network_info_combines_interface_and_address() {
    let r = get_network_info(Some("wlan0".to_string()), Some("192.168.1.7".to_string()));
    assert_eq!(r, "wlan0 (192.168.1.7)");
    assert_eq!(get_network_info(Some("wlan0".to_string()), None), "wlan0");
    assert_eq!(get_network_info(None, None), "Нет соединения");
}

#[test]
fn xrandr_resolution_from_starred_line() {
    let out = "Screen 0: minimum 320 x 200\n   1920x1080     60.00*+  48.00\n   1280x720      60.00\n";
    assert_eq!(parse_xrandr_resolution(out), Some("1920x1080".to_string()));
    assert_eq!(parse_xrandr_resolution("nothing active\n"), None);
}

#[test]
fn xdpyinfo_resolution_from_dimensions_line() {
    let out = "name of display: :0\n  dimensions:    1920x1080 pixels (508x285 millimeters)\n";
    assert_eq!(parse_xdpyinfo_resolution(out), Some("1920x1080".to_string()));
    assert_eq!(parse_xdpyinfo_resolution("screen #0:\n"), None);
}

#[test]
fn wlr_resolution_from_current_line() {
    let out = "Output eDP-1\n  Modes:\n    1920x1080 px, 60.000000 Hz (preferred, current)\n";
    assert_eq!(parse_wlr_resolution(out), Some("1920x1080".to_string()));
    assert_eq!(parse_wlr_resolution("no mode\n"), None);
}

#[test]
fn resolution_tries_sources_in_order() {
    let xrandr = "   1024x768 75.00*\n";
    let xdpy = "  dimensions:    1920x1080 pixels\n";
    let wlr = "  640x480 px, 60 Hz (current)\n";
    assert_eq!(get_resolution(Some(xrandr), Some(xdpy), Some(wlr)), "1024x768");
    assert_eq!(get_resolution(None, Some(xdpy), Some(wlr)), "1920x1080");
    assert_eq!(get_resolution(Some("no star\n"), None, Some(wlr)), "640x480");
    assert_eq!(get_resolution(None, None, None), "?");
}
