//! Assembly of the info column.

use fortfetch::get_info;
use fortfetch::HostFacts;

fn sample_facts(battery: &str) -> HostFacts {
    HostFacts {
        username: "user".to_string(),
        hostname: "host".to_string(),
        distro: "Some Linux 1.0".to_string(),
        kernel: "6.1.0".to_string(),
        uptime: "1д. 2ч. 3м.".to_string(),
        packages: "1234".to_string(),
        shell: "zsh".to_string(),
        cpu: "Neat CPU".to_string(),
        gpu: "Neat GPU".to_string(),
        disk: "10.00GB / 20.00GB (50%)".to_string(),
        cpu_usage: "7%".to_string(),
        temperature: "45°C".to_string(),
        load_average: "0.1 0.2 0.3".to_string(),
        desktop: "GNOME".to_string(),
        resolution: "1920x1080".to_string(),
        terminal: "xterm".to_string(),
        locale: "en_US.UTF-8".to_string(),
        processes: "321".to_string(),
        users: "2".to_string(),
        network: "wlan0 (192.168.1.7)".to_string(),
        battery: battery.to_string(),
    }
}

#[test]
fn info_without_battery_section() {
    let lines = get_info(&sample_facts("Подключен к сети"));
    assert_eq!(lines.len(), 30);
    assert_eq!(lines[0], "\x1b[1;37muser\x1b[0;37m@\x1b[1;34mhost\x1b[0m");
    assert_eq!(
        lines[1],
        format!("\x1b[1;30m{}\x1b[0m", "─".repeat(45))
    );
    assert_eq!(lines[2], "\x1b[1;34m \x1b[1;37mСистема\x1b[0m");
    assert_eq!(
        lines[3],
        "\x1b[1;34m├─ \x1b[1;37mАбонент\x1b[0m     \x1b[0;37mhost\x1b[0m"
    );
    assert_eq!(
        lines[6],
        "\x1b[1;34m├─ \x1b[1;37mПополнение\x1b[0m \x1b[0;37m1д. 2ч. 3м.назад\x1b[0m"
    );
    assert_eq!(
        lines[8],
        "\x1b[1;34m└─ \x1b[1;37mОболочка\x1b[0m  \x1b[0;37mzsh\x1b[0m"
    );
    assert_eq!(lines[9], "");
    assert_eq!(lines[28], "");
    assert!(lines[29].starts_with("\x1b[0;37mЦвета: \x1b[0;30m███\x1b[0m"));
    assert!(lines[29].ends_with("\x1b[1;37m███\x1b[0m"));
}

#[test]
fn info_with_battery_section() {
    let lines = get_info(&sample_facts("85% [Charging]"));
    assert_eq!(lines.len(), 32);
    assert_eq!(lines[28], "");
    assert_eq!(
        lines[29],
        "\x1b[1;34m \x1b[1;37mБатарея\x1b[0m     \x1b[0;37m85% [Charging]\x1b[0m"
    );
    assert_eq!(lines[30], "");
}

#[test]
fn battery_sentinel_inside_longer_text_still_hides_the_section() {
    let lines = get_info(&sample_facts("статус: Подключен к сети (100%)"));
    assert_eq!(lines.len(), 30);
}

#[test]
fn full_report_pairs_logo_and_info_rows() {
    let logo = fortfetch::config::get_logo();
    let info = get_info(&sample_facts("Подключен к сети"));
    let rows = fortfetch::render_rows(&logo, &info, 4);
    assert_eq!(rows.len(), 30);
    assert!(rows[0].starts_with(logo[0].as_str()));
    assert!(rows[0].ends_with(info[0].as_str()));
    assert!(rows[23].starts_with(' '));
    assert!(rows[23].ends_with(info[23].as_str()));
}
