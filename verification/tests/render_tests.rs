//! Visual width, uptime decomposition, and the two-column rendering.

use fortfetch::config::get_logo;
use fortfetch::get_string_length;
use fortfetch::max_visual_width;
use fortfetch::parse_uptime_seconds;
use fortfetch::render_rows;
use fortfetch::Uptime;

#[test]
fn width_counts_plain_characters() {
    assert_eq!(get_string_length(""), 0);
    assert_eq!(get_string_length("hello"), 5);
    assert_eq!(get_string_length("привет"), 6);
}

#[test]
fn width_ignores_color_sequences() {
    assert_eq!(get_string_length("\x1b[0;34m██\x1b[0m"), 2);
    assert_eq!(get_string_length("\x1b[1;37mhi\x1b[0m there"), 8);
    assert_eq!(get_string_length("\x1b[0m"), 0);
}

#[test]
fn width_of_odd_escapes() {
    assert_eq!(get_string_length("\x1b"), 0);
    assert_eq!(get_string_length("\x1bx"), 1);
    assert_eq!(get_string_length("\x1b[123"), 0);
}

#[test]
fn uptime_decomposition() {
    let u = Uptime::new(90061);
    assert_eq!(u.get(), "1д. 1ч. 1м.");
}

#[test]
fn uptime_of_zero_seconds() {
    assert_eq!(Uptime::new(0).get(), "0д. 0ч. 0м.");
}

#[test]
fn uptime_just_under_a_day() {
    assert_eq!(Uptime::new(86399).get(), "0д. 23ч. 59м.");
}

#[test]
fn uptime_seconds_take_the_whole_part() {
    assert_eq!(parse_uptime_seconds("12345.67 99999.99\n"), Some(12345));
    assert_eq!(parse_uptime_seconds("123"), Some(123));
    assert_eq!(parse_uptime_seconds("123."), Some(123));
}

#[test]
fn uptime_seconds_reject_malformed_input() {
    assert_eq!(parse_uptime_seconds(""), None);
    assert_eq!(parse_uptime_seconds("abc 1.0"), None);
    assert_eq!(parse_uptime_seconds(".5"), None);
    assert_eq!(parse_uptime_seconds("12x.5"), None);
    assert_eq!(parse_uptime_seconds("12.5x"), None);
}

#[test]
fn logo_has_its_rows() {
    let logo = get_logo();
    assert_eq!(logo.len(), 23);
    let maxw = max_visual_width(&logo);
    for row in &logo {
        assert!(get_string_length(row) <= maxw);
    }
}

#[test]
fn render_interleaves_and_pads() {
    let logo = vec!["aaaaa".to_string(), "bbbbbbb".to_string(), "ccc".to_string()];
    let info = vec![
        "i0".to_string(),
        "i1".to_string(),
        "i2".to_string(),
        "i3".to_string(),
        "i4".to_string(),
    ];
    let rows = render_rows(&logo, &info, 4);
    assert_eq!(rows.len(), 5);
    assert_eq!(rows[0], "aaaaa      i0");
    assert_eq!(rows[1], "bbbbbbb    i1");
    assert_eq!(rows[2], "ccc        i2");
    assert_eq!(rows[3], "           i3");
    assert_eq!(rows[4], "           i4");
}

#[test]
fn render_with_longer_logo() {
    let logo = vec!["xx".to_string(), "y".to_string(), "zzz".to_string()];
    let info = vec!["only".to_string()];
    let rows = render_rows(&logo, &info, 4);
    assert_eq!(rows.len(), 3);
    assert_eq!(rows[0], "xx     only");
    assert_eq!(rows[1], "y      ");
    assert_eq!(rows[2], "zzz    ");
}

#[test]
fn render_ignores_color_bytes_when_aligning() {
    let logo = vec!["\x1b[1;34mab\x1b[0m".to_string(), "abcd".to_string()];
    let info = vec!["x".to_string(), "y".to_string()];
    let rows = render_rows(&logo, &info, 1);
    assert_eq!(rows[0], "\x1b[1;34mab\x1b[0m   x");
    assert_eq!(rows[1], "abcd y");
}
