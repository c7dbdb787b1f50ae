//! Assembly of the info column: the gathered host facts arranged into
//! their fixed order of colored, labeled rows with section headers and
//! tree-drawing connectors, closed by the color swatch.

use vstd::prelude::*;
use vstd::string::*;

use crate::config::BLACK;
use crate::config::BLUE;
use crate::config::CYAN;
use crate::config::DARK_GRAY;
use crate::config::GREEN;
use crate::config::LIGHT_BLUE;
use crate::config::LIGHT_GRAY;
use crate::config::NC;
use crate::config::PURPLE;
use crate::config::RED;
use crate::config::WHITE;
use crate::config::YELLOW;
use crate::probes::mains_power_text;
use crate::text::contains_lit;
use crate::text::contains_seq;
use crate::text::to_chars;

verus! {

/// Every fact the report shows, already reduced to display strings by the
/// probe layer.
pub struct HostFacts {
    pub username: String,
    pub hostname: String,
    pub distro: String,
    pub kernel: String,
    pub uptime: String,
    pub packages: String,
    pub shell: String,
    pub cpu: String,
    pub gpu: String,
    pub disk: String,
    pub cpu_usage: String,
    pub temperature: String,
    pub load_average: String,
    pub desktop: String,
    pub resolution: String,
    pub terminal: String,
    pub locale: String,
    pub processes: String,
    pub users: String,
    pub network: String,
    pub battery: String,
}

/// The opening `user@host` row.
pub open spec fn spec_header_row(username: Seq<char>, hostname: Seq<char>) -> Seq<char> {
    WHITE@ + username + LIGHT_GRAY@ + "@"@ + LIGHT_BLUE@ + hostname + NC@
}

fn header_row(username: &str, hostname: &str) -> (r: String)
    ensures
        r@ == spec_header_row(username@, hostname@),
{
    let mut r = String::from_str(WHITE);
    r.append(username);
    r.append(LIGHT_GRAY);
    r.append("@");
    r.append(LIGHT_BLUE);
    r.append(hostname);
    r.append(NC);
    proof {
        assert(r@ =~= spec_header_row(username@, hostname@));
    }
    r
}

/// The horizontal rule under the header.
pub open spec fn spec_separator_row() -> Seq<char> {
    DARK_GRAY@ + "─────────────────────────────────────────────"@ + NC@
}

fn separator_row() -> (r: String)
    ensures
        r@ == spec_separator_row(),
{
    let mut r = String::from_str(DARK_GRAY);
    r.append("─────────────────────────────────────────────");
    r.append(NC);
    proof {
        assert(r@ =~= spec_separator_row());
    }
    r
}

/// A section header row.
pub open spec fn spec_section_row(title: Seq<char>) -> Seq<char> {
    LIGHT_BLUE@ + " "@ + WHITE@ + title + NC@
}

fn section_row(title: &str) -> (r: String)
    ensures
        r@ == spec_section_row(title@),
{
    let mut r = String::from_str(LIGHT_BLUE);
    r.append(" ");
    r.append(WHITE);
    r.append(title);
    r.append(NC);
    proof {
        assert(r@ =~= spec_section_row(title@));
    }
    r
}

/// One labeled fact row: the tree connector (a closing one for the last
/// row of a section), the label, its alignment padding, and the value.
pub open spec fn spec_fact_row(
    label: Seq<char>,
    pad: Seq<char>,
    value: Seq<char>,
    last: bool,
) -> Seq<char> {
    LIGHT_BLUE@ + (if last {
        "└─ "@
    } else {
        "├─ "@
    }) + WHITE@ + label + NC@ + pad + LIGHT_GRAY@ + value + NC@
}

fn fact_row(label: &str, pad: &str, value: &str, last: bool) -> (r: String)
    ensures
        r@ == spec_fact_row(label@, pad@, value@, last),
{
    let mut r = String::from_str(LIGHT_BLUE);
    if last {
        r.append("└─ ");
    } else {
        r.append("├─ ");
    }
    r.append(WHITE);
    r.append(label);
    r.append(NC);
    r.append(pad);
    r.append(LIGHT_GRAY);
    r.append(value);
    r.append(NC);
    proof {
        assert(r@ =~= spec_fact_row(label@, pad@, value@, last));
    }
    r
}

/// The battery row, shown header-style in its own section.
pub open spec fn spec_battery_row(value: Seq<char>) -> Seq<char> {
    LIGHT_BLUE@ + " "@ + WHITE@ + "Батарея"@ + NC@ + "     "@ + LIGHT_GRAY@ + value + NC@
}

fn battery_row(value: &str) -> (r: String)
    ensures
        r@ == spec_battery_row(value@),
{
    let mut r = String::from_str(LIGHT_BLUE);
    r.append(" ");
    r.append(WHITE);
    r.append("Батарея");
    r.append(NC);
    r.append("     ");
    r.append(LIGHT_GRAY);
    r.append(value);
    r.append(NC);
    proof {
        assert(r@ =~= spec_battery_row(value@));
    }
    r
}

/// The closing swatch of the eight named colors.
pub open spec fn spec_palette_row() -> Seq<char> {
    LIGHT_GRAY@ + "Цвета: "@ + BLACK@ + "███"@ + NC@ + RED@ + "███"@ + NC@ + GREEN@ + "███"@ + NC@
        + YELLOW@ + "███"@ + NC@ + BLUE@ + "███"@ + NC@ + PURPLE@ + "███"@ + NC@ + CYAN@ + "███"@
        + NC@ + WHITE@ + "███"@ + NC@
}

fn palette_block(r: &mut String, color: &'static str)
    ensures
        final(r)@ == old(r)@ + color@ + "███"@ + NC@,
{
    r.append(color);
    r.append("███");
    r.append(NC);
    proof {
        assert(final(r)@ =~= old(r)@ + color@ + "███"@ + NC@);
    }
}

fn palette_row() -> (r: String)
    ensures
        r@ == spec_palette_row(),
{
    let mut r = String::from_str(LIGHT_GRAY);
    r.append("Цвета: ");
    palette_block(&mut r, BLACK);
    palette_block(&mut r, RED);
    palette_block(&mut r, GREEN);
    palette_block(&mut r, YELLOW);
    palette_block(&mut r, BLUE);
    palette_block(&mut r, PURPLE);
    palette_block(&mut r, CYAN);
    palette_block(&mut r, WHITE);
    proof {
        assert(r@ =~= spec_palette_row());
    }
    r
}

/// The info column for the gathered facts: identity header and rule, the
/// fact sections in their fixed order and spacing, a battery section only
/// when the battery fact does not report mains power, and the closing
/// color swatch.
pub open spec fn spec_info_lines(f: HostFacts) -> Seq<Seq<char>> {
    let head = seq![
        spec_header_row(f.username@, f.hostname@),
        spec_separator_row(),
        spec_section_row("Система"@),
        spec_fact_row("Абонент"@, "     "@, f.hostname@, false),
        spec_fact_row("Тариф"@, "      "@, f.distro@, false),
        spec_fact_row("Прошивка"@, "   "@, f.kernel@, false),
        spec_fact_row("Пополнение"@, " "@, f.uptime@ + "назад"@, false),
        spec_fact_row("Вирусов"@, "    "@, f.packages@, false),
        spec_fact_row("Оболочка"@, "  "@, f.shell@, true),
        Seq::<char>::empty(),
        spec_section_row("Железо"@),
        spec_fact_row("ЦП"@, "         "@, f.cpu@, false),
        spec_fact_row("ГПУ"@, "        "@, f.gpu@, false),
        spec_fact_row("Дискета"@, "    "@, f.disk@, true),
        Seq::<char>::empty(),
        spec_section_row("Производительность"@),
        spec_fact_row("Загрузка ЦП"@, " "@, f.cpu_usage@, false),
        spec_fact_row("Температура"@, " "@, f.temperature@, false),
        spec_fact_row("Нагрузка"@, "   "@, f.load_average@, true),
        Seq::<char>::empty(),
        spec_section_row("Окружение"@),
        spec_fact_row("Админка"@, "    "@, f.desktop@, false),
        spec_fact_row("Экран"@, "      "@, f.resolution@, false),
        spec_fact_row("Терминал"@, "   "@, f.terminal@, false),
        spec_fact_row("Локаль"@, "     "@, f.locale@, false),
        spec_fact_row("Процессов"@, "  "@, f.processes@, false),
        spec_fact_row("Юзеров"@, "     "@, f.users@, false),
        spec_fact_row("Сеть"@, "       "@, f.network@, true),
    ];
    let battery = if contains_seq(f.battery@, mains_power_text()) {
        Seq::<Seq<char>>::empty()
    } else {
        seq![Seq::<char>::empty(), spec_battery_row(f.battery@)]
    };
    head + battery + seq![Seq::<char>::empty(), spec_palette_row()]
}

/// Assembles the info column from the gathered facts.
pub fn get_info(f: &HostFacts) -> (r: Vec<String>)
    ensures
        r.deep_view() == spec_info_lines(*f),
{
    let mut r: Vec<String> = Vec::new();
    r.push(header_row(f.username.as_str(), f.hostname.as_str()));
    r.push(separator_row());
    r.push(section_row("Система"));
    r.push(fact_row("Абонент", "     ", f.hostname.as_str(), false));
    r.push(fact_row("Тариф", "      ", f.distro.as_str(), false));
    r.push(fact_row("Прошивка", "   ", f.kernel.as_str(), false));
    let mut uptime_value = f.uptime.clone();
    uptime_value.append("назад");
    r.push(fact_row("Пополнение", " ", uptime_value.as_str(), false));
    r.push(fact_row("Вирусов", "    ", f.packages.as_str(), false));
    r.push(fact_row("Оболочка", "  ", f.shell.as_str(), true));
    r.push(String::new());
    r.push(section_row("Железо"));
    r.push(fact_row("ЦП", "         ", f.cpu.as_str(), false));
    r.push(fact_row("ГПУ", "        ", f.gpu.as_str(), false));
    r.push(fact_row("Дискета", "    ", f.disk.as_str(), true));
    r.push(String::new());
    r.push(section_row("Производительность"));
    r.push(fact_row("Загрузка ЦП", " ", f.cpu_usage.as_str(), false));
    r.push(fact_row("Температура", " ", f.temperature.as_str(), false));
    r.push(fact_row("Нагрузка", "   ", f.load_average.as_str(), true));
    r.push(String::new());
    r.push(section_row("Окружение"));
    r.push(fact_row("Админка", "    ", f.desktop.as_str(), false));
    r.push(fact_row("Экран", "      ", f.resolution.as_str(), false));
    r.push(fact_row("Терминал", "   ", f.terminal.as_str(), false));
    r.push(fact_row("Локаль", "     ", f.locale.as_str(), false));
    r.push(fact_row("Процессов", "  ", f.processes.as_str(), false));
    r.push(fact_row("Юзеров", "     ", f.users.as_str(), false));
    r.push(fact_row("Сеть", "       ", f.network.as_str(), true));
    let bcs = to_chars(f.battery.as_str());
    if !contains_lit(&bcs, "Подключен к сети") {
        r.push(String::new());
        r.push(battery_row(f.battery.as_str()));
    }
    r.push(String::new());
    r.push(palette_row());
    proof {
        assert(r.deep_view() =~= spec_info_lines(*f));
    }
    r
}

} // verus!
