//! A terminal system-information display library.
//!
//! The library holds the logic of a fetch-style tool: parsing the textual
//! interfaces a Unix host exposes (proc files, command output, environment
//! values), formatting the parsed facts into labeled, colorized lines, and
//! aligning those lines beside an ASCII-art logo.  Every function here is
//! verified; the thin binary around it performs the actual reads, runs the
//! external query tools, and prints.

pub mod config;
pub mod info;
pub mod numfmt;
pub mod probes;
pub mod render;
pub mod text;
pub mod uptime;
pub mod width;

pub use info::get_info;
pub use info::HostFacts;
pub use probes::get_battery_info;
pub use probes::get_cpu_model;
pub use probes::get_cpu_usage;
pub use probes::get_desktop_environment;
pub use probes::get_disk_info;
pub use probes::get_gpu_model;
pub use probes::get_load_average;
pub use probes::get_locale_info;
pub use probes::get_memory_info;
pub use probes::get_network_info;
pub use probes::get_package_count;
pub use probes::get_processes_count;
pub use probes::get_resolution;
pub use probes::get_shell;
pub use probes::get_temperature;
pub use probes::get_terminal;
pub use probes::get_users_count;
pub use render::max_visual_width;
pub use render::render_rows;
pub use uptime::parse_uptime_seconds;
pub use uptime::Uptime;
pub use width::get_string_length;
