use xeneon_core::i18n::{translate, Catalog};
use xeneon_core::system_info::{
    cpu_counters, effective_disk_path, format_uptime, read_cpu_model, read_cpu_times, read_disk_usage, read_hostname,
    read_kernel_release, read_memory, read_os_pretty_name, read_shell_name, unquote, CpuTimes, MemoryInfo,
};

#[test]
fn unquote_strips_surrounding_quotes() {
    assert_eq!(unquote("\"Fedora Linux\""), "Fedora Linux");
    assert_eq!(unquote("plain"), "plain");
}

/// The unit abbreviations of the French catalog, looked up as the widget
/// does.
fn french_units() -> (String, String, String) {
    let fr = Catalog::from_json_str(
        r#"{"widgets.system_info.unit_day": "j", "widgets.system_info.unit_hour": "h", "widgets.system_info.unit_minute": "min"}"#,
    );
    let none = Catalog::default();
    (
        translate(&fr, &none, "widgets.system_info.unit_day", &[]),
        translate(&fr, &none, "widgets.system_info.unit_hour", &[]),
        translate(&fr, &none, "widgets.system_info.unit_minute", &[]),
    )
}

#[test]
fn format_uptime_shows_days_and_hours_when_at_least_a_day() {
    let (d, h, m) = french_units();
    // 3 days, 4 hours, 30 minutes.
    let seconds = 3 * 86_400 + 4 * 3600 + 30 * 60;
    assert_eq!(format_uptime(seconds, &d, &h, &m), "3 j 4 h");
}

#[test]
fn format_uptime_shows_hours_and_minutes_under_a_day() {
    let (d, h, m) = french_units();
    let seconds = 4 * 3600 + 12 * 60;
    assert_eq!(format_uptime(seconds, &d, &h, &m), "4 h 12 min");
}

#[test]
fn format_uptime_shows_only_minutes_under_an_hour() {
    let (d, h, m) = french_units();
    assert_eq!(format_uptime(12 * 60, &d, &h, &m), "12 min");
}

#[test]
fn format_uptime_of_a_fresh_boot_is_zero_minutes() {
    assert_eq!(format_uptime(59, "d", "h", "min"), "0 min");
    assert_eq!(format_uptime(86_400, "d", "h", "min"), "1 d 0 h");
}

#[test]
fn hostname_and_kernel_release_are_trimmed() {
    assert_eq!(read_hostname(Some("  desk\n")), "desk");
    assert_eq!(read_hostname(None), "");
    assert_eq!(read_kernel_release(Some("6.12.4-200.fc44.x86_64\n")), "6.12.4-200.fc44.x86_64");
}

#[test]
fn os_pretty_name_prefers_pretty_then_plain_name() {
    let both = "NAME=\"Fedora Linux\"\nPRETTY_NAME=\"Fedora Linux 44 (Workstation Edition)\"\nID=fedora\n";
    assert_eq!(read_os_pretty_name(Some(both)), "Fedora Linux 44 (Workstation Edition)");
    assert_eq!(read_os_pretty_name(Some("NAME=Arch\n")), "Arch");
    assert_eq!(read_os_pretty_name(Some("ID=x\n")), "");
    assert_eq!(read_os_pretty_name(None), "");
}

#[test]
fn shell_name_is_the_bare_file_name() {
    assert_eq!(read_shell_name(Some("/usr/bin/zsh")), "zsh");
    assert_eq!(read_shell_name(Some("/bin/")), "bin");
    assert_eq!(read_shell_name(Some("/")), "");
    assert_eq!(read_shell_name(None), "");
}

#[test]
fn cpu_model_comes_from_the_first_model_name_line() {
    let info = "processor\t: 0\nmodel name\t: AMD Ryzen 7 5800X 8-Core Processor\nmodel name\t: other\n";
    assert_eq!(read_cpu_model(Some(info)), "AMD Ryzen 7 5800X 8-Core Processor");
    assert_eq!(read_cpu_model(Some("Hardware : BCM2835\n")), "");
    assert_eq!(read_cpu_model(None), "");
}

#[test]
fn cpu_times_sum_every_counter_and_count_iowait_as_idle() {
    let stat = "cpu  10 20 30 40 50 60 70\ncpu0 1 2 3 4\n";
    assert_eq!(cpu_counters(stat), Some(vec![10, 20, 30, 40, 50, 60, 70]));
    assert_eq!(read_cpu_times(stat), Some(CpuTimes { idle: 90, total: 280 }));
    assert_eq!(read_cpu_times("cpu 1 2 3 4\n"), Some(CpuTimes { idle: 4, total: 10 }));
    assert_eq!(read_cpu_times("cpu 1 2 3\n"), None);
    assert_eq!(read_cpu_times("intr 1 2 3 4\n"), None);
    assert_eq!(read_cpu_times(""), None);
}

#[test]
fn cpu_interval_counts_jiffies_between_samples() {
    let previous = CpuTimes { idle: 100, total: 1000 };
    let current = CpuTimes { idle: 150, total: 1500 };
    assert_eq!(current.interval_since(&previous), (50, 500));
    assert_eq!(previous.interval_since(&current), (0, 0));
}

#[test]
fn memory_reads_total_and_available() {
    let info = "MemTotal:       32000000 kB\nMemFree:         1000 kB\nMemAvailable:   20000000 kB\n";
    let m = read_memory(info).unwrap();
    assert_eq!(m.total_kib, 32_000_000);
    assert_eq!(m.available_kib, 20_000_000);
    assert_eq!(m.used_kib(), 12_000_000);
    assert!(read_memory("MemTotal: 10 kB\n").is_none());
}

#[test]
fn used_memory_never_underflows() {
    let m = MemoryInfo { total_kib: 5, available_kib: 9 };
    assert_eq!(m.used_kib(), 0);
}

#[test]
fn disk_usage_follows_df() {
    let d = read_disk_usage(100, 40, 4096);
    assert_eq!(d.total_bytes, 409_600);
    assert_eq!(d.used_bytes, 245_760);
}

#[test]
fn blank_disk_path_means_the_root() {
    assert_eq!(effective_disk_path("   "), "/");
    assert_eq!(effective_disk_path("/home"), "/home");
}

/// The busy share of the interval between two samples, in percent, from
/// the jiffies the library counts between them.
fn usage_percent(current: &CpuTimes, previous: &CpuTimes) -> f64 {
    let (idle, total) = current.interval_since(previous);
    if total == 0 {
        return 0.0;
    }
    (1.0 - idle as f64 / total as f64).clamp(0.0, 1.0) * 100.0
}

#[test]
fn cpu_usage_percent_since_handles_zero_interval() {
    let sample = CpuTimes { idle: 100, total: 200 };
    assert_eq!(usage_percent(&sample, &sample), 0.0);
}

#[test]
fn cpu_usage_percent_since_computes_busy_fraction() {
    let previous = CpuTimes { idle: 100, total: 1000 };
    let current = CpuTimes { idle: 150, total: 1500 };
    // 500 total jiffies elapsed, 50 of them idle -> 90% busy.
    assert!((usage_percent(&current, &previous) - 90.0).abs() < f64::EPSILON);
}
