use mibar::sys_info::{
    cpu_time, cpu_time_delta, cpu_time_from_stat, find_value, meminfo_usage, parse_num,
    value_fits, CpuTime, RamUsage,
};

const MEMINFO: &str = "MemTotal:       16303856 kB\nMemFree:         1234567 kB\nMemAvailable:   10449340 kB\nBuffers:          123456 kB\n";

#[test]
fn reads_meminfo_fields() {
    assert_eq!(find_value(MEMINFO, "MemTotal"), Some(16303856));
    assert_eq!(find_value(MEMINFO, "MemAvailable"), Some(10449340));
    assert_eq!(find_value(MEMINFO, "SwapTotal"), None);
    assert_eq!(find_value("MemTotal: kB", "MemTotal"), None);
}

#[test]
fn field_at_the_very_end_does_not_fit() {
    assert!(value_fits(MEMINFO, "MemTotal"));
    assert!(value_fits(MEMINFO, "Swap"));
    assert!(!value_fits("MemTotal", "MemTotal"));
    assert!(value_fits("MemTotal:", "MemTotal"));
    assert_eq!(find_value("MemTotal:", "MemTotal"), None);
}

#[test]
fn meminfo_usage_and_used_memory() {
    let usage = meminfo_usage(MEMINFO);
    assert_eq!(usage, RamUsage { total: 16303856, available: 10449340 });
    assert_eq!(usage.used(), 16303856 - 10449340);
    let missing = meminfo_usage("nothing here");
    assert_eq!(missing, RamUsage { total: 0, available: 0 });
}

#[test]
fn parse_num_reads_or_gives_zero() {
    assert_eq!(parse_num(Some("1234")), 1234);
    assert_eq!(parse_num(Some("+5")), 5);
    assert_eq!(parse_num(Some("12\n")), 0);
    assert_eq!(parse_num(Some("18446744073709551615")), u64::MAX);
    assert_eq!(parse_num(Some("18446744073709551616")), 0);
    assert_eq!(parse_num(Some("")), 0);
    assert_eq!(parse_num(None), 0);
}

#[test]
fn cpu_times_from_the_stat_line() {
    // The last entry keeps its line end and so reads as 0.
    let stat = b"cpu  100 20 30 400 5 6 7 8 9 10\ncpu0 1 2 3 4 5 6 7 8 9 10\n";
    let t = cpu_time_from_stat(stat).unwrap();
    assert_eq!(t, CpuTime { work_time: 154, total_time: 576 });
    assert_eq!(cpu_time_from_stat(b"intr 1 2 3\n"), None);
    assert_eq!(cpu_time_from_stat(b"cpu  1 2 3"), None);
}

#[test]
fn cpu_time_saturates() {
    let v = [u64::MAX, 0, 5, 0, 0, 0, 0, 0, 0, 0];
    assert_eq!(cpu_time(&v), CpuTime { work_time: u64::MAX, total_time: u64::MAX });
    let v = [1, 2, 3, 4, 5, 6, 7, 8, 9, 10];
    // user 1 - guest 9 floors at 0; nice 2 - 10 floors at 0.
    assert_eq!(cpu_time(&v), CpuTime { work_time: 16, total_time: 16 + 4 + 5 + 9 + 10 + 8 });
}

#[test]
fn cpu_time_delta_is_never_zero_in_total() {
    let old = CpuTime { work_time: 10, total_time: 100 };
    let new = CpuTime { work_time: 15, total_time: 100 };
    assert_eq!(cpu_time_delta(old, new), (5, 1));
    assert_eq!(cpu_time_delta(new, old), (0, 1));
    let newer = CpuTime { work_time: 40, total_time: 160 };
    assert_eq!(cpu_time_delta(old, newer), (30, 60));
}
