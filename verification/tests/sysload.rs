use screentime_pro::sysload::{
    filetime_u64, foreground_is_fullscreen, mac_cpu_ticks, parse_meminfo, parse_net_dev, parse_proc_stat, statfs_usage,
    statvfs_usage, system_drive_root, ticks_valid, windows_disk_usage, windows_memory, CpuDelta, DiskCache, Inner, MacInner, MetricsSampler,
    NetworkSampler, Rect,
};

#[test]
fn proc_stat_aggregate_line() {
    let text = "cpu  10 20 30 40 50 60 70 80 90\ncpu0 1 2 3 4\n";
    assert_eq!(parse_proc_stat(text), Some((360, 90)));
    assert_eq!(parse_proc_stat("cpu 1 2 x 4\n"), Some((3, 0)));
    assert_eq!(parse_proc_stat("cpu0 1 2 3\n"), None);
    assert_eq!(parse_proc_stat(""), None);
}

#[test]
fn tick_deltas() {
    let mut c = Inner::new();
    assert_eq!(c.advance(100, 50), None);
    assert_eq!(c.advance(200, 70), Some(CpuDelta { used: 80, total: 100 }));
    assert_eq!(c.advance(150, 90), Some(CpuDelta { used: 0, total: 0 }));
    assert_eq!(c.record_times(5, 100, 100), Some(CpuDelta { used: 50, total: 50 }));
    let mut m = MacInner::new();
    assert_eq!(m.advance([10, 10, 10, 10]), None);
    assert_eq!(m.advance([15, 12, 20, 11]), Some(CpuDelta { used: 8, total: 18 }));
    assert_eq!(m.advance([3, 12, 20, 11]), Some(CpuDelta { used: u32::MAX as u64 - 11, total: u32::MAX as u64 - 11 }));
    assert!(!ticks_valid([0, 0, 0, 0]));
    assert!(ticks_valid([0, 0, 1, 0]));
}

#[test]
fn meminfo() {
    let text = "MemTotal:       16000 kB\nMemFree:  100 kB\nMemAvailable:    6000 kB\n";
    assert_eq!(parse_meminfo(text), (10000 * 1024, 16000 * 1024));
    assert_eq!(parse_meminfo("MemFree: 3 kB\n"), (0, 0));
    assert_eq!(parse_meminfo("MemTotal: 10 kB\nMemAvailable: 20 kB\n"), (0, 10240));
}

#[test]
fn net_dev() {
    let text = "Inter-|   Receive |  Transmit\n face |bytes packets\n    lo: 100 1 0 0 0 0 0 0 100 1 0 0 0 0 0 0\n  eth0: 2000 10 0 0 0 0 0 0 3000 20 0 0 0 0 0 0\n wlan0: 5 1 0 0 0 0 0 0 7\n";
    assert_eq!(parse_net_dev(text, &vec![]), (2005, 3007));
    assert_eq!(NetworkSampler::new().sample_totals(text, &vec![]), (2005, 3007));
    // A DOWN interface is left out.
    assert_eq!(NetworkSampler::new().sample_totals(text, &vec!["wlan0".to_string()]), (2000, 3000));
    assert_eq!(parse_net_dev(text, &vec!["eth0".to_string(), "wlan0".to_string()]), (0, 0));
    assert_eq!(parse_net_dev("a\nb\n", &vec![]), (0, 0));
    let mut n = NetworkSampler::new();
    assert_eq!(n.counter.advance(10, 10), None);
    assert_eq!(n.counter.advance(15, 5), Some((5, 0)));
}

#[test]
fn disk_cache_and_sizes() {
    let mut d = DiskCache::new();
    assert_eq!(d.fresh(100), None);
    d.store(5, 10, 100);
    assert_eq!(d.fresh(129), Some((5, 10)));
    assert_eq!(d.fresh(130), None);
    assert_eq!(d.fresh(50), Some((5, 10)));
    d.store(0, 10, 200);
    assert_eq!(d.last_secs, 100);
    assert_eq!(statvfs_usage(4096, 512, 100, 40), (60 * 4096, 100 * 4096));
    assert_eq!(statvfs_usage(0, 512, 100, 40), (60 * 512, 100 * 512));
    assert_eq!(statvfs_usage(0, 0, 100, 40), (0, 0));
    assert_eq!(statfs_usage(4096, 10, 4), (6 * 4096, 10 * 4096));
    assert_eq!(windows_memory(100, 30), (70, 100));
    assert_eq!(windows_memory(100, 300), (0, 100));
    assert_eq!(windows_memory(0, 3), (0, 0));
    assert_eq!(filetime_u64(1, 2), (1u64 << 32) | 2);
}

#[test]
fn metrics_sampler_state() {
    let mut m = MetricsSampler::new();
    m.init(100, 8192);
    assert_eq!(m.inner.page_size, 4096);
    assert_eq!(m.mac_memory(Some((1, 0, 0))), (4096, 8192));
    assert_eq!(m.mac_memory(None), (0, 8192));
    m.warmup(10, 5, 1, 1);
    assert_eq!(m.cpu.inner.advance(20, 5), Some(CpuDelta { used: 10, total: 10 }));
}

#[test]
fn fullscreen_detection() {
    let r = Rect { left: 0, top: 0, right: 1920, bottom: 1080 };
    assert!(foreground_is_fullscreen(Some("Chrome_WidgetWin_1".into()), Some(r), Some(r)));
    assert!(!foreground_is_fullscreen(Some("WorkerW".into()), Some(r), Some(r)));
    assert!(!foreground_is_fullscreen(None, Some(Rect { right: 100, ..r }), Some(r)));
    assert!(!foreground_is_fullscreen(None, None, Some(r)));
}

#[test]
fn mac_cpu_reading_is_checked() {
    assert_eq!(mac_cpu_ticks(0, 4, [1, 2, 3, 4]), Some([1, 2, 3, 4]));
    assert_eq!(mac_cpu_ticks(5, 4, [1, 2, 3, 4]), None);
    assert_eq!(mac_cpu_ticks(0, 3, [1, 2, 3, 4]), None);
    assert_eq!(mac_cpu_ticks(0, 4, [0, 0, 0, 0]), None);
}

// Readings as the system calls give them on a 16 GiB machine with a
// 512 GB system drive.
const GIB: u64 = 1024 * 1024 * 1024;

#[test]
fn windows_memory_is_physically_sane() {
    let (used, total) = windows_memory(16 * GIB, 6 * GIB);
    assert!(total > 0, "GlobalMemoryStatusEx should give a physical memory total");
    assert!(used <= total, "used memory must not exceed the total (used={used} total={total})");
    assert!((256 * 1024 * 1024..=4u64 * 1024 * GIB).contains(&total), "physical memory out of range: {total}");
    assert_eq!(used, 10 * GIB);
    // Available above the total is capped at the total.
    assert_eq!(windows_memory(8 * GIB, 9 * GIB), (0, 8 * GIB));
    assert_eq!(windows_memory(0, 5), (0, 0));
}

#[test]
fn windows_disk_is_physically_sane() {
    let (used, total) = windows_disk_usage(true, 512_000_000_000, 200_000_000_000);
    assert!(total > 0, "GetDiskFreeSpaceExW should give a system drive size");
    assert!(used <= total, "used must not exceed the total (used={used} total={total})");
    assert_eq!(used, 312_000_000_000);
    assert_eq!(windows_disk_usage(false, 10, 1), (0, 0));
    assert_eq!(windows_disk_usage(true, 10, 11), (0, 10));
    assert_eq!(system_drive_root(Some("D:")), "D:\\");
    assert_eq!(system_drive_root(Some("E:\\\\")), "E:\\");
    assert_eq!(system_drive_root(None), "C:\\");
}

#[test]
fn macos_memory_and_disk_are_physically_sane() {
    let mut sampler = MetricsSampler::new();
    sampler.init(16384, 16 * GIB);
    let (mem_used, mem_total) = sampler.mac_memory(Some((100_000, 200_000, 10_000)));
    assert!(mem_total > 0, "hw.memsize should give a physical memory total");
    assert!(mem_used <= mem_total, "used memory must not exceed the total");
    assert_eq!(mem_total - mem_used, 310_000 * 16384);
    let (disk_used, disk_total) = statfs_usage(4096, 120_000_000, 30_000_000);
    assert!(disk_total > 0, "statfs should give a root volume size");
    assert!(disk_used <= disk_total, "used must not exceed the total");
}

#[test]
fn cpu_usage_is_a_fraction() {
    let mut cpu = Inner::new();
    assert!(cpu.advance(1_000, 700).is_none());
    let d = cpu.advance(1_300, 850).expect("the second reading gives a change");
    let v = if d.total == 0 { 0.0f32 } else { d.used as f32 / d.total as f32 };
    assert!((0.0..=1.0).contains(&v), "CPU usage must be a fraction 0.0..=1.0, got {v}");
}
