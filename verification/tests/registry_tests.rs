use sysmetrics::cpu::CpuCollector;
use sysmetrics::disk::DiskCollector;
use sysmetrics::error::CollectorError;
use sysmetrics::memory::MemoryCollector;
use sysmetrics::network::NetworkCollector;
use sysmetrics::registry::{render_scrape_page, Collector, Registry};

const PROC_STAT_FIXTURE: &str = "\
cpu  74156 1260 22706 6316498 4539 0 456 0 0 0
cpu0 18539 315 5676 1579124 1134 0 114 0 0 0
cpu1 18540 315 5677 1579125 1135 0 114 0 0 0
";

const MEMINFO_FIXTURE: &str = "\
MemTotal:       16384000 kB
MemFree:         1234567 kB
MemAvailable:    8765432 kB
Buffers:          234567 kB
Cached:          3456789 kB
SwapTotal:       4194304 kB
SwapFree:        4194000 kB
";

const DISKSTATS_FIXTURE: &str = "\
   8       0 sda 12345 100 98765 4567 54321 200 87654 3456 5 6789 12345
   7       0 loop0 100 0 200 10 0 0 0 0 0 10 10
";

const NET_DEV_FIXTURE: &str = "\
Inter-|   Receive                                                |  Transmit
 face |bytes    packets errs drop fifo frame compressed multicast|bytes    packets errs drop fifo colls carrier compressed
    lo: 1234567  12345    0    0    0     0          0         0  1234567  12345    0    0    0     0       0          0
  eth0: 9876543  98765    5    2    0     0          0         0  5432198  54321    1    3    0     0       0          0
";

fn full_registry() -> Registry {
    let mut registry = Registry::new();
    registry.register(Collector::Cpu(CpuCollector));
    registry.register(Collector::Memory(MemoryCollector));
    registry.register(Collector::Disk(DiskCollector::new("^(loop|ram|dm-)").unwrap()));
    registry.register(Collector::Network(NetworkCollector::new("^(lo|veth)").unwrap()));
    registry
}

#[test]
fn test_collect_all_isolates_failures() {
    // The cpu read fails; every other collector still produces its result,
    // in registration order.
    let registry = full_registry();
    let reads: Vec<Result<String, String>> = vec![
        Err("permission denied".to_string()),
        Ok(MEMINFO_FIXTURE.to_string()),
        Ok(DISKSTATS_FIXTURE.to_string()),
        Ok(NET_DEV_FIXTURE.to_string()),
    ];
    let durations: Vec<u64> = vec![10, 20, 30, 40];
    let outcomes = registry.collect_all(&reads, &durations);
    assert_eq!(outcomes.len(), 4);
    assert_eq!(outcomes[0].name, "cpu");
    assert_eq!(outcomes[1].name, "memory");
    assert_eq!(outcomes[2].name, "disk");
    assert_eq!(outcomes[3].name, "network");
    assert!(outcomes[0].result.is_err());
    match outcomes[0].result.as_ref().unwrap_err() {
        CollectorError::FileRead { path, message } => {
            assert_eq!(path, "/proc/stat");
            assert_eq!(message, "permission denied");
        },
        other => panic!("expected a file-read error, got {:?}", other),
    }
    assert!(outcomes[1].result.is_ok());
    assert!(outcomes[2].result.is_ok());
    assert!(outcomes[3].result.is_ok());
    assert_eq!(outcomes[2].duration_nanos, 30);
}

#[test]
fn test_collect_all_parse_failure_isolated() {
    // A collector whose content fails to parse does not suppress the others.
    let registry = full_registry();
    let reads: Vec<Result<String, String>> = vec![
        Ok("garbage data".to_string()),
        Ok(MEMINFO_FIXTURE.to_string()),
        Ok(DISKSTATS_FIXTURE.to_string()),
        Ok(NET_DEV_FIXTURE.to_string()),
    ];
    let durations: Vec<u64> = vec![0, 0, 0, 0];
    let outcomes = registry.collect_all(&reads, &durations);
    assert_eq!(outcomes.len(), 4);
    assert!(outcomes[0].result.is_err());
    assert!(outcomes[1].result.is_ok());
    assert!(outcomes[2].result.is_ok());
    assert!(outcomes[3].result.is_ok());
}

#[test]
fn test_scrape_page_end_to_end() {
    let registry = full_registry();
    let reads: Vec<Result<String, String>> = vec![
        Ok(PROC_STAT_FIXTURE.to_string()),
        Ok(MEMINFO_FIXTURE.to_string()),
        Ok(DISKSTATS_FIXTURE.to_string()),
        Ok(NET_DEV_FIXTURE.to_string()),
    ];
    let durations: Vec<u64> = vec![1_500_000, 2_000_000, 500, 1_000_000_000];
    let outcomes = registry.collect_all(&reads, &durations);
    let page = render_scrape_page(outcomes, 1_003_500_500, "0.1.0", "stable");

    // Per-core CPU seconds: 18539 ticks at 100 ticks per second.
    assert!(page.contains("sysmetrics_cpu_seconds_total{cpu=\"0\",mode=\"user\"} 185.39\n"));
    // Disk bytes: 98765 sectors of 512 bytes.
    assert!(page.contains("sysmetrics_disk_read_bytes_total{device=\"sda\"} 50567680\n"));
    // Memory total: 16384000 kB in bytes, exactly.
    assert!(page.contains("sysmetrics_memory_total_bytes 16777216000\n"));
    // The excluded devices and interfaces never appear.
    assert!(!page.contains("loop0"));
    assert!(!page.contains("device=\"lo\""));
    assert!(!page.contains("interface=\"lo\""));
    // Meta families, after the collector families.
    assert!(page.contains("# TYPE sysmetrics_scrape_duration_seconds gauge"));
    assert!(page.contains("sysmetrics_scrape_duration_seconds{collector=\"cpu\"} 0.0015\n"));
    assert!(page.contains("sysmetrics_scrape_duration_seconds{collector=\"network\"} 1\n"));
    assert!(page.contains("sysmetrics_scrape_duration_seconds_total 1.0035005\n"));
    assert!(page.contains("sysmetrics_collector_success{collector=\"cpu\"} 1\n"));
    assert!(page.contains("sysmetrics_collector_errors_total{collector=\"cpu\"} 0\n"));
    assert!(page.contains("sysmetrics_build_info{version=\"0.1.0\",rustc=\"stable\"} 1\n"));
}

#[test]
fn test_scrape_page_failed_collector_flags() {
    let registry = full_registry();
    let reads: Vec<Result<String, String>> = vec![
        Err("no such file".to_string()),
        Ok(MEMINFO_FIXTURE.to_string()),
        Ok(DISKSTATS_FIXTURE.to_string()),
        Ok(NET_DEV_FIXTURE.to_string()),
    ];
    let durations: Vec<u64> = vec![0, 0, 0, 0];
    let outcomes = registry.collect_all(&reads, &durations);
    let page = render_scrape_page(outcomes, 0, "0.1.0", "stable");
    // The failed collector contributes no families but is flagged.
    assert!(!page.contains("sysmetrics_cpu_seconds_total{"));
    assert!(page.contains("sysmetrics_collector_success{collector=\"cpu\"} 0\n"));
    assert!(page.contains("sysmetrics_collector_errors_total{collector=\"cpu\"} 1\n"));
    assert!(page.contains("sysmetrics_collector_success{collector=\"memory\"} 1\n"));
    assert!(page.contains("sysmetrics_memory_total_bytes 16777216000\n"));
}
