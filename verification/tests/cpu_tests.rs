use sysmetrics::cpu::{parse_cpu_stats, CpuCollector};
use sysmetrics::error::CollectorError;
use sysmetrics::metric::MetricType;
use sysmetrics::value::{format_value, MetricValue};

const PROC_STAT_FIXTURE: &str = "\
cpu  74156 1260 22706 6316498 4539 0 456 0 0 0
cpu0 18539 315 5676 1579124 1134 0 114 0 0 0
cpu1 18540 315 5677 1579125 1135 0 114 0 0 0
intr 12345678
";

const PROC_STAT_SINGLE_CPU: &str = "\
cpu  10000 200 3000 500000 100 0 50 0 0 0
cpu0 10000 200 3000 500000 100 0 50 0 0 0
";

fn proc_stat_128() -> String {
    let mut s = String::from("cpu  74156 1260 22706 6316498 4539 0 456 0 0 0\n");
    for i in 0..128 {
        s.push_str(&format!("cpu{} 100 200 300 400 500 600 700 800 0 0\n", i));
    }
    s
}

#[test]
fn test_parse_cpu_stats_two_cores() {
    let stats = parse_cpu_stats(PROC_STAT_FIXTURE).unwrap();
    assert_eq!(stats.len(), 2);
    assert_eq!(stats[0].cpu_id, "0");
    assert_eq!(stats[0].values[0], 18539); // user
    assert_eq!(stats[0].values[2], 5676); // system
    assert_eq!(stats[1].cpu_id, "1");
    assert_eq!(stats[1].values[0], 18540);
}

#[test]
fn test_parse_cpu_stats_single_core() {
    let stats = parse_cpu_stats(PROC_STAT_SINGLE_CPU).unwrap();
    assert_eq!(stats.len(), 1);
    assert_eq!(stats[0].cpu_id, "0");
    assert_eq!(stats[0].values[0], 10000);
}

#[test]
fn test_parse_cpu_stats_128_cores() {
    let input = proc_stat_128();
    let stats = parse_cpu_stats(&input).unwrap();
    assert_eq!(stats.len(), 128);
    assert_eq!(stats[127].cpu_id, "127");
}

#[test]
fn test_parse_cpu_stats_malformed() {
    let result = parse_cpu_stats("garbage data");
    assert!(result.is_err());
}

#[test]
fn test_parse_cpu_stats_empty() {
    let result = parse_cpu_stats("");
    assert!(result.is_err());
}

#[test]
fn test_parse_cpu_stats_truncated_line() {
    let input = "cpu  100 200\ncpu0 100\n";
    let result = parse_cpu_stats(input);
    assert!(result.is_err());
    match result.unwrap_err() {
        CollectorError::Parse { path, field, raw } => {
            assert_eq!(path, "/proc/stat");
            assert_eq!(field, "cpu line");
            assert_eq!(raw, "cpu0 100");
        },
        other => panic!("expected a parse error, got {:?}", other),
    }
}

#[test]
fn test_parse_cpu_stats_value_overflow_is_error() {
    // 2^64 does not fit an unsigned 64-bit counter.
    let input = "cpu0 18446744073709551616 0 0 0 0 0 0 0\n";
    assert!(parse_cpu_stats(input).is_err());
}

#[test]
fn test_parse_cpu_stats_accepts_plus_sign() {
    let input = "cpu0 +42 0 0 0 0 0 0 0\n";
    let stats = parse_cpu_stats(input).unwrap();
    assert_eq!(stats[0].values[0], 42);
}

#[test]
fn test_cpu_collector_metrics() {
    let collector = CpuCollector;
    let metrics = collector.collect_from_string(PROC_STAT_FIXTURE).unwrap();
    assert_eq!(metrics.len(), 2);

    let cpu_seconds = &metrics[0];
    assert_eq!(cpu_seconds.name, "sysmetrics_cpu_seconds_total");
    assert_eq!(cpu_seconds.metric_type, MetricType::Counter);
    // 2 CPUs * 8 modes = 16 samples
    assert_eq!(cpu_seconds.samples.len(), 16);

    // Check user time for cpu0: 18539 ticks / 100 = 185.39 seconds
    let cpu0_user = &cpu_seconds.samples[0];
    assert_eq!(cpu0_user.labels[0], ("cpu".to_string(), "0".to_string()));
    assert_eq!(cpu0_user.labels[1], ("mode".to_string(), "user".to_string()));
    assert_eq!(
        cpu0_user.value,
        MetricValue::Finite { negative: false, mantissa: 18539, scale: 2 }
    );
    assert_eq!(format_value(&cpu0_user.value), "185.39");

    let cpu_count = &metrics[1];
    assert_eq!(cpu_count.name, "sysmetrics_cpu_count");
    assert_eq!(cpu_count.metric_type, MetricType::Gauge);
    assert_eq!(cpu_count.samples[0].value, MetricValue::whole(2));
}
