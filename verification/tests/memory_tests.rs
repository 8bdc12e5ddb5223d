use sysmetrics::memory::{get_field, parse_meminfo, MemoryCollector};
use sysmetrics::metric::MetricType;
use sysmetrics::value::MetricValue;

const MEMINFO_FIXTURE: &str = "\
MemTotal:       16384000 kB
MemFree:         1234567 kB
MemAvailable:    8765432 kB
Buffers:          234567 kB
Cached:          3456789 kB
SwapCached:        12345 kB
SwapTotal:       4194304 kB
SwapFree:        4194000 kB
";

#[test]
fn test_parse_meminfo() {
    let map = parse_meminfo(MEMINFO_FIXTURE).unwrap();
    assert_eq!(get_field(&map, "MemTotal").unwrap(), 16384000);
    assert_eq!(get_field(&map, "MemFree").unwrap(), 1234567);
    assert_eq!(get_field(&map, "MemAvailable").unwrap(), 8765432);
    assert_eq!(get_field(&map, "Buffers").unwrap(), 234567);
    assert_eq!(get_field(&map, "Cached").unwrap(), 3456789);
    assert_eq!(get_field(&map, "SwapTotal").unwrap(), 4194304);
    assert_eq!(get_field(&map, "SwapFree").unwrap(), 4194000);
}

#[test]
fn test_parse_meminfo_empty() {
    let map = parse_meminfo("").unwrap();
    assert!(map.is_empty());
}

#[test]
fn test_parse_meminfo_malformed_value() {
    let input = "MemTotal:       abc kB\n";
    let result = parse_meminfo(input);
    assert!(result.is_err());
}

#[test]
fn test_parse_meminfo_duplicate_key_last_wins() {
    let input = "MemTotal: 111 kB\nMemTotal: 222 kB\n";
    let map = parse_meminfo(input).unwrap();
    assert_eq!(map.len(), 2);
    assert_eq!(get_field(&map, "MemTotal").unwrap(), 222);
}

#[test]
fn test_memory_collector_metrics() {
    let collector = MemoryCollector;
    let metrics = collector.collect_from_string(MEMINFO_FIXTURE).unwrap();
    assert_eq!(metrics.len(), 8);

    // Check total: 16384000 kB * 1024 = 16777216000000 bytes
    let total = &metrics[0];
    assert_eq!(total.name, "sysmetrics_memory_total_bytes");
    assert_eq!(total.metric_type, MetricType::Gauge);
    assert_eq!(
        total.samples[0].value,
        MetricValue::Finite { negative: false, mantissa: 16384000u128 * 1024, scale: 0 }
    );

    // Check used: (16384000 - 1234567 - 234567 - 3456789) * 1024
    let used = &metrics[7];
    assert_eq!(used.name, "sysmetrics_memory_used_bytes");
    let expected_used = (16384000u128 - 1234567 - 234567 - 3456789) * 1024;
    assert_eq!(
        used.samples[0].value,
        MetricValue::Finite { negative: false, mantissa: expected_used, scale: 0 }
    );
}

#[test]
fn test_memory_collector_missing_field() {
    let input = "MemTotal: 16384000 kB\nMemFree: 1234567 kB\n";
    let collector = MemoryCollector;
    let result = collector.collect_from_string(input);
    assert!(result.is_err());
}

#[test]
fn test_memory_collector_used_saturates_at_zero() {
    // free + buffers + cached exceeds total: used clamps to zero.
    let input = "\
MemTotal: 100 kB
MemFree: 80 kB
MemAvailable: 90 kB
Buffers: 30 kB
Cached: 40 kB
SwapTotal: 0 kB
SwapFree: 0 kB
";
    let collector = MemoryCollector;
    let metrics = collector.collect_from_string(input).unwrap();
    let used = &metrics[7];
    assert_eq!(used.name, "sysmetrics_memory_used_bytes");
    assert_eq!(used.samples[0].value, MetricValue::whole(0));
}
