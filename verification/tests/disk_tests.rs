use sysmetrics::disk::{parse_diskstats, DiskCollector};
use sysmetrics::value::{format_value, MetricValue};

const DISKSTATS_FIXTURE: &str = "\
   8       0 sda 12345 100 98765 4567 54321 200 87654 3456 5 6789 12345
   8       1 sda1 1234 10 9876 456 5432 20 8765 345 0 678 1234
   7       0 loop0 100 0 200 10 0 0 0 0 0 10 10
   1       0 ram0 0 0 0 0 0 0 0 0 0 0 0
 253       0 dm-0 5000 0 40000 2000 3000 0 24000 1000 2 3000 5000
";

#[test]
fn test_parse_diskstats() {
    let stats = parse_diskstats(DISKSTATS_FIXTURE).unwrap();
    assert_eq!(stats.len(), 5);
    assert_eq!(stats[0].device, "sda");
    assert_eq!(stats[0].reads_completed, 12345);
    assert_eq!(stats[0].sectors_read, 98765);
    assert_eq!(stats[0].writes_completed, 54321);
    assert_eq!(stats[0].sectors_written, 87654);
    assert_eq!(stats[0].ios_in_progress, 5);
}

#[test]
fn test_parse_diskstats_empty() {
    let stats = parse_diskstats("").unwrap();
    assert!(stats.is_empty());
}

#[test]
fn test_parse_diskstats_short_lines_skipped() {
    // Lines with fewer than 14 tokens are dropped silently, not an error.
    let input = "\
   8       0 sda 12345
some words that do not make a full record here
   8       1 sdb 1000 0 2000 100 500 0 1000 50 1 150 200
";
    let stats = parse_diskstats(input).unwrap();
    assert_eq!(stats.len(), 1);
    assert_eq!(stats[0].device, "sdb");
}

#[test]
fn test_parse_diskstats_bad_field_is_error() {
    let input = "   8       0 sda 12345 100 abc 4567 54321 200 87654 3456 5 6789 12345\n";
    assert!(parse_diskstats(input).is_err());
}

#[test]
fn test_disk_collector_filters_virtual_devices() {
    let collector = DiskCollector::new("^(loop|ram|dm-)").unwrap();
    let metrics = collector.collect_from_string(DISKSTATS_FIXTURE).unwrap();
    // Should only have sda and sda1 (loop0, ram0, dm-0 filtered)
    let reads_metric = &metrics[0];
    assert_eq!(reads_metric.samples.len(), 2);
    assert_eq!(reads_metric.samples[0].labels[0].1, "sda");
    assert_eq!(reads_metric.samples[1].labels[0].1, "sda1");
}

#[test]
fn test_disk_collector_metric_values() {
    let collector = DiskCollector::new("^(loop|ram|dm-)").unwrap();
    let metrics = collector.collect_from_string(DISKSTATS_FIXTURE).unwrap();

    // reads_completed_total for sda = 12345
    assert_eq!(metrics[0].samples[0].value, MetricValue::whole(12345));
    // read_bytes_total for sda = 98765 * 512
    assert_eq!(metrics[2].samples[0].value, MetricValue::whole(98765 * 512));
    // io_time_seconds_total for sda = 6789 / 1000
    assert_eq!(metrics[4].samples[0].value, MetricValue::decimal(6789, 3));
    assert_eq!(format_value(&metrics[4].samples[0].value), "6.789");
}

#[test]
fn test_disk_collector_device_with_hyphen() {
    let input = "   8       0 nvme0n1 1000 0 2000 100 500 0 1000 50 1 150 200\n";
    let collector = DiskCollector::new("^(loop|ram|dm-)").unwrap();
    let metrics = collector.collect_from_string(input).unwrap();
    assert_eq!(metrics[0].samples[0].labels[0].1, "nvme0n1");
}

#[test]
fn test_disk_collector_invalid_pattern_is_error() {
    assert!(DiskCollector::new("(").is_err());
}
