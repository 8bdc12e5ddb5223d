use sysmetrics::error::CollectorError;
use sysmetrics::network::{parse_net_dev, NetworkCollector};
use sysmetrics::value::MetricValue;

const NET_DEV_FIXTURE: &str = "\
Inter-|   Receive                                                |  Transmit
 face |bytes    packets errs drop fifo frame compressed multicast|bytes    packets errs drop fifo colls carrier compressed
    lo: 1234567  12345    0    0    0     0          0         0  1234567  12345    0    0    0     0       0          0
  eth0: 9876543  98765    5    2    0     0          0         0  5432198  54321    1    3    0     0       0          0
";

#[test]
fn test_parse_net_dev() {
    let stats = parse_net_dev(NET_DEV_FIXTURE).unwrap();
    assert_eq!(stats.len(), 2);

    assert_eq!(stats[0].interface, "lo");
    assert_eq!(stats[0].rx_bytes, 1234567);
    assert_eq!(stats[0].rx_packets, 12345);
    assert_eq!(stats[0].tx_bytes, 1234567);

    assert_eq!(stats[1].interface, "eth0");
    assert_eq!(stats[1].rx_bytes, 9876543);
    assert_eq!(stats[1].rx_errors, 5);
    assert_eq!(stats[1].rx_drop, 2);
    assert_eq!(stats[1].tx_bytes, 5432198);
    assert_eq!(stats[1].tx_errors, 1);
    assert_eq!(stats[1].tx_drop, 3);
}

#[test]
fn test_parse_net_dev_empty() {
    let input = "\
Inter-|   Receive                                                |  Transmit
 face |bytes    packets errs drop fifo frame compressed multicast|bytes    packets errs drop fifo colls carrier compressed
";
    let stats = parse_net_dev(input).unwrap();
    assert!(stats.is_empty());
}

#[test]
fn test_parse_net_dev_short_line_is_error() {
    let input = "\
Inter-|   Receive                                                |  Transmit
 face |bytes    packets errs drop fifo frame compressed multicast|bytes    packets errs drop fifo colls carrier compressed
  eth0: 9876543  98765    5    2
";
    let result = parse_net_dev(input);
    assert!(result.is_err());
    match result.unwrap_err() {
        CollectorError::Parse { path, field, raw } => {
            assert_eq!(path, "/proc/net/dev");
            assert_eq!(field, "interface eth0");
            assert_eq!(raw, "  eth0: 9876543  98765    5    2");
        },
        other => panic!("expected a parse error, got {:?}", other),
    }
}

#[test]
fn test_network_collector_filters_loopback() {
    let collector = NetworkCollector::new("^(lo|veth)").unwrap();
    let metrics = collector.collect_from_string(NET_DEV_FIXTURE).unwrap();
    // All metrics should only have eth0
    for metric in &metrics {
        assert_eq!(metric.samples.len(), 1);
        assert_eq!(metric.samples[0].labels[0].1, "eth0");
    }
}

#[test]
fn test_network_collector_metric_values() {
    let collector = NetworkCollector::new("^lo$").unwrap();
    let metrics = collector.collect_from_string(NET_DEV_FIXTURE).unwrap();
    assert_eq!(metrics.len(), 8);

    // receive_bytes_total for eth0
    assert_eq!(metrics[0].name, "sysmetrics_network_receive_bytes_total");
    assert_eq!(metrics[0].samples[0].value, MetricValue::whole(9876543));

    // transmit_bytes_total for eth0
    assert_eq!(metrics[1].name, "sysmetrics_network_transmit_bytes_total");
    assert_eq!(metrics[1].samples[0].value, MetricValue::whole(5432198));
}

#[test]
fn test_network_collector_interface_with_special_chars() {
    let input = "\
Inter-|   Receive                                                |  Transmit
 face |bytes    packets errs drop fifo frame compressed multicast|bytes    packets errs drop fifo colls carrier compressed
docker0: 100 10 0 0 0 0 0 0 200 20 0 0 0 0 0 0
br-abc123: 300 30 0 0 0 0 0 0 400 40 0 0 0 0 0 0
";
    let collector = NetworkCollector::new("^$").unwrap(); // exclude nothing
    let metrics = collector.collect_from_string(input).unwrap();
    assert_eq!(metrics[0].samples.len(), 2);
    assert_eq!(metrics[0].samples[0].labels[0].1, "docker0");
    assert_eq!(metrics[0].samples[1].labels[0].1, "br-abc123");
}

#[test]
fn test_network_collector_invalid_pattern_is_error() {
    assert!(NetworkCollector::new("(").is_err());
}
