use sysmetrics::metric::{escape_label_value, render_metrics, Metric, MetricSample, MetricType};
use sysmetrics::value::{format_value, MetricValue};

#[test]
fn test_escape_label_value_plain() {
    assert_eq!(escape_label_value("hello"), "hello");
}

#[test]
fn test_escape_label_value_backslash() {
    assert_eq!(escape_label_value("a\\b"), "a\\\\b");
}

#[test]
fn test_escape_label_value_quote() {
    assert_eq!(escape_label_value("a\"b"), "a\\\"b");
}

#[test]
fn test_escape_label_value_newline() {
    assert_eq!(escape_label_value("a\nb"), "a\\nb");
}

#[test]
fn test_escape_label_value_combined() {
    assert_eq!(escape_label_value("a\\\"b\nc"), "a\\\\\\\"b\\nc");
}

#[test]
fn test_format_float_integer() {
    // 42.0 is mathematically an integer: no decimal point.
    assert_eq!(format_value(&MetricValue::decimal(420, 1)), "42");
    assert_eq!(format_value(&MetricValue::whole(42)), "42");
}

#[test]
fn test_format_float_decimal() {
    assert_eq!(format_value(&MetricValue::decimal(3125, 3)), "3.125");
}

#[test]
fn test_format_float_zero() {
    assert_eq!(format_value(&MetricValue::decimal(0, 1)), "0");
}

#[test]
fn test_format_float_inf() {
    assert_eq!(format_value(&MetricValue::PosInf), "+Inf");
    assert_eq!(format_value(&MetricValue::NegInf), "-Inf");
}

#[test]
fn test_format_float_nan() {
    assert_eq!(format_value(&MetricValue::NaN), "NaN");
}

#[test]
fn test_format_value_trims_trailing_zeros() {
    assert_eq!(format_value(&MetricValue::decimal(18540, 2)), "185.4");
    assert_eq!(format_value(&MetricValue::decimal(5, 2)), "0.05");
}

#[test]
fn test_render_metrics_counter() {
    let metrics = vec![Metric {
        name: "sysmetrics_test_total".to_string(),
        help: "A test counter.".to_string(),
        metric_type: MetricType::Counter,
        samples: vec![
            MetricSample {
                labels: vec![("mode".to_string(), "user".to_string())],
                value: MetricValue::whole(123),
            },
            MetricSample {
                labels: vec![("mode".to_string(), "system".to_string())],
                value: MetricValue::whole(456),
            },
        ],
    }];
    let output = render_metrics(&metrics);
    assert!(output.contains("# HELP sysmetrics_test_total A test counter."));
    assert!(output.contains("# TYPE sysmetrics_test_total counter"));
    assert!(output.contains("sysmetrics_test_total{mode=\"user\"} 123"));
    assert!(output.contains("sysmetrics_test_total{mode=\"system\"} 456"));
}

#[test]
fn test_render_metrics_gauge_no_labels() {
    let metrics = vec![Metric {
        name: "sysmetrics_cpu_count".to_string(),
        help: "Number of CPUs.".to_string(),
        metric_type: MetricType::Gauge,
        samples: vec![MetricSample { labels: vec![], value: MetricValue::whole(4) }],
    }];
    let output = render_metrics(&metrics);
    assert!(output.contains("# TYPE sysmetrics_cpu_count gauge"));
    assert!(output.contains("sysmetrics_cpu_count 4\n"));
}

#[test]
fn test_render_metrics_label_escaping() {
    let metrics = vec![Metric {
        name: "sysmetrics_test".to_string(),
        help: "Test metric.".to_string(),
        metric_type: MetricType::Gauge,
        samples: vec![MetricSample {
            labels: vec![("path".to_string(), "/a\"b\\c\nd".to_string())],
            value: MetricValue::whole(1),
        }],
    }];
    let output = render_metrics(&metrics);
    assert!(output.contains("path=\"/a\\\"b\\\\c\\nd\""));
}

#[test]
fn test_render_metrics_multiple_labels() {
    let metrics = vec![Metric {
        name: "sysmetrics_cpu_seconds_total".to_string(),
        help: "Total CPU time.".to_string(),
        metric_type: MetricType::Counter,
        samples: vec![MetricSample {
            labels: vec![
                ("cpu".to_string(), "0".to_string()),
                ("mode".to_string(), "user".to_string()),
            ],
            value: MetricValue::decimal(18539, 2),
        }],
    }];
    let output = render_metrics(&metrics);
    assert!(output.contains("sysmetrics_cpu_seconds_total{cpu=\"0\",mode=\"user\"} 185.39"));
}
