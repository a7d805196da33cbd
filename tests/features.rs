use serde_json::Value;
use singer_features::{add_option, from_config, get_features, Component, FeatureSet, Section, SingerConfig};

fn components(kinds: &[&str]) -> Vec<Component> {
    kinds.iter().map(|k| Component::new(k)).collect()
}

fn config(
    api: Option<Value>,
    enterprise: Option<Value>,
    sources: &[&str],
    transforms: &[&str],
    sinks: &[&str],
) -> SingerConfig {
    SingerConfig {
        api,
        enterprise,
        sources: components(sources),
        transforms: components(transforms),
        sinks: components(sinks),
    }
}

#[test]
fn end_to_end_example() {
    let c = config(
        Some(Value::Bool(true)),
        None,
        &["prometheus_scrape"],
        &[],
        &["gcp_pubsub", "splunk_hec_logs"],
    );
    assert_eq!(
        from_config(c),
        vec!["api", "sinks-gcp", "sinks-splunk_hec", "sources-prometheus"]
    );
}

#[test]
fn empty_configuration_needs_nothing() {
    let c = config(None, None, &[], &[], &[]);
    assert!(from_config(c).is_empty());
}

#[test]
fn capabilities_follow_presence() {
    let both = config(Some(Value::Bool(false)), Some(Value::from("x")), &[], &[], &[]);
    assert_eq!(from_config(both), vec!["api", "enterprise"]);
    let only_enterprise = config(None, Some(Value::from(1)), &[], &[], &[]);
    assert_eq!(from_config(only_enterprise), vec!["enterprise"]);
    let only_api = config(Some(Value::Null), None, &["file"], &[], &[]);
    assert_eq!(from_config(only_api), vec!["api", "sources-file"]);
}

#[test]
fn prometheus_sources_collapse_to_one_feature() {
    let c = config(None, None, &["prometheus_scrape", "prometheus_remote_write"], &[], &[]);
    let r = from_config(c);
    assert_eq!(r, vec!["sources-prometheus"]);
    assert_eq!(r.iter().filter(|f| *f == "sources-prometheus").count(), 1);
}

#[test]
fn unknown_sink_kind_maps_to_itself() {
    let c = config(None, None, &[], &[], &["unknown_sink_type"]);
    assert_eq!(from_config(c), vec!["sinks-unknown_sink_type"]);
}

#[test]
fn sink_exceptions_collapse() {
    let c = config(
        None,
        None,
        &[],
        &[],
        &[
            "gcp_pubsub",
            "gcp_stackdriver_logs",
            "gcp_stackdriver_metrics",
            "prometheus_remote_write",
            "splunk_hec_logs",
            "console",
        ],
    );
    assert_eq!(
        from_config(c),
        vec!["sinks-console", "sinks-gcp", "sinks-prometheus", "sinks-splunk_hec"]
    );
}

#[test]
fn exceptions_are_scoped_to_their_section() {
    let c = config(None, None, &["gcp_pubsub"], &["prometheus_scrape"], &["prometheus_scrape"]);
    assert_eq!(
        from_config(c),
        vec!["sinks-prometheus_scrape", "sources-gcp_pubsub", "transforms-prometheus_scrape"]
    );
}

#[test]
fn log_to_metric_transform_is_suppressed() {
    let c = config(None, None, &[], &["log_to_metric", "remap"], &[]);
    assert_eq!(from_config(c), vec!["transforms-remap"]);
    let alone = config(None, None, &[], &["log_to_metric"], &[]);
    assert!(from_config(alone).is_empty());
}

#[test]
fn output_is_sorted_without_duplicates() {
    let c = config(
        Some(Value::Bool(true)),
        Some(Value::Bool(true)),
        &["stdin", "file", "stdin", "demo_logs"],
        &["remap", "filter", "remap"],
        &["console", "blackhole", "console", "aws_s3"],
    );
    let r = from_config(c);
    assert_eq!(
        r,
        vec![
            "api",
            "enterprise",
            "sinks-aws_s3",
            "sinks-blackhole",
            "sinks-console",
            "sources-demo_logs",
            "sources-file",
            "sources-stdin",
            "transforms-filter",
            "transforms-remap",
        ]
    );
    for w in r.windows(2) {
        assert!(w[0] < w[1]);
    }
}

#[test]
fn order_is_by_code_point() {
    let c = config(None, None, &["b", "B", "a_b", "ab", "é", "a"], &[], &[]);
    assert_eq!(
        from_config(c),
        vec!["sources-B", "sources-a", "sources-a_b", "sources-ab", "sources-b", "sources-é"]
    );
}

#[test]
fn add_option_inserts_only_when_present() {
    let mut fs = FeatureSet::new();
    add_option(&mut fs, "api", &Some(3u8));
    add_option(&mut fs, "enterprise", &None::<u8>);
    add_option(&mut fs, "api", &Some(4u8));
    assert_eq!(fs.into_vec(), vec!["api"]);
}

#[test]
fn get_features_adds_each_resolved_kind_once() {
    let mut fs = FeatureSet::new();
    fs.insert("sources-prometheus".to_string());
    get_features(
        &mut fs,
        Section::Sources,
        components(&["prometheus_remote_write", "socket", "socket"]),
    );
    assert_eq!(fs.into_vec(), vec!["sources-prometheus", "sources-socket"]);
}

#[test]
fn feature_set_insert_and_remove() {
    let mut fs = FeatureSet::new();
    fs.insert("m".to_string());
    fs.insert("c".to_string());
    fs.insert("x".to_string());
    fs.insert("c".to_string());
    fs.remove("x");
    fs.remove("absent");
    assert_eq!(fs.into_vec(), vec!["c", "m"]);
}
