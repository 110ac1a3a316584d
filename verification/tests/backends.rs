use hermod::dispatcher::backend::datapoint::{datapoint_entry, DataPointStore, DatapointBackend};
use hermod::dispatcher::backend::ekg::{sanitise_name, split_labels, MetricCache};
use hermod::dispatcher::backend::forwarder::{send_outcome, ForwarderBackend, ForwarderError};
use hermod::dispatcher::backend::stdout::{apply_colour, build_human_line, StdoutBackend};
use hermod::dispatcher::config::FormatLogging;
use hermod::protocol::types::{DetailLevel, Severity, Timestamp, TraceObject};
use hermod::time::{now, timestamp_from_offset};

fn obj(human: Option<&str>, machine: &str) -> TraceObject {
    TraceObject {
        to_human: human.map(|s| s.to_string()),
        to_machine: machine.to_string(),
        to_namespace: vec!["Test".to_string(), "Msg".to_string()],
        to_severity: Severity::Info,
        to_details: DetailLevel::DNormal,
        to_timestamp: Timestamp { secs: 1431648000, nanos: 123_000_000 },
        to_hostname: "h".to_string(),
        to_thread_id: "t".to_string(),
    }
}

#[test]
fn datapoint_store_put_get() {
    let mut store = DataPointStore::new();
    assert_eq!(store.get("a"), None);
    store.put("a", vec![1, 2]);
    store.put("b", vec![3]);
    store.put("a", vec![9]);
    assert_eq!(store.get("a"), Some(vec![9]));
    assert_eq!(store.get("b"), Some(vec![3]));
    assert_eq!(DataPointStore::default().get("a"), None);
}

#[test]
fn datapoint_backend_stores_under_dotted_namespace() {
    let mut b = DatapointBackend::with_store(DataPointStore::new());
    b.dispatch(&obj(None, "{\"x\":1}"));
    assert_eq!(b.store().unwrap().get("Test.Msg"), Some(b"{\"x\":1}".to_vec()));
    b.dispatch(&obj(None, "{\"x\":2}"));
    assert_eq!(b.store().unwrap().get("Test.Msg"), Some(b"{\"x\":2}".to_vec()));
}

#[test]
fn datapoint_backend_without_store_discards() {
    let mut b = DatapointBackend::new();
    b.dispatch(&obj(None, "{}"));
    assert!(b.store().is_none());
    assert!(DatapointBackend::default().store().is_none());
}

#[test]
fn colour_wraps_text() {
    assert_eq!(apply_colour("x", Severity::Info), "\x1b[36mx\x1b[0m");
    assert_eq!(apply_colour("y", Severity::Error), "\x1b[31my\x1b[0m");
    assert_eq!(apply_colour("", Severity::Debug), "\x1b[37m\x1b[0m");
}

#[test]
fn human_line_uses_human_text() {
    let line = build_human_line(&obj(Some("hello"), "{}"), "hello", "{}", "TS");
    assert_eq!(line, "[TS] [Info] [Test.Msg] hello");
}

#[test]
fn human_line_falls_back_to_machine_json() {
    let line = build_human_line(&obj(None, "{\"a\":1}"), "", "{\"a\":1}", "TS");
    assert_eq!(line, "[TS] [Info] [Test.Msg] {\"data\":{\"a\":1}}");
}

#[test]
fn stdout_render_formats() {
    let o = obj(Some("hello"), "{}");
    let machine = StdoutBackend::new(FormatLogging::MachineFormat);
    assert_eq!(machine.render(&o, "hello", "{\"m\":1}"), Some("{\"m\":1}".to_string()));
    let plain = StdoutBackend::new(FormatLogging::HumanFormatUncoloured);
    assert_eq!(plain.render(&o, "hello", "{}"), Some("[2015-05-15T00:00:00.123Z] [Info] [Test.Msg] hello".to_string()));
    let coloured = StdoutBackend::new(FormatLogging::HumanFormatColoured);
    assert_eq!(
        coloured.render(&o, "hello", "{}"),
        Some("\x1b[36m[2015-05-15T00:00:00.123Z] [Info] [Test.Msg] hello\x1b[0m".to_string())
    );
}

#[test]
fn stdout_render_rejects_unrepresentable_time() {
    let mut o = obj(Some("hello"), "{}");
    o.to_timestamp = Timestamp { secs: i64::MAX, nanos: 0 };
    let plain = StdoutBackend::new(FormatLogging::HumanFormatUncoloured);
    assert_eq!(plain.render(&o, "hello", "{}"), None);
    let machine = StdoutBackend::new(FormatLogging::MachineFormat);
    assert_eq!(machine.render(&o, "hello", "{}"), Some("{}".to_string()));
}

#[test]
fn sanitise_replaces_invalid_chars() {
    assert_eq!(sanitise_name("cardano.node.metrics"), "cardano_node_metrics");
    assert_eq!(sanitise_name("a_b-c d"), "a_b_c_d");
    assert_eq!(sanitise_name(""), "_");
    assert_eq!(sanitise_name("9lives"), "_9lives");
    assert_eq!(sanitise_name("über"), "_ber");
    assert_eq!(sanitise_name("x:y"), "x_y");
    let once = sanitise_name("x.y:z");
    assert_eq!(sanitise_name(&once), once);
}

#[test]
fn metric_cache_creates_once() {
    let mut cache: MetricCache<u32> = MetricCache::new();
    let mut calls = Vec::new();
    let r: Result<u32, String> = cache.get_or_create("a.b", |n, h| {
        calls.push((n.clone(), h.clone()));
        Ok(5)
    });
    assert_eq!(r, Ok(5));
    assert_eq!(calls, vec![("a_b".to_string(), "a.b".to_string())]);
    let r: Result<u32, String> = cache.get_or_create("a.b", |_, _| Ok(6));
    assert_eq!(r, Ok(5));
    assert_eq!(cache.get("a.b"), Some(5));
}

#[test]
fn metric_cache_failure_leaves_cache_unchanged() {
    let mut cache: MetricCache<u32> = MetricCache::new();
    let r: Result<u32, String> = cache.get_or_create("x", |_, _| Err("no".to_string()));
    assert_eq!(r, Err("no".to_string()));
    assert_eq!(cache.get("x"), None);
}

#[test]
fn forwarder_queues_and_reports_full_queue() {
    let (tx, mut rx) = tokio::sync::mpsc::channel(1);
    let fwd = ForwarderBackend::new(tx);
    assert_eq!(fwd.dispatch(&obj(Some("a"), "{}")), Ok(()));
    assert_eq!(fwd.dispatch(&obj(Some("b"), "{}")), Err(ForwarderError::QueueFull));
    let got = rx.try_recv().unwrap();
    assert_eq!(got.to_human, Some("a".to_string()));
    drop(rx);
    assert_eq!(fwd.dispatch(&obj(Some("c"), "{}")), Err(ForwarderError::Closed));
}

#[test]
fn trace_object_clone_keeps_fields() {
    let o = obj(Some("a"), "{}");
    let c = o.clone();
    assert_eq!(c.to_human, o.to_human);
    assert_eq!(c.to_namespace, o.to_namespace);
    assert_eq!(c.to_timestamp, o.to_timestamp);
}

#[test]
fn send_outcome_maps_queue_answers() {
    assert_eq!(send_outcome(Ok(())), Ok(()));
    assert_eq!(send_outcome(Err((ForwarderError::QueueFull, obj(None, "{}")))), Err(ForwarderError::QueueFull));
    assert_eq!(send_outcome(Err((ForwarderError::Closed, obj(None, "{}")))), Err(ForwarderError::Closed));
}

#[test]
fn split_labels_keeps_order() {
    let labels = vec![("a".to_string(), "1".to_string()), ("b".to_string(), "2".to_string())];
    let (names, values) = split_labels(&labels);
    assert_eq!(names, vec!["a".to_string(), "b".to_string()]);
    assert_eq!(values, vec!["1".to_string(), "2".to_string()]);
    let (n, v) = split_labels(&Vec::new());
    assert!(n.is_empty() && v.is_empty());
}

#[test]
fn datapoint_entry_is_dotted_key_and_bytes() {
    let (k, v) = datapoint_entry(&obj(None, "{\"x\":1}"));
    assert_eq!(k, "Test.Msg");
    assert_eq!(v, b"{\"x\":1}".to_vec());
}

#[test]
fn renderable_timestamps_render() {
    let mut o = obj(Some("h"), "{}");
    let plain = StdoutBackend::new(FormatLogging::HumanFormatUncoloured);
    o.to_timestamp = Timestamp { secs: -1, nanos: 999_999_999 };
    assert_eq!(plain.render(&o, "h", "{}"), Some("[1969-12-31T23:59:59.999Z] [Info] [Test.Msg] h".to_string()));
    o.to_timestamp = Timestamp { secs: 8_000_000_000_000, nanos: 0 };
    assert!(plain.render(&o, "h", "{}").is_some());
}

#[test]
fn timestamp_from_clock_offsets() {
    assert_eq!(timestamp_from_offset(Ok((5, 7))), Timestamp { secs: 5, nanos: 7 });
    assert_eq!(timestamp_from_offset(Err((2, 0))), Timestamp { secs: -2, nanos: 0 });
    assert_eq!(timestamp_from_offset(Err((2, 250_000_000))), Timestamp { secs: -3, nanos: 750_000_000 });
    assert_eq!(timestamp_from_offset(Ok((u64::MAX, 1))), Timestamp { secs: i64::MAX, nanos: 1 });
    let t = now();
    assert!(t.nanos < 1_000_000_000);
    assert!(t.secs > 1_600_000_000);
}
