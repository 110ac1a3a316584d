use hermod::dispatcher::backend::datapoint::DatapointBackend;
use hermod::dispatcher::config::{BackendConfig, ConfigOption, FormatLogging, SeverityFilter, TraceConfig};
use hermod::dispatcher::traits::Privacy;
use hermod::dispatcher::{hostname_or_unknown, message_severity, BackendConfigKey, DefaultBackend, DispatcherBuilder};
use hermod::protocol::types::{DetailLevel, Severity, Timestamp};

fn ns(parts: &[&str]) -> Vec<String> {
    parts.iter().map(|s| s.to_string()).collect()
}

fn config(sev: SeverityFilter, backends: Vec<BackendConfig>) -> TraceConfig {
    TraceConfig::new().with_options(vec![], vec![ConfigOption::Severity(sev), ConfigOption::Backends(backends)])
}

/// Delivers a message the way the dispatch loop does and counts deliveries.
fn deliveries(
    d: &hermod::dispatcher::Dispatcher<std::sync::Arc<std::sync::atomic::AtomicUsize>>,
    namespace: &[&str],
    sev: Severity,
) {
    let n = ns(namespace);
    if !d.severity_passes(&n, Some(sev)) {
        return;
    }
    for key in d.dispatch_targets(&n, Privacy::Public) {
        if let Some(counter) = d.backend(key) {
            counter.fetch_add(1, std::sync::atomic::Ordering::SeqCst);
        }
    }
}

fn counting_dispatcher(
    sev: SeverityFilter,
) -> (
    hermod::dispatcher::Dispatcher<std::sync::Arc<std::sync::atomic::AtomicUsize>>,
    std::sync::Arc<std::sync::atomic::AtomicUsize>,
) {
    let counter = std::sync::Arc::new(std::sync::atomic::AtomicUsize::new(0));
    let d = DispatcherBuilder::new(config(sev, vec![BackendConfig::Stdout(FormatLogging::MachineFormat)]))
        .with_hostname("test-host".to_string())
        .with_stdout_machine(counter.clone())
        .build();
    (d, counter)
}

#[test]
fn test_severity_filter_passes() {
    let (d, counter) = counting_dispatcher(SeverityFilter::Min(Severity::Info));
    deliveries(&d, &["Test", "Msg"], Severity::Info);
    assert_eq!(counter.load(std::sync::atomic::Ordering::SeqCst), 1);
}

#[test]
fn test_severity_filter_blocks() {
    let (d, counter) = counting_dispatcher(SeverityFilter::Min(Severity::Warning));
    deliveries(&d, &["Test", "Msg"], Severity::Info);
    assert_eq!(counter.load(std::sync::atomic::Ordering::SeqCst), 0);
}

#[test]
fn test_silence_blocks_all() {
    let (d, counter) = counting_dispatcher(SeverityFilter::Silence);
    deliveries(&d, &["Test", "Msg"], Severity::Emergency);
    assert_eq!(counter.load(std::sync::atomic::Ordering::SeqCst), 0);
}

#[test]
fn severity_filter_passes_info_at_info() {
    let d = DispatcherBuilder::<u32>::new(config(
        SeverityFilter::Min(Severity::Info),
        vec![BackendConfig::Stdout(FormatLogging::MachineFormat)],
    ))
    .with_hostname("test-host".to_string())
    .with_stdout_machine(1)
    .build();
    assert!(d.severity_passes(&ns(&["Test", "Msg"]), Some(Severity::Info)));
    assert_eq!(d.dispatch_targets(&ns(&["Test", "Msg"]), Privacy::Public), vec![BackendConfigKey::StdoutMachine]);
}

#[test]
fn severity_filter_blocks_info_at_warning() {
    let d = DispatcherBuilder::<u32>::new(config(
        SeverityFilter::Min(Severity::Warning),
        vec![BackendConfig::Stdout(FormatLogging::MachineFormat)],
    ))
    .with_stdout_machine(1)
    .build();
    assert!(!d.severity_passes(&ns(&["Test", "Msg"]), Some(Severity::Info)));
}

#[test]
fn silence_blocks_emergency() {
    let d = DispatcherBuilder::<u32>::new(config(SeverityFilter::Silence, vec![])).build();
    assert!(!d.severity_passes(&ns(&["Test", "Msg"]), Some(Severity::Emergency)));
}

#[test]
fn missing_severity_counts_as_debug() {
    assert_eq!(message_severity(None), Severity::Debug);
    let d = DispatcherBuilder::<u32>::new(config(SeverityFilter::Min(Severity::Info), vec![])).build();
    assert!(!d.severity_passes(&ns(&["A"]), None));
    let d = DispatcherBuilder::<u32>::new(config(SeverityFilter::Min(Severity::Debug), vec![])).build();
    assert!(d.severity_passes(&ns(&["A"]), None));
}

#[test]
fn confidential_messages_skip_the_forwarder() {
    let d = DispatcherBuilder::<u32>::new(config(
        SeverityFilter::Min(Severity::Debug),
        vec![BackendConfig::Forwarder, BackendConfig::Stdout(FormatLogging::HumanFormatColoured)],
    ))
    .with_forwarder(1)
    .with_stdout_coloured(2)
    .build();
    assert_eq!(
        d.dispatch_targets(&ns(&["A"]), Privacy::Public),
        vec![BackendConfigKey::Forwarder, BackendConfigKey::StdoutColoured]
    );
    assert_eq!(d.dispatch_targets(&ns(&["A"]), Privacy::Confidential), vec![BackendConfigKey::StdoutColoured]);
    assert_eq!(d.backend(BackendConfigKey::Forwarder), Some(&1));
    assert_eq!(d.backend(BackendConfigKey::StdoutColoured), Some(&2));
}

#[test]
fn unregistered_backends_are_skipped() {
    let d = DispatcherBuilder::<u32>::new(config(
        SeverityFilter::Min(Severity::Debug),
        vec![BackendConfig::EkgBackend, BackendConfig::DatapointBackend],
    ))
    .with_datapoint(7)
    .build();
    assert_eq!(d.dispatch_targets(&ns(&["A"]), Privacy::Public), vec![BackendConfigKey::Datapoint]);
    assert_eq!(d.backend(BackendConfigKey::Ekg), None);
}

#[test]
fn registering_twice_replaces() {
    let d = DispatcherBuilder::<u32>::new(TraceConfig::new()).with_ekg(1).with_ekg(2).build();
    assert_eq!(d.backend(BackendConfigKey::Ekg), Some(&2));
}

#[test]
fn default_backends_fill_only_missing_defaultable_keys() {
    let cfg = TraceConfig::new()
        .with_options(
            ns(&["A"]),
            vec![ConfigOption::Backends(vec![
                BackendConfig::Stdout(FormatLogging::HumanFormatUncoloured),
                BackendConfig::Forwarder,
                BackendConfig::EkgBackend,
            ])],
        )
        .with_options(
            ns(&["B"]),
            vec![ConfigOption::Backends(vec![
                BackendConfig::DatapointBackend,
                BackendConfig::Stdout(FormatLogging::MachineFormat),
            ])],
        );
    let d = DispatcherBuilder::<String>::new(cfg)
        .with_stdout_machine("mine".to_string())
        .with_default_backends(|b| match b {
            DefaultBackend::Stdout(s) => format!("stdout {:?}", s.format),
            DefaultBackend::Datapoint(dp) => format!("datapoint {}", dp.store().is_some()),
        })
        .build();
    assert_eq!(d.backend(BackendConfigKey::StdoutMachine), Some(&"mine".to_string()));
    assert_eq!(d.backend(BackendConfigKey::StdoutUncoloured), Some(&"stdout HumanFormatUncoloured".to_string()));
    assert_eq!(d.backend(BackendConfigKey::Datapoint), Some(&"datapoint false".to_string()));
    assert_eq!(d.backend(BackendConfigKey::StdoutColoured), None);
    assert_eq!(d.backend(BackendConfigKey::Forwarder), None);
    assert_eq!(d.backend(BackendConfigKey::Ekg), None);
}

#[test]
fn backend_config_keys() {
    assert_eq!(BackendConfigKey::from_config(&BackendConfig::Forwarder), BackendConfigKey::Forwarder);
    assert_eq!(
        BackendConfigKey::from_config(&BackendConfig::Stdout(FormatLogging::HumanFormatColoured)),
        BackendConfigKey::StdoutColoured
    );
    assert_eq!(
        BackendConfigKey::from_config(&BackendConfig::Stdout(FormatLogging::HumanFormatUncoloured)),
        BackendConfigKey::StdoutUncoloured
    );
    assert_eq!(
        BackendConfigKey::from_config(&BackendConfig::Stdout(FormatLogging::MachineFormat)),
        BackendConfigKey::StdoutMachine
    );
    assert_eq!(BackendConfigKey::from_config(&BackendConfig::EkgBackend), BackendConfigKey::Ekg);
    assert_eq!(BackendConfigKey::from_config(&BackendConfig::DatapointBackend), BackendConfigKey::Datapoint);
}

#[test]
fn hostname_fallback() {
    assert_eq!(hostname_or_unknown(Some("box".to_string())), "box");
    assert_eq!(hostname_or_unknown(None), "unknown");
}

#[test]
fn explicit_hostname_is_used() {
    let d = DispatcherBuilder::<u32>::new(TraceConfig::new()).with_hostname("test-host".to_string()).build();
    assert_eq!(d.hostname(), "test-host");
}

#[test]
fn build_without_hostname_gives_some_name() {
    let d = DispatcherBuilder::<u32>::new(TraceConfig::new()).build();
    assert!(!d.hostname().is_empty());
}

#[test]
fn trace_object_fields() {
    let cfg = TraceConfig::new().with_options(vec![], vec![ConfigOption::Detail(DetailLevel::DDetailed)]);
    let d = DispatcherBuilder::<u32>::new(cfg).with_hostname("h".to_string()).build();
    let ts = Timestamp { secs: 1431648000, nanos: 5 };
    let obj = d.trace_object_at(&ns(&["Test", "Msg"]), None, &String::new(), "{}".to_string(), ts, "t1".to_string());
    assert_eq!(obj.to_human, None);
    assert_eq!(obj.to_machine, "{}");
    assert_eq!(obj.to_namespace, ns(&["Test", "Msg"]));
    assert_eq!(obj.to_severity, Severity::Debug);
    assert_eq!(obj.to_details, DetailLevel::DDetailed);
    assert_eq!(obj.to_timestamp, ts);
    assert_eq!(obj.to_hostname, "h");
    assert_eq!(obj.to_thread_id, "t1");
    let obj = d.trace_object(&ns(&["X"]), Some(Severity::Alert), &"hi".to_string(), "{}".to_string(), "t2".to_string());
    assert_eq!(obj.to_human, Some("hi".to_string()));
    assert_eq!(obj.to_severity, Severity::Alert);
}

#[test]
fn datapoint_default_backend_has_no_store() {
    assert!(DatapointBackend::new().store().is_none());
}
