use hermod::dispatcher::config::{
    longest_prefix_entry, BackendConfig, ConfigOption, FormatLogging, SeverityFilter, TraceConfig,
};
use hermod::protocol::types::{DetailLevel, Severity};

fn ns(parts: &[&str]) -> Vec<String> {
    parts.iter().map(|s| s.to_string()).collect()
}

#[test]
fn root_entry_applies_to_every_namespace() {
    let config = TraceConfig::new().with_options(
        vec![],
        vec![
            ConfigOption::Severity(SeverityFilter::Min(Severity::Info)),
            ConfigOption::Backends(vec![BackendConfig::Stdout(FormatLogging::MachineFormat)]),
        ],
    );
    assert_eq!(config.severity_for(&ns(&["Test", "Msg"])), SeverityFilter::Min(Severity::Info));
    assert_eq!(
        config.backends_for(&ns(&["Test", "Msg"])),
        vec![BackendConfig::Stdout(FormatLogging::MachineFormat)]
    );
}

#[test]
fn longest_prefix_wins() {
    let config = TraceConfig::new()
        .with_options(vec![], vec![ConfigOption::Severity(SeverityFilter::Min(Severity::Debug))])
        .with_options(ns(&["Test"]), vec![ConfigOption::Severity(SeverityFilter::Silence)])
        .with_options(ns(&["Test", "Msg"]), vec![ConfigOption::Detail(DetailLevel::DMaximum)]);
    // severity comes from the "Test" entry, detail from "Test.Msg"
    assert_eq!(config.severity_for(&ns(&["Test", "Msg"])), SeverityFilter::Silence);
    assert_eq!(config.detail_for(&ns(&["Test", "Msg"])), DetailLevel::DMaximum);
    assert_eq!(config.severity_for(&ns(&["Other"])), SeverityFilter::Min(Severity::Debug));
    assert_eq!(config.detail_for(&ns(&["Other"])), DetailLevel::DNormal);
}

#[test]
fn defaults_apply_without_entries() {
    let config = TraceConfig::new();
    assert_eq!(config.severity_for(&ns(&["A"])), SeverityFilter::Min(Severity::Warning));
    assert_eq!(config.detail_for(&ns(&["A"])), DetailLevel::DNormal);
    assert_eq!(
        config.backends_for(&ns(&["A"])),
        vec![
            BackendConfig::Stdout(FormatLogging::MachineFormat),
            BackendConfig::EkgBackend,
            BackendConfig::Forwarder
        ]
    );
}

#[test]
fn first_option_of_a_kind_in_an_entry_wins() {
    let config = TraceConfig::new().with_options(
        ns(&["A"]),
        vec![
            ConfigOption::Severity(SeverityFilter::Min(Severity::Error)),
            ConfigOption::Severity(SeverityFilter::Min(Severity::Debug)),
        ],
    );
    assert_eq!(config.severity_for(&ns(&["A", "B"])), SeverityFilter::Min(Severity::Error));
}

#[test]
fn severity_filter_passes() {
    assert!(SeverityFilter::Min(Severity::Info).passes(Severity::Info));
    assert!(SeverityFilter::Min(Severity::Info).passes(Severity::Emergency));
    assert!(!SeverityFilter::Min(Severity::Warning).passes(Severity::Info));
    assert!(!SeverityFilter::Silence.passes(Severity::Emergency));
}

#[test]
fn longest_prefix_entry_picks_most_specific() {
    let entries: Vec<(Vec<String>, u32)> = vec![(vec![], 1), (ns(&["Test", "Msg"]), 2), (ns(&["Test"]), 3)];
    assert_eq!(longest_prefix_entry(&entries, &ns(&["Test", "Msg", "X"])), Some(1));
    assert_eq!(longest_prefix_entry(&entries, &ns(&["Test", "Other"])), Some(2));
    assert_eq!(longest_prefix_entry(&entries, &ns(&["Else"])), Some(0));
    let none: Vec<(Vec<String>, u32)> = vec![(ns(&["Only"]), 1)];
    assert_eq!(longest_prefix_entry(&none, &ns(&["Else"])), None);
}

#[test]
fn severity_rank_and_name() {
    assert_eq!(Severity::Debug.rank(), 0);
    assert_eq!(Severity::Emergency.rank(), 7);
    assert_eq!(Severity::Warning.name(), "Warning");
}
