//! Namespace-based trace routing.
//!
//! A [`Dispatcher`] sits between application code and the configured
//! backends.  For each message it decides, from the configuration of the
//! message's namespace, whether the message passes the severity filter, which
//! registered backends it goes to (never the forwarder for a confidential
//! message), and what trace object is built for it.  Delivering to the
//! backends, and the rate limiter, are the caller's work.

pub mod backend;
pub mod config;
pub mod traits;

use vstd::prelude::*;

use crate::protocol::types::{Severity, Timestamp, TraceObject};
use backend::datapoint::DatapointBackend;
use backend::stdout::StdoutBackend;
use config::{passes_spec, BackendConfig, ConfigOption, FormatLogging, TraceConfig};
use traits::Privacy;

verus! {

/// Identifies the backend instance a [`BackendConfig`] is delivered to.
#[derive(Clone, Copy, Debug, PartialEq, Eq, Structural, Hash)]
pub enum BackendConfigKey {
    Forwarder,
    StdoutColoured,
    StdoutUncoloured,
    StdoutMachine,
    Ekg,
    Datapoint,
}

/// The backend instance each backend configuration is delivered to.
pub open spec fn key_of(bc: BackendConfig) -> BackendConfigKey {
    match bc {
        BackendConfig::Forwarder => BackendConfigKey::Forwarder,
        BackendConfig::Stdout(FormatLogging::HumanFormatColoured) => BackendConfigKey::StdoutColoured,
        BackendConfig::Stdout(FormatLogging::HumanFormatUncoloured) => BackendConfigKey::StdoutUncoloured,
        BackendConfig::Stdout(FormatLogging::MachineFormat) => BackendConfigKey::StdoutMachine,
        BackendConfig::EkgBackend => BackendConfigKey::Ekg,
        BackendConfig::DatapointBackend => BackendConfigKey::Datapoint,
    }
}

impl BackendConfigKey {
    /// The key of the backend instance `bc` is delivered to.
    pub fn from_config(bc: &BackendConfig) -> (k: Self)
        ensures
            k == key_of(*bc),
    {
        match bc {
            BackendConfig::Forwarder => BackendConfigKey::Forwarder,
            BackendConfig::Stdout(FormatLogging::HumanFormatColoured) => BackendConfigKey::StdoutColoured,
            BackendConfig::Stdout(FormatLogging::HumanFormatUncoloured) => BackendConfigKey::StdoutUncoloured,
            BackendConfig::Stdout(FormatLogging::MachineFormat) => BackendConfigKey::StdoutMachine,
            BackendConfig::EkgBackend => BackendConfigKey::Ekg,
            BackendConfig::DatapointBackend => BackendConfigKey::Datapoint,
        }
    }
}

/// Distinct backend configurations go to distinct backend instances.
pub proof fn lemma_key_of_injective(a: BackendConfig, b: BackendConfig)
    ensures
        key_of(a) == key_of(b) ==> a == b,
{
}

/// One optional backend per key.
struct BackendSlots<B> {
    forwarder: Option<B>,
    stdout_coloured: Option<B>,
    stdout_uncoloured: Option<B>,
    stdout_machine: Option<B>,
    ekg: Option<B>,
    datapoint: Option<B>,
}

impl<B> BackendSlots<B> {
    spec fn slot(self, k: BackendConfigKey) -> Option<B> {
        match k {
            BackendConfigKey::Forwarder => self.forwarder,
            BackendConfigKey::StdoutColoured => self.stdout_coloured,
            BackendConfigKey::StdoutUncoloured => self.stdout_uncoloured,
            BackendConfigKey::StdoutMachine => self.stdout_machine,
            BackendConfigKey::Ekg => self.ekg,
            BackendConfigKey::Datapoint => self.datapoint,
        }
    }

    fn empty() -> (r: Self)
        ensures
            forall|k: BackendConfigKey| #[trigger] r.slot(k) is None,
    {
        BackendSlots {
            forwarder: None,
            stdout_coloured: None,
            stdout_uncoloured: None,
            stdout_machine: None,
            ekg: None,
            datapoint: None,
        }
    }

    fn get(&self, k: BackendConfigKey) -> (r: Option<&B>)
        ensures
            match r {
                Some(b) => self.slot(k) == Some(*b),
                None => self.slot(k) is None,
            },
    {
        let slot = match k {
            BackendConfigKey::Forwarder => &self.forwarder,
            BackendConfigKey::StdoutColoured => &self.stdout_coloured,
            BackendConfigKey::StdoutUncoloured => &self.stdout_uncoloured,
            BackendConfigKey::StdoutMachine => &self.stdout_machine,
            BackendConfigKey::Ekg => &self.ekg,
            BackendConfigKey::Datapoint => &self.datapoint,
        };
        match slot {
            Some(b) => Some(b),
            None => None,
        }
    }

    fn set(&mut self, k: BackendConfigKey, b: B)
        ensures
            forall|k2: BackendConfigKey| #[trigger] final(self).slot(k2) == if k2 == k { Some(b) } else { old(self).slot(k2) },
    {
        match k {
            BackendConfigKey::Forwarder => self.forwarder = Some(b),
            BackendConfigKey::StdoutColoured => self.stdout_coloured = Some(b),
            BackendConfigKey::StdoutUncoloured => self.stdout_uncoloured = Some(b),
            BackendConfigKey::StdoutMachine => self.stdout_machine = Some(b),
            BackendConfigKey::Ekg => self.ekg = Some(b),
            BackendConfigKey::Datapoint => self.datapoint = Some(b),
        }
    }
}


// ---------------------------------------------------------------------------
// Routing decisions
// ---------------------------------------------------------------------------

/// The severity a message is filtered and recorded with: its own, or `Debug`
/// when it declares none.
pub open spec fn effective_severity(sev: Option<Severity>) -> Severity {
    match sev {
        Some(s) => s,
        None => Severity::Debug,
    }
}

/// The severity a message is filtered and recorded with.
pub fn message_severity(sev: Option<Severity>) -> (r: Severity)
    ensures
        r == effective_severity(sev),
{
    match sev {
        Some(s) => s,
        None => Severity::Debug,
    }
}

/// Whether backend configuration `bc` is skipped for a message of privacy
/// `privacy`: confidential messages never go to the forwarder.
pub open spec fn withheld(bc: BackendConfig, privacy: Privacy) -> bool {
    privacy == Privacy::Confidential && bc == BackendConfig::Forwarder
}

/// The backend instances a message goes to, in the order of `bks`: each
/// configured backend not withheld for its privacy whose instance is
/// registered (`registered(k)`), once per occurrence in `bks`.
pub open spec fn route(
    bks: Seq<BackendConfig>,
    privacy: Privacy,
    registered: spec_fn(BackendConfigKey) -> bool,
) -> Seq<BackendConfigKey>
    decreases bks.len(),
{
    if bks.len() == 0 {
        Seq::empty()
    } else {
        let rest = route(bks.drop_last(), privacy, registered);
        let bc = bks.last();
        if withheld(bc, privacy) || !registered(key_of(bc)) {
            rest
        } else {
            rest.push(key_of(bc))
        }
    }
}

/// A confidential message is never routed to the forwarder, whatever the
/// configuration and the registered backends.
pub proof fn lemma_confidential_never_forwarded(
    bks: Seq<BackendConfig>,
    registered: spec_fn(BackendConfigKey) -> bool,
)
    ensures
        !route(bks, Privacy::Confidential, registered).contains(BackendConfigKey::Forwarder),
    decreases bks.len(),
{
    if bks.len() > 0 {
        lemma_confidential_never_forwarded(bks.drop_last(), registered);
        let rest = route(bks.drop_last(), Privacy::Confidential, registered);
        let bc = bks.last();
        if !(withheld(bc, Privacy::Confidential) || !registered(key_of(bc))) {
            assert(key_of(bc) != BackendConfigKey::Forwarder);
            assert forall|i: int| 0 <= i < rest.push(key_of(bc)).len() implies rest.push(key_of(bc))[i]
                != BackendConfigKey::Forwarder by {
                if i < rest.len() {
                    assert(rest.push(key_of(bc))[i] == rest[i]);
                }
            }
        }
    }
}

/// `ks` with every occurrence of `k` taken out, the rest in order.
pub open spec fn without(ks: Seq<BackendConfigKey>, k: BackendConfigKey) -> Seq<BackendConfigKey>
    decreases ks.len(),
{
    if ks.len() == 0 {
        ks
    } else if ks.last() == k {
        without(ks.drop_last(), k)
    } else {
        without(ks.drop_last(), k).push(ks.last())
    }
}

/// The keys of the configured backends `bks` that are registered, in order,
/// once per occurrence.
pub open spec fn registered_keys(bks: Seq<BackendConfig>, registered: spec_fn(BackendConfigKey) -> bool) -> Seq<BackendConfigKey>
    decreases bks.len(),
{
    if bks.len() == 0 {
        Seq::empty()
    } else if registered(key_of(bks.last())) {
        registered_keys(bks.drop_last(), registered).push(key_of(bks.last()))
    } else {
        registered_keys(bks.drop_last(), registered)
    }
}

/// A public message goes to every configured backend that is registered, in
/// configuration order; a confidential message goes to exactly the same
/// backends except the forwarder.
pub proof fn lemma_route_by_privacy(bks: Seq<BackendConfig>, registered: spec_fn(BackendConfigKey) -> bool)
    ensures
        route(bks, Privacy::Public, registered) == registered_keys(bks, registered),
        route(bks, Privacy::Confidential, registered) == without(route(bks, Privacy::Public, registered), BackendConfigKey::Forwarder),
    decreases bks.len(),
{
    if bks.len() > 0 {
        lemma_route_by_privacy(bks.drop_last(), registered);
        let rest = route(bks.drop_last(), Privacy::Public, registered);
        let bc = bks.last();
        if registered(key_of(bc)) {
            assert(route(bks, Privacy::Public, registered) == rest.push(key_of(bc)));
            assert(rest.push(key_of(bc)).drop_last() =~= rest);
            assert(rest.push(key_of(bc)).last() == key_of(bc));
            if bc == BackendConfig::Forwarder {
                assert(key_of(bc) == BackendConfigKey::Forwarder);
            } else {
                assert(key_of(bc) != BackendConfigKey::Forwarder);
            }
        }
    }
}

/// Every backend a message is routed to is registered.
pub proof fn lemma_routes_only_registered(
    bks: Seq<BackendConfig>,
    privacy: Privacy,
    registered: spec_fn(BackendConfigKey) -> bool,
)
    ensures
        forall|i: int| 0 <= i < route(bks, privacy, registered).len()
            ==> registered(#[trigger] route(bks, privacy, registered)[i]),
    decreases bks.len(),
{
    if bks.len() > 0 {
        lemma_routes_only_registered(bks.drop_last(), privacy, registered);
        let rest = route(bks.drop_last(), privacy, registered);
        let r = route(bks, privacy, registered);
        assert forall|i: int| 0 <= i < r.len() implies registered(#[trigger] r[i]) by {
            if i < rest.len() {
                assert(r[i] == rest[i]);
            }
        }
    }
}

/// A `Min(Debug)` threshold lets every message through, and `Min(Emergency)`
/// only emergencies; a threshold lets a severity through exactly when the
/// threshold does not come after it in the order `Debug < Info < Notice <
/// Warning < Error < Critical < Alert < Emergency`.
pub proof fn lemma_severity_thresholds(s: Severity)
    ensures
        passes_spec(config::SeverityFilter::Min(Severity::Debug), s),
        passes_spec(config::SeverityFilter::Min(Severity::Emergency), s) == (s == Severity::Emergency),
        passes_spec(config::SeverityFilter::Min(Severity::Warning), s) == (s == Severity::Warning || s == Severity::Error
            || s == Severity::Critical || s == Severity::Alert || s == Severity::Emergency),
        passes_spec(config::SeverityFilter::Min(Severity::Error), s) == (s == Severity::Error
            || s == Severity::Critical || s == Severity::Alert || s == Severity::Emergency),
        passes_spec(config::SeverityFilter::Min(Severity::Info), s) == (s != Severity::Debug),
{
    crate::protocol::types::lemma_severity_order();
}

/// A `Silence` threshold lets no message through; a `Min` threshold lets
/// through every severity at least as high as one it lets through.
pub proof fn lemma_severity_filter_laws(f: config::SeverityFilter, a: Severity, b: Severity)
    ensures
        f == config::SeverityFilter::Silence ==> !passes_spec(f, a),
        passes_spec(f, a) && crate::protocol::types::severity_rank(a) <= crate::protocol::types::severity_rank(b)
            ==> passes_spec(f, b),
{
}

// ---------------------------------------------------------------------------
// Default backends
// ---------------------------------------------------------------------------

/// A backend the builder can create on its own.
pub enum DefaultBackend {
    Stdout(StdoutBackend),
    Datapoint(DatapointBackend),
}

/// Whether `d` is the default backend for key `k`: a stdout backend of the
/// key's format, or a datapoint backend without a store.  The forwarder and
/// the EKG backend have no default.
pub open spec fn is_default_for(d: DefaultBackend, k: BackendConfigKey) -> bool {
    match d {
        DefaultBackend::Stdout(s) => match k {
            BackendConfigKey::StdoutMachine => s.format == FormatLogging::MachineFormat,
            BackendConfigKey::StdoutColoured => s.format == FormatLogging::HumanFormatColoured,
            BackendConfigKey::StdoutUncoloured => s.format == FormatLogging::HumanFormatUncoloured,
            _ => false,
        },
        DefaultBackend::Datapoint(b) => k == BackendConfigKey::Datapoint && b.store_view() is None,
    }
}

/// Whether `d` serves key `k` as a default backend, read through the key
/// each backend configuration is delivered to: a stdout backend serves the
/// key of its format, a datapoint backend without a store serves `Datapoint`.
pub open spec fn serves(d: DefaultBackend, k: BackendConfigKey) -> bool {
    match d {
        DefaultBackend::Stdout(s) => key_of(BackendConfig::Stdout(s.format)) == k,
        DefaultBackend::Datapoint(b) => key_of(BackendConfig::DatapointBackend) == k && b.store_view() is None,
    }
}

/// The default for a key is the backend that serves it: a stdout backend of
/// the format whose key it is, or a datapoint backend without a store; and
/// every key but the forwarder's and the EKG backend's has one.
pub proof fn lemma_defaults(d: DefaultBackend, k: BackendConfigKey)
    ensures
        is_default_for(d, k) == serves(d, k),
        has_default(k) == (k != key_of(BackendConfig::Forwarder) && k != key_of(BackendConfig::EkgBackend)),
{
}

/// Keys for which the builder can create a default backend.
pub open spec fn has_default(k: BackendConfigKey) -> bool {
    k != BackendConfigKey::Forwarder && k != BackendConfigKey::Ekg
}

/// Whether option `o` routes to key `k`.
pub open spec fn option_routes_to(o: ConfigOption, k: BackendConfigKey) -> bool {
    match o {
        ConfigOption::Backends(b) => exists|m: int| 0 <= m < b@.len() && key_of(#[trigger] b@[m]) == k,
        _ => false,
    }
}

/// Whether some entry of `config` routes some namespace to key `k`.
pub open spec fn config_references(config: TraceConfig, k: BackendConfigKey) -> bool {
    exists|i: int, j: int|
        0 <= i < config.options@.len() && 0 <= j < config.opts_at(i).len()
            && option_routes_to(#[trigger] config.opts_at(i)[j], k)
}

/// Whether option `o` routes to key `k`.
fn routes_to(o: &ConfigOption, k: BackendConfigKey) -> (r: bool)
    ensures
        r == option_routes_to(*o, k),
{
    match o {
        ConfigOption::Backends(bks) => {
            let mut m: usize = 0;
            while m < bks.len()
                invariant
                    m <= bks.len(),
                    *o == ConfigOption::Backends(*bks),
                    forall|m2: int| 0 <= m2 < m ==> key_of(#[trigger] bks@[m2]) != k,
                decreases bks.len() - m,
            {
                if BackendConfigKey::from_config(&bks[m]) == k {
                    proof {
                        let b = *bks;
                        assert(*o == ConfigOption::Backends(b));
                        assert(key_of(b@[m as int]) == k);
                    }
                    return true;
                }
                m = m + 1;
            }
            false
        },
        _ => false,
    }
}

/// Whether some entry of `config` routes some namespace to key `k`.
fn references(config: &TraceConfig, k: BackendConfigKey) -> (r: bool)
    ensures
        r == config_references(*config, k),
{
    let mut i: usize = 0;
    while i < config.options.len()
        invariant
            i <= config.options.len(),
            forall|i2: int, j: int|
                0 <= i2 < i && 0 <= j < config.opts_at(i2).len() ==> !option_routes_to(#[trigger] config.opts_at(i2)[j], k),
        decreases config.options.len() - i,
    {
        let opts = &config.options[i].1;
        let mut j: usize = 0;
        while j < opts.len()
            invariant
                i < config.options.len(),
                opts@ == config.opts_at(i as int),
                j <= opts.len(),
                forall|i2: int, j2: int|
                    0 <= i2 < i && 0 <= j2 < config.opts_at(i2).len() ==> !option_routes_to(#[trigger] config.opts_at(i2)[j2], k),
                forall|j2: int| 0 <= j2 < j ==> !option_routes_to(#[trigger] config.opts_at(i as int)[j2], k),
            decreases opts.len() - j,
        {
            if routes_to(&opts[j], k) {
                proof {
                    assert(option_routes_to(config.opts_at(i as int)[j as int], k));
                }
                return true;
            }
            j = j + 1;
        }
        i = i + 1;
    }
    false
}

// ---------------------------------------------------------------------------
// Hostname
// ---------------------------------------------------------------------------

/// Asks the operating system for the machine's hostname with
/// `hostname::get()`, converted lossily to UTF-8; `None` when the call fails.
/// Nothing is promised of the answer, which depends on the machine.
#[verifier::external_body]
fn system_hostname() -> (r: Option<String>) {
    hostname::get().ok().map(|h| h.to_string_lossy().into_owned())
}

/// The hostname found, or `unknown` when none was found.
pub fn hostname_or_unknown(found: Option<String>) -> (r: String)
    ensures
        match found {
            Some(h) => r@ == h@,
            None => r@ == "unknown"@,
        },
{
    match found {
        Some(h) => h,
        None => {
            let mut s = String::new();
            s.append("unknown");
            proof {
                assert(s@ =~= "unknown"@);
            }
            s
        },
    }
}

// ---------------------------------------------------------------------------
// Builder
// ---------------------------------------------------------------------------

/// Builder for a [`Dispatcher`] over backends of type `B`.
pub struct DispatcherBuilder<B> {
    config: TraceConfig,
    backends: BackendSlots<B>,
    hostname: Option<String>,
}

/// `after` is `before` with backend `b` registered under `k`, and nothing else changed.
pub open spec fn registers<B>(before: DispatcherBuilder<B>, after: DispatcherBuilder<B>, k: BackendConfigKey, b: B) -> bool {
    &&& after.config_view() == before.config_view()
    &&& after.hostname_override() == before.hostname_override()
    &&& after.registered(k) == Some(b)
    &&& forall|k2: BackendConfigKey| k2 != k ==> #[trigger] after.registered(k2) == before.registered(k2)
}

impl<B> DispatcherBuilder<B> {
    /// The configuration the dispatcher will use.
    pub closed spec fn config_view(self) -> TraceConfig {
        self.config
    }

    /// The backend registered under `k`, if any.
    pub closed spec fn registered(self, k: BackendConfigKey) -> Option<B> {
        self.backends.slot(k)
    }

    /// The hostname set explicitly, if any.
    pub closed spec fn hostname_override(self) -> Option<Seq<char>> {
        match self.hostname {
            Some(h) => Some(h@),
            None => None,
        }
    }

    /// A builder for `config` with no backend and no hostname set.
    pub fn new(config: TraceConfig) -> (r: Self)
        ensures
            r.config_view() == config,
            r.hostname_override() is None,
            forall|k: BackendConfigKey| #[trigger] r.registered(k) is None,
    {
        DispatcherBuilder { config, backends: BackendSlots::empty(), hostname: None }
    }

    /// Sets the hostname recorded in trace objects, in place of the machine's.
    pub fn with_hostname(self, hostname: String) -> (r: Self)
        ensures
            r.config_view() == self.config_view(),
            r.hostname_override() == Some(hostname@),
            forall|k: BackendConfigKey| #[trigger] r.registered(k) == self.registered(k),
    {
        DispatcherBuilder { config: self.config, backends: self.backends, hostname: Some(hostname) }
    }

    fn register(self, k: BackendConfigKey, backend: B) -> (r: Self)
        ensures
            registers(self, r, k, backend),
    {
        let mut r = self;
        r.backends.set(k, backend);
        r
    }

    /// Registers the backend for `Stdout MachineFormat`, replacing any earlier one.
    pub fn with_stdout_machine(self, backend: B) -> (r: Self)
        ensures
            registers(self, r, BackendConfigKey::StdoutMachine, backend),
    {
        self.register(BackendConfigKey::StdoutMachine, backend)
    }

    /// Registers the backend for `Stdout HumanFormatColoured`, replacing any earlier one.
    pub fn with_stdout_coloured(self, backend: B) -> (r: Self)
        ensures
            registers(self, r, BackendConfigKey::StdoutColoured, backend),
    {
        self.register(BackendConfigKey::StdoutColoured, backend)
    }

    /// Registers the backend for `Stdout HumanFormatUncoloured`, replacing any earlier one.
    pub fn with_stdout_uncoloured(self, backend: B) -> (r: Self)
        ensures
            registers(self, r, BackendConfigKey::StdoutUncoloured, backend),
    {
        self.register(BackendConfigKey::StdoutUncoloured, backend)
    }

    /// Registers the forwarder backend, replacing any earlier one.
    pub fn with_forwarder(self, backend: B) -> (r: Self)
        ensures
            registers(self, r, BackendConfigKey::Forwarder, backend),
    {
        self.register(BackendConfigKey::Forwarder, backend)
    }

    /// Registers the EKG backend, replacing any earlier one.
    pub fn with_ekg(self, backend: B) -> (r: Self)
        ensures
            registers(self, r, BackendConfigKey::Ekg, backend),
    {
        self.register(BackendConfigKey::Ekg, backend)
    }

    /// Registers the datapoint backend, replacing any earlier one.
    pub fn with_datapoint(self, backend: B) -> (r: Self)
        ensures
            registers(self, r, BackendConfigKey::Datapoint, backend),
    {
        self.register(BackendConfigKey::Datapoint, backend)
    }

    /// Registers a default backend, made by `make`, for every key that the
    /// configuration routes some namespace to, that has a default (stdout
    /// formats and datapoint), and that has no backend yet.  Backends already
    /// registered stay; the forwarder and EKG backends are never created here.
    pub fn with_default_backends<F: Fn(DefaultBackend) -> B>(self, make: F) -> (r: Self)
        requires
            forall|d: DefaultBackend| #[trigger] make.requires((d,)),
        ensures
            r.config_view() == self.config_view(),
            r.hostname_override() == self.hostname_override(),
            forall|k: BackendConfigKey| #[trigger] self.registered(k) is Some ==> r.registered(k) == self.registered(k),
            forall|k: BackendConfigKey|
                #![trigger r.registered(k)]
                self.registered(k) is None && config_references(self.config_view(), k) && has_default(k) ==> (
                r.registered(k) matches Some(b) && exists|d: DefaultBackend| is_default_for(d, k) && make.ensures((d,), b)),
            forall|k: BackendConfigKey|
                #![trigger r.registered(k)]
                self.registered(k) is None && !(config_references(self.config_view(), k) && has_default(k))
                    ==> r.registered(k) is None,
            forall|k: BackendConfigKey|
                #![trigger r.registered(k)]
                self.registered(k) is None && config_references(self.config_view(), k)
                    && k != BackendConfigKey::Forwarder && k != BackendConfigKey::Ekg ==> (
                r.registered(k) matches Some(b) && exists|d: DefaultBackend| serves(d, k) && make.ensures((d,), b)),
    {
        let mut r = self;
        r = r.add_default(BackendConfigKey::StdoutMachine, &make);
        r = r.add_default(BackendConfigKey::StdoutColoured, &make);
        r = r.add_default(BackendConfigKey::StdoutUncoloured, &make);
        r = r.add_default(BackendConfigKey::Datapoint, &make);
        proof {
            assert forall|k: BackendConfigKey|
                #![trigger r.registered(k)]
                self.registered(k) is None && config_references(self.config_view(), k)
                    && k != BackendConfigKey::Forwarder && k != BackendConfigKey::Ekg implies (
                r.registered(k) matches Some(b) && exists|d: DefaultBackend| serves(d, k) && make.ensures((d,), b)) by {
                let b = r.registered(k)->0;
                let d = choose|d: DefaultBackend| is_default_for(d, k) && make.ensures((d,), b);
                lemma_defaults(d, k);
            }
        }
        r
    }

    fn add_default<F: Fn(DefaultBackend) -> B>(self, k: BackendConfigKey, make: &F) -> (r: Self)
        requires
            forall|d: DefaultBackend| #[trigger] make.requires((d,)),
            has_default(k),
        ensures
            r.config_view() == self.config_view(),
            r.hostname_override() == self.hostname_override(),
            forall|k2: BackendConfigKey| k2 != k ==> #[trigger] r.registered(k2) == self.registered(k2),
            self.registered(k) is Some ==> r.registered(k) == self.registered(k),
            self.registered(k) is None && config_references(self.config_view(), k) ==> (
                r.registered(k) matches Some(b) && exists|d: DefaultBackend| is_default_for(d, k) && make.ensures((d,), b)),
            self.registered(k) is None && !config_references(self.config_view(), k) ==> r.registered(k) is None,
    {
        if self.backends.get(k).is_some() {
            return self;
        }
        if !references(&self.config, k) {
            return self;
        }
        let d = match k {
            BackendConfigKey::StdoutMachine => DefaultBackend::Stdout(StdoutBackend::new(FormatLogging::MachineFormat)),
            BackendConfigKey::StdoutColoured => DefaultBackend::Stdout(StdoutBackend::new(FormatLogging::HumanFormatColoured)),
            BackendConfigKey::StdoutUncoloured => DefaultBackend::Stdout(StdoutBackend::new(FormatLogging::HumanFormatUncoloured)),
            _ => DefaultBackend::Datapoint(DatapointBackend::new()),
        };
        let ghost dg = d;
        assert(is_default_for(dg, k));
        let b = make(d);
        self.register(k, b)
    }

    /// Builds the dispatcher; its hostname is the one set with
    /// [`with_hostname`](Self::with_hostname), else the machine's, else `unknown`.
    pub fn build(self) -> (r: Dispatcher<B>)
        ensures
            r.config_view() == self.config_view(),
            forall|k: BackendConfigKey| #[trigger] r.registered(k) == self.registered(k),
            self.hostname_override() matches Some(h) ==> r.hostname_view() == h,
    {
        let hostname = match self.hostname {
            Some(h) => h,
            None => hostname_or_unknown(system_hostname()),
        };
        Dispatcher { config: self.config, backends: self.backends, hostname }
    }
}

// ---------------------------------------------------------------------------
// Dispatcher
// ---------------------------------------------------------------------------

/// The central dispatcher: configuration, registered backends and hostname.
pub struct Dispatcher<B> {
    config: TraceConfig,
    backends: BackendSlots<B>,
    hostname: String,
}

impl<B> Dispatcher<B> {
    /// The configuration in use.
    pub closed spec fn config_view(self) -> TraceConfig {
        self.config
    }

    /// The backend registered under `k`, if any.
    pub closed spec fn registered(self, k: BackendConfigKey) -> Option<B> {
        self.backends.slot(k)
    }

    /// Whether a backend is registered under `k`.
    pub open spec fn is_registered(self) -> spec_fn(BackendConfigKey) -> bool {
        |k: BackendConfigKey| self.registered(k) is Some
    }

    /// The hostname recorded in trace objects.
    pub closed spec fn hostname_view(self) -> Seq<char> {
        self.hostname@
    }

    /// The configuration in use.
    pub fn config(&self) -> (r: &TraceConfig)
        ensures
            *r == self.config_view(),
    {
        &self.config
    }

    /// The hostname recorded in trace objects.
    pub fn hostname(&self) -> (r: &String)
        ensures
            r@ == self.hostname_view(),
    {
        &self.hostname
    }

    /// The backend registered under `k`, if any.
    pub fn backend(&self, k: BackendConfigKey) -> (r: Option<&B>)
        ensures
            match r {
                Some(b) => self.registered(k) == Some(*b),
                None => self.registered(k) is None,
            },
    {
        self.backends.get(k)
    }

    /// Whether a message of namespace `ns` and declared severity `sev` passes
    /// the severity filter configured for `ns` (no severity counts as `Debug`).
    pub fn severity_passes(&self, ns: &Vec<String>, sev: Option<Severity>) -> (r: bool)
        ensures
            r == passes_spec(self.config_view().severity_spec(ns.deep_view()), effective_severity(sev)),
    {
        let filter = self.config.severity_for(ns);
        filter.passes(message_severity(sev))
    }

    /// The registered backend instances a message of namespace `ns` and
    /// privacy `privacy` is delivered to, in configuration order.
    pub fn dispatch_targets(&self, ns: &Vec<String>, privacy: Privacy) -> (r: Vec<BackendConfigKey>)
        ensures
            r@ == route(self.config_view().backends_spec(ns.deep_view()), privacy, self.is_registered()),
            privacy == Privacy::Confidential ==> !r@.contains(BackendConfigKey::Forwarder),
            privacy == Privacy::Public ==> r@ == registered_keys(self.config_view().backends_spec(ns.deep_view()), self.is_registered()),
            privacy == Privacy::Confidential ==> r@ == without(
                registered_keys(self.config_view().backends_spec(ns.deep_view()), self.is_registered()),
                BackendConfigKey::Forwarder,
            ),
            forall|i: int| 0 <= i < r@.len() ==> #[trigger] self.registered(r@[i]) is Some,
    {
        let bks = self.config.backends_for(ns);
        let ghost reg = self.is_registered();
        let mut out: Vec<BackendConfigKey> = Vec::new();
        let mut i: usize = 0;
        while i < bks.len()
            invariant
                i <= bks.len(),
                reg == self.is_registered(),
                out@ == route(bks@.take(i as int), privacy, reg),
            decreases bks.len() - i,
        {
            let bc = bks[i];
            proof {
                assert(bks@.take(i + 1).drop_last() =~= bks@.take(i as int));
                assert(bks@.take(i + 1).last() == bc);
            }
            let withhold = privacy == Privacy::Confidential && bc == BackendConfig::Forwarder;
            let k = BackendConfigKey::from_config(&bc);
            if !withhold && self.backends.get(k).is_some() {
                out.push(k);
            }
            i = i + 1;
        }
        proof {
            assert(bks@.take(bks.len() as int) =~= bks@);
            if privacy == Privacy::Confidential {
                lemma_confidential_never_forwarded(bks@, reg);
            }
            lemma_route_by_privacy(bks@, reg);
            lemma_routes_only_registered(bks@, privacy, reg);
        }
        out
    }

    /// The trace object for a message of namespace `ns`, declared severity
    /// `sev`, human text `human` and machine JSON `machine_json`, stamped
    /// `timestamp` on thread `thread_id`.
    pub fn trace_object_at(
        &self,
        ns: &Vec<String>,
        sev: Option<Severity>,
        human: &String,
        machine_json: String,
        timestamp: Timestamp,
        thread_id: String,
    ) -> (r: TraceObject)
        ensures
            r.to_human == (if human@.len() == 0 { None } else { Some(*human) }),
            r.to_machine == machine_json,
            r.to_namespace@ == ns@,
            r.to_severity == effective_severity(sev),
            r.to_details == self.config_view().detail_spec(ns.deep_view()),
            r.to_timestamp == timestamp,
            r.to_hostname@ == self.hostname_view(),
            r.to_thread_id == thread_id,
    {
        let to_human = if human.as_str().is_empty() { None } else { Some(human.clone()) };
        TraceObject {
            to_human,
            to_machine: machine_json,
            to_namespace: crate::protocol::types::clone_strings(ns),
            to_severity: message_severity(sev),
            to_details: self.config.detail_for(ns),
            to_timestamp: timestamp,
            to_hostname: self.hostname.clone(),
            to_thread_id: thread_id,
        }
    }

    /// As [`trace_object_at`](Self::trace_object_at), stamped with the
    /// current time; which instant is read is not promised.
    pub fn trace_object(
        &self,
        ns: &Vec<String>,
        sev: Option<Severity>,
        human: &String,
        machine_json: String,
        thread_id: String,
    ) -> (r: TraceObject)
        ensures
            r.to_human == (if human@.len() == 0 { None } else { Some(*human) }),
            r.to_machine == machine_json,
            r.to_namespace@ == ns@,
            r.to_severity == effective_severity(sev),
            r.to_details == self.config_view().detail_spec(ns.deep_view()),
            r.to_hostname@ == self.hostname_view(),
            r.to_thread_id == thread_id,
            r.to_timestamp.nanos < 1_000_000_000,
    {
        let timestamp = crate::time::now();
        self.trace_object_at(ns, sev, human, machine_json, timestamp, thread_id)
    }
}

} // verus!
