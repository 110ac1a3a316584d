//! Per-namespace trace configuration.
//!
//! A configuration is a list of entries, each a namespace and the options set
//! for it.  An option for a namespace is looked up at the namespace itself and
//! then at each shorter prefix, down to the root namespace `[]`; the first
//! entry (in list order) with that key that sets an option of the kind asked
//! for wins, and its first option of that kind is the answer.  When no prefix
//! sets the option, a default applies.

use vstd::prelude::*;

use crate::protocol::types::{severity_rank, DetailLevel, Severity};
use crate::search::{least_index, lemma_least_index_found, lemma_least_index_is, lemma_least_index_none};

verus! {

/// How a stdout backend renders messages.
#[derive(Clone, Copy, Debug, PartialEq, Eq, Structural)]
pub enum FormatLogging {
    HumanFormatColoured,
    HumanFormatUncoloured,
    MachineFormat,
}

/// A backend a namespace can be routed to.
#[derive(Clone, Copy, Debug, PartialEq, Eq, Structural)]
pub enum BackendConfig {
    Forwarder,
    Stdout(FormatLogging),
    EkgBackend,
    DatapointBackend,
}

/// The severity threshold of a namespace: messages below `Min` are dropped,
/// `Silence` drops every message.
#[derive(Clone, Copy, Debug, PartialEq, Eq, Structural)]
pub enum SeverityFilter {
    Min(Severity),
    Silence,
}

/// Whether a filter lets a message of severity `sev` through.
pub open spec fn passes_spec(f: SeverityFilter, sev: Severity) -> bool {
    match f {
        SeverityFilter::Min(min) => severity_rank(min) <= severity_rank(sev),
        SeverityFilter::Silence => false,
    }
}

impl SeverityFilter {
    /// Whether a message of severity `sev` gets through this filter.
    pub fn passes(&self, sev: Severity) -> (r: bool)
        ensures
            r == passes_spec(*self, sev),
    {
        match self {
            SeverityFilter::Min(min) => min.rank() <= sev.rank(),
            SeverityFilter::Silence => false,
        }
    }
}

/// One option set for a namespace.
#[derive(Clone, Debug)]
pub enum ConfigOption {
    Severity(SeverityFilter),
    Detail(DetailLevel),
    Backends(Vec<BackendConfig>),
}

/// The kinds of option a namespace can set.
#[derive(Clone, Copy, Debug, PartialEq, Eq, Structural)]
pub enum OptionKind {
    Severity,
    Detail,
    Backends,
}

pub open spec fn option_kind(o: ConfigOption) -> OptionKind {
    match o {
        ConfigOption::Severity(_) => OptionKind::Severity,
        ConfigOption::Detail(_) => OptionKind::Detail,
        ConfigOption::Backends(_) => OptionKind::Backends,
    }
}

/// Holds at the indices of `opts` that carry an option of kind `k`.
pub open spec fn kind_at(opts: Seq<ConfigOption>, k: OptionKind) -> spec_fn(int) -> bool {
    |j: int| option_kind(opts[j]) == k
}

impl ConfigOption {
    /// The kind of this option.
    pub fn kind(&self) -> (k: OptionKind)
        ensures
            k == option_kind(*self),
    {
        match self {
            ConfigOption::Severity(_) => OptionKind::Severity,
            ConfigOption::Detail(_) => OptionKind::Detail,
            ConfigOption::Backends(_) => OptionKind::Backends,
        }
    }
}

/// Severity threshold of a namespace that no entry configures.
pub open spec fn default_severity() -> SeverityFilter {
    SeverityFilter::Min(Severity::Warning)
}

/// Detail level of a namespace that no entry configures.
pub open spec fn default_detail() -> DetailLevel {
    DetailLevel::DNormal
}

/// Backends of a namespace that no entry configures.
pub open spec fn default_backends() -> Seq<BackendConfig> {
    seq![BackendConfig::Stdout(FormatLogging::MachineFormat), BackendConfig::EkgBackend, BackendConfig::Forwarder]
}

/// The trace configuration: namespaces and the options set for each.
#[derive(Clone, Debug)]
pub struct TraceConfig {
    pub options: Vec<(Vec<String>, Vec<ConfigOption>)>,
}

impl TraceConfig {
    /// The namespace of entry `i`.
    pub open spec fn key_at(self, i: int) -> Seq<Seq<char>> {
        self.options@[i].0.deep_view()
    }

    /// The options of entry `i`.
    pub open spec fn opts_at(self, i: int) -> Seq<ConfigOption> {
        self.options@[i].1@
    }

    /// Index of the first option of kind `k` in entry `i`.
    pub open spec fn option_index(self, i: int, k: OptionKind) -> Option<int> {
        least_index(self.opts_at(i).len() as int, kind_at(self.opts_at(i), k))
    }

    /// Index of the first entry keyed `key` that sets an option of kind `k`.
    pub open spec fn entry_index(self, key: Seq<Seq<char>>, k: OptionKind) -> Option<int> {
        least_index(self.options@.len() as int, self.entry_hit(key, k))
    }

    /// Holds at the entries keyed `key` that set an option of kind `k`.
    pub open spec fn entry_hit(self, key: Seq<Seq<char>>, k: OptionKind) -> spec_fn(int) -> bool {
        |i: int| self.key_at(i) == key && self.option_index(i, k) is Some
    }

    /// The entry that decides option kind `k` for `ns`, trying the prefixes
    /// of `ns` of length `len` and shorter, longest first.
    pub open spec fn lookup(self, ns: Seq<Seq<char>>, len: nat, k: OptionKind) -> Option<int>
        decreases len,
    {
        match self.entry_index(ns.take(len as int), k) {
            Some(i) => Some(i),
            None => if len == 0 { None } else { self.lookup(ns, (len - 1) as nat, k) },
        }
    }

    /// The option of kind `k` that applies to namespace `ns`, if any entry sets one.
    pub open spec fn resolved(self, ns: Seq<Seq<char>>, k: OptionKind) -> Option<ConfigOption> {
        match self.lookup(ns, ns.len(), k) {
            Some(i) => Some(self.opts_at(i)[self.option_index(i, k)->0]),
            None => None,
        }
    }

    /// Severity threshold that applies to `ns`.
    pub open spec fn severity_spec(self, ns: Seq<Seq<char>>) -> SeverityFilter {
        match self.resolved(ns, OptionKind::Severity) {
            Some(ConfigOption::Severity(f)) => f,
            _ => default_severity(),
        }
    }

    /// Detail level that applies to `ns`.
    pub open spec fn detail_spec(self, ns: Seq<Seq<char>>) -> DetailLevel {
        match self.resolved(ns, OptionKind::Detail) {
            Some(ConfigOption::Detail(d)) => d,
            _ => default_detail(),
        }
    }

    /// Backends that `ns` is routed to.
    pub open spec fn backends_spec(self, ns: Seq<Seq<char>>) -> Seq<BackendConfig> {
        match self.resolved(ns, OptionKind::Backends) {
            Some(ConfigOption::Backends(b)) => b@,
            _ => default_backends(),
        }
    }

    /// A configuration with no entries: every namespace gets the defaults.
    pub fn new() -> (r: Self)
        ensures
            r.options@.len() == 0,
    {
        TraceConfig { options: Vec::new() }
    }

    /// Appends an entry setting `opts` for namespace `ns`.
    pub fn with_options(self, ns: Vec<String>, opts: Vec<ConfigOption>) -> (r: Self)
        ensures
            r.options@ == self.options@.push((ns, opts)),
    {
        let mut options = self.options;
        options.push((ns, opts));
        TraceConfig { options }
    }

    /// Index of the first option of kind `k` in `opts`.
    fn find_option(opts: &Vec<ConfigOption>, k: OptionKind) -> (r: Option<usize>)
        ensures
            r matches Some(j) ==> j < opts@.len() && least_index(opts@.len() as int, kind_at(opts@, k)) == Some(j as int),
            r is None ==> least_index(opts@.len() as int, kind_at(opts@, k)) is None,
    {
        let ghost p = kind_at(opts@, k);
        let mut j: usize = 0;
        while j < opts.len()
            invariant
                j <= opts.len(),
                p == kind_at(opts@, k),
                forall|i: int| 0 <= i < j ==> !#[trigger] p(i),
            decreases opts.len() - j,
        {
            if opts[j].kind() == k {
                proof {
                    lemma_least_index_is(opts@.len() as int, p, j as int);
                }
                return Some(j);
            }
            j = j + 1;
        }
        proof {
            lemma_least_index_none(opts@.len() as int, p);
        }
        None
    }

    /// Whether `key` equals the first `len` names of `ns`.
    fn key_matches(key: &Vec<String>, ns: &Vec<String>, len: usize) -> (r: bool)
        requires
            len <= ns.len(),
        ensures
            r == (key.deep_view() == ns.deep_view().take(len as int)),
    {
        if key.len() != len {
            proof {
                assert(key.deep_view().len() != ns.deep_view().take(len as int).len());
            }
            return false;
        }
        let mut i: usize = 0;
        while i < len
            invariant
                i <= len,
                len == key.len(),
                len <= ns.len(),
                forall|m: int| 0 <= m < i ==> key@[m]@ == ns@[m]@,
            decreases len - i,
        {
            if key[i] != ns[i] {
                proof {
                    assert(key.deep_view()[i as int] != ns.deep_view().take(len as int)[i as int]);
                }
                return false;
            }
            i = i + 1;
        }
        proof {
            assert(key.deep_view() =~= ns.deep_view().take(len as int));
        }
        true
    }

    /// The first entry keyed by the first `len` names of `ns` that sets an
    /// option of kind `k`, and that option's index.
    fn find_entry(&self, ns: &Vec<String>, len: usize, k: OptionKind) -> (r: Option<(usize, usize)>)
        requires
            len <= ns.len(),
        ensures
            r matches Some((i, j)) ==> self.entry_index(ns.deep_view().take(len as int), k) == Some(i as int)
                && self.option_index(i as int, k) == Some(j as int)
                && i < self.options@.len() && j < self.opts_at(i as int).len(),
            r is None ==> self.entry_index(ns.deep_view().take(len as int), k) is None,
    {
        let ghost key = ns.deep_view().take(len as int);
        let ghost p = self.entry_hit(key, k);
        let mut i: usize = 0;
        while i < self.options.len()
            invariant
                i <= self.options.len(),
                len <= ns.len(),
                key == ns.deep_view().take(len as int),
                p == self.entry_hit(key, k),
                forall|m: int| 0 <= m < i ==> !#[trigger] p(m),
            decreases self.options.len() - i,
        {
            let entry = &self.options[i];
            if Self::key_matches(&entry.0, ns, len) {
                match Self::find_option(&entry.1, k) {
                    Some(j) => {
                        proof {
                            lemma_least_index_is(self.options@.len() as int, p, i as int);
                        }
                        return Some((i, j));
                    },
                    None => {},
                }
            }
            i = i + 1;
        }
        proof {
            lemma_least_index_none(self.options@.len() as int, p);
        }
        None
    }

    /// The entry and option that decide option kind `k` for `ns`.
    fn locate(&self, ns: &Vec<String>, k: OptionKind) -> (r: Option<(usize, usize)>)
        ensures
            r matches Some((i, j)) ==> self.lookup(ns.deep_view(), ns.deep_view().len(), k) == Some(i as int)
                && self.option_index(i as int, k) == Some(j as int)
                && i < self.options@.len() && j < self.opts_at(i as int).len(),
            r is None ==> self.lookup(ns.deep_view(), ns.deep_view().len(), k) is None,
    {
        let ghost nsv = ns.deep_view();
        let mut len: usize = ns.len();
        loop
            invariant
                len <= ns.len(),
                nsv == ns.deep_view(),
                self.lookup(nsv, nsv.len(), k) == self.lookup(nsv, len as nat, k),
            decreases len,
        {
            match self.find_entry(ns, len, k) {
                Some(found) => {
                    return Some(found);
                },
                None => {
                    if len == 0 {
                        return None;
                    }
                    len = len - 1;
                },
            }
        }
    }

    /// Severity threshold that applies to namespace `ns`.
    pub fn severity_for(&self, ns: &Vec<String>) -> (r: SeverityFilter)
        ensures
            r == self.severity_spec(ns.deep_view()),
    {
        match self.locate(ns, OptionKind::Severity) {
            Some((i, j)) => {
                proof {
                    lemma_least_index_found(self.opts_at(i as int).len() as int, kind_at(self.opts_at(i as int), OptionKind::Severity));
                }
                match &self.options[i].1[j] {
                    ConfigOption::Severity(f) => *f,
                    _ => SeverityFilter::Min(Severity::Warning),
                }
            },
            None => SeverityFilter::Min(Severity::Warning),
        }
    }

    /// Detail level that applies to namespace `ns`.
    pub fn detail_for(&self, ns: &Vec<String>) -> (r: DetailLevel)
        ensures
            r == self.detail_spec(ns.deep_view()),
    {
        match self.locate(ns, OptionKind::Detail) {
            Some((i, j)) => {
                proof {
                    lemma_least_index_found(self.opts_at(i as int).len() as int, kind_at(self.opts_at(i as int), OptionKind::Detail));
                }
                match &self.options[i].1[j] {
                    ConfigOption::Detail(d) => *d,
                    _ => DetailLevel::DNormal,
                }
            },
            None => DetailLevel::DNormal,
        }
    }

    /// Backends that namespace `ns` is routed to.
    pub fn backends_for(&self, ns: &Vec<String>) -> (r: Vec<BackendConfig>)
        ensures
            r@ == self.backends_spec(ns.deep_view()),
    {
        match self.locate(ns, OptionKind::Backends) {
            Some((i, j)) => {
                proof {
                    lemma_least_index_found(self.opts_at(i as int).len() as int, kind_at(self.opts_at(i as int), OptionKind::Backends));
                }
                match &self.options[i].1[j] {
                    ConfigOption::Backends(b) => b.clone(),
                    _ => default_backend_list(),
                }
            },
            None => default_backend_list(),
        }
    }
}

/// Holds at the entries of `entries` keyed `key`.
pub open spec fn keyed<T>(entries: Seq<(Vec<String>, T)>, key: Seq<Seq<char>>) -> spec_fn(int) -> bool {
    |i: int| entries[i].0.deep_view() == key
}

/// The entry whose key is the longest prefix of `ns` no longer than `len`
/// names (the first such entry in list order).
pub open spec fn prefix_entry<T>(entries: Seq<(Vec<String>, T)>, ns: Seq<Seq<char>>, len: nat) -> Option<int>
    decreases len,
{
    match least_index(entries.len() as int, keyed(entries, ns.take(len as int))) {
        Some(i) => Some(i),
        None => if len == 0 { None } else { prefix_entry(entries, ns, (len - 1) as nat) },
    }
}

/// Index of the entry of `entries` whose key is the longest prefix of `ns`
/// (the namespace itself first, the root namespace `[]` last); the first such
/// entry in list order when keys repeat.
pub fn longest_prefix_entry<T>(entries: &Vec<(Vec<String>, T)>, ns: &Vec<String>) -> (r: Option<usize>)
    ensures
        r matches Some(i) ==> i < entries@.len()
            && prefix_entry(entries@, ns.deep_view(), ns.deep_view().len()) == Some(i as int),
        r is None ==> prefix_entry(entries@, ns.deep_view(), ns.deep_view().len()) is None,
{
    let ghost nsv = ns.deep_view();
    let mut len: usize = ns.len();
    loop
        invariant
            len <= ns.len(),
            nsv == ns.deep_view(),
            prefix_entry(entries@, nsv, nsv.len()) == prefix_entry(entries@, nsv, len as nat),
        decreases len,
    {
        let ghost p = keyed(entries@, nsv.take(len as int));
        let mut i: usize = 0;
        while i < entries.len()
            invariant
                i <= entries.len(),
                len <= ns.len(),
                nsv == ns.deep_view(),
                p == keyed(entries@, nsv.take(len as int)),
                prefix_entry(entries@, nsv, nsv.len()) == prefix_entry(entries@, nsv, len as nat),
                forall|m: int| 0 <= m < i ==> !#[trigger] p(m),
            decreases entries.len() - i,
        {
            if TraceConfig::key_matches(&entries[i].0, ns, len) {
                proof {
                    lemma_least_index_is(entries@.len() as int, p, i as int);
                }
                return Some(i);
            }
            i = i + 1;
        }
        proof {
            lemma_least_index_none(entries@.len() as int, p);
        }
        if len == 0 {
            return None;
        }
        len = len - 1;
    }
}

/// The backends of a namespace that no entry configures.
pub fn default_backend_list() -> (r: Vec<BackendConfig>)
    ensures
        r@ == default_backends(),
{
    let mut v: Vec<BackendConfig> = Vec::new();
    v.push(BackendConfig::Stdout(FormatLogging::MachineFormat));
    v.push(BackendConfig::EkgBackend);
    v.push(BackendConfig::Forwarder);
    proof {
        assert(v@ =~= default_backends());
    }
    v
}

} // verus!
