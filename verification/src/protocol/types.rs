//! Severities, detail levels and the trace object sent to the tracer.

use vstd::prelude::*;

verus! {

/// Severity of a trace message, from least to most severe.
#[derive(Clone, Copy, Debug, PartialEq, Eq, Structural)]
pub enum Severity {
    Debug,
    Info,
    Notice,
    Warning,
    Error,
    Critical,
    Alert,
    Emergency,
}

/// Position of a severity in the order `Debug < Info < ... < Emergency`.
pub open spec fn severity_rank(s: Severity) -> nat {
    match s {
        Severity::Debug => 0,
        Severity::Info => 1,
        Severity::Notice => 2,
        Severity::Warning => 3,
        Severity::Error => 4,
        Severity::Critical => 5,
        Severity::Alert => 6,
        Severity::Emergency => 7,
    }
}

/// Severities are strictly ordered `Debug < Info < Notice < Warning < Error <
/// Critical < Alert < Emergency`, the order of their protocol constructor
/// indices.
pub proof fn lemma_severity_order()
    ensures
        severity_rank(Severity::Debug) < severity_rank(Severity::Info),
        severity_rank(Severity::Info) < severity_rank(Severity::Notice),
        severity_rank(Severity::Notice) < severity_rank(Severity::Warning),
        severity_rank(Severity::Warning) < severity_rank(Severity::Error),
        severity_rank(Severity::Error) < severity_rank(Severity::Critical),
        severity_rank(Severity::Critical) < severity_rank(Severity::Alert),
        severity_rank(Severity::Alert) < severity_rank(Severity::Emergency),
        forall|a: Severity, b: Severity| severity_rank(a) == severity_rank(b) ==> a == b,
{
}

/// The name a severity is shown under.
pub open spec fn severity_name(s: Severity) -> Seq<char> {
    match s {
        Severity::Debug => "Debug"@,
        Severity::Info => "Info"@,
        Severity::Notice => "Notice"@,
        Severity::Warning => "Warning"@,
        Severity::Error => "Error"@,
        Severity::Critical => "Critical"@,
        Severity::Alert => "Alert"@,
        Severity::Emergency => "Emergency"@,
    }
}

impl Severity {
    /// Position of this severity in the order, `Debug` being 0.
    pub fn rank(&self) -> (r: u8)
        ensures
            r as nat == severity_rank(*self),
    {
        match self {
            Severity::Debug => 0,
            Severity::Info => 1,
            Severity::Notice => 2,
            Severity::Warning => 3,
            Severity::Error => 4,
            Severity::Critical => 5,
            Severity::Alert => 6,
            Severity::Emergency => 7,
        }
    }

    /// The name this severity is shown under (`Info`, `Warning`, ...).
    pub fn name(&self) -> (r: &'static str)
        ensures
            r@ == severity_name(*self),
    {
        match self {
            Severity::Debug => "Debug",
            Severity::Info => "Info",
            Severity::Notice => "Notice",
            Severity::Warning => "Warning",
            Severity::Error => "Error",
            Severity::Critical => "Critical",
            Severity::Alert => "Alert",
            Severity::Emergency => "Emergency",
        }
    }
}

/// How much detail a machine-readable rendering carries.
#[derive(Clone, Copy, Debug, PartialEq, Eq, Structural)]
pub enum DetailLevel {
    DMinimal,
    DNormal,
    DDetailed,
    DMaximum,
}

/// A point in time: whole seconds since the Unix epoch and the nanoseconds
/// past that second.
#[derive(Clone, Copy, Debug, PartialEq, Eq, Structural)]
pub struct Timestamp {
    pub secs: i64,
    pub nanos: u32,
}

/// A fully assembled trace message as the tracer receives it.
#[derive(Debug)]
pub struct TraceObject {
    /// Human-readable text, absent when the message has none.
    pub to_human: Option<String>,
    /// Machine-readable JSON text.
    pub to_machine: String,
    /// The complete namespace of the message.
    pub to_namespace: Vec<String>,
    pub to_severity: Severity,
    pub to_details: DetailLevel,
    pub to_timestamp: Timestamp,
    pub to_hostname: String,
    pub to_thread_id: String,
}

impl TraceObject {
    /// Field-by-field equality, the namespace compared by its contents.
    pub open spec fn same_as(self, other: TraceObject) -> bool {
        &&& self.to_human == other.to_human
        &&& self.to_machine == other.to_machine
        &&& self.to_namespace@ == other.to_namespace@
        &&& self.to_severity == other.to_severity
        &&& self.to_details == other.to_details
        &&& self.to_timestamp == other.to_timestamp
        &&& self.to_hostname == other.to_hostname
        &&& self.to_thread_id == other.to_thread_id
    }
}

/// Copies a list of strings element by element.
pub fn clone_strings(v: &Vec<String>) -> (r: Vec<String>)
    ensures
        r@ == v@,
{
    let mut out: Vec<String> = Vec::new();
    let mut i: usize = 0;
    while i < v.len()
        invariant
            i <= v.len(),
            out@ == v@.take(i as int),
        decreases v.len() - i,
    {
        out.push(v[i].clone());
        proof {
            assert(v@.take(i + 1) =~= v@.take(i as int).push(v@[i as int]));
        }
        i = i + 1;
    }
    proof {
        assert(v@.take(v.len() as int) =~= v@);
    }
    out
}

impl Clone for TraceObject {
    fn clone(&self) -> (r: Self)
        ensures
            r.same_as(*self),
    {
        let to_human = match &self.to_human {
            Some(h) => Some(h.clone()),
            None => None,
        };
        TraceObject {
            to_human,
            to_machine: self.to_machine.clone(),
            to_namespace: clone_strings(&self.to_namespace),
            to_severity: self.to_severity,
            to_details: self.to_details,
            to_timestamp: self.to_timestamp,
            to_hostname: self.to_hostname.clone(),
            to_thread_id: self.to_thread_id.clone(),
        }
    }
}

} // verus!
