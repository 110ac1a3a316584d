//! Stdout backend: renders trace messages as lines of text.

use vstd::prelude::*;

use crate::dispatcher::config::FormatLogging;
use crate::protocol::types::{severity_name, Severity, TraceObject};
use crate::text::{join, join_spec};
use crate::time::{format_utc, iso_millis_pattern, renderable, utc_text};

verus! {

/// ANSI escape that ends a coloured line.
pub open spec fn reset_code() -> Seq<char> {
    "\x1b[0m"@
}

/// ANSI escape that starts a line of the given severity.
pub open spec fn colour_code(sev: Severity) -> Seq<char> {
    match sev {
        Severity::Debug => "\x1b[37m"@,
        Severity::Info => "\x1b[36m"@,
        Severity::Notice => "\x1b[1m"@,
        Severity::Warning => "\x1b[33m"@,
        Severity::Error => "\x1b[31m"@,
        Severity::Critical => "\x1b[35m"@,
        Severity::Alert => "\x1b[91m"@,
        Severity::Emergency => "\x1b[97m"@,
    }
}

/// The body of a human line: the human text, or the machine JSON wrapped as
/// `{"data":...}` when there is no human text.
pub open spec fn human_body(human: Seq<char>, machine_json: Seq<char>) -> Seq<char> {
    if human.len() == 0 {
        "{\"data\":"@ + machine_json + "}"@
    } else {
        human
    }
}

/// `[timestamp] [severity] [namespace] body`.
pub open spec fn human_line(obj: TraceObject, human: Seq<char>, machine_json: Seq<char>, ts: Seq<char>) -> Seq<char> {
    "["@ + ts + "] ["@ + severity_name(obj.to_severity) + "] ["@ + join_spec(obj.to_namespace.deep_view(), "."@)
        + "] "@ + human_body(human, machine_json)
}

/// The line a backend of format `format` writes, given the rendered timestamp.
pub open spec fn rendered_line(
    format: FormatLogging,
    obj: TraceObject,
    human: Seq<char>,
    machine_json: Seq<char>,
    ts: Seq<char>,
) -> Seq<char> {
    match format {
        FormatLogging::MachineFormat => machine_json,
        FormatLogging::HumanFormatColoured => colour_code(obj.to_severity) + human_line(obj, human, machine_json, ts)
            + reset_code(),
        FormatLogging::HumanFormatUncoloured => human_line(obj, human, machine_json, ts),
    }
}

/// Backend that writes trace messages to stdout.
pub struct StdoutBackend {
    /// The formatting style to use.
    pub format: FormatLogging,
}

fn colour_code_of(sev: Severity) -> (r: &'static str)
    ensures
        r@ == colour_code(sev),
{
    match sev {
        Severity::Debug => "\x1b[37m",
        Severity::Info => "\x1b[36m",
        Severity::Notice => "\x1b[1m",
        Severity::Warning => "\x1b[33m",
        Severity::Error => "\x1b[31m",
        Severity::Critical => "\x1b[35m",
        Severity::Alert => "\x1b[91m",
        Severity::Emergency => "\x1b[97m",
    }
}

/// Wraps `text` in the ANSI colour of `sev` and a reset.
pub fn apply_colour(text: &str, sev: Severity) -> (r: String)
    ensures
        r@ == colour_code(sev) + text@ + reset_code(),
{
    let mut out = String::new();
    out.append(colour_code_of(sev));
    out.append(text);
    out.append("\x1b[0m");
    proof {
        assert(out@ =~= colour_code(sev) + text@ + reset_code());
    }
    out
}

/// `[ts] [severity] [namespace] body`, where the body is `human`, or the
/// machine JSON wrapped as `{"data":...}` when `human` is empty.
pub fn build_human_line(obj: &TraceObject, human: &str, machine_json: &str, ts: &str) -> (r: String)
    ensures
        r@ == human_line(*obj, human@, machine_json@, ts@),
{
    let ns = join(&obj.to_namespace, ".");
    let mut out = String::new();
    out.append("[");
    out.append(ts);
    out.append("] [");
    out.append(obj.to_severity.name());
    out.append("] [");
    out.append(ns.as_str());
    out.append("] ");
    if human.is_empty() {
        out.append("{\"data\":");
        out.append(machine_json);
        out.append("}");
    } else {
        out.append(human);
    }
    proof {
        assert(out@ =~= human_line(*obj, human@, machine_json@, ts@));
    }
    out
}

impl StdoutBackend {
    /// A stdout backend with the given format.
    pub fn new(format: FormatLogging) -> (r: Self)
        ensures
            r.format == format,
    {
        StdoutBackend { format }
    }

    /// The line this backend writes for a message, given its rendered timestamp.
    pub fn render_with_timestamp(&self, obj: &TraceObject, human: &str, machine_json: &str, ts: &str) -> (r: String)
        ensures
            r@ == rendered_line(self.format, *obj, human@, machine_json@, ts@),
    {
        match self.format {
            FormatLogging::MachineFormat => {
                let mut out = String::new();
                out.append(machine_json);
                proof {
                    assert(out@ =~= machine_json@);
                }
                out
            },
            FormatLogging::HumanFormatColoured => {
                let text = build_human_line(obj, human, machine_json, ts);
                apply_colour(text.as_str(), obj.to_severity)
            },
            FormatLogging::HumanFormatUncoloured => build_human_line(obj, human, machine_json, ts),
        }
    }

    /// The line this backend writes for a message; `None` when a human line
    /// is asked for and the message's timestamp is one `chrono` cannot represent;
    /// every `renderable` timestamp renders.
    pub fn render(&self, obj: &TraceObject, human: &str, machine_json: &str) -> (r: Option<String>)
        ensures
            renderable(obj.to_timestamp.secs, obj.to_timestamp.nanos) ==> r is Some,
            self.format == FormatLogging::MachineFormat ==> (r matches Some(line) && line@ == machine_json@),
            self.format != FormatLogging::MachineFormat ==> match utc_text(obj.to_timestamp.secs, obj.to_timestamp.nanos, iso_millis_pattern()) {
                Some(ts) => r matches Some(line) && line@ == rendered_line(self.format, *obj, human@, machine_json@, ts),
                None => r is None,
            },
    {
        if self.format == FormatLogging::MachineFormat {
            return Some(self.render_with_timestamp(obj, human, machine_json, ""));
        }
        match format_utc(obj.to_timestamp.secs, obj.to_timestamp.nanos, "%Y-%m-%dT%H:%M:%S%.3fZ") {
            Some(ts) => Some(self.render_with_timestamp(obj, human, machine_json, ts.as_str())),
            None => None,
        }
    }
}

} // verus!
