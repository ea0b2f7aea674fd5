//! What the logging helpers decide: the records the yak-shaving demo emits,
//! and the scrubbing every record goes through before a formatter writes
//! it. The log sinks themselves (files, stdout, rotation) live outside the
//! library and emit what these functions hand them.

use crate::redact::{desensitization, mask_ip_from, mask_phone_from};
use vstd::prelude::*;
use vstd::string::StringExecFns;

verus! {

/// The severities the demo logs at.
#[derive(Clone, Copy, Debug, PartialEq, Eq, Structural)]
pub enum LogLevel {
    Trace,
    Info,
    Warn,
    Error,
}

/// The four records the yak-shaving demo logs, in order; the caller emits
/// each at its level.
pub fn shave_the_yak() -> (r: Vec<(LogLevel, String)>)
    ensures
        r@.len() == 4,
        r@[0].0 is Trace && r@[0].1@ == "Commencing yak shaving"@,
        r@[1].0 is Info && r@[1].1@ == "Yak shaving"@,
        r@[2].0 is Warn && r@[2].1@ == "You've been yaking on my false positive team"@,
        r@[3].0 is Error && r@[3].1@ == "You've been yaking on my true positive team"@,
{
    let mut r: Vec<(LogLevel, String)> = Vec::new();
    r.push((LogLevel::Trace, String::from_str("Commencing yak shaving")));
    r.push((LogLevel::Info, String::from_str("Yak shaving")));
    r.push((LogLevel::Warn, String::from_str("You've been yaking on my false positive team")));
    r.push((LogLevel::Error, String::from_str("You've been yaking on my true positive team")));
    r
}

/// Scrubs one log record's rendered text before it is written: phone
/// numbers and dotted addresses are starred out.
pub fn sanitize_log_record(record_text: &str) -> (r: String)
    ensures
        r@ == mask_ip_from(mask_phone_from(record_text@, 0), 0),
{
    desensitization(record_text)
}

/// The formatter that scrubs every rendered event before writing it; the
/// subscriber stack around it lives outside the library.
pub struct RedactingFormatter;

impl RedactingFormatter {
    /// What the formatter writes for a rendered event.
    pub fn format_event(&self, rendered: &str) -> (r: String)
        ensures
            r@ == mask_ip_from(mask_phone_from(rendered@, 0), 0),
    {
        desensitization(rendered)
    }
}

} // verus!
