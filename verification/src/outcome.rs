//! What one probe attempt produced, and what it means: a captured
//! process outcome is folded into an optional `major.minor` version,
//! under the rules of the family that was probed.

use vstd::prelude::*;
use crate::parse::{musl_stderr_version, musl_version_from_stderr, parse_major_minor,
    parse_major_minor_version};

verus! {

/// What one invocation attempt produced: the child's exit code (absent
/// when the child was killed by a signal) and its captured output.
#[derive(Debug, Clone)]
pub struct ExecutionOutcome {
    /// The child process's exit code, if it exited normally.
    pub exit_code: Option<i32>,
    /// Everything the child wrote to standard output.
    pub stdout: Vec<u8>,
    /// Everything the child wrote to standard error.
    pub stderr: Vec<u8>,
}

/// How one probe attempt ended, as the embedding program reports it to
/// the detection engine.
#[derive(Debug, Clone)]
pub enum ProbeEvent {
    /// The probe process ran to completion and its output was captured.
    Completed(ExecutionOutcome),
    /// The probe never ran: the execution resource could not be set up,
    /// the binary's format was not recognized (a foreign-architecture
    /// probe), or no such loader exists on this host.  Always an
    /// ordinary skip, never an error.
    Skipped,
}

/// The version a glibc probe outcome yields: its stdout read as
/// `major.minor`, and only when the probe exited with status zero — any
/// other exit signals that the probe does not apply here.
pub open spec fn glibc_outcome_version(o: ExecutionOutcome) -> Option<(u32, u32)> {
    if o.exit_code == Some(0i32) {
        parse_major_minor(o.stdout@)
    } else {
        None
    }
}

/// The version a musl loader outcome yields: its stderr's first
/// `Version `-prefixed line, read as `major.minor`.  The loader exits
/// non-zero by design, so the exit status is deliberately ignored.
pub open spec fn musl_outcome_version(o: ExecutionOutcome) -> Option<(u32, u32)> {
    musl_stderr_version(o.stderr@)
}

/// The version a whole glibc probe attempt yields: a probe that never
/// ran yields nothing.
pub open spec fn glibc_event_version(e: ProbeEvent) -> Option<(u32, u32)> {
    match e {
        ProbeEvent::Completed(o) => glibc_outcome_version(o),
        ProbeEvent::Skipped => None,
    }
}

/// The version a whole musl probe attempt yields: an absent loader
/// yields nothing.
pub open spec fn musl_event_version(e: ProbeEvent) -> Option<(u32, u32)> {
    match e {
        ProbeEvent::Completed(o) => musl_outcome_version(o),
        ProbeEvent::Skipped => None,
    }
}

/// Reads a glibc probe's captured outcome: `Some(major, minor)` exactly
/// when the probe exited zero and printed a parsable version.
pub fn glibc_version_from_output(o: &ExecutionOutcome) -> (r: Option<(u32, u32)>)
    ensures
        r == glibc_outcome_version(*o),
{
    match o.exit_code {
        Some(code) => {
            if code == 0 {
                parse_major_minor_version(o.stdout.as_slice())
            } else {
                None
            }
        },
        None => None,
    }
}

/// Reads a musl loader's captured outcome: `Some(major, minor)` exactly
/// when its stderr carries a parsable `Version ` line, whatever its exit
/// status was.
pub fn musl_version_from_outcome(o: &ExecutionOutcome) -> (r: Option<(u32, u32)>)
    ensures
        r == musl_outcome_version(*o),
{
    musl_version_from_stderr(o.stderr.as_slice())
}

/// Reads the version out of one probe attempt under the glibc rules.
pub fn glibc_version_from_event(e: &ProbeEvent) -> (r: Option<(u32, u32)>)
    ensures
        r == glibc_event_version(*e),
{
    match e {
        ProbeEvent::Completed(o) => glibc_version_from_output(o),
        ProbeEvent::Skipped => None,
    }
}

/// Reads the version out of one probe attempt under the musl rules.
pub fn musl_version_from_event(e: &ProbeEvent) -> (r: Option<(u32, u32)>)
    ensures
        r == musl_event_version(*e),
{
    match e {
        ProbeEvent::Completed(o) => musl_version_from_outcome(o),
        ProbeEvent::Skipped => None,
    }
}

/// The musl probe's verdict depends on the captured stderr alone: two
/// outcomes with the same stderr yield the same version, whatever their
/// exit statuses.
pub proof fn lemma_musl_ignores_exit_status(o1: ExecutionOutcome, o2: ExecutionOutcome)
    requires
        o1.stderr@ == o2.stderr@,
    ensures
        musl_outcome_version(o1) == musl_outcome_version(o2),
{
}

} // verus!
