//! Diagnostic library for a kernel's asynchronous I/O ring facility.
//!
//! Two components, composed sequentially by a thin caller:
//! a capability probe, which classifies the outcome of the raw setup
//! call and decodes the negotiated feature bitmask, and a resource
//! scanner, which correlates a snapshot of the process table with the
//! file descriptors that point at the facility's anonymous inode.
//! All decisions are made here on plain values; the caller performs
//! the system call and the pseudo-filesystem reads and hands their
//! results in.

use vstd::prelude::*;

pub mod digits;
pub mod text;
pub mod probe;
pub mod process;
pub mod scan;
pub mod sysinfo;

verus! {

/// The complete outcome of one diagnostic pass.
#[derive(Clone, Debug)]
pub enum Diagnosis {
    /// The facility is absent from the running kernel. A valid terminal
    /// state, not a failure; nothing was scanned.
    Unsupported,
    /// The probe failed with an unexpected error code.
    ProbeFailed(i32),
    /// The facility is present: the negotiated feature bitmask, and the
    /// processes found holding a handle to it.
    Supported { features: u32, processes: Vec<scan::ScanMatch> },
}

/// The scan step runs exactly when the probe found the facility
/// supported.
pub fn scan_required(outcome: &probe::ProbeOutcome) -> (r: bool)
    ensures
        r == (outcome is Supported),
{
    match outcome {
        probe::ProbeOutcome::Supported(_) => true,
        _ => false,
    }
}

/// Composes the probe outcome with the scan report, which is present
/// exactly when the probe found the facility. An unsupported facility
/// yields exactly `Unsupported`, with no process records at all.
pub fn compose_diagnosis(
    outcome: probe::ProbeOutcome,
    scan_result: Option<Vec<scan::ScanMatch>>,
) -> (r: Diagnosis)
    ensures
        outcome is Unsupported ==> r is Unsupported,
        outcome matches probe::ProbeOutcome::ProbeError(code) ==> (r matches
            Diagnosis::ProbeFailed(c) && c == code),
        outcome matches probe::ProbeOutcome::Supported(f) ==> (r matches Diagnosis::Supported {
            features,
            processes,
        } && features == f && (match scan_result {
            Some(v) => processes == v,
            None => processes@.len() == 0,
        })),
{
    match outcome {
        probe::ProbeOutcome::Supported(f) => Diagnosis::Supported {
            features: f,
            processes: match scan_result {
                Some(v) => v,
                None => Vec::new(),
            },
        },
        probe::ProbeOutcome::Unsupported => Diagnosis::Unsupported,
        probe::ProbeOutcome::ProbeError(c) => Diagnosis::ProbeFailed(c),
    }
}

} // verus!
