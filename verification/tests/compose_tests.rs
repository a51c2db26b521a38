use uring_detect::probe::ProbeOutcome;
use uring_detect::scan::{FdEntry, ProcSource};
use uring_detect::sysinfo::{system_info_from_uname, SystemInfo};
use uring_detect::{compose_diagnosis, scan_required, Diagnosis};

#[test]
fn unsupported_probe_skips_the_scan_entirely() {
    // Facility reported unsupported: the scan step must not run, and
    // the overall result is exactly Unsupported with no process records.
    let outcome = ProbeOutcome::Unsupported;
    assert!(!scan_required(&outcome));
    let d = compose_diagnosis(outcome, None);
    assert!(matches!(d, Diagnosis::Unsupported));
}

#[test]
fn probe_error_propagates_its_code() {
    let outcome = ProbeOutcome::ProbeError(1);
    assert!(!scan_required(&outcome));
    let d = compose_diagnosis(outcome, None);
    assert!(matches!(d, Diagnosis::ProbeFailed(1)));
}

#[test]
fn supported_probe_runs_the_scan_and_reports_it() {
    let outcome = ProbeOutcome::Supported(0b101);
    assert!(scan_required(&outcome));
    let sources = vec![ProcSource {
        entry_name: "4242".to_string(),
        fd_targets: Some(vec![FdEntry {
            fd: 6,
            target: "anon_inode:[io_uring]".to_string(),
        }]),
        comm: Some("worker\n".to_string()),
        exe_path: None,
        cmdline: None,
        maps: None,
        status: None,
    }];
    let report = uring_detect::scan::scan_snapshot(&sources);
    let d = compose_diagnosis(outcome, Some(report));
    match d {
        Diagnosis::Supported { features, processes } => {
            assert_eq!(features, 0b101);
            assert_eq!(processes.len(), 1);
            assert_eq!(processes[0].record.pid, 4242);
            assert_eq!(processes[0].record.name, "worker");
        },
        _ => panic!("expected a supported diagnosis"),
    }
}

#[test]
fn empty_feature_list_is_distinct_from_unprobed() {
    // A supported facility with a zero bitmask still composes to
    // Supported: an empty feature list is not "not yet probed".
    let d = compose_diagnosis(ProbeOutcome::Supported(0), Some(Vec::new()));
    match d {
        Diagnosis::Supported { features, processes } => {
            assert_eq!(features, 0);
            assert!(uring_detect::probe::describe(features).is_empty());
            assert!(processes.is_empty());
        },
        _ => panic!("expected a supported diagnosis"),
    }
}

#[test]
fn default_system_info_is_all_unknown() {
    let s = SystemInfo::default();
    assert_eq!(s.architecture, "unknown");
    assert_eq!(s.kernel_version, "unknown");
    assert!(!s.io_uring_support);
    assert!(!s.min_kernel_version_met);
}

#[test]
fn system_info_from_uname_checks_the_release() {
    let s = system_info_from_uname("x86_64".to_string(), "5.15.0-91-generic".to_string());
    assert_eq!(s.architecture, "x86_64");
    assert_eq!(s.kernel_version, "5.15.0-91-generic");
    assert!(!s.io_uring_support);
    assert!(s.min_kernel_version_met);

    let old = system_info_from_uname("x86_64".to_string(), "4.15.0".to_string());
    assert!(!old.min_kernel_version_met);
}
