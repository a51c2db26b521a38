use uring_detect::process::{
    build_record, display_name, memory_backed_hint, parse_status_memory,
};
use uring_detect::scan::{
    examine_process, find_ring_fd, parse_pid, ring_target, scan_snapshot, FdEntry, ProcSource,
};

fn source(name: &str, fds: Option<Vec<(u32, &str)>>) -> ProcSource {
    ProcSource {
        entry_name: name.to_string(),
        fd_targets: fds.map(|v| {
            v.into_iter()
                .map(|(fd, t)| FdEntry { fd, target: t.to_string() })
                .collect()
        }),
        comm: None,
        exe_path: None,
        cmdline: None,
        maps: None,
        status: None,
    }
}

#[test]
fn pid_names() {
    assert_eq!(parse_pid("1234"), Some(1234));
    assert_eq!(parse_pid("1"), Some(1));
    assert_eq!(parse_pid("0"), None);
    assert_eq!(parse_pid("self"), None);
    assert_eq!(parse_pid("12a"), None);
    assert_eq!(parse_pid(""), None);
}

#[test]
fn ring_targets() {
    assert!(ring_target("anon_inode:[io_uring]"));
    assert!(!ring_target("socket:[48133]"));
    assert!(!ring_target("/dev/null"));
    assert!(!ring_target("anon_inode:[eventpoll]"));
}

#[test]
fn first_matching_descriptor_wins() {
    let fds = vec![
        FdEntry { fd: 0, target: "/dev/pts/0".to_string() },
        FdEntry { fd: 5, target: "anon_inode:[io_uring]".to_string() },
        FdEntry { fd: 9, target: "anon_inode:[io_uring]".to_string() },
    ];
    assert_eq!(find_ring_fd(&fds), Some(1));
    let none = vec![FdEntry { fd: 0, target: "/dev/null".to_string() }];
    assert_eq!(find_ring_fd(&none), None);
}

#[test]
fn status_text_memory_fields() {
    // "VmRSS:    1234 kB" yields resident memory 1234.
    let text = "Name:\tworker\nVmSize:\t  999 kB\nVmRSS:    1234 kB\nThreads:\t4\n";
    let m = parse_status_memory(text);
    assert_eq!(m.virtual_kb, Some(999));
    assert_eq!(m.resident_kb, Some(1234));
}

#[test]
fn status_text_missing_line_is_absent_not_zero() {
    let text = "Name:\tworker\nVmSize:\t  999 kB\n";
    let m = parse_status_memory(text);
    assert_eq!(m.virtual_kb, Some(999));
    assert_eq!(m.resident_kb, None);
}

#[test]
fn status_text_malformed_value_is_absent() {
    let text = "VmSize:\nVmRSS: lots kB\n";
    let m = parse_status_memory(text);
    assert_eq!(m.virtual_kb, None);
    assert_eq!(m.resident_kb, None);
}

#[test]
fn memory_backed_markers() {
    assert!(memory_backed_hint("7f0000 r-xp 00000 00:00 12 /memfd:shm (deleted)\n"));
    assert!(memory_backed_hint("7f0000 rw-s 00000 00:0e 1 anon_inode:[io_uring]\n"));
    assert!(memory_backed_hint("7f0000 r-xp 00000 08:01 2 /usr/bin/tool (deleted)\n"));
    assert!(!memory_backed_hint("7f0000 r-xp 00000 08:01 2 /usr/bin/tool\n"));
    assert!(!memory_backed_hint(""));
}

#[test]
fn name_fallback_marker() {
    assert_eq!(display_name(Some("nginx\n")), "nginx");
    assert_eq!(display_name(None), "<unknown>");
}

#[test]
fn record_fields_are_independent() {
    let r = build_record(
        42,
        None,
        None,
        Some("srv\0--port\08080\0"),
        None,
        Some("VmRSS:\t8 kB\n"),
    );
    assert_eq!(r.pid, 42);
    assert_eq!(r.name, "<unknown>");
    assert!(r.exe_path.is_none());
    assert_eq!(
        r.cmdline,
        Some(vec!["srv".to_string(), "--port".to_string(), "8080".to_string()])
    );
    assert!(!r.memory_backed);
    let m = r.memory.expect("status text was given");
    assert_eq!(m.virtual_kb, None);
    assert_eq!(m.resident_kb, Some(8));
}

#[test]
fn vanished_fd_directory_skips_the_process() {
    // The descriptor table disappeared between listing and reading:
    // the process is simply absent from the results, the scan goes on.
    let sources = vec![
        source("100", None),
        source("200", Some(vec![(7, "anon_inode:[io_uring]")])),
    ];
    let report = scan_snapshot(&sources);
    assert_eq!(report.len(), 1);
    assert_eq!(report[0].record.pid, 200);
}

#[test]
fn non_process_entries_are_skipped() {
    let sources = vec![
        source("self", Some(vec![(3, "anon_inode:[io_uring]")])),
        source("irq", Some(vec![(3, "anon_inode:[io_uring]")])),
        source("321", Some(vec![(3, "anon_inode:[io_uring]")])),
    ];
    let report = scan_snapshot(&sources);
    assert_eq!(report.len(), 1);
    assert_eq!(report[0].record.pid, 321);
}

#[test]
fn one_match_per_process_from_first_descriptor() {
    // One process holds a matching descriptor: it appears exactly once,
    // with the handle taken from the first matching descriptor.
    let sources = vec![
        source("100", Some(vec![(0, "/dev/pts/0")])),
        source(
            "4242",
            Some(vec![
                (0, "/dev/pts/0"),
                (6, "anon_inode:[io_uring]"),
                (8, "anon_inode:[io_uring]"),
            ]),
        ),
        source("900", Some(vec![])),
    ];
    let report = scan_snapshot(&sources);
    assert_eq!(report.len(), 1);
    assert_eq!(report[0].record.pid, 4242);
    assert_eq!(report[0].fd, 6);
    assert_eq!(report[0].fd_target, "anon_inode:[io_uring]");
}

#[test]
fn examine_fills_metadata_for_a_hit() {
    let mut s = source("77", Some(vec![(4, "anon_inode:[io_uring]")]));
    s.comm = Some("ring-user\n".to_string());
    s.exe_path = Some("/usr/bin/ring-user".to_string());
    s.cmdline = Some("ring-user\0-v\0".to_string());
    s.maps = Some("7f00 rw-s 0 00:0e 1 anon_inode:[io_uring]\n".to_string());
    s.status = Some("VmSize:\t500 kB\nVmRSS:\t100 kB\n".to_string());
    let m = examine_process(&s).expect("a hit");
    assert_eq!(m.record.pid, 77);
    assert_eq!(m.record.name, "ring-user");
    assert_eq!(m.record.exe_path, Some("/usr/bin/ring-user".to_string()));
    assert_eq!(
        m.record.cmdline,
        Some(vec!["ring-user".to_string(), "-v".to_string()])
    );
    assert!(m.record.memory_backed);
    let mem = m.record.memory.expect("status present");
    assert_eq!(mem.virtual_kb, Some(500));
    assert_eq!(mem.resident_kb, Some(100));
    assert_eq!(m.fd, 4);
}

#[test]
fn examine_misses() {
    assert!(examine_process(&source("worker", Some(vec![(1, "anon_inode:[io_uring]")])))
        .is_none());
    assert!(examine_process(&source("55", None)).is_none());
    assert!(examine_process(&source("55", Some(vec![(1, "socket:[3]")]))).is_none());
}

#[test]
fn empty_snapshot_scans_to_empty_report() {
    let report = scan_snapshot(&Vec::new());
    assert!(report.is_empty());
}
