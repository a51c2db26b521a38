use uring_detect::probe::{
    classify_probe, describe, describe_with, known_features, FeatureFlag, ProbeOutcome,
    NOSYS_ERRNO,
};

#[test]
fn classify_success_carries_features() {
    let r = classify_probe(3, 0, 0b101);
    assert_eq!(r, ProbeOutcome::Supported(0b101));
}

#[test]
fn classify_success_ignores_stale_errno() {
    // A non-negative return is success even if errno still holds a value.
    let r = classify_probe(0, NOSYS_ERRNO, 7);
    assert_eq!(r, ProbeOutcome::Supported(7));
}

#[test]
fn classify_nosys_is_unsupported_not_error() {
    let r = classify_probe(-1, NOSYS_ERRNO, 0);
    assert_eq!(r, ProbeOutcome::Unsupported);
    assert!(!matches!(r, ProbeOutcome::ProbeError(_)));
    assert!(!matches!(r, ProbeOutcome::Supported(_)));
}

#[test]
fn classify_other_errno_is_probe_error() {
    let r = classify_probe(-1, 13, 0);
    assert_eq!(r, ProbeOutcome::ProbeError(13));
}

#[test]
fn describe_zero_is_empty() {
    let names = describe(0);
    assert!(names.is_empty());
}

#[test]
fn describe_single_known_bit() {
    let names = describe(0x1);
    assert_eq!(names, vec!["IORING_FEAT_SINGLE_MMAP"]);
    let names = describe(0x20);
    assert_eq!(names, vec!["IORING_FEAT_FAST_POLL"]);
}

#[test]
fn describe_keeps_table_order() {
    let names = describe(0x1 | 0x4 | 0x1000);
    assert_eq!(
        names,
        vec![
            "IORING_FEAT_SINGLE_MMAP",
            "IORING_FEAT_SUBMIT_STABLE",
            "IORING_FEAT_CQE_SKIP",
        ]
    );
}

#[test]
fn describe_ignores_unknown_bits() {
    // A newer kernel may set bits the table does not know; they never
    // appear and never cause a failure.
    let names = describe(0x2 | (1 << 30));
    assert_eq!(names, vec!["IORING_FEAT_NODROP"]);
    let none = describe(1 << 31);
    assert!(none.is_empty());
}

#[test]
fn describe_all_known_bits() {
    let names = describe(0x1fff);
    assert_eq!(names.len(), 13);
    assert_eq!(names[0], "IORING_FEAT_SINGLE_MMAP");
    assert_eq!(names[12], "IORING_FEAT_CQE_SKIP");
}

#[test]
fn describe_with_custom_table() {
    let table = vec![
        FeatureFlag { bit: 1 << 0, name: "A" },
        FeatureFlag { bit: 1 << 1, name: "B" },
        FeatureFlag { bit: 1 << 2, name: "C" },
    ];
    let names = describe_with(&table, 0b101);
    assert_eq!(names, vec!["A", "C"]);
}

#[test]
fn known_table_has_thirteen_rows() {
    let t = known_features();
    assert_eq!(t.len(), 13);
    assert_eq!(t[0].bit, 1);
    assert_eq!(t[0].name, "IORING_FEAT_SINGLE_MMAP");
}
