//! Capability probing: classification of the raw setup call's outcome
//! and decoding of the kernel-reported feature bitmask.

use vstd::prelude::*;

verus! {

/// The errno value with which the kernel reports "function not
/// implemented" on Linux's mainstream architectures.
pub const NOSYS_ERRNO: i32 = 38;

/// Outcome of one capability probe: the facility is available (with the
/// feature bitmask the kernel wrote back), absent from the running
/// kernel, or the probe itself failed with an unexpected error code.
#[derive(Clone, Copy, Debug, PartialEq, Eq, Structural)]
pub enum ProbeOutcome {
    Supported(u32),
    Unsupported,
    ProbeError(i32),
}

/// Classifies the raw setup call's result.
///
/// A non-negative return value is a handle and means the facility is
/// supported; `features` is the feature field the kernel wrote into the
/// parameter block. A negative return value is an error reported
/// through `errno`: "function not implemented" means the facility is
/// absent, every other code is surfaced as a probe failure.
pub fn classify_probe(ret: i64, errno: i32, features: u32) -> (r: ProbeOutcome)
    ensures
        ret >= 0 ==> r == ProbeOutcome::Supported(features),
        ret < 0 && errno == NOSYS_ERRNO ==> r == ProbeOutcome::Unsupported,
        ret < 0 && errno != NOSYS_ERRNO ==> r == ProbeOutcome::ProbeError(errno),
{
    if ret >= 0 {
        ProbeOutcome::Supported(features)
    } else if errno == NOSYS_ERRNO {
        ProbeOutcome::Unsupported
    } else {
        ProbeOutcome::ProbeError(errno)
    }
}

/// One row of the feature table: a single mask bit and the symbolic
/// name the kernel documentation gives it.
pub struct FeatureFlag {
    pub bit: u32,
    pub name: &'static str,
}

/// The mathematical shape of a feature table: (bit, name) pairs in
/// table order.
pub open spec fn table_model(t: Seq<FeatureFlag>) -> Seq<(u32, Seq<char>)> {
    t.map_values(|f: FeatureFlag| (f.bit, f.name@))
}

/// The names of the table entries whose bit is set in `mask`, in table
/// order. Bits of `mask` outside the table are ignored.
pub open spec fn described(table: Seq<(u32, Seq<char>)>, mask: u32) -> Seq<Seq<char>>
    decreases table.len(),
{
    if table.len() == 0 {
        Seq::empty()
    } else {
        let head: Seq<Seq<char>> = if mask & table[0].0 != 0 {
            seq![table[0].1]
        } else {
            Seq::empty()
        };
        head + described(table.drop_first(), mask)
    }
}

/// The versioned feature table: the facility's feature bits and their
/// names, in the order the kernel introduced them.
pub open spec fn known_feature_table() -> Seq<(u32, Seq<char>)> {
    seq![
        (0x1u32, "IORING_FEAT_SINGLE_MMAP"@),
        (0x2u32, "IORING_FEAT_NODROP"@),
        (0x4u32, "IORING_FEAT_SUBMIT_STABLE"@),
        (0x8u32, "IORING_FEAT_RW_CUR_POS"@),
        (0x10u32, "IORING_FEAT_CUR_PERSONALITY"@),
        (0x20u32, "IORING_FEAT_FAST_POLL"@),
        (0x40u32, "IORING_FEAT_POLL_32BITS"@),
        (0x80u32, "IORING_FEAT_SQPOLL_NONFIXED"@),
        (0x100u32, "IORING_FEAT_ENTER_EXT_ARG"@),
        (0x200u32, "IORING_FEAT_REG_RW"@),
        (0x400u32, "IORING_FEAT_SAFE_LINK"@),
        (0x800u32, "IORING_FEAT_FAST_POLL_FULL"@),
        (0x1000u32, "IORING_FEAT_CQE_SKIP"@),
    ]
}

/// Builds the feature table as an executable value.
pub fn known_features() -> (t: Vec<FeatureFlag>)
    ensures
        table_model(t@) == known_feature_table(),
{
    let mut t: Vec<FeatureFlag> = Vec::new();
    t.push(FeatureFlag { bit: 0x1, name: "IORING_FEAT_SINGLE_MMAP" });
    t.push(FeatureFlag { bit: 0x2, name: "IORING_FEAT_NODROP" });
    t.push(FeatureFlag { bit: 0x4, name: "IORING_FEAT_SUBMIT_STABLE" });
    t.push(FeatureFlag { bit: 0x8, name: "IORING_FEAT_RW_CUR_POS" });
    t.push(FeatureFlag { bit: 0x10, name: "IORING_FEAT_CUR_PERSONALITY" });
    t.push(FeatureFlag { bit: 0x20, name: "IORING_FEAT_FAST_POLL" });
    t.push(FeatureFlag { bit: 0x40, name: "IORING_FEAT_POLL_32BITS" });
    t.push(FeatureFlag { bit: 0x80, name: "IORING_FEAT_SQPOLL_NONFIXED" });
    t.push(FeatureFlag { bit: 0x100, name: "IORING_FEAT_ENTER_EXT_ARG" });
    t.push(FeatureFlag { bit: 0x200, name: "IORING_FEAT_REG_RW" });
    t.push(FeatureFlag { bit: 0x400, name: "IORING_FEAT_SAFE_LINK" });
    t.push(FeatureFlag { bit: 0x800, name: "IORING_FEAT_FAST_POLL_FULL" });
    t.push(FeatureFlag { bit: 0x1000, name: "IORING_FEAT_CQE_SKIP" });
    proof {
        assert(table_model(t@) =~= known_feature_table());
    }
    t
}

/// The names of the set feature bits, against an arbitrary table.
pub fn describe_with(table: &Vec<FeatureFlag>, mask: u32) -> (r: Vec<&'static str>)
    ensures
        r.deep_view() == described(table_model(table@), mask),
{
    let ghost tm = table_model(table@);
    let mut r: Vec<&'static str> = Vec::new();
    let mut i: usize = 0;
    proof {
        assert(tm.skip(0) =~= tm);
        assert(r.deep_view() + described(tm, mask) =~= described(tm, mask));
    }
    while i < table.len()
        invariant
            tm == table_model(table@),
            tm.len() == table@.len(),
            0 <= i <= table@.len(),
            r.deep_view() + described(tm.skip(i as int), mask) == described(tm, mask),
        decreases table@.len() - i,
    {
        let ghost before = r.deep_view();
        let entry = &table[i];
        proof {
            assert(tm.skip(i as int)[0] == tm[i as int]);
            assert(tm[i as int] == (table@[i as int].bit, table@[i as int].name@));
            assert(tm.skip(i as int).drop_first() =~= tm.skip(i + 1));
        }
        if mask & entry.bit != 0 {
            r.push(entry.name);
            proof {
                assert(r.deep_view() =~= before.push(table@[i as int].name@));
                assert(described(tm.skip(i as int), mask) =~= seq![tm[i as int].1] + described(
                    tm.skip(i + 1),
                    mask,
                ));
                assert(r.deep_view() + described(tm.skip(i + 1), mask) =~= before + described(
                    tm.skip(i as int),
                    mask,
                ));
            }
        } else {
            proof {
                assert(described(tm.skip(i as int), mask) =~= described(tm.skip(i + 1), mask));
            }
        }
        i = i + 1;
    }
    proof {
        assert(tm.skip(tm.len() as int) =~= Seq::<(u32, Seq<char>)>::empty());
        assert(described(tm.skip(tm.len() as int), mask) =~= Seq::<Seq<char>>::empty());
        assert(r.deep_view() =~= r.deep_view() + described(tm.skip(tm.len() as int), mask));
    }
    r
}

/// The names of the set feature bits of `mask`, against the versioned
/// feature table. An empty result means no known bit is set, which is
/// a different observation from "not yet probed".
pub fn describe(mask: u32) -> (r: Vec<&'static str>)
    ensures
        r.deep_view() == described(known_feature_table(), mask),
{
    let table = known_features();
    describe_with(&table, mask)
}

/// A name is described exactly when it names a table entry whose bit
/// is set in the mask; bits outside the table never contribute.
pub proof fn lemma_described_membership(table: Seq<(u32, Seq<char>)>, mask: u32, n: Seq<char>)
    ensures
        described(table, mask).contains(n) <==> (exists|i: int|
            0 <= i < table.len() && (#[trigger] table[i]).1 == n && mask & table[i].0 != 0),
    decreases table.len(),
{
    if table.len() > 0 {
        lemma_described_membership(table.drop_first(), mask, n);
        let head: Seq<Seq<char>> = if mask & table[0].0 != 0 {
            seq![table[0].1]
        } else {
            Seq::empty()
        };
        let rest = described(table.drop_first(), mask);
        assert(described(table, mask) == head + rest);
        if described(table, mask).contains(n) {
            let j = choose|j: int|
                0 <= j < described(table, mask).len() && described(table, mask)[j] == n;
            if j < head.len() {
                assert(table[0].1 == n && mask & table[0].0 != 0);
            } else {
                assert(rest[j - head.len()] == n);
                assert(rest.contains(n));
                let i = choose|i: int|
                    0 <= i < table.drop_first().len() && (#[trigger] table.drop_first()[i]).1 == n
                        && mask & table.drop_first()[i].0 != 0;
                assert(table.drop_first()[i] == table[i + 1]);
                assert(0 <= i + 1 < table.len() && (#[trigger] table[i + 1]).1 == n && mask
                    & table[i + 1].0 != 0);
            }
        }
        if exists|i: int|
            0 <= i < table.len() && (#[trigger] table[i]).1 == n && mask & table[i].0 != 0 {
            let i = choose|i: int|
                0 <= i < table.len() && (#[trigger] table[i]).1 == n && mask & table[i].0 != 0;
            if i == 0 {
                assert(described(table, mask)[0] == n);
                assert(described(table, mask).contains(n));
            } else {
                assert(table.drop_first()[i - 1] == table[i]);
                assert(rest.contains(n));
                let j = choose|j: int| 0 <= j < rest.len() && rest[j] == n;
                assert(described(table, mask)[head.len() + j] == n);
                assert(described(table, mask).contains(n));
            }
        }
    }
}

/// A zero mask describes no features at all, whatever the table.
pub proof fn lemma_described_zero(table: Seq<(u32, Seq<char>)>)
    ensures
        described(table, 0) == Seq::<Seq<char>>::empty(),
    decreases table.len(),
{
    if table.len() > 0 {
        let b = table[0].0;
        assert(0u32 & b == 0) by (bit_vector);
        lemma_described_zero(table.drop_first());
        assert(described(table, 0) =~= Seq::<Seq<char>>::empty());
    }
}

} // verus!
