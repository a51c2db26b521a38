//! Process/resource correlation: given one snapshot of the process
//! table — each entry's name, its file-descriptor link targets where
//! they could be listed, and whichever per-process texts could be read
//! — report every process that holds a descriptor pointing at the
//! facility's anonymous inode. Every per-process read is independently
//! fallible: a vanished process is skipped, never an error.

use vstd::prelude::*;

use crate::digits::{digits_val, parses_as_u32};
use crate::process::{
    build_record, record_matches, string_opt_view, ProcessRecord,
};
use crate::text::{contains_sub, str_contains};

verus! {

/// `s` names a process: a digit string denoting a positive id.
pub open spec fn is_pid_name(s: Seq<char>) -> bool {
    parses_as_u32(s) && digits_val(s) >= 1
}

/// Parses a process-table entry name as a process id; entries that do
/// not name a positive integer are not processes.
pub fn parse_pid(s: &str) -> (r: Option<u32>)
    ensures
        is_pid_name(s@) ==> (r matches Some(v) && v == digits_val(s@)),
        !is_pid_name(s@) ==> r is None,
{
    match crate::digits::parse_u32_digits(s) {
        Some(v) => {
            if v >= 1 {
                Some(v)
            } else {
                None
            }
        },
        None => None,
    }
}

/// The kernel names a descriptor of the facility by this anonymous
/// inode label in the descriptor's link target.
pub open spec fn is_ring_target(s: Seq<char>) -> bool {
    contains_sub(s, "anon_inode:[io_uring]"@)
}

/// Whether a descriptor's link target points at the facility.
pub fn ring_target(s: &str) -> (r: bool)
    ensures
        r == is_ring_target(s@),
{
    str_contains(s, "anon_inode:[io_uring]")
}

/// One entry of a process's file-descriptor table: the descriptor id
/// and the target its link resolved to.
#[derive(Clone, Debug)]
pub struct FdEntry {
    pub fd: u32,
    pub target: String,
}

/// Some descriptor in the table points at the facility.
pub open spec fn has_ring_fd(fds: Seq<FdEntry>) -> bool {
    exists|i: int| 0 <= i < fds.len() && is_ring_target((#[trigger] fds[i]).target@)
}

/// Finds the first descriptor whose target points at the facility.
pub fn find_ring_fd(fds: &Vec<FdEntry>) -> (r: Option<usize>)
    ensures
        r matches Some(i) ==> i < fds@.len() && is_ring_target(fds@[i as int].target@) && (forall|
            j: int,
        |
            0 <= j < i ==> !is_ring_target((#[trigger] fds@[j]).target@)),
        r is None ==> !has_ring_fd(fds@),
{
    let mut i: usize = 0;
    while i < fds.len()
        invariant
            0 <= i <= fds@.len(),
            forall|j: int| 0 <= j < i ==> !is_ring_target((#[trigger] fds@[j]).target@),
        decreases fds@.len() - i,
    {
        if ring_target(fds[i].target.as_str()) {
            return Some(i);
        }
        i = i + 1;
    }
    None
}

/// Everything one pass could observe about one process-table entry.
/// `None` in any field means that read failed or was never possible —
/// the entry may have vanished between reads.
#[derive(Clone, Debug)]
pub struct ProcSource {
    /// The process-table entry's name.
    pub entry_name: String,
    /// The descriptor table: id and resolved link target per entry;
    /// `None` when the table could not be listed at all.
    pub fd_targets: Option<Vec<FdEntry>>,
    /// Short command name text.
    pub comm: Option<String>,
    /// Resolved executable path.
    pub exe_path: Option<String>,
    /// Raw null-separated command-line blob.
    pub cmdline: Option<String>,
    /// Memory-mapping description text.
    pub maps: Option<String>,
    /// Labeled status text block.
    pub status: Option<String>,
}

/// The record the scanner reports for a hit: the process id and the
/// first matching descriptor.
#[derive(Clone, Debug)]
pub struct ScanMatch {
    pub record: ProcessRecord,
    pub fd: u32,
    pub fd_target: String,
}

/// A source is a hit when its entry names a process, its descriptor
/// table could be listed, and some descriptor points at the facility.
pub open spec fn source_hit(s: ProcSource) -> bool {
    &&& is_pid_name(s.entry_name@)
    &&& (s.fd_targets matches Some(fds) && has_ring_fd(fds@))
}

/// The reported descriptor is the first matching one of the table.
pub open spec fn handle_ok(fds: Seq<FdEntry>, fd: u32, target: Seq<char>) -> bool {
    exists|i: int|
        0 <= i < fds.len() && is_ring_target((#[trigger] fds[i]).target@) && (forall|j: int|
            0 <= j < i ==> !is_ring_target((#[trigger] fds[j]).target@)) && fd == fds[i].fd
            && target == fds[i].target@
}

/// How a reported match relates to the source it came from.
pub open spec fn match_ok(s: ProcSource, m: ScanMatch) -> bool {
    &&& source_hit(s)
    &&& record_matches(
        m.record,
        digits_val(s.entry_name@) as u32,
        string_opt_view(s.comm),
        string_opt_view(s.exe_path),
        string_opt_view(s.cmdline),
        string_opt_view(s.maps),
        string_opt_view(s.status),
    )
    &&& (s.fd_targets matches Some(fds) && handle_ok(fds@, m.fd, m.fd_target@))
}

/// Examines one process-table entry: reports the process and its first
/// matching descriptor when it is a hit, nothing otherwise. A source
/// whose descriptor table vanished is never a hit.
pub fn examine_process(src: &ProcSource) -> (r: Option<ScanMatch>)
    ensures
        source_hit(*src) ==> (r matches Some(m) && match_ok(*src, m)),
        !source_hit(*src) ==> r is None,
{
    let pid = match parse_pid(src.entry_name.as_str()) {
        Some(p) => p,
        None => {
            return None;
        },
    };
    let fds = match &src.fd_targets {
        Some(f) => f,
        None => {
            return None;
        },
    };
    let idx = match find_ring_fd(fds) {
        Some(i) => i,
        None => {
            return None;
        },
    };
    let record = build_record(
        pid,
        match &src.comm {
            Some(c) => Some(c.as_str()),
            None => None,
        },
        match &src.exe_path {
            Some(p) => Some(p.clone()),
            None => None,
        },
        match &src.cmdline {
            Some(c) => Some(c.as_str()),
            None => None,
        },
        match &src.maps {
            Some(m) => Some(m.as_str()),
            None => None,
        },
        match &src.status {
            Some(t) => Some(t.as_str()),
            None => None,
        },
    );
    let m = ScanMatch { record, fd: fds[idx].fd, fd_target: fds[idx].target.clone() };
    Some(m)
}

/// The sub-sequence of sources that are hits, in snapshot order.
pub open spec fn hit_sources(ss: Seq<ProcSource>) -> Seq<ProcSource>
    decreases ss.len(),
{
    if ss.len() == 0 {
        Seq::empty()
    } else {
        let head: Seq<ProcSource> = if source_hit(ss[0]) {
            seq![ss[0]]
        } else {
            Seq::empty()
        };
        head + hit_sources(ss.drop_first())
    }
}

/// Appending one source appends its hit, if it is one.
pub proof fn lemma_hit_sources_push(ss: Seq<ProcSource>, x: ProcSource)
    ensures
        hit_sources(ss.push(x)) == hit_sources(ss) + (if source_hit(x) {
            seq![x]
        } else {
            Seq::<ProcSource>::empty()
        }),
    decreases ss.len(),
{
    let tail: Seq<ProcSource> = if source_hit(x) {
        seq![x]
    } else {
        Seq::empty()
    };
    if ss.len() == 0 {
        assert(ss.push(x)[0] == x);
        assert(ss.push(x).drop_first() =~= Seq::<ProcSource>::empty());
        assert(hit_sources(Seq::<ProcSource>::empty()) == Seq::<ProcSource>::empty());
        assert(hit_sources(ss.push(x)) == tail + hit_sources(ss.push(x).drop_first()));
        assert(hit_sources(ss) == Seq::<ProcSource>::empty());
        assert(tail + Seq::<ProcSource>::empty() =~= Seq::<ProcSource>::empty() + tail);
    } else {
        assert(ss.push(x)[0] == ss[0]);
        assert(ss.push(x).drop_first() =~= ss.drop_first().push(x));
        lemma_hit_sources_push(ss.drop_first(), x);
        let h: Seq<ProcSource> = if source_hit(ss[0]) {
            seq![ss[0]]
        } else {
            Seq::empty()
        };
        assert(hit_sources(ss.push(x)) == h + hit_sources(ss.drop_first().push(x)));
        assert(hit_sources(ss) == h + hit_sources(ss.drop_first()));
        assert(h + (hit_sources(ss.drop_first()) + tail) =~= (h + hit_sources(ss.drop_first()))
            + tail);
    }
}

/// Scans one snapshot of the process table: one reported match per hit
/// source, in snapshot order, each relating to its source as
/// `match_ok` says. The scan is total — a snapshot full of vanished
/// or malformed entries yields an empty report, never a failure.
pub fn scan_snapshot(sources: &Vec<ProcSource>) -> (r: Vec<ScanMatch>)
    ensures
        r@.len() == hit_sources(sources@).len(),
        forall|k: int|
            0 <= k < r@.len() ==> match_ok(hit_sources(sources@)[k], #[trigger] r@[k]),
{
    let mut r: Vec<ScanMatch> = Vec::new();
    let mut i: usize = 0;
    proof {
        assert(sources@.take(0) =~= Seq::<ProcSource>::empty());
    }
    while i < sources.len()
        invariant
            0 <= i <= sources@.len(),
            r@.len() == hit_sources(sources@.take(i as int)).len(),
            forall|k: int|
                0 <= k < r@.len() ==> match_ok(
                    hit_sources(sources@.take(i as int))[k],
                    #[trigger] r@[k],
                ),
        decreases sources@.len() - i,
    {
        let ghost pre = sources@.take(i as int);
        proof {
            assert(sources@.take(i + 1) =~= pre.push(sources@[i as int]));
            lemma_hit_sources_push(pre, sources@[i as int]);
        }
        match examine_process(&sources[i]) {
            Some(m) => {
                r.push(m);
            },
            None => {
            },
        }
        i = i + 1;
    }
    proof {
        assert(sources@.take(sources@.len() as int) =~= sources@);
    }
    r
}

/// A process-table entry whose descriptor table vanished between the
/// listing and the read contributes nothing: the scan's outcome is as
/// if the entry had not been there.
pub proof fn lemma_unlistable_not_reported(ss: Seq<ProcSource>, i: int)
    requires
        0 <= i < ss.len(),
        ss[i].fd_targets is None,
    ensures
        hit_sources(ss) == hit_sources(ss.remove(i)),
    decreases ss.len(),
{
    if i == 0 {
        assert(!source_hit(ss[0]));
        assert(ss.remove(0) =~= ss.drop_first());
    } else {
        assert(ss.remove(i)[0] == ss[0]);
        assert(ss.remove(i).drop_first() =~= ss.drop_first().remove(i - 1));
        assert(ss.drop_first()[i - 1] == ss[i]);
        lemma_unlistable_not_reported(ss.drop_first(), i - 1);
        assert(hit_sources(ss) =~= hit_sources(ss.remove(i)));
    }
}

/// Each source yields at most one reported match, however many of its
/// descriptors point at the facility.
pub proof fn lemma_at_most_one_match_per_source(ss: Seq<ProcSource>)
    ensures
        hit_sources(ss).len() <= ss.len(),
    decreases ss.len(),
{
    if ss.len() > 0 {
        lemma_at_most_one_match_per_source(ss.drop_first());
    }
}

} // verus!
