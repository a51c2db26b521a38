//! Per-process metadata: the record the scanner reports for a process
//! that holds a handle to the facility, and the parsers that fill it
//! from the process's pseudo-file texts. Every field is best-effort on
//! its own: a text that could not be read, or a malformed field, leaves
//! that one field absent and never suppresses the others.

use vstd::prelude::*;

use crate::digits::{digits_val, parses_as_u64};
use crate::text::{
    contains_sub, has_prefix, split_on, split_str, str_contains, str_has_prefix, trim_str,
    trimmed, Sep,
};

verus! {

/// Memory footprint from the process's status text, in kilobytes.
/// A missing or malformed line leaves that sub-field absent; absent is
/// not zero.
#[derive(Clone, Copy, Debug, PartialEq, Eq)]
pub struct MemoryUsage {
    pub virtual_kb: Option<u64>,
    pub resident_kb: Option<u64>,
}

/// What the scanner reports about one process that holds a handle to
/// the facility.
#[derive(Clone, Debug)]
pub struct ProcessRecord {
    /// Process id, as named by the process-table entry.
    pub pid: u32,
    /// Short command name; `<unknown>` when it could not be read.
    pub name: String,
    /// Executable path; absent for kernel threads and race-gone links.
    pub exe_path: Option<String>,
    /// Command-line arguments; absent when unreadable or all-empty.
    pub cmdline: Option<Vec<String>>,
    /// Memory footprint; absent when the status text was unreadable.
    pub memory: Option<MemoryUsage>,
    /// Whether the memory mappings carry a memory-backed marker.
    pub memory_backed: bool,
}

/// View of an optional borrowed text.
pub open spec fn str_opt_view(o: Option<&str>) -> Option<Seq<char>> {
    match o {
        Some(s) => Some(s@),
        None => None,
    }
}

/// View of an optional owned text.
pub open spec fn string_opt_view(o: Option<String>) -> Option<Seq<char>> {
    match o {
        Some(s) => Some(s@),
        None => None,
    }
}

/// The argument fragments of a command-line blob: the nonempty pieces
/// between null bytes. The blob's trailing null produces no fragment.
pub open spec fn cmdline_fragments(s: Seq<char>) -> Seq<Seq<char>> {
    split_on(s, Sep::Exact('\0'))
}

/// Splits a command-line blob into its arguments; a blob with no
/// nonempty fragment means "no command line", not an empty list.
pub fn parse_cmdline(blob: &str) -> (r: Option<Vec<String>>)
    ensures
        cmdline_fragments(blob@).len() == 0 ==> r is None,
        cmdline_fragments(blob@).len() > 0 ==> (r matches Some(v) && v.deep_view()
            == cmdline_fragments(blob@)),
        r matches Some(v) ==> forall|k: int|
            0 <= k < v.deep_view().len() ==> (#[trigger] v.deep_view()[k]).len() > 0,
{
    proof {
        crate::text::lemma_split_on_nonempty(blob@, Sep::Exact('\0'));
    }
    let frags = split_str(blob, Sep::Exact('\0'));
    if frags.len() == 0 {
        None
    } else {
        Some(frags)
    }
}

/// The first line of `lines` that begins with `label`.
pub open spec fn labeled_line(lines: Seq<Seq<char>>, label: Seq<char>) -> Option<Seq<char>>
    decreases lines.len(),
{
    if lines.len() == 0 {
        None
    } else if has_prefix(lines[0], label) {
        Some(lines[0])
    } else {
        labeled_line(lines.drop_first(), label)
    }
}

/// The value a labeled status line reports: its second whitespace
/// token read as a decimal number, if there is one and it is numeric.
pub open spec fn line_field(line: Seq<char>) -> Option<u64> {
    let toks = split_on(line, Sep::Blank);
    if toks.len() >= 2 && parses_as_u64(toks[1]) {
        Some(digits_val(toks[1]) as u64)
    } else {
        None
    }
}

/// The magnitude reported by the first line of the status text that
/// begins with `label`, if any such line exists and is well-formed.
pub open spec fn status_field(text: Seq<char>, label: Seq<char>) -> Option<u64> {
    match labeled_line(split_on(text, Sep::Exact('\n')), label) {
        None => None,
        Some(line) => line_field(line),
    }
}

/// Finds the first line that begins with `label`.
fn find_labeled(lines: &Vec<String>, label: &str) -> (r: Option<usize>)
    ensures
        r matches Some(k) ==> k < lines@.len() && labeled_line(lines.deep_view(), label@)
            == Some(lines.deep_view()[k as int]),
        r is None ==> labeled_line(lines.deep_view(), label@) is None,
{
    let ghost lm = lines.deep_view();
    let mut i: usize = 0;
    proof {
        assert(lm.skip(0) =~= lm);
    }
    while i < lines.len()
        invariant
            lm == lines.deep_view(),
            lm.len() == lines@.len(),
            0 <= i <= lines@.len(),
            labeled_line(lm, label@) == labeled_line(lm.skip(i as int), label@),
        decreases lines@.len() - i,
    {
        proof {
            assert(lm.skip(i as int)[0] == lm[i as int]);
            assert(lm[i as int] == lines@[i as int]@);
            assert(lm.skip(i as int).drop_first() =~= lm.skip(i + 1));
        }
        if str_has_prefix(lines[i].as_str(), label) {
            return Some(i);
        }
        i = i + 1;
    }
    proof {
        assert(lm.skip(lm.len() as int) =~= Seq::<Seq<char>>::empty());
    }
    None
}

/// Reads the magnitude from a single labeled line.
fn second_token_value(line: &str) -> (r: Option<u64>)
    ensures
        r == line_field(line@),
{
    let toks = split_str(line, Sep::Blank);
    if toks.len() >= 2 {
        proof {
            assert(toks.deep_view()[1] == toks@[1]@);
        }
        crate::digits::parse_u64_digits(toks[1].as_str())
    } else {
        None
    }
}

/// Reads the two memory magnitudes out of a process's status text.
/// The first line bearing each label decides that field.
pub fn parse_status_memory(text: &str) -> (r: MemoryUsage)
    ensures
        r.virtual_kb == status_field(text@, "VmSize:"@),
        r.resident_kb == status_field(text@, "VmRSS:"@),
{
    let lines = split_str(text, Sep::Exact('\n'));
    let virtual_kb = match find_labeled(&lines, "VmSize:") {
        Some(k) => {
            proof {
                assert(lines.deep_view()[k as int] == lines@[k as int]@);
            }
            second_token_value(lines[k].as_str())
        },
        None => None,
    };
    let resident_kb = match find_labeled(&lines, "VmRSS:") {
        Some(k) => {
            proof {
                assert(lines.deep_view()[k as int] == lines@[k as int]@);
            }
            second_token_value(lines[k].as_str())
        },
        None => None,
    };
    MemoryUsage { virtual_kb, resident_kb }
}

/// The memory-mapping description carries a marker for memory-only
/// descriptors, anonymous kernel-backed inodes, or mappings of files
/// deleted since they were mapped. Any one marker, anywhere in the
/// text, sets the heuristic.
pub open spec fn memory_backed_markers(s: Seq<char>) -> bool {
    ||| contains_sub(s, "memfd:"@)
    ||| contains_sub(s, "anon_inode:"@)
    ||| contains_sub(s, "(deleted)"@)
}

/// Advisory heuristic: whether the memory-mapping text suggests a
/// memory-backed or deleted-file process.
pub fn memory_backed_hint(maps: &str) -> (r: bool)
    ensures
        r == memory_backed_markers(maps@),
{
    str_contains(maps, "memfd:") || str_contains(maps, "anon_inode:") || str_contains(
        maps,
        "(deleted)",
    )
}

/// The display name for a process: its trimmed short command name, or
/// the `<unknown>` marker when the name could not be read.
pub fn display_name(comm: Option<&str>) -> (r: String)
    ensures
        comm matches Some(c) ==> r@ == trimmed(c@),
        comm is None ==> r@ == "<unknown>"@,
{
    match comm {
        Some(c) => trim_str(c).to_owned(),
        None => "<unknown>".to_owned(),
    }
}

/// How a finished record relates to the raw texts it was read from,
/// field by field.
pub open spec fn record_matches(
    r: ProcessRecord,
    pid: u32,
    comm: Option<Seq<char>>,
    exe: Option<Seq<char>>,
    cmdline: Option<Seq<char>>,
    maps: Option<Seq<char>>,
    status: Option<Seq<char>>,
) -> bool {
    &&& r.pid == pid
    &&& match comm {
        Some(c) => r.name@ == trimmed(c),
        None => r.name@ == "<unknown>"@,
    }
    &&& match exe {
        Some(e) => (r.exe_path matches Some(p) && p@ == e),
        None => r.exe_path is None,
    }
    &&& match cmdline {
        Some(b) => {
            let frags = cmdline_fragments(b);
            if frags.len() == 0 {
                r.cmdline is None
            } else {
                (r.cmdline matches Some(v) && v.deep_view() == frags)
            }
        },
        None => r.cmdline is None,
    }
    &&& match maps {
        Some(m) => r.memory_backed == memory_backed_markers(m),
        None => r.memory_backed == false,
    }
    &&& match status {
        Some(t) => (r.memory matches Some(mu) && mu.virtual_kb == status_field(t, "VmSize:"@)
            && mu.resident_kb == status_field(t, "VmRSS:"@)),
        None => r.memory is None,
    }
}

/// Assembles a process record from whichever per-process texts could
/// be read. Each field is derived independently from its own text.
pub fn build_record(
    pid: u32,
    comm: Option<&str>,
    exe_path: Option<String>,
    cmdline: Option<&str>,
    maps: Option<&str>,
    status: Option<&str>,
) -> (r: ProcessRecord)
    ensures
        record_matches(
            r,
            pid,
            str_opt_view(comm),
            string_opt_view(exe_path),
            str_opt_view(cmdline),
            str_opt_view(maps),
            str_opt_view(status),
        ),
{
    let name = display_name(comm);
    let args = match cmdline {
        Some(b) => parse_cmdline(b),
        None => None,
    };
    let memory_backed = match maps {
        Some(m) => memory_backed_hint(m),
        None => false,
    };
    let memory = match status {
        Some(t) => Some(parse_status_memory(t)),
        None => None,
    };
    ProcessRecord { pid, name, exe_path, cmdline: args, memory, memory_backed }
}

} // verus!
