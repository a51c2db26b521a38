//! Verified text utilities the scanner's parsers are built on:
//! splitting into nonempty fragments, substring containment, prefix
//! tests, and whitespace trimming. All text the diagnostic reads is
//! kernel-produced ASCII, so whitespace means the ASCII blank
//! characters.

use vstd::prelude::*;

verus! {

/// ASCII whitespace, as the kernel's pseudo-files use it.
pub open spec fn is_space(c: char) -> bool {
    c == ' ' || c == '\t' || c == '\n' || c == '\r'
}

/// What a split separates on: one exact character, or any whitespace.
#[derive(Clone, Copy, Debug)]
pub enum Sep {
    Exact(char),
    Blank,
}

/// `c` separates fragments under `sep`.
pub open spec fn sep_match(sep: Sep, c: char) -> bool {
    match sep {
        Sep::Exact(x) => c == x,
        Sep::Blank => is_space(c),
    }
}

/// Index of the first separator character in `s`, or `s.len()` if
/// there is none.
pub open spec fn sep_index(s: Seq<char>, sep: Sep) -> int
    decreases s.len(),
{
    if s.len() == 0 {
        0
    } else if sep_match(sep, s[0]) {
        0
    } else {
        1 + sep_index(s.drop_first(), sep)
    }
}

/// `sep_index` is in range, points at a separator when one exists, and
/// nothing before it is a separator.
pub proof fn lemma_sep_index(s: Seq<char>, sep: Sep)
    ensures
        0 <= sep_index(s, sep) <= s.len(),
        forall|j: int| 0 <= j < sep_index(s, sep) ==> !sep_match(sep, s[j]),
        sep_index(s, sep) < s.len() ==> sep_match(sep, s[sep_index(s, sep)]),
    decreases s.len(),
{
    if s.len() > 0 && !sep_match(sep, s[0]) {
        lemma_sep_index(s.drop_first(), sep);
        assert forall|j: int| 0 <= j < sep_index(s, sep) implies !sep_match(sep, s[j]) by {
            if j >= 1 {
                assert(s.drop_first()[j - 1] == s[j]);
            }
        }
        if sep_index(s, sep) < s.len() {
            assert(s.drop_first()[sep_index(s, sep) - 1] == s[sep_index(s, sep)]);
        }
    }
}

/// The position satisfying `lemma_sep_index`'s description is unique,
/// so a forward search that finds it has found `sep_index`.
pub proof fn lemma_sep_index_is(s: Seq<char>, sep: Sep, m: int)
    requires
        0 <= m <= s.len(),
        forall|j: int| 0 <= j < m ==> !sep_match(sep, s[j]),
        m < s.len() ==> sep_match(sep, s[m]),
    ensures
        sep_index(s, sep) == m,
    decreases s.len(),
{
    if s.len() > 0 && m > 0 {
        assert(!sep_match(sep, s[0]));
        assert forall|j: int| 0 <= j < m - 1 implies !sep_match(sep, s.drop_first()[j]) by {
            assert(s.drop_first()[j] == s[j + 1]);
        }
        if m - 1 < s.drop_first().len() {
            assert(s.drop_first()[m - 1] == s[m]);
        }
        lemma_sep_index_is(s.drop_first(), sep, m - 1);
    }
}

/// The nonempty fragments of `s` between separator characters, in
/// order. Runs of separators produce no empty fragments.
pub open spec fn split_on(s: Seq<char>, sep: Sep) -> Seq<Seq<char>>
    decreases s.len(),
{
    if s.len() == 0 {
        Seq::empty()
    } else {
        let i = sep_index(s, sep);
        if 0 <= i < s.len() {
            let head: Seq<Seq<char>> = if i > 0 {
                seq![s.take(i)]
            } else {
                Seq::empty()
            };
            head + split_on(s.skip(i + 1), sep)
        } else {
            seq![s]
        }
    }
}

/// Every fragment of a split is nonempty.
pub proof fn lemma_split_on_nonempty(s: Seq<char>, sep: Sep)
    ensures
        forall|k: int|
            0 <= k < split_on(s, sep).len() ==> #[trigger] split_on(s, sep)[k].len() > 0,
    decreases s.len(),
{
    if s.len() > 0 {
        lemma_sep_index(s, sep);
        let i = sep_index(s, sep);
        if 0 <= i < s.len() {
            lemma_split_on_nonempty(s.skip(i + 1), sep);
            let head: Seq<Seq<char>> = if i > 0 {
                seq![s.take(i)]
            } else {
                Seq::empty()
            };
            assert(split_on(s, sep) == head + split_on(s.skip(i + 1), sep));
            assert forall|k: int|
                0 <= k < split_on(s, sep).len() implies #[trigger] split_on(s, sep)[k].len()
                > 0 by {
                if k < head.len() {
                    assert(split_on(s, sep)[k] == s.take(i));
                } else {
                    assert(split_on(s, sep)[k] == split_on(s.skip(i + 1), sep)[k - head.len()]);
                }
            }
        } else {
            assert(split_on(s, sep)[0] == s);
        }
    }
}

/// Finds the first separator at or after `from`, or the string's end.
pub fn find_sep(s: &str, sep: Sep, from: usize) -> (i: usize)
    requires
        from <= s@.len(),
    ensures
        from <= i <= s@.len(),
        i - from == sep_index(s@.skip(from as int), sep),
{
    let n = s.unicode_len();
    let mut i: usize = from;
    while i < n
        invariant
            n == s@.len(),
            from <= i <= n,
            forall|j: int| from <= j < i ==> !sep_match(sep, s@[j]),
        decreases n - i,
    {
        let c = s.get_char(i);
        let hit = match sep {
            Sep::Exact(x) => c == x,
            Sep::Blank => c == ' ' || c == '\t' || c == '\n' || c == '\r',
        };
        if hit {
            proof {
                assert forall|j: int|
                    0 <= j < i - from implies !sep_match(sep, s@.skip(from as int)[j]) by {
                    assert(s@.skip(from as int)[j] == s@[from + j]);
                }
                assert(s@.skip(from as int)[i - from] == s@[i as int]);
                lemma_sep_index_is(s@.skip(from as int), sep, i - from);
            }
            return i;
        }
        i = i + 1;
    }
    proof {
        assert forall|j: int|
            0 <= j < n - from implies !sep_match(sep, s@.skip(from as int)[j]) by {
            assert(s@.skip(from as int)[j] == s@[from + j]);
        }
        lemma_sep_index_is(s@.skip(from as int), sep, n - from);
    }
    n
}

/// Splits `s` into its nonempty fragments between separators.
pub fn split_str(s: &str, sep: Sep) -> (r: Vec<String>)
    ensures
        r.deep_view() == split_on(s@, sep),
{
    let n = s.unicode_len();
    let mut r: Vec<String> = Vec::new();
    let mut pos: usize = 0;
    proof {
        assert(s@.skip(0) =~= s@);
        assert(r.deep_view() + split_on(s@, sep) =~= split_on(s@, sep));
    }
    while pos < n
        invariant
            n == s@.len(),
            0 <= pos <= n,
            r.deep_view() + split_on(s@.skip(pos as int), sep) == split_on(s@, sep),
        decreases n - pos,
    {
        let i = find_sep(s, sep, pos);
        let ghost t = s@.skip(pos as int);
        proof {
            lemma_sep_index(t, sep);
            assert(t.len() == n - pos);
            assert(sep_index(t, sep) == i - pos);
        }
        let ghost before = r.deep_view();
        if i > pos {
            let frag = s.substring_char(pos, i).to_owned();
            proof {
                assert(frag@ =~= t.take(i - pos));
            }
            r.push(frag);
            proof {
                assert(r.deep_view() =~= before.push(t.take(i - pos)));
            }
        }
        if i < n {
            proof {
                assert(t.skip(i - pos + 1) =~= s@.skip(i + 1));
                if i > pos {
                    assert(split_on(t, sep) =~= seq![t.take(i - pos)] + split_on(
                        s@.skip(i + 1),
                        sep,
                    ));
                    assert(r.deep_view() + split_on(s@.skip(i + 1), sep) =~= before + split_on(
                        t,
                        sep,
                    ));
                } else {
                    assert(split_on(t, sep) =~= split_on(s@.skip(i + 1), sep));
                }
                assert(r.deep_view() + split_on(s@.skip(i + 1), sep) == split_on(s@, sep));
            }
            pos = i + 1;
        } else {
            proof {
                assert(sep_index(t, sep) == t.len());
                assert(split_on(t, sep) =~= seq![t]);
                assert(t =~= t.take(i - pos));
                assert(r.deep_view() =~= before + seq![t]);
                assert(r.deep_view() + split_on(s@.skip(n as int), sep) =~= before + split_on(
                    t,
                    sep,
                ));
                assert(r.deep_view() + split_on(s@.skip(n as int), sep) == split_on(s@, sep));
            }
            pos = n;
        }
    }
    proof {
        assert(s@.skip(pos as int).len() == 0);
        assert(split_on(s@.skip(pos as int), sep) =~= Seq::<Seq<char>>::empty());
        assert(r.deep_view() =~= r.deep_view() + split_on(s@.skip(pos as int), sep));
    }
    r
}

/// `p` occurs contiguously somewhere in `s`.
pub open spec fn contains_sub(s: Seq<char>, p: Seq<char>) -> bool {
    exists|k: int| 0 <= k <= s.len() - p.len() && #[trigger] s.subrange(k, k + p.len()) == p
}

/// `s` begins with `p`.
pub open spec fn has_prefix(s: Seq<char>, p: Seq<char>) -> bool {
    p.len() <= s.len() && s.subrange(0, p.len() as int) == p
}

/// Compares `p` against the characters of `s` starting at `k`.
fn matches_at(s: &str, p: &str, k: usize) -> (r: bool)
    requires
        k + p@.len() <= s@.len(),
    ensures
        r == (s@.subrange(k as int, k + p@.len()) == p@),
{
    let n = s.unicode_len();
    let m = p.unicode_len();
    let mut j: usize = 0;
    while j < m
        invariant
            n == s@.len(),
            m == p@.len(),
            k + m <= s@.len(),
            0 <= j <= m,
            forall|t: int| 0 <= t < j ==> s@[k + t] == p@[t],
        decreases m - j,
    {
        if s.get_char(k + j) != p.get_char(j) {
            proof {
                assert(s@.subrange(k as int, k + p@.len())[j as int] == s@[k + j]);
            }
            return false;
        }
        j = j + 1;
    }
    proof {
        assert(s@.subrange(k as int, k + p@.len()) =~= p@);
    }
    true
}

/// Substring search: whether `p` occurs anywhere in `s`.
pub fn str_contains(s: &str, p: &str) -> (r: bool)
    ensures
        r == contains_sub(s@, p@),
{
    let n = s.unicode_len();
    let m = p.unicode_len();
    if m > n {
        return false;
    }
    if m == 0 {
        proof {
            assert(s@.subrange(0, 0 + p@.len() as int) =~= p@);
        }
        return true;
    }
    let mut k: usize = 0;
    while k <= n - m
        invariant
            n == s@.len(),
            m == p@.len(),
            0 < m <= n,
            0 <= k <= n - m + 1,
            forall|k2: int|
                0 <= k2 < k ==> #[trigger] s@.subrange(k2, k2 + p@.len()) != p@,
        decreases n - k,
    {
        if matches_at(s, p, k) {
            assert(s@.subrange(k as int, k + p@.len()) == p@);
            return true;
        }
        k = k + 1;
    }
    false
}

/// `s` begins with `p`.
pub fn str_has_prefix(s: &str, p: &str) -> (r: bool)
    ensures
        r == has_prefix(s@, p@),
{
    let n = s.unicode_len();
    let m = p.unicode_len();
    if m > n {
        return false;
    }
    matches_at(s, p, 0)
}

/// `s` with leading and trailing whitespace removed.
pub open spec fn trimmed(s: Seq<char>) -> Seq<char>
    decreases s.len(),
{
    if s.len() == 0 {
        s
    } else if is_space(s[0]) {
        trimmed(s.drop_first())
    } else if is_space(s.last()) {
        trimmed(s.drop_last())
    } else {
        s
    }
}

/// Whether `c` is ASCII whitespace.
fn is_space_char(c: char) -> (r: bool)
    ensures
        r == is_space(c),
{
    c == ' ' || c == '\t' || c == '\n' || c == '\r'
}

/// Removes leading and trailing whitespace.
pub fn trim_str<'a>(s: &'a str) -> (r: &'a str)
    ensures
        r@ == trimmed(s@),
{
    let n = s.unicode_len();
    let mut a: usize = 0;
    let mut b: usize = n;
    proof {
        assert(s@.subrange(0, n as int) =~= s@);
    }
    while a < b
        invariant
            n == s@.len(),
            0 <= a <= b <= n,
            trimmed(s@) == trimmed(s@.subrange(a as int, b as int)),
        ensures
            0 <= a <= b <= n,
            trimmed(s@) == trimmed(s@.subrange(a as int, b as int)),
            a < b ==> !is_space(s@[a as int]),
        decreases b - a,
    {
        if !is_space_char(s.get_char(a)) {
            break ;
        }
        proof {
            let t = s@.subrange(a as int, b as int);
            assert(t[0] == s@[a as int]);
            assert(t.drop_first() =~= s@.subrange(a + 1, b as int));
        }
        a = a + 1;
    }
    while b > a
        invariant
            n == s@.len(),
            0 <= a <= b <= n,
            trimmed(s@) == trimmed(s@.subrange(a as int, b as int)),
            a < b ==> !is_space(s@[a as int]),
        ensures
            0 <= a <= b <= n,
            trimmed(s@) == trimmed(s@.subrange(a as int, b as int)),
            a < b ==> !is_space(s@[a as int]),
            a < b ==> !is_space(s@[b - 1]),
        decreases b - a,
    {
        if !is_space_char(s.get_char(b - 1)) {
            break ;
        }
        proof {
            let t = s@.subrange(a as int, b as int);
            assert(t[0] == s@[a as int]);
            assert(t.last() == s@[b - 1]);
            assert(t.drop_last() =~= s@.subrange(a as int, b - 1));
        }
        b = b - 1;
    }
    proof {
        let t = s@.subrange(a as int, b as int);
        if t.len() > 0 {
            assert(t[0] == s@[a as int]);
            assert(t.last() == s@[b - 1]);
        }
        assert(trimmed(t) == t);
    }
    s.substring_char(a, b)
}

} // verus!
