//! Byte-level scanning primitives shared by the statement classifier and the
//! `CREATE TABLE` rewrite engine: prefix tests, byte search and maximal runs
//! of a byte class.

use vstd::prelude::*;

verus! {

/// The identifier-quote delimiter.
pub const BACKTICK: u8 = 96;

/// The line terminator.
pub const NEWLINE: u8 = 10;

/// The field separator inside a `CREATE TABLE` body.
pub const COMMA: u8 = 44;

pub const SPACE: u8 = 32;

pub const OPEN_PAREN: u8 = 40;

pub const CLOSE_PAREN: u8 = 41;

/// True when the bytes of `p` occur in `s` at position `i`.
pub open spec fn match_at(s: Seq<u8>, i: int, p: Seq<u8>) -> bool {
    0 <= i && i + p.len() <= s.len() && s.subrange(i, i + p.len() as int) == p
}

/// Whether `p` occurs in `s` at position `i`, compared byte by byte.
pub fn bytes_match_at(s: &[u8], i: usize, p: &[u8]) -> (r: bool)
    requires
        i <= s@.len(),
    ensures
        r == match_at(s@, i as int, p@),
{
    if s.len() - i < p.len() {
        return false;
    }
    let mut j: usize = 0;
    while j < p.len()
        invariant
            i + p@.len() <= s@.len(),
            s@.len() <= usize::MAX,
            j <= p@.len(),
            forall|k: int| 0 <= k < j ==> s@[i + k] == p@[k],
        decreases p@.len() - j,
    {
        if s[i + j] != p[j] {
            assert(s@.subrange(i as int, i + p@.len())[j as int] != p@[j as int]);
            return false;
        }
        j += 1;
    }
    assert(s@.subrange(i as int, i + p@.len()) =~= p@);
    true
}

/// Position of the first occurrence of `b` in `s` at or after `i`.
pub open spec fn find_from(s: Seq<u8>, i: int, b: u8) -> Option<int>
    decreases s.len() - i when 0 <= i <= s.len()
{
    if i >= s.len() {
        None
    } else if s[i] == b {
        Some(i)
    } else {
        find_from(s, i + 1, b)
    }
}

pub proof fn lemma_find_from(s: Seq<u8>, i: int, b: u8)
    requires
        0 <= i <= s.len(),
    ensures
        match find_from(s, i, b) {
            Some(j) => i <= j < s.len() && s[j] == b && forall|k: int| i <= k < j ==> s[k] != b,
            None => forall|k: int| i <= k < s.len() ==> s[k] != b,
        },
    decreases s.len() - i,
{
    if i < s.len() && s[i] != b {
        lemma_find_from(s, i + 1, b);
    }
}

/// Once the first occurrence is known, `find_from` is determined.
pub proof fn lemma_find_from_exact(s: Seq<u8>, i: int, b: u8, j: int)
    requires
        0 <= i <= j < s.len(),
        s[j] == b,
        forall|k: int| i <= k < j ==> s[k] != b,
    ensures
        find_from(s, i, b) == Some(j),
    decreases j - i,
{
    if i < j {
        lemma_find_from_exact(s, i + 1, b, j);
    }
}

/// `find_from` searched from the start of `s.skip(i)` mirrors a search in `s` from `i`.
pub proof fn lemma_find_from_skip(s: Seq<u8>, i: int, b: u8)
    requires
        0 <= i <= s.len(),
    ensures
        find_from(s.skip(i), 0, b) == match find_from(s, i, b) {
            Some(j) => Some(j - i),
            None => None::<int>,
        },
{
    lemma_find_from(s, i, b);
    lemma_find_from(s.skip(i), 0, b);
    match find_from(s, i, b) {
        Some(j) => {
            assert(s.skip(i)[j - i] == b);
            lemma_find_from_exact(s.skip(i), 0, b, j - i);
        },
        None => {
            if let Some(j2) = find_from(s.skip(i), 0, b) {
                assert(s[j2 + i] == b);
            }
        },
    }
}

/// First occurrence of `b` in `s` at or after `from`, computed by a forward scan.
pub fn find_byte(s: &[u8], from: usize, b: u8) -> (r: Option<usize>)
    requires
        from <= s@.len(),
    ensures
        match r {
            Some(j) => from <= j < s@.len() && find_from(s@, from as int, b) == Some(j as int),
            None => find_from(s@, from as int, b) is None,
        },
{
    let mut i: usize = from;
    while i < s.len()
        invariant
            from <= i <= s@.len(),
            find_from(s@, from as int, b) == find_from(s@, i as int, b),
        decreases s@.len() - i,
    {
        if s[i] == b {
            proof {
                lemma_find_from(s@, i as int, b);
            }
            return Some(i);
        }
        i += 1;
    }
    None
}

/// Position of the last occurrence of `b` in `s[lo..hi]`, if any.
pub open spec fn last_in_range(s: Seq<u8>, lo: int, hi: int, b: u8) -> Option<int>
    decreases hi - lo when 0 <= lo <= hi <= s.len()
{
    if hi <= lo {
        None
    } else if s[hi - 1] == b {
        Some(hi - 1)
    } else {
        last_in_range(s, lo, hi - 1, b)
    }
}

/// Last occurrence of `b` in `s[lo..hi]`, computed by a backward scan.
pub fn rfind_byte(s: &[u8], lo: usize, hi: usize, b: u8) -> (r: Option<usize>)
    requires
        lo <= hi <= s@.len(),
    ensures
        match r {
            Some(j) => lo <= j < hi && last_in_range(s@, lo as int, hi as int, b) == Some(
                j as int,
            ),
            None => last_in_range(s@, lo as int, hi as int, b) is None,
        },
{
    let mut i: usize = hi;
    while i > lo
        invariant
            lo <= i <= hi <= s@.len(),
            last_in_range(s@, lo as int, hi as int, b) == last_in_range(
                s@,
                lo as int,
                i as int,
                b,
            ),
        decreases i,
    {
        if s[i - 1] == b {
            return Some(i - 1);
        }
        i -= 1;
    }
    None
}

/// A class of bytes, used to take maximal runs during rewriting.
pub enum ByteClass {
    /// An ASCII space.
    Space,
    /// Anything but an ASCII space.
    NonSpace,
    /// Anything but a space or a comma.
    NonSpaceComma,
    /// A lower-case letter, digit or underscore: a charset or collation name.
    CollationName,
    /// ASCII whitespace: space, tab, line feed or carriage return.
    Whitespace,
}

pub open spec fn in_class(c: ByteClass, b: u8) -> bool {
    match c {
        ByteClass::Space => b == SPACE,
        ByteClass::NonSpace => b != SPACE,
        ByteClass::NonSpaceComma => b != SPACE && b != COMMA,
        ByteClass::CollationName => (97 <= b <= 122) || (48 <= b <= 57) || b == 95,
        ByteClass::Whitespace => b == SPACE || b == 9 || b == NEWLINE || b == 13,
    }
}

/// Length of the maximal run of bytes of class `c` in `s`, starting at `i`.
pub open spec fn run_len(s: Seq<u8>, i: int, c: ByteClass) -> int
    decreases s.len() - i when 0 <= i <= s.len()
{
    if i >= s.len() {
        0
    } else if in_class(c, s[i]) {
        1 + run_len(s, i + 1, c)
    } else {
        0
    }
}

pub proof fn lemma_run_len(s: Seq<u8>, i: int, c: ByteClass)
    requires
        0 <= i <= s.len(),
    ensures
        0 <= run_len(s, i, c),
        i + run_len(s, i, c) <= s.len(),
        forall|k: int| i <= k < i + run_len(s, i, c) ==> in_class(c, s[k]),
        i + run_len(s, i, c) < s.len() ==> !in_class(c, s[i + run_len(s, i, c)]),
    decreases s.len() - i,
{
    if i < s.len() && in_class(c, s[i]) {
        lemma_run_len(s, i + 1, c);
    }
}

/// A run is determined by its contents: all of `s[i..e]` in the class and
/// the byte at `e` (if any) outside it.
pub proof fn lemma_run_len_exact(s: Seq<u8>, i: int, e: int, c: ByteClass)
    requires
        0 <= i <= e <= s.len(),
        forall|k: int| i <= k < e ==> in_class(c, s[k]),
        e < s.len() ==> !in_class(c, s[e]),
    ensures
        run_len(s, i, c) == e - i,
    decreases e - i,
{
    if i < e {
        lemma_run_len_exact(s, i + 1, e, c);
    }
}

fn byte_in_class(c: &ByteClass, b: u8) -> (r: bool)
    ensures
        r == in_class(*c, b),
{
    match c {
        ByteClass::Space => b == SPACE,
        ByteClass::NonSpace => b != SPACE,
        ByteClass::NonSpaceComma => b != SPACE && b != COMMA,
        ByteClass::CollationName => (97 <= b && b <= 122) || (48 <= b && b <= 57) || b == 95,
        ByteClass::Whitespace => b == SPACE || b == 9 || b == NEWLINE || b == 13,
    }
}

/// Maximal run of bytes of class `c` starting at `from`, by a forward scan.
pub fn class_run(s: &[u8], from: usize, c: ByteClass) -> (r: usize)
    requires
        from <= s@.len(),
    ensures
        r == run_len(s@, from as int, c),
        from + r <= s@.len(),
{
    let mut i: usize = from;
    loop
        invariant
            from <= i <= s@.len(),
            run_len(s@, from as int, c) == i - from + run_len(s@, i as int, c),
        decreases s@.len() - i,
    {
        if i < s.len() && byte_in_class(&c, s[i]) {
            i += 1;
        } else {
            return i - from;
        }
    }
}

/// Append every byte of `p` to `out`.
pub fn push_all(out: &mut Vec<u8>, p: &[u8])
    ensures
        final(out)@ == old(out)@ + p@,
{
    let ghost pre = out@;
    proof {
        assert(pre + p@.subrange(0, 0) =~= pre);
    }
    let mut j: usize = 0;
    while j < p.len()
        invariant
            j <= p@.len(),
            out@ == pre + p@.subrange(0, j as int),
        decreases p@.len() - j,
    {
        out.push(p[j]);
        proof {
            assert(pre + p@.subrange(0, j + 1) =~= (pre + p@.subrange(0, j as int)).push(
                p@[j as int],
            ));
        }
        j += 1;
    }
    proof {
        assert(p@.subrange(0, p@.len() as int) =~= p@);
    }
}

/// Append the bytes of `s[lo..hi]` to `out`.
pub fn push_range(out: &mut Vec<u8>, s: &[u8], lo: usize, hi: usize)
    requires
        lo <= hi <= s@.len(),
    ensures
        final(out)@ == old(out)@ + s@.subrange(lo as int, hi as int),
{
    let ghost pre = out@;
    proof {
        assert(pre + s@.subrange(lo as int, lo as int) =~= pre);
    }
    let mut m: usize = lo;
    while m < hi
        invariant
            lo <= m <= hi <= s@.len(),
            out@ == pre + s@.subrange(lo as int, m as int),
        decreases hi - m,
    {
        out.push(s[m]);
        proof {
            assert(pre + s@.subrange(lo as int, m + 1) =~= (pre + s@.subrange(
                lo as int,
                m as int,
            )).push(s@[m as int]));
        }
        m += 1;
    }
}


} // verus!

