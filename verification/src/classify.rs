//! The statement classifier: single-line pattern matching that recognizes
//! `CREATE DATABASE`, `USE`, `INSERT INTO` and `CREATE TABLE` lines at the
//! start of a raw input line and extracts the delimited identifier.

use vstd::prelude::*;

use crate::text::{
    bytes_match_at, find_byte, find_from, last_in_range, match_at, rfind_byte, BACKTICK,
};
use vstd::slice::slice_subrange;
use vstd::slice::slice_to_vec;

verus! {

/// The keyword of a database-creation statement: `CREATE DATABASE `.
pub const CREATE_DB_KW: [u8; 16] = [
    67u8,
    82u8,
    69u8,
    65u8,
    84u8,
    69u8,
    32u8,
    68u8,
    65u8,
    84u8,
    65u8,
    66u8,
    65u8,
    83u8,
    69u8,
    32u8,
];

/// The keyword of a table-creation statement up to its opening
/// identifier quote: ``CREATE TABLE ` ``.
pub const CREATE_TABLE_KW: [u8; 14] = [
    67u8,
    82u8,
    69u8,
    65u8,
    84u8,
    69u8,
    32u8,
    84u8,
    65u8,
    66u8,
    76u8,
    69u8,
    32u8,
    96u8,
];

/// The keyword of a database-selection statement up to its opening
/// identifier quote: ``USE ` ``.
pub const USE_KW: [u8; 5] = [85u8, 83u8, 69u8, 32u8, 96u8];

/// The keyword of a row-insertion statement up to its opening identifier
/// quote: ``INSERT INTO ` ``.
pub const INSERT_KW: [u8; 13] = [
    73u8,
    78u8,
    83u8,
    69u8,
    82u8,
    84u8,
    32u8,
    73u8,
    78u8,
    84u8,
    79u8,
    32u8,
    96u8,
];

/// The rightmost pair of identifier quotes in `t[..hi]` that encloses a
/// non-empty name, walking adjacent quote pairs from the right.
pub open spec fn last_pair_before(t: Seq<u8>, hi: int) -> Option<(int, int)>
    decreases hi when 0 <= hi <= t.len()
{
    match last_in_range(t, 0, hi, BACKTICK) {
        None => None,
        Some(j) => if 0 <= j < hi {
            match last_in_range(t, 0, j, BACKTICK) {
                None => None,
                Some(i) => if j >= i + 2 {
                    Some((i, j))
                } else {
                    last_pair_before(t, j)
                },
            }
        } else {
            None
        },
    }
}

/// The rightmost identifier-quote pair of `t` enclosing a non-empty name.
pub open spec fn last_pair(t: Seq<u8>) -> Option<(int, int)> {
    last_pair_before(t, t.len() as int)
}

/// What the classifier reports for one raw input line.  Names are the raw
/// bytes between the identifier quotes.
pub enum LineShape {
    /// `CREATE DATABASE <qualifiers> \`name\``.
    CreateDb { name: Seq<u8> },
    /// ``CREATE TABLE `name` (``: opens accumulation of a table body.
    CreateTbl { name: Seq<u8> },
    /// ``USE `name` ``.
    UseDb { name: Seq<u8> },
    /// ``INSERT INTO `name` ...``: passed through unmodified.
    Insert,
    /// No recognized keyword at the start of the line: discarded.
    Other,
    /// A recognized keyword without a well-formed delimited identifier.
    Malformed,
}

/// Classify one raw input line.  Keywords are matched case-sensitively at
/// the very start of the line; the identifier is extracted from within a
/// pair of identifier-quote delimiters.
pub open spec fn classify(s: Seq<u8>) -> LineShape {
    if match_at(s, 0, CREATE_DB_KW@) {
        match last_pair(s) {
            Some((f, t)) => if f >= 16 {
                LineShape::CreateDb { name: s.subrange(f + 1, t) }
            } else {
                LineShape::Malformed
            },
            None => LineShape::Malformed,
        }
    } else if match_at(s, 0, CREATE_TABLE_KW@) {
        match find_from(s, 14, BACKTICK) {
            Some(k) => if k > 14 {
                LineShape::CreateTbl { name: s.subrange(14, k) }
            } else {
                LineShape::Malformed
            },
            None => LineShape::Malformed,
        }
    } else if match_at(s, 0, USE_KW@) {
        match find_from(s, 5, BACKTICK) {
            Some(k) => if k > 5 {
                LineShape::UseDb { name: s.subrange(5, k) }
            } else {
                LineShape::Malformed
            },
            None => LineShape::Malformed,
        }
    } else if match_at(s, 0, INSERT_KW@) {
        match find_from(s, 13, BACKTICK) {
            Some(k) => if k > 13 {
                LineShape::Insert
            } else {
                LineShape::Malformed
            },
            None => LineShape::Malformed,
        }
    } else {
        LineShape::Other
    }
}

/// Executable counterpart of [`last_pair`].
fn find_last_pair(t: &[u8]) -> (r: Option<(usize, usize)>)
    ensures
        match r {
            Some(pair) => last_pair(t@) == Some((pair.0 as int, pair.1 as int)) && pair.0 + 2
                <= pair.1 && pair.1 < t@.len(),
            None => last_pair(t@) is None,
        },
{
    let mut hi: usize = t.len();
    loop
        invariant
            hi <= t@.len(),
            last_pair(t@) == last_pair_before(t@, hi as int),
        decreases hi,
    {
        match rfind_byte(t, 0, hi, BACKTICK) {
            None => {
                return None;
            },
            Some(j) => {
                match rfind_byte(t, 0, j, BACKTICK) {
                    None => {
                        return None;
                    },
                    Some(i) => {
                        if j - i >= 2 {
                            return Some((i, j));
                        }
                        hi = j;
                    },
                }
            },
        }
    }
}

/// The classifier's executable result: like [`LineShape`], with the name
/// bytes copied out of the line.
pub enum ClassifiedLine {
    CreateDb(Vec<u8>),
    CreateTbl(Vec<u8>),
    UseDb(Vec<u8>),
    Insert,
    Other,
    Malformed,
}

/// Classify one raw input line, copying out the reported name bytes.
pub fn classify_line(line: &[u8]) -> (r: ClassifiedLine)
    ensures
        match r {
            ClassifiedLine::CreateDb(v) => classify(line@) matches LineShape::CreateDb {
                name,
            } && v@ == name,
            ClassifiedLine::CreateTbl(v) => classify(line@) matches LineShape::CreateTbl {
                name,
            } && v@ == name,
            ClassifiedLine::UseDb(v) => classify(line@) matches LineShape::UseDb { name } && v@
                == name,
            ClassifiedLine::Insert => classify(line@) == LineShape::Insert,
            ClassifiedLine::Other => classify(line@) == LineShape::Other,
            ClassifiedLine::Malformed => classify(line@) == LineShape::Malformed,
        },
{
    let slen: usize = line.len();
    if bytes_match_at(line, 0, &CREATE_DB_KW) {
        match find_last_pair(line) {
            Some((f, t)) => {
                if f >= 16 {
                    ClassifiedLine::CreateDb(slice_to_vec(slice_subrange(line, f + 1, t)))
                } else {
                    ClassifiedLine::Malformed
                }
            },
            None => ClassifiedLine::Malformed,
        }
    } else if bytes_match_at(line, 0, &CREATE_TABLE_KW) {
        proof {
            assert(CREATE_TABLE_KW@.len() == 14);
        }
        match find_byte(line, 14, BACKTICK) {
            Some(k) => {
                if k > 14 {
                    ClassifiedLine::CreateTbl(slice_to_vec(slice_subrange(line, 14, k)))
                } else {
                    ClassifiedLine::Malformed
                }
            },
            None => ClassifiedLine::Malformed,
        }
    } else if bytes_match_at(line, 0, &USE_KW) {
        proof {
            assert(USE_KW@.len() == 5);
        }
        match find_byte(line, 5, BACKTICK) {
            Some(k) => {
                if k > 5 {
                    ClassifiedLine::UseDb(slice_to_vec(slice_subrange(line, 5, k)))
                } else {
                    ClassifiedLine::Malformed
                }
            },
            None => ClassifiedLine::Malformed,
        }
    } else if bytes_match_at(line, 0, &INSERT_KW) {
        proof {
            assert(INSERT_KW@.len() == 13);
        }
        match find_byte(line, 13, BACKTICK) {
            Some(k) => {
                if k > 13 {
                    ClassifiedLine::Insert
                } else {
                    ClassifiedLine::Malformed
                }
            },
            None => ClassifiedLine::Malformed,
        }
    } else {
        ClassifiedLine::Other
    }
}

} // verus!
