//! The `CREATE TABLE` rewrite engine: a fixed, ordered pipeline of text
//! substitution rules applied to a fully accumulated statement body.
//!
//! Every rule scans the body left to right and rewrites each non-overlapping
//! occurrence of its pattern.  The rules run in a fixed order: key/constraint
//! lines are dropped, collation and character-set clauses are stripped,
//! `DEFAULT NULL` spellings are normalized, unsupported default/on-update
//! clauses are removed, implicitly nullable columns receive an explicit
//! `NULL`, column identifiers are lower-cased, empty lines are dropped, a
//! trailing field separator is removed and the statement is closed.

use vstd::prelude::*;

use crate::text::{
    bytes_match_at, class_run, find_byte, find_from, last_in_range, lemma_run_len, match_at,
    push_all, push_range, rfind_byte, run_len, ByteClass, BACKTICK, COMMA, NEWLINE, OPEN_PAREN,
    SPACE,
};
use vstd::slice::slice_subrange;

verus! {

/// The keyword of a collation clause: `COLLATE`.
pub const COLLATE_KW: [u8; 7] = [67u8, 79u8, 76u8, 76u8, 65u8, 84u8, 69u8];

/// The keyword of a character-set clause: `CHARACTER SET `.
pub const CHARSET_KW: [u8; 14] = [
    67u8,
    72u8,
    65u8,
    82u8,
    65u8,
    67u8,
    84u8,
    69u8,
    82u8,
    32u8,
    83u8,
    69u8,
    84u8,
    32u8,
];

/// The long spelling of a nullable default: `NULL DEFAULT NULL`.
pub const NULL_DEFAULT_NULL_KW: [u8; 17] = [
    78u8,
    85u8,
    76u8,
    76u8,
    32u8,
    68u8,
    69u8,
    70u8,
    65u8,
    85u8,
    76u8,
    84u8,
    32u8,
    78u8,
    85u8,
    76u8,
    76u8,
];

/// The short spelling of a nullable default: `DEFAULT NULL`.
pub const DEFAULT_NULL_KW: [u8; 12] = [
    68u8,
    69u8,
    70u8,
    65u8,
    85u8,
    76u8,
    84u8,
    32u8,
    78u8,
    85u8,
    76u8,
    76u8,
];

/// The canonical nullability marker: `NULL`.
pub const NULL_KW: [u8; 4] = [78u8, 85u8, 76u8, 76u8];

/// The unsupported timestamp default: `DEFAULT CURRENT_TIMESTAMP`.
pub const DEFAULT_TS_KW: [u8; 25] = [
    68u8,
    69u8,
    70u8,
    65u8,
    85u8,
    76u8,
    84u8,
    32u8,
    67u8,
    85u8,
    82u8,
    82u8,
    69u8,
    78u8,
    84u8,
    95u8,
    84u8,
    73u8,
    77u8,
    69u8,
    83u8,
    84u8,
    65u8,
    77u8,
    80u8,
];

/// The head of an on-update clause: `ON UPDATE `.
pub const ON_UPDATE_KW: [u8; 10] = [79u8, 78u8, 32u8, 85u8, 80u8, 68u8, 65u8, 84u8, 69u8, 32u8];

/// The qualifier inserted before the field separator of an implicitly
/// nullable column: ` NULL,`.
pub const NULL_INSERT: [u8; 6] = [32u8, 78u8, 85u8, 76u8, 76u8, 44u8];

/// The close-and-terminate token sequence of a rewritten statement: `\n);\n`.
pub const CLOSE_MARK: [u8; 4] = [10u8, 41u8, 59u8, 10u8];

/// The substitution rules that remove or replace a clause wherever its
/// pattern occurs.
pub enum Rule {
    /// Remove `COLLATE <name>`.
    StripCollate,
    /// Remove `CHARACTER SET <name>`.
    StripCharset,
    /// Replace an optional `NULL ` followed by `DEFAULT NULL` with `NULL`.
    NormalizeDefaultNull,
    /// Remove `DEFAULT CURRENT_TIMESTAMP`.
    StripTimestampDefault,
    /// Remove `ON UPDATE <token>`.
    StripOnUpdate,
}

/// How many bytes of `s`, at position `i`, the pattern of `r` covers;
/// zero when the pattern does not occur there.
pub open spec fn rule_match(r: Rule, s: Seq<u8>, i: int) -> int {
    match r {
        Rule::StripCollate => {
            if match_at(s, i, COLLATE_KW@) {
                let sp = run_len(s, i + 7, ByteClass::Space);
                let nm = run_len(s, i + 7 + sp, ByteClass::CollationName);
                if sp >= 1 && nm >= 1 {
                    7 + sp + nm
                } else {
                    0
                }
            } else {
                0
            }
        },
        Rule::StripCharset => {
            if match_at(s, i, CHARSET_KW@) {
                let nm = run_len(s, i + 14, ByteClass::CollationName);
                if nm >= 1 {
                    14 + nm
                } else {
                    0
                }
            } else {
                0
            }
        },
        Rule::NormalizeDefaultNull => {
            if match_at(s, i, NULL_DEFAULT_NULL_KW@) {
                17
            } else if match_at(s, i, DEFAULT_NULL_KW@) {
                12
            } else {
                0
            }
        },
        Rule::StripTimestampDefault => {
            if match_at(s, i, DEFAULT_TS_KW@) {
                25
            } else {
                0
            }
        },
        Rule::StripOnUpdate => {
            if match_at(s, i, ON_UPDATE_KW@) {
                let tk = run_len(s, i + 10, ByteClass::NonSpaceComma);
                if tk >= 1 {
                    10 + tk
                } else {
                    0
                }
            } else {
                0
            }
        },
    }
}

/// What a match of `r` leaves behind.
pub open spec fn rule_emit(r: Rule) -> Seq<u8> {
    match r {
        Rule::NormalizeDefaultNull => NULL_KW@,
        _ => Seq::<u8>::empty(),
    }
}

/// The text of `s` from position `i` on, with every occurrence of the
/// pattern of `r` replaced by `rule_emit(r)`.
pub open spec fn apply_rule_from(r: Rule, s: Seq<u8>, i: int) -> Seq<u8>
    decreases s.len() - i when 0 <= i <= s.len()
{
    if i >= s.len() {
        Seq::<u8>::empty()
    } else {
        let n = rule_match(r, s, i);
        if 1 <= n && i + n <= s.len() {
            rule_emit(r) + apply_rule_from(r, s, i + n)
        } else {
            seq![s[i]] + apply_rule_from(r, s, i + 1)
        }
    }
}

/// `s` with every occurrence of the pattern of `r` replaced.
pub open spec fn apply_rule(r: Rule, s: Seq<u8>) -> Seq<u8> {
    apply_rule_from(r, s, 0)
}

/// Match length of `r` in `s` at position `i`, computed executably.
fn rule_match_at(r: &Rule, s: &[u8], i: usize) -> (n: usize)
    requires
        i <= s@.len(),
    ensures
        n as int == rule_match(*r, s@, i as int),
        i + n <= s@.len(),
{
    let slen: usize = s.len();
    match r {
        Rule::StripCollate => {
            if bytes_match_at(s, i, &COLLATE_KW) {
                proof {
                    assert(COLLATE_KW@.len() == 7);
                }
                let sp = class_run(s, i + 7, ByteClass::Space);
                let nm = class_run(s, i + 7 + sp, ByteClass::CollationName);
                if sp >= 1 && nm >= 1 {
                    7 + sp + nm
                } else {
                    0
                }
            } else {
                0
            }
        },
        Rule::StripCharset => {
            if bytes_match_at(s, i, &CHARSET_KW) {
                proof {
                    assert(CHARSET_KW@.len() == 14);
                }
                let nm = class_run(s, i + 14, ByteClass::CollationName);
                if nm >= 1 {
                    14 + nm
                } else {
                    0
                }
            } else {
                0
            }
        },
        Rule::NormalizeDefaultNull => {
            if bytes_match_at(s, i, &NULL_DEFAULT_NULL_KW) {
                proof {
                    assert(NULL_DEFAULT_NULL_KW@.len() == 17);
                }
                17
            } else if bytes_match_at(s, i, &DEFAULT_NULL_KW) {
                proof {
                    assert(DEFAULT_NULL_KW@.len() == 12);
                }
                12
            } else {
                0
            }
        },
        Rule::StripTimestampDefault => {
            if bytes_match_at(s, i, &DEFAULT_TS_KW) {
                proof {
                    assert(DEFAULT_TS_KW@.len() == 25);
                }
                25
            } else {
                0
            }
        },
        Rule::StripOnUpdate => {
            if bytes_match_at(s, i, &ON_UPDATE_KW) {
                proof {
                    assert(ON_UPDATE_KW@.len() == 10);
                }
                let tk = class_run(s, i + 10, ByteClass::NonSpaceComma);
                if tk >= 1 {
                    10 + tk
                } else {
                    0
                }
            } else {
                0
            }
        },
    }
}

/// Apply one substitution rule to the whole of `s`.
pub fn apply_rewrite_rule(r: &Rule, s: &[u8]) -> (out: Vec<u8>)
    ensures
        out@ == apply_rule(*r, s@),
{
    let mut out: Vec<u8> = Vec::new();
    let mut i: usize = 0;
    proof {
        assert(Seq::<u8>::empty() + apply_rule_from(*r, s@, 0) =~= apply_rule_from(*r, s@, 0));
    }
    while i < s.len()
        invariant
            i <= s@.len(),
            apply_rule(*r, s@) == out@ + apply_rule_from(*r, s@, i as int),
        decreases s@.len() - i,
    {
        let n = rule_match_at(r, s, i);
        let ghost pre = out@;
        if n == 0 {
            out.push(s[i]);
            proof {
                assert(apply_rule_from(*r, s@, i as int) == seq![s@[i as int]]
                    + apply_rule_from(*r, s@, i + 1));
                assert(out@ =~= pre + seq![s@[i as int]]);
                assert(pre + (seq![s@[i as int]] + apply_rule_from(*r, s@, i + 1)) =~= (pre
                    + seq![s@[i as int]]) + apply_rule_from(*r, s@, i + 1));
            }
            i += 1;
        } else {
            if let Rule::NormalizeDefaultNull = r {
                push_all(&mut out, &NULL_KW);
            }
            proof {
                assert(out@ =~= pre + rule_emit(*r));
                assert(apply_rule_from(*r, s@, i as int) == rule_emit(*r) + apply_rule_from(
                    *r,
                    s@,
                    i + n,
                ));
                assert(pre + (rule_emit(*r) + apply_rule_from(*r, s@, i + n)) =~= (pre
                    + rule_emit(*r)) + apply_rule_from(*r, s@, i + n));
            }
            i += n;
        }
    }
    proof {
        assert(apply_rule_from(*r, s@, i as int) == Seq::<u8>::empty());
        assert(out@ + Seq::<u8>::empty() =~= out@);
    }
    out
}

/// Where a column definition of the shape ```name` <type>,`` with no
/// explicit nullability qualifier ends: `Some((keep, used))` means the bytes
/// `s[i..keep]` survive, ` NULL,` is inserted, and scanning resumes at
/// `used` (just past the field separator).
pub open spec fn nullable_match(s: Seq<u8>, i: int) -> Option<(int, int)> {
    if 0 <= i < s.len() && s[i] == BACKTICK {
        match find_from(s, i + 1, BACKTICK) {
            Some(k) => if k >= i + 2 && k + 2 <= s.len() && s[k + 1] == SPACE {
                let rl = run_len(s, k + 2, ByteClass::NonSpace);
                if rl >= 1 {
                    let e = k + 2 + rl;
                    if e + 1 < s.len() && s[e + 1] == COMMA {
                        Some((e, e + 2))
                    } else {
                        match last_in_range(s, k + 3, e, COMMA) {
                            Some(j) => Some((j, j + 1)),
                            None => None,
                        }
                    }
                } else {
                    None
                }
            } else {
                None
            },
            None => None,
        }
    } else {
        None
    }
}

/// The text of `s` from position `i` on, with every implicitly nullable
/// column definition given an explicit ` NULL` before its field separator.
pub open spec fn qualify_nullable_from(s: Seq<u8>, i: int) -> Seq<u8>
    decreases s.len() - i when 0 <= i <= s.len()
{
    if i >= s.len() {
        Seq::<u8>::empty()
    } else {
        match nullable_match(s, i) {
            Some((keep, used)) => if i <= keep <= used <= s.len() && i < used {
                s.subrange(i, keep) + NULL_INSERT@ + qualify_nullable_from(s, used)
            } else {
                seq![s[i]] + qualify_nullable_from(s, i + 1)
            },
            None => seq![s[i]] + qualify_nullable_from(s, i + 1),
        }
    }
}

/// `s` with every implicitly nullable column qualified.
pub open spec fn qualify_nullable(s: Seq<u8>) -> Seq<u8> {
    qualify_nullable_from(s, 0)
}

/// Executable counterpart of [`nullable_match`].
fn nullable_match_at(s: &[u8], i: usize) -> (r: Option<(usize, usize)>)
    requires
        i <= s@.len(),
    ensures
        match r {
            Some(pair) => {
                &&& nullable_match(s@, i as int) == Some((pair.0 as int, pair.1 as int))
                &&& i <= pair.0 <= pair.1 <= s@.len()
                &&& i < pair.1
            },
            None => nullable_match(s@, i as int) is None,
        },
{
    if i >= s.len() || s[i] != BACKTICK {
        return None;
    }
    match find_byte(s, i + 1, BACKTICK) {
        None => None,
        Some(k) => {
            if !(k - i >= 2 && s.len() - k >= 2 && s[k + 1] == SPACE) {
                return None;
            }
            let rl = class_run(s, k + 2, ByteClass::NonSpace);
            if rl == 0 {
                return None;
            }
            let e = k + 2 + rl;
            if e < s.len() && s.len() - e >= 2 && s[e + 1] == COMMA {
                return Some((e, e + 2));
            }
            proof {
                lemma_run_len(s@, k + 2, ByteClass::NonSpace);
            }
            match rfind_byte(s, k + 3, e, COMMA) {
                Some(j) => Some((j, j + 1)),
                None => None,
            }
        },
    }
}

/// Apply the implicit-nullable qualification rule to the whole of `s`.
pub fn apply_nullable(s: &[u8]) -> (out: Vec<u8>)
    ensures
        out@ == qualify_nullable(s@),
{
    let mut out: Vec<u8> = Vec::new();
    let mut i: usize = 0;
    proof {
        assert(Seq::<u8>::empty() + qualify_nullable_from(s@, 0) =~= qualify_nullable_from(
            s@,
            0,
        ));
    }
    while i < s.len()
        invariant
            i <= s@.len(),
            qualify_nullable(s@) == out@ + qualify_nullable_from(s@, i as int),
        decreases s@.len() - i,
    {
        let ghost pre = out@;
        match nullable_match_at(s, i) {
            Some((keep, used)) => {
                push_range(&mut out, s, i, keep);
                push_all(&mut out, &NULL_INSERT);
                proof {
                    assert(out@ =~= pre + (s@.subrange(i as int, keep as int) + NULL_INSERT@));
                    assert(qualify_nullable_from(s@, i as int) == (s@.subrange(
                        i as int,
                        keep as int,
                    ) + NULL_INSERT@) + qualify_nullable_from(s@, used as int));
                    assert(pre + ((s@.subrange(i as int, keep as int) + NULL_INSERT@)
                        + qualify_nullable_from(s@, used as int)) =~= (pre + (s@.subrange(
                        i as int,
                        keep as int,
                    ) + NULL_INSERT@)) + qualify_nullable_from(s@, used as int));
                }
                i = used;
            },
            None => {
                out.push(s[i]);
                proof {
                    assert(qualify_nullable_from(s@, i as int) == seq![s@[i as int]]
                        + qualify_nullable_from(s@, i + 1));
                    assert(out@ =~= pre + seq![s@[i as int]]);
                    assert(pre + (seq![s@[i as int]] + qualify_nullable_from(s@, i + 1)) =~= (
                    pre + seq![s@[i as int]]) + qualify_nullable_from(s@, i + 1));
                }
                i += 1;
            },
        }
    }
    proof {
        assert(qualify_nullable_from(s@, i as int) == Seq::<u8>::empty());
        assert(out@ + Seq::<u8>::empty() =~= out@);
    }
    out
}

/// Lower-case one ASCII byte.
pub open spec fn lower_byte(b: u8) -> u8 {
    if 65 <= b <= 90 {
        (b + 32) as u8
    } else {
        b
    }
}

/// Lower-case every byte of `s`.
pub open spec fn lower_seq(s: Seq<u8>) -> Seq<u8> {
    Seq::new(s.len(), |i: int| lower_byte(s[i]))
}

/// A delimited column identifier at position `i`: an identifier-quote pair
/// followed by a space and a byte other than an opening parenthesis.
/// `Some(k)` is the position of the closing quote.
pub open spec fn lower_match(s: Seq<u8>, i: int) -> Option<int> {
    if 0 <= i < s.len() && s[i] == BACKTICK {
        match find_from(s, i + 1, BACKTICK) {
            Some(k) => if k >= i + 2 && k + 3 <= s.len() && s[k + 1] == SPACE && s[k + 2]
                != OPEN_PAREN {
                Some(k)
            } else {
                None
            },
            None => None,
        }
    } else {
        None
    }
}

/// The text of `s` from position `i` on, with every delimited column
/// identifier lower-cased.
pub open spec fn lower_columns_from(s: Seq<u8>, i: int) -> Seq<u8>
    decreases s.len() - i when 0 <= i <= s.len()
{
    if i >= s.len() {
        Seq::<u8>::empty()
    } else {
        match lower_match(s, i) {
            Some(k) => if i < k && k + 3 <= s.len() {
                seq![BACKTICK] + lower_seq(s.subrange(i + 1, k)) + seq![
                    BACKTICK,
                    SPACE,
                    s[k + 2],
                ] + lower_columns_from(s, k + 3)
            } else {
                seq![s[i]] + lower_columns_from(s, i + 1)
            },
            None => seq![s[i]] + lower_columns_from(s, i + 1),
        }
    }
}

/// `s` with every delimited column identifier lower-cased.
pub open spec fn lower_columns(s: Seq<u8>) -> Seq<u8> {
    lower_columns_from(s, 0)
}

/// Executable counterpart of [`lower_match`].
fn lower_match_at(s: &[u8], i: usize) -> (r: Option<usize>)
    requires
        i <= s@.len(),
    ensures
        match r {
            Some(k) => lower_match(s@, i as int) == Some(k as int) && i + 2 <= k && k + 3
                <= s@.len(),
            None => lower_match(s@, i as int) is None,
        },
{
    if i >= s.len() || s[i] != BACKTICK {
        return None;
    }
    match find_byte(s, i + 1, BACKTICK) {
        None => None,
        Some(k) => {
            if k - i >= 2 && s.len() - k >= 3 && s[k + 1] == SPACE && s[k + 2] != OPEN_PAREN {
                Some(k)
            } else {
                None
            }
        },
    }
}

/// Apply the identifier lower-casing rule to the whole of `s`.
pub fn apply_lower(s: &[u8]) -> (out: Vec<u8>)
    ensures
        out@ == lower_columns(s@),
{
    let mut out: Vec<u8> = Vec::new();
    let mut i: usize = 0;
    proof {
        assert(Seq::<u8>::empty() + lower_columns_from(s@, 0) =~= lower_columns_from(s@, 0));
    }
    while i < s.len()
        invariant
            i <= s@.len(),
            lower_columns(s@) == out@ + lower_columns_from(s@, i as int),
        decreases s@.len() - i,
    {
        let ghost pre = out@;
        match lower_match_at(s, i) {
            Some(k) => {
                out.push(BACKTICK);
                let ghost mid = out@;
                let mut m: usize = i + 1;
                while m < k
                    invariant
                        i + 1 <= m <= k <= s@.len(),
                        out@ == mid + lower_seq(s@.subrange(i + 1 as int, k as int)).subrange(
                            0,
                            m - (i + 1),
                        ),
                    decreases k - m,
                {
                    let b = s[m];
                    let lb: u8 = if 65 <= b && b <= 90 {
                        b + 32
                    } else {
                        b
                    };
                    out.push(lb);
                    proof {
                        assert(mid + lower_seq(s@.subrange(i + 1 as int, k as int)).subrange(
                            0,
                            m + 1 - (i + 1),
                        ) =~= (mid + lower_seq(s@.subrange(i + 1 as int, k as int)).subrange(
                            0,
                            m - (i + 1),
                        )).push(lb));
                    }
                    m += 1;
                }
                out.push(BACKTICK);
                out.push(SPACE);
                out.push(s[k + 2]);
                proof {
                    assert(lower_seq(s@.subrange(i + 1 as int, k as int)).subrange(
                        0,
                        k - (i + 1),
                    ) =~= lower_seq(s@.subrange(i + 1 as int, k as int)));
                    assert(out@ =~= pre + (seq![BACKTICK] + lower_seq(
                        s@.subrange(i + 1 as int, k as int),
                    ) + seq![BACKTICK, SPACE, s@[k + 2]]));
                    assert(lower_columns_from(s@, i as int) == seq![BACKTICK] + lower_seq(
                        s@.subrange(i + 1 as int, k as int),
                    ) + seq![BACKTICK, SPACE, s@[k + 2]] + lower_columns_from(s@, k + 3));
                    assert(pre + ((seq![BACKTICK] + lower_seq(
                        s@.subrange(i + 1 as int, k as int),
                    ) + seq![BACKTICK, SPACE, s@[k + 2]]) + lower_columns_from(s@, k + 3)) =~= (
                    pre + (seq![BACKTICK] + lower_seq(s@.subrange(i + 1 as int, k as int))
                        + seq![BACKTICK, SPACE, s@[k + 2]])) + lower_columns_from(s@, k + 3));
                }
                i = k + 3;
            },
            None => {
                out.push(s[i]);
                proof {
                    assert(lower_columns_from(s@, i as int) == seq![s@[i as int]]
                        + lower_columns_from(s@, i + 1));
                    assert(out@ =~= pre + seq![s@[i as int]]);
                    assert(pre + (seq![s@[i as int]] + lower_columns_from(s@, i + 1)) =~= (pre
                        + seq![s@[i as int]]) + lower_columns_from(s@, i + 1));
                }
                i += 1;
            },
        }
    }
    proof {
        assert(lower_columns_from(s@, i as int) == Seq::<u8>::empty());
        assert(out@ + Seq::<u8>::empty() =~= out@);
    }
    out
}

pub open spec fn is_upper(b: u8) -> bool {
    65 <= b <= 90
}

/// A key or constraint line: leading spaces followed by an upper-case
/// keyword (`PRIMARY KEY`, `KEY`, `CONSTRAINT`, `UNIQUE`, ...).  The target
/// dialect does not accept inline keys, so such lines are deleted whole.
pub open spec fn is_key_line(l: Seq<u8>) -> bool {
    let sp = run_len(l, 0, ByteClass::Space);
    sp >= 1 && sp < l.len() && is_upper(l[sp])
}

/// Executable counterpart of [`is_key_line`].
pub fn key_line(l: &[u8]) -> (r: bool)
    ensures
        r == is_key_line(l@),
{
    let sp = class_run(l, 0, ByteClass::Space);
    sp >= 1 && sp < l.len() && 65 <= l[sp] && l[sp] <= 90
}

/// One line of the body after the whole rule pipeline: key/constraint lines
/// are deleted, then the substitution rules run in their fixed order.
pub open spec fn rewrite_line_spec(l: Seq<u8>) -> Seq<u8> {
    if is_key_line(l) {
        Seq::<u8>::empty()
    } else {
        lower_columns(
            qualify_nullable(
                apply_rule(
                    Rule::StripOnUpdate,
                    apply_rule(
                        Rule::StripTimestampDefault,
                        apply_rule(
                            Rule::NormalizeDefaultNull,
                            apply_rule(Rule::StripCharset, apply_rule(Rule::StripCollate, l)),
                        ),
                    ),
                ),
            ),
        )
    }
}

/// Rewrite one line of an accumulated `CREATE TABLE` body.
pub fn rewrite_line(l: &[u8]) -> (r: Vec<u8>)
    ensures
        r@ == rewrite_line_spec(l@),
{
    if key_line(l) {
        return Vec::new();
    }
    let a = apply_rewrite_rule(&Rule::StripCollate, l);
    let b = apply_rewrite_rule(&Rule::StripCharset, a.as_slice());
    let c = apply_rewrite_rule(&Rule::NormalizeDefaultNull, b.as_slice());
    let d = apply_rewrite_rule(&Rule::StripTimestampDefault, c.as_slice());
    let e = apply_rewrite_rule(&Rule::StripOnUpdate, d.as_slice());
    let f = apply_nullable(e.as_slice());
    apply_lower(f.as_slice())
}

/// Join two rewritten pieces with a line terminator, dropping empty sides:
/// this is how surviving lines are rejoined after empty lines are removed.
pub open spec fn combine(a: Seq<u8>, b: Seq<u8>) -> Seq<u8> {
    if a.len() == 0 {
        b
    } else if b.len() == 0 {
        a
    } else {
        a + seq![NEWLINE] + b
    }
}

/// The rewritten body of `s` from position `i` on: each line is rewritten,
/// empty results are dropped, and the rest are joined with single line
/// terminators.
pub open spec fn rewrite_lines_from(s: Seq<u8>, i: int) -> Seq<u8>
    decreases s.len() - i when 0 <= i <= s.len()
{
    match find_from(s, i, NEWLINE) {
        Some(p) => if i <= p && p < s.len() {
            combine(rewrite_line_spec(s.subrange(i, p)), rewrite_lines_from(s, p + 1))
        } else {
            Seq::<u8>::empty()
        },
        None => rewrite_line_spec(s.subrange(i, s.len() as int)),
    }
}

/// The joined rewritten lines of the whole body.
pub open spec fn rewrite_joined(s: Seq<u8>) -> Seq<u8> {
    rewrite_lines_from(s, 0)
}

/// Remove a trailing field separator, which the target dialect does not
/// accept before the closing delimiter.
pub open spec fn trim_trailing_comma(j: Seq<u8>) -> Seq<u8> {
    if j.len() > 0 && j[j.len() - 1] == COMMA {
        j.take(j.len() - 1)
    } else {
        j
    }
}

/// The complete rewritten statement: the joined surviving lines, the
/// trailing separator removed, closed by `\n);\n`.
pub open spec fn rewrite_table_spec(s: Seq<u8>) -> Seq<u8> {
    trim_trailing_comma(rewrite_joined(s)) + CLOSE_MARK@
}

/// Rewritten lines of `s` from position `i` on, mirroring
/// [`rewrite_lines_from`].
fn rewrite_lines_exec(s: &[u8], i: usize) -> (r: Vec<u8>)
    requires
        i <= s@.len(),
    ensures
        r@ == rewrite_lines_from(s@, i as int),
    decreases s@.len() - i,
{
    let slen: usize = s.len();
    match find_byte(s, i, NEWLINE) {
        Some(p) => {
            let line = slice_subrange(s, i, p);
            let head = rewrite_line(line);
            let rest = rewrite_lines_exec(s, p + 1);
            if head.len() == 0 {
                rest
            } else if rest.len() == 0 {
                head
            } else {
                let mut out = head;
                out.push(NEWLINE);
                push_all(&mut out, rest.as_slice());
                proof {
                    assert(out@ =~= rewrite_line_spec(s@.subrange(i as int, p as int)) + seq![
                        NEWLINE,
                    ] + rewrite_lines_from(s@, p + 1));
                }
                out
            }
        },
        None => rewrite_line(slice_subrange(s, i, s.len())),
    }
}

/// Lower-case every delimited column identifier in `buf`.
pub fn lower_case_columns(buf: &mut Vec<u8>)
    ensures
        final(buf)@ == lower_columns(old(buf)@),
{
    let out = apply_lower(buf.as_slice());
    *buf = out;
}

/// Rewrite a fully accumulated `CREATE TABLE` statement in place: strip
/// key/constraint lines, collation and charset clauses, normalize nullable
/// defaults, strip unsupported default and on-update clauses, qualify
/// implicitly nullable columns, lower-case column identifiers, drop empty
/// lines, remove a trailing field separator and close the statement.
pub fn convert_to_databend_create_table(buf: &mut Vec<u8>)
    ensures
        final(buf)@ == rewrite_table_spec(old(buf)@),
{
    let mut out = rewrite_lines_exec(buf.as_slice(), 0);
    if out.len() > 0 && out[out.len() - 1] == COMMA {
        let ghost pre = out@;
        out.pop();
        proof {
            assert(out@ =~= pre.take(pre.len() - 1));
        }
    }
    push_all(&mut out, &CLOSE_MARK);
    *buf = out;
}

} // verus!
