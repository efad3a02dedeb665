//! Laws of the rewrite engine, stated and proved over the same spec
//! functions its contracts use: the output is always a closed statement, a
//! trailing field separator never survives, key/constraint lines never
//! reach the output, an implicitly nullable column always gains an explicit
//! `NULL`, and a column identifier always comes out lower-case.

use vstd::prelude::*;

use crate::rewrite::{
    apply_rule, apply_rule_from, combine, is_key_line, is_upper, lower_columns,
    lower_columns_from, lower_match, lower_seq, nullable_match, qualify_nullable,
    qualify_nullable_from, rewrite_joined, rewrite_line_spec, rewrite_lines_from,
    rewrite_table_spec, rule_match, trim_trailing_comma, Rule, CHARSET_KW, CLOSE_MARK,
    COLLATE_KW, DEFAULT_NULL_KW, DEFAULT_TS_KW, NULL_DEFAULT_NULL_KW, NULL_INSERT, ON_UPDATE_KW,
};
use crate::text::{
    find_from, in_class, last_in_range, lemma_find_from, lemma_find_from_exact,
    lemma_run_len_exact, match_at, run_len, ByteClass, BACKTICK, COMMA, NEWLINE, OPEN_PAREN,
    SPACE,
};

verus! {

/// Whatever body the rewrite engine is given, its output ends with the
/// close-and-terminate token sequence: a rewritten statement is never left
/// unclosed.
pub proof fn lemma_rewrite_output_closed(s: Seq<u8>)
    ensures
        rewrite_table_spec(s).len() >= 4,
        rewrite_table_spec(s).subrange(
            rewrite_table_spec(s).len() - 4,
            rewrite_table_spec(s).len() as int,
        ) == CLOSE_MARK@,
{
    let t = trim_trailing_comma(rewrite_joined(s));
    assert((t + CLOSE_MARK@).subrange(t.len() as int, (t + CLOSE_MARK@).len() as int)
        =~= CLOSE_MARK@);
}

/// The rewritten body never keeps a field separator immediately before the
/// closing delimiter, provided the joined lines do not end in two
/// separators in a row (the engine removes exactly one).
pub proof fn lemma_rewrite_no_trailing_separator(s: Seq<u8>)
    requires
        ({
            let j = rewrite_joined(s);
            j.len() >= 2 ==> !(j[j.len() - 1] == COMMA && j[j.len() - 2] == COMMA)
        }),
    ensures
        ({
            let out = rewrite_table_spec(s);
            out.len() > 4 ==> out[out.len() - 5] != COMMA
        }),
{
    let j = rewrite_joined(s);
    let t = trim_trailing_comma(j);
    let out = rewrite_table_spec(s);
    assert(out.len() == t.len() + 4);
    if t.len() > 0 {
        assert(out[out.len() - 5] == t[t.len() - 1]);
        if j.len() > 0 && j[j.len() - 1] == COMMA {
            assert(t == j.take(j.len() - 1));
            assert(t[t.len() - 1] == j[j.len() - 2]);
        }
    }
}

/// An empty line rewrites to nothing.
proof fn lemma_empty_line()
    ensures
        rewrite_line_spec(Seq::<u8>::empty()) == Seq::<u8>::empty(),
{
    let e = Seq::<u8>::empty();
    assert(run_len(e, 0, ByteClass::Space) == 0);
    assert(!is_key_line(e));
    assert(apply_rule(Rule::StripCollate, e) == e);
    assert(apply_rule(Rule::StripCharset, e) == e);
    assert(apply_rule(Rule::NormalizeDefaultNull, e) == e);
    assert(apply_rule(Rule::StripTimestampDefault, e) == e);
    assert(apply_rule(Rule::StripOnUpdate, e) == e);
    assert(qualify_nullable(e) == e);
    assert(lower_columns(e) == e);
}

/// Joining is associative.
proof fn lemma_combine_assoc(a: Seq<u8>, b: Seq<u8>, c: Seq<u8>)
    ensures
        combine(combine(a, b), c) == combine(a, combine(b, c)),
{
    if a.len() != 0 && b.len() != 0 && c.len() != 0 {
        assert((a + seq![NEWLINE] + b) + seq![NEWLINE] + c =~= a + seq![NEWLINE] + (b + seq![
            NEWLINE,
        ] + c));
    }
}

/// Rewriting the lines of `s` from position `i` is rewriting the lines of
/// the suffix `s[i..]`.
proof fn lemma_lines_from_is_skip(s: Seq<u8>, i: int)
    requires
        0 <= i <= s.len(),
    ensures
        rewrite_lines_from(s, i) == rewrite_joined(s.skip(i)),
    decreases s.len() - i,
{
    crate::text::lemma_find_from_skip(s, i, NEWLINE);
    match find_from(s, i, NEWLINE) {
        Some(p) => {
            lemma_find_from(s, i, NEWLINE);
            assert(s.skip(i).subrange(0, p - i) =~= s.subrange(i, p));
            lemma_lines_from_is_skip(s, p + 1);
            lemma_lines_from_is_skip(s.skip(i), p - i + 1);
            assert(s.skip(i).skip(p - i + 1) =~= s.skip(p + 1));
        },
        None => {
            assert(s.skip(i).subrange(0, s.skip(i).len() as int) =~= s.subrange(
                i,
                s.len() as int,
            ));
        },
    }
}

/// Rewriting a body split at a line boundary joins the two halves' rewrites.
proof fn lemma_joined_append(a: Seq<u8>, t: Seq<u8>)
    requires
        a.len() == 0 || a[a.len() - 1] == NEWLINE,
    ensures
        rewrite_joined(a + t) == combine(rewrite_joined(a), rewrite_joined(t)),
    decreases a.len(),
{
    if a.len() == 0 {
        assert(a + t =~= t);
        assert(find_from(a, 0, NEWLINE) is None);
        assert(a.subrange(0, 0) =~= Seq::<u8>::empty());
        lemma_empty_line();
        assert(rewrite_joined(a) == Seq::<u8>::empty());
    } else {
        let u = a + t;
        lemma_find_from(a, 0, NEWLINE);
        assert(a[a.len() - 1] == NEWLINE);
        let p = match find_from(a, 0, NEWLINE) {
            Some(p) => p,
            None => 0,
        };
        assert(find_from(a, 0, NEWLINE) == Some(p));
        assert(0 <= p < a.len());
        assert(forall|k: int| 0 <= k < p ==> u[k] == a[k] && a[k] != NEWLINE);
        assert(u[p] == NEWLINE);
        lemma_find_from_exact(u, 0, NEWLINE, p);
        assert(u.subrange(0, p) =~= a.subrange(0, p));
        lemma_lines_from_is_skip(u, p + 1);
        lemma_lines_from_is_skip(a, p + 1);
        let a2 = a.skip(p + 1);
        assert(u.skip(p + 1) =~= a2 + t);
        assert(a2.len() == 0 || a2[a2.len() - 1] == NEWLINE);
        lemma_joined_append(a2, t);
        lemma_combine_assoc(
            rewrite_line_spec(a.subrange(0, p)),
            rewrite_joined(a2),
            rewrite_joined(t),
        );
    }
}

/// Key/constraint lines never appear in rewritten output: a body with such
/// a line rewrites to exactly what the body without it does.
pub proof fn lemma_key_line_never_emitted(a: Seq<u8>, l: Seq<u8>, b: Seq<u8>)
    requires
        a.len() == 0 || a[a.len() - 1] == NEWLINE,
        is_key_line(l),
        forall|k: int| 0 <= k < l.len() ==> l[k] != NEWLINE,
    ensures
        rewrite_table_spec(a + l + seq![NEWLINE] + b) == rewrite_table_spec(a + b),
{
    let m = l + seq![NEWLINE] + b;
    assert(a + l + seq![NEWLINE] + b =~= a + m);
    lemma_joined_append(a, m);
    lemma_joined_append(a, b);
    assert(m[l.len() as int] == NEWLINE);
    assert(forall|k: int| 0 <= k < l.len() ==> m[k] == l[k] && m[k] != NEWLINE);
    lemma_find_from_exact(m, 0, NEWLINE, l.len() as int);
    lemma_lines_from_is_skip(m, l.len() as int + 1);
    assert(m.skip(l.len() as int + 1) =~= b);
    assert(m.subrange(0, l.len() as int) =~= l);
    assert(rewrite_line_spec(l) == Seq::<u8>::empty());
    assert(rewrite_joined(m) == combine(Seq::<u8>::empty(), rewrite_joined(b)));
    assert(rewrite_joined(a + m) == rewrite_joined(a + b));
}

/// A column definition of the exact shape ```name` <type>,`` — one
/// space-free type token, no explicit nullability left — always gains an
/// explicit ` NULL` before its field separator (nullability preservation).
pub proof fn lemma_implicit_nullable_qualified(name: Seq<u8>, ty: Seq<u8>)
    requires
        name.len() >= 1,
        forall|k: int| 0 <= k < name.len() ==> name[k] != BACKTICK,
        ty.len() >= 1,
        forall|k: int| 0 <= k < ty.len() ==> ty[k] != SPACE && ty[k] != COMMA,
    ensures
        qualify_nullable(seq![BACKTICK] + name + seq![BACKTICK, SPACE] + ty + seq![COMMA])
            == seq![BACKTICK] + name + seq![BACKTICK, SPACE] + ty + NULL_INSERT@,
{
    let l = seq![BACKTICK] + name + seq![BACKTICK, SPACE] + ty + seq![COMMA];
    let nm = name.len() as int;
    let k = 1 + nm;
    let e = l.len() as int;
    assert(l.len() == nm + 4 + ty.len());
    assert(l[0] == BACKTICK);
    assert(l[k] == BACKTICK);
    assert(forall|j: int| 1 <= j < k ==> l[j] == name[j - 1] && l[j] != BACKTICK);
    lemma_find_from_exact(l, 1, BACKTICK, k);
    assert(l[k + 1] == SPACE);
    assert(forall|j: int| k + 2 <= j < e ==> in_class(ByteClass::NonSpace, l[j])) by {
        assert(forall|j: int| k + 2 <= j < e - 1 ==> l[j] == ty[j - (k + 2)]);
        assert(l[e - 1] == COMMA);
    }
    lemma_run_len_exact(l, k + 2, e, ByteClass::NonSpace);
    assert(run_len(l, k + 2, ByteClass::NonSpace) == ty.len() + 1);
    assert(l[e - 1] == COMMA);
    assert(last_in_range(l, k + 3, e, COMMA) == Some(e - 1));
    assert(nullable_match(l, 0) == Some((e - 1, e)));
    assert(qualify_nullable_from(l, e) == Seq::<u8>::empty());
    assert(qualify_nullable(l) == l.subrange(0, e - 1) + NULL_INSERT@
        + qualify_nullable_from(l, e));
    assert(l.subrange(0, e - 1) =~= seq![BACKTICK] + name + seq![BACKTICK, SPACE] + ty);
    assert(l.subrange(0, e - 1) + NULL_INSERT@ + Seq::<u8>::empty() =~= seq![BACKTICK] + name
        + seq![BACKTICK, SPACE] + ty + NULL_INSERT@);
}

/// Text without identifier quotes passes the lower-casing rule unchanged.
proof fn lemma_lower_no_quote(s: Seq<u8>, i: int)
    requires
        0 <= i <= s.len(),
        forall|k: int| i <= k < s.len() ==> s[k] != BACKTICK,
    ensures
        lower_columns_from(s, i) == s.subrange(i, s.len() as int),
    decreases s.len() - i,
{
    if i >= s.len() {
        assert(s.subrange(i, s.len() as int) =~= Seq::<u8>::empty());
    } else {
        assert(lower_match(s, i) is None);
        lemma_lower_no_quote(s, i + 1);
        assert(seq![s[i]] + s.subrange(i + 1, s.len() as int) =~= s.subrange(
            i,
            s.len() as int,
        ));
    }
}

/// No byte of a lower-cased identifier is upper-case.
pub proof fn lemma_lower_seq_no_upper(name: Seq<u8>)
    ensures
        forall|k: int|
            0 <= k < lower_seq(name).len() ==> !crate::rewrite::is_upper(
                #[trigger] lower_seq(name)[k],
            ),
{
}

/// A column line of the shape ```name` <rest>`` (no further identifier
/// quotes, `<rest>` not starting a function-like construct) comes out with
/// its identifier entirely lower-cased and the rest untouched.
pub proof fn lemma_column_identifier_lower_cased(name: Seq<u8>, rest: Seq<u8>)
    requires
        name.len() >= 1,
        forall|k: int| 0 <= k < name.len() ==> name[k] != BACKTICK,
        rest.len() >= 1,
        rest[0] != OPEN_PAREN,
        forall|k: int| 0 <= k < rest.len() ==> rest[k] != BACKTICK,
    ensures
        lower_columns(seq![BACKTICK] + name + seq![BACKTICK, SPACE] + rest) == seq![BACKTICK]
            + lower_seq(name) + seq![BACKTICK, SPACE] + rest,
{
    let l = seq![BACKTICK] + name + seq![BACKTICK, SPACE] + rest;
    let nm = name.len() as int;
    let k = 1 + nm;
    assert(l.len() == nm + 3 + rest.len());
    assert(l[0] == BACKTICK);
    assert(l[k] == BACKTICK);
    assert(forall|j: int| 1 <= j < k ==> l[j] == name[j - 1] && l[j] != BACKTICK);
    lemma_find_from_exact(l, 1, BACKTICK, k);
    assert(l[k + 1] == SPACE);
    assert(l[k + 2] == rest[0]);
    assert(lower_match(l, 0) == Some(k));
    assert(forall|j: int| k + 3 <= j < l.len() ==> l[j] == rest[j - (k + 2)] && l[j]
        != BACKTICK);
    lemma_lower_no_quote(l, k + 3);
    assert(lower_columns(l) == seq![BACKTICK] + lower_seq(l.subrange(1, k)) + seq![
        BACKTICK,
        SPACE,
        l[k + 2],
    ] + lower_columns_from(l, k + 3));
    assert(l.subrange(1, k) =~= name);
    assert(seq![BACKTICK] + lower_seq(name) + seq![BACKTICK, SPACE, rest[0]] + l.subrange(
        k + 3,
        l.len() as int,
    ) =~= seq![BACKTICK] + lower_seq(name) + seq![BACKTICK, SPACE] + rest);
}

/// A rule whose pattern occurs nowhere leaves the text unchanged.
proof fn lemma_rule_identity_from(r: Rule, l: Seq<u8>, i: int)
    requires
        0 <= i <= l.len(),
        forall|j: int| 0 <= j < l.len() ==> #[trigger] rule_match(r, l, j) == 0,
    ensures
        apply_rule_from(r, l, i) == l.subrange(i, l.len() as int),
    decreases l.len() - i,
{
    if i >= l.len() {
        assert(l.subrange(i, l.len() as int) =~= Seq::<u8>::empty());
    } else {
        lemma_rule_identity_from(r, l, i + 1);
        assert(seq![l[i]] + l.subrange(i + 1, l.len() as int) =~= l.subrange(
            i,
            l.len() as int,
        ));
    }
}

/// Every substitution pattern opens with an upper-case keyword, so text
/// without upper-case bytes passes all five rules unchanged.
proof fn lemma_no_upper_rule_identity(r: Rule, l: Seq<u8>)
    requires
        forall|k: int| 0 <= k < l.len() ==> !is_upper(l[k]),
    ensures
        apply_rule(r, l) == l,
{
    assert forall|j: int| 0 <= j < l.len() implies #[trigger] rule_match(r, l, j) == 0 by {
        if match_at(l, j, COLLATE_KW@) {
            assert(l.subrange(j, j + COLLATE_KW@.len())[0] == COLLATE_KW@[0]);
        }
        if match_at(l, j, CHARSET_KW@) {
            assert(l.subrange(j, j + CHARSET_KW@.len())[0] == CHARSET_KW@[0]);
        }
        if match_at(l, j, NULL_DEFAULT_NULL_KW@) {
            assert(l.subrange(j, j + NULL_DEFAULT_NULL_KW@.len())[0] == NULL_DEFAULT_NULL_KW@[0]);
        }
        if match_at(l, j, DEFAULT_NULL_KW@) {
            assert(l.subrange(j, j + DEFAULT_NULL_KW@.len())[0] == DEFAULT_NULL_KW@[0]);
        }
        if match_at(l, j, DEFAULT_TS_KW@) {
            assert(l.subrange(j, j + DEFAULT_TS_KW@.len())[0] == DEFAULT_TS_KW@[0]);
        }
        if match_at(l, j, ON_UPDATE_KW@) {
            assert(l.subrange(j, j + ON_UPDATE_KW@.len())[0] == ON_UPDATE_KW@[0]);
        }
    }
    lemma_rule_identity_from(r, l, 0);
    assert(l.subrange(0, l.len() as int) =~= l);
}

/// The whole per-line pipeline, applied to a bare lower-case column
/// definition ```name` <type>,``, yields exactly that definition with an
/// explicit ` NULL` before the separator: no rule disturbs it on the way.
pub proof fn lemma_line_pipeline_qualifies_bare_column(name: Seq<u8>, ty: Seq<u8>)
    requires
        name.len() >= 1,
        forall|k: int| 0 <= k < name.len() ==> name[k] != BACKTICK && !is_upper(#[trigger] name[k]),
        ty.len() >= 1,
        forall|k: int|
            0 <= k < ty.len() ==> ty[k] != SPACE && ty[k] != COMMA && ty[k] != BACKTICK
                && !is_upper(#[trigger] ty[k]),
        ty[0] != OPEN_PAREN,
    ensures
        rewrite_line_spec(seq![BACKTICK] + name + seq![BACKTICK, SPACE] + ty + seq![COMMA])
            == seq![BACKTICK] + name + seq![BACKTICK, SPACE] + ty + NULL_INSERT@,
{
    let l = seq![BACKTICK] + name + seq![BACKTICK, SPACE] + ty + seq![COMMA];
    assert(l[0] == BACKTICK);
    assert(run_len(l, 0, ByteClass::Space) == 0);
    assert(!is_key_line(l));
    let nm = name.len() as int;
    assert forall|k: int| 0 <= k < l.len() implies !is_upper(#[trigger] l[k]) by {
        if k == 0 || k == nm + 1 {
            assert(l[k] == BACKTICK);
        } else if 1 <= k < nm + 1 {
            assert(l[k] == name[k - 1]);
        } else if k == nm + 2 {
            assert(l[k] == SPACE);
        } else if k == l.len() - 1 {
            assert(l[k] == COMMA);
        } else {
            assert(l[k] == ty[k - (nm + 3)]);
        }
    }
    lemma_no_upper_rule_identity(Rule::StripCollate, l);
    lemma_no_upper_rule_identity(Rule::StripCharset, l);
    lemma_no_upper_rule_identity(Rule::NormalizeDefaultNull, l);
    lemma_no_upper_rule_identity(Rule::StripTimestampDefault, l);
    lemma_no_upper_rule_identity(Rule::StripOnUpdate, l);
    lemma_implicit_nullable_qualified(name, ty);
    let l2 = seq![BACKTICK] + name + seq![BACKTICK, SPACE] + ty + NULL_INSERT@;
    let rest = ty + NULL_INSERT@;
    assert(NULL_INSERT@[0] == SPACE && NULL_INSERT@[5] == COMMA);
    assert(forall|k: int| 0 <= k < NULL_INSERT@.len() ==> #[trigger] NULL_INSERT@[k] != BACKTICK);
    assert(rest[0] == ty[0]);
    assert(forall|k: int| 0 <= k < rest.len() ==> #[trigger] rest[k] != BACKTICK);
    lemma_column_identifier_lower_cased(name, rest);
    assert(l2 =~= seq![BACKTICK] + name + seq![BACKTICK, SPACE] + rest);
    assert(lower_seq(name) =~= name);
    assert(seq![BACKTICK] + lower_seq(name) + seq![BACKTICK, SPACE] + rest =~= seq![BACKTICK]
        + name + seq![BACKTICK, SPACE] + ty + NULL_INSERT@);
}

} // verus!
