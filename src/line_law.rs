//! What an operator line of the usual form reads as:
//! `<op> on <rel>  (cost=<a>..<b> rows=<n> width=<w>)`.
use vstd::prelude::*;
use crate::explain::{children_at, line_body, text_plan, PlanTree};
use crate::numeric::{all_digits, decimal_text, digits_value, is_digit};
use crate::plan_text::{
    char_index, cost_pair, cost_words, line_operator, line_relation, tagged_value, text_lines,
    trim_parens, word_end, words_from,
};
use crate::text::{
    contains, find, is_ws, lemma_find_bounds, lemma_find_first, lemma_leading_ws_prefix, lemma_trailing_ws_suffix, occurs_at,
    starts_with, trim,
};

verus! {

proof fn lemma_absent(s: Seq<char>, pat: Seq<char>, k: int)
    requires
        !contains(s, pat),
        0 <= k,
    ensures
        !occurs_at(s, pat, k),
{
    lemma_find_bounds(s, pat);
}

/// An occurrence of `pat` that covers a space of `s` is impossible when
/// `pat` has no space.
proof fn lemma_blocked(s: Seq<char>, pat: Seq<char>, k: int, j: int)
    requires
        forall|i: int| 0 <= i < pat.len() ==> pat[i] != ' ',
        0 <= j < s.len(),
        s[j] == ' ',
        k <= j < k + pat.len(),
    ensures
        !occurs_at(s, pat, k),
{
    if occurs_at(s, pat, k) {
        assert(s.subrange(k, k + pat.len())[j - k] == s[j]);
    }
}

/// An occurrence inside a part of `s` is an occurrence in that part.
proof fn lemma_inside(s: Seq<char>, part: Seq<char>, off: int, pat: Seq<char>, k: int)
    requires
        0 <= off,
        off + part.len() <= s.len(),
        s.subrange(off, off + part.len()) == part,
        off <= k,
        k + pat.len() <= off + part.len(),
        occurs_at(s, pat, k),
    ensures
        occurs_at(part, pat, k - off),
{
    assert(part.subrange(k - off, k - off + pat.len()) =~= s.subrange(k, k + pat.len()));
}

proof fn lemma_trimmed(s: Seq<char>)
    requires
        s.len() > 0,
        !is_ws(s[0]),
        !is_ws(s.last()),
    ensures
        trim(s) == s,
{
    lemma_leading_ws_prefix(s, 0);
    assert(s.skip(0) =~= s);
    lemma_trailing_ws_suffix(s, 0);
    assert(s.take(s.len() as int) =~= s);
}

proof fn lemma_word_end_run(s: Seq<char>, i: int, e: int)
    requires
        0 <= i <= e <= s.len(),
        forall|k: int| i <= k < e ==> !is_ws(#[trigger] s[k]),
        e == s.len() || is_ws(s[e]),
    ensures
        word_end(s, i) == e,
    decreases e - i,
{
    if i < e {
        lemma_word_end_run(s, i + 1, e);
    }
}

proof fn lemma_word_end_shift(p: Seq<char>, y: Seq<char>, i: int)
    requires
        0 <= i <= y.len(),
    ensures
        word_end(p + y, p.len() + i) == p.len() + word_end(y, i),
    decreases y.len() - i,
{
    if i < y.len() {
        assert((p + y)[p.len() + i] == y[i]);
        if !is_ws(y[i]) {
            lemma_word_end_shift(p, y, i + 1);
        }
    }
}

proof fn lemma_word_end_bound(s: Seq<char>, i: int)
    requires
        0 <= i <= s.len(),
    ensures
        i <= word_end(s, i) <= s.len(),
    decreases s.len() - i,
{
    if i < s.len() && !is_ws(s[i]) {
        lemma_word_end_bound(s, i + 1);
    }
}

/// The words of `p + y` after `p` are the words of `y`.
proof fn lemma_words_shift(p: Seq<char>, y: Seq<char>, i: int)
    requires
        0 <= i <= y.len(),
    ensures
        words_from(p + y, p.len() + i) == words_from(y, i),
    decreases y.len() - i,
{
    let s = p + y;
    if i < y.len() {
        assert(s[p.len() + i] == y[i]);
        if is_ws(y[i]) {
            lemma_words_shift(p, y, i + 1);
        } else {
            lemma_word_end_shift(p, y, i);
            lemma_word_end_bound(y, i);
            lemma_word_end_bound(y, i + 1);
            let e = word_end(y, i);
            if i < e {
                assert(s.subrange(p.len() + i, p.len() + e) =~= y.subrange(i, e));
                lemma_words_shift(p, y, e);
            }
        }
    }
}

/// The words of `x` followed by a space and `y`, where `x` is one word.
proof fn lemma_words_split(x: Seq<char>, y: Seq<char>)
    requires
        x.len() > 0,
        forall|k: int| 0 <= k < x.len() ==> !is_ws(#[trigger] x[k]),
    ensures
        words_from(x + seq![' '] + y, 0) == seq![x] + words_from(y, 0),
{
    let s = x + seq![' '] + y;
    assert forall|k: int| 0 <= k < x.len() implies !is_ws(#[trigger] s[k]) by {
        assert(s[k] == x[k]);
    }
    assert(s[x.len() as int] == ' ');
    lemma_word_end_run(s, 0, x.len() as int);
    assert(s.subrange(0, x.len() as int) =~= x);
    assert(s =~= (x + seq![' ']) + y);
    lemma_words_shift(x + seq![' '], y, 0);
    assert(is_ws(s[x.len() as int]));
    assert(words_from(s, x.len() as int) == words_from(s, x.len() as int + 1));
    assert(words_from(s, 0) == seq![s.subrange(0, x.len() as int)] + words_from(s, x.len() as int));
}

/// A single word.
proof fn lemma_words_single(x: Seq<char>)
    requires
        x.len() > 0,
        forall|k: int| 0 <= k < x.len() ==> !is_ws(#[trigger] x[k]),
    ensures
        words_from(x, 0) == seq![x],
{
    lemma_word_end_run(x, 0, x.len() as int);
    assert(x.subrange(0, x.len() as int) =~= x);
    assert(words_from(x, x.len() as int) =~= Seq::<Seq<char>>::empty());
}

proof fn lemma_char_index_none(s: Seq<char>, c: char, i: int)
    requires
        0 <= i <= s.len(),
        forall|k: int| i <= k < s.len() ==> s[k] != c,
    ensures
        char_index(s, c, i) == s.len(),
    decreases s.len() - i,
{
    if i < s.len() {
        lemma_char_index_none(s, c, i + 1);
    }
}

/// A plain decimal literal: digits and single dots, starting and ending with
/// a digit, that reads as a decimal.
pub open spec fn decimal_literal(s: Seq<char>) -> bool {
    &&& s.len() > 0
    &&& is_digit(s[0])
    &&& is_digit(s.last())
    &&& forall|i: int| 0 <= i < s.len() ==> is_digit(#[trigger] s[i]) || s[i] == '.'
    &&& !contains(s, ".."@)
    &&& decimal_text(s) is Some
}

/// A run of decimal digits.
pub open spec fn digit_run(s: Seq<char>) -> bool {
    s.len() > 0 && all_digits(s)
}

/// An operator name or relation as they stand in a line: without
/// surrounding whitespace, line breaks or a cost clause.
pub open spec fn line_name(s: Seq<char>) -> bool {
    &&& s.len() > 0
    &&& !is_ws(s[0])
    &&& !is_ws(s.last())
    &&& forall|i: int| 0 <= i < s.len() ==> s[i] != '\n'
    &&& !contains(s, "(cost="@)
}

/// The line `<op> on <rel>  (cost=<a>..<b> rows=<n> width=<w>)`.
pub open spec fn operator_line(
    op: Seq<char>,
    rel: Seq<char>,
    a: Seq<char>,
    b: Seq<char>,
    n: Seq<char>,
    w: Seq<char>,
) -> Seq<char> {
    op + " on "@ + rel + "  (cost="@ + a + ".."@ + b + " rows="@ + n + " width="@ + w + ")"@
}

proof fn lemma_literals()
    ensures
        " on "@ =~= seq![' ', 'o', 'n', ' '],
        "  (cost="@ =~= seq![' ', ' ', '(', 'c', 'o', 's', 't', '='],
        "(cost="@ =~= seq!['(', 'c', 'o', 's', 't', '='],
        ".."@ =~= seq!['.', '.'],
        " rows="@ =~= seq![' ', 'r', 'o', 'w', 's', '='],
        "rows="@ =~= seq!['r', 'o', 'w', 's', '='],
        " width="@ =~= seq![' ', 'w', 'i', 'd', 't', 'h', '='],
        "width="@ =~= seq!['w', 'i', 'd', 't', 'h', '='],
        ")"@ =~= seq![')'],
        "-> "@ =~= seq!['-', '>', ' '],
{
    reveal_strlit(" on ");
    reveal_strlit("  (cost=");
    reveal_strlit("(cost=");
    reveal_strlit("..");
    reveal_strlit(" rows=");
    reveal_strlit("rows=");
    reveal_strlit(" width=");
    reveal_strlit("width=");
    reveal_strlit(")");
    reveal_strlit("-> ");
}

/// The cost clause of a line starts right after the relation and two spaces.
proof fn lemma_cost_marker(op: Seq<char>, rel: Seq<char>, clause: Seq<char>)
    requires
        line_name(op),
        line_name(rel),
    ensures
        find(op + " on "@ + rel + "  (cost="@ + clause, "(cost="@) == Some(
            (op.len() + 4 + rel.len() + 2) as int,
        ),
{
    lemma_literals();
    let o = op.len() as int;
    let r = rel.len() as int;
    let line = op + " on "@ + rel + "  (cost="@ + clause;
    let pat = "(cost="@;
    let p = o + 4 + r + 2;
    assert(line[o] == ' ');
    assert(line[o + 3] == ' ');
    assert(line[o + 4 + r] == ' ');
    assert(line[o + 5 + r] == ' ');
    assert(line.subrange(0, o) =~= op);
    assert(line.subrange(o + 4, o + 4 + r) =~= rel);
    assert forall|k: int| 0 <= k < p implies !occurs_at(line, pat, k) by {
        if k + 6 <= o {
            if occurs_at(line, pat, k) {
                lemma_inside(line, op, 0, pat, k);
                lemma_absent(op, pat, k);
            }
        } else if k <= o {
            lemma_blocked(line, pat, k, o);
        } else if k <= o + 3 {
            lemma_blocked(line, pat, k, o + 3);
        } else if k + 6 <= o + 4 + r {
            if occurs_at(line, pat, k) {
                lemma_inside(line, rel, o + 4, pat, k);
                lemma_absent(rel, pat, k - (o + 4));
            }
        } else if k <= o + 4 + r {
            lemma_blocked(line, pat, k, o + 4 + r);
        } else {
            lemma_blocked(line, pat, k, o + 5 + r);
        }
    }
    assert(line.subrange(p, p + 6) =~= pat);
    lemma_find_first(line, pat, 0, p);
}

/// The first `" on "` of `<op> on <rel>` is the one after the operator.
proof fn lemma_on_split(op: Seq<char>, rel: Seq<char>)
    requires
        line_name(op),
        !contains(op + seq![' '], " on "@),
    ensures
        find(op + " on "@ + rel, " on "@) == Some(op.len() as int),
{
    lemma_literals();
    let o = op.len() as int;
    let head = op + " on "@ + rel;
    let pat = " on "@;
    assert(head.subrange(0, o + 1) =~= op + seq![' ']);
    assert forall|k: int| 0 <= k < o implies !occurs_at(head, pat, k) by {
        if k + 4 <= o + 1 {
            if occurs_at(head, pat, k) {
                lemma_inside(head, op + seq![' '], 0, pat, k);
                lemma_absent(op + seq![' '], pat, k);
            }
        } else if k == o - 2 {
            if occurs_at(head, pat, k) {
                assert(head.subrange(k, k + 4)[2] == head[o]);
            }
        } else {
            if occurs_at(head, pat, k) {
                assert(head.subrange(k, k + 4)[0] == head[o - 1]);
                assert(head[o - 1] == op.last());
            }
        }
    }
    assert(head.subrange(o, o + 4) =~= pat);
    lemma_find_first(head, pat, 0, o);
}

proof fn lemma_no_ws_literal(x: Seq<char>)
    requires
        forall|i: int| 0 <= i < x.len() ==> is_digit(#[trigger] x[i]) || x[i] == '.' || x[i]
            == ')' || ('a' <= x[i] && x[i] <= 'z') || x[i] == '=',
    ensures
        forall|i: int| 0 <= i < x.len() ==> !is_ws(#[trigger] x[i]),
{
}

/// The words of the cost clause: the cost range, `rows=<n>` and `width=<w>)`.
proof fn lemma_clause_words(a: Seq<char>, b: Seq<char>, n: Seq<char>, w: Seq<char>)
    requires
        decimal_literal(a),
        decimal_literal(b),
        digit_run(n),
        digit_run(w),
    ensures
        words_from(a + ".."@ + b + " rows="@ + n + " width="@ + w + ")"@, 0) == seq![
            a + ".."@ + b,
            "rows="@ + n,
            "width="@ + w + ")"@,
        ],
{
    lemma_literals();
    let ca = a + ".."@ + b;
    let cr = "rows="@ + n;
    let cw = "width="@ + w + ")"@;
    assert forall|i: int| 0 <= i < ca.len() implies !is_ws(#[trigger] ca[i]) by {
        if i < a.len() {
            assert(ca[i] == a[i]);
        } else if i >= a.len() + 2 {
            assert(ca[i] == b[i - a.len() - 2]);
        }
    }
    assert forall|i: int| 0 <= i < cr.len() implies !is_ws(#[trigger] cr[i]) by {
        if i >= 5 {
            assert(cr[i] == n[i - 5]);
        }
    }
    assert forall|i: int| 0 <= i < cw.len() implies !is_ws(#[trigger] cw[i]) by {
        if 6 <= i < 6 + w.len() {
            assert(cw[i] == w[i - 6]);
        }
    }
    lemma_words_single(cw);
    lemma_words_split(cr, cw);
    lemma_words_split(ca, cr + seq![' '] + cw);
    assert(a + ".."@ + b + " rows="@ + n + " width="@ + w + ")"@ =~= ca + seq![' '] + (cr
        + seq![' '] + cw));
    assert(seq![cr] + seq![cw] =~= seq![cr, cw]);
    assert(seq![ca] + seq![cr, cw] =~= seq![ca, cr, cw]);
}

/// The cost range `<a>..<b>` reads as the two decimals.
proof fn lemma_cost_range(a: Seq<char>, b: Seq<char>)
    requires
        decimal_literal(a),
        decimal_literal(b),
    ensures
        cost_pair(trim_parens(a + ".."@ + b)) == (
            decimal_text(a)->Some_0,
            decimal_text(b)->Some_0,
        ),
{
    lemma_literals();
    let ca = a + ".."@ + b;
    let pat = ".."@;
    let m = a.len() as int;
    assert(ca.last() == b.last());
    assert(trim_parens(ca) == ca);
    assert(ca.subrange(0, m) =~= a);
    assert forall|k: int| 0 <= k < m implies !occurs_at(ca, pat, k) by {
        if k + 2 <= m {
            if occurs_at(ca, pat, k) {
                lemma_inside(ca, a, 0, pat, k);
                lemma_absent(a, pat, k);
            }
        } else {
            if occurs_at(ca, pat, k) {
                assert(ca.subrange(k, k + 2)[0] == ca[m - 1]);
                assert(ca[m - 1] == a.last());
            }
        }
    }
    assert(ca.subrange(m, m + 2) =~= pat);
    lemma_find_first(ca, pat, 0, m);
    assert(ca.skip(m + 2) =~= b);
    assert(ca.take(m) =~= a);
}

/// What the tags `rows=` and `width=` read in the words of the clause.
proof fn lemma_tags(ca: Seq<char>, n: Seq<char>, w: Seq<char>)
    requires
        digit_run(n),
        digit_run(w),
        digits_value(n) <= u64::MAX,
        digits_value(w) <= u32::MAX,
    ensures
        tagged_value(seq![ca, "rows="@ + n, "width="@ + w + ")"@], "rows="@, u64::MAX as nat)
            == digits_value(n),
        tagged_value(seq![ca, "rows="@ + n, "width="@ + w + ")"@], "width="@, u32::MAX as nat)
            == digits_value(w),
{
    lemma_literals();
    let cr = "rows="@ + n;
    let cw = "width="@ + w + ")"@;
    let words = seq![ca, cr, cw];
    assert(words.last() == cw);
    assert(words.drop_last() =~= seq![ca, cr]);
    assert(seq![ca, cr].last() == cr);
    assert(!starts_with(cw, "rows="@)) by {
        assert(cw.subrange(0, 5)[0] == 'w');
    }
    assert(starts_with(cr, "rows="@)) by {
        assert(cr.subrange(0, 5) =~= "rows="@);
    }
    assert(cr.skip(5) =~= n);
    assert(trim_parens(n) == n);
    assert(n[0] != '+');
    assert(crate::numeric::unsigned_body(n) == n);
    assert(tagged_value(words, "rows="@, u64::MAX as nat) == tagged_value(
        seq![ca, cr],
        "rows="@,
        u64::MAX as nat,
    ));
    assert(tagged_value(seq![ca, cr], "rows="@, u64::MAX as nat) == crate::plan_text::uint_or_zero(
        trim_parens(cr.skip(5)),
        u64::MAX as nat,
    ));
    assert(starts_with(cw, "width="@)) by {
        assert(cw.subrange(0, 6) =~= "width="@);
    }
    assert(cw.skip(6) =~= w + seq![')']);
    assert((w + seq![')']).drop_last() =~= w);
    assert(trim_parens(w + seq![')']) == trim_parens(w));
    assert(trim_parens(w) == w);
    assert(w[0] != '+');
    assert(crate::numeric::unsigned_body(w) == w);
}

/// The line is one line of text, with nothing to trim or strip.
proof fn lemma_single_line(
    op: Seq<char>,
    rel: Seq<char>,
    a: Seq<char>,
    b: Seq<char>,
    n: Seq<char>,
    w: Seq<char>,
)
    requires
        line_name(op),
        line_name(rel),
        !starts_with(op + " on "@, "-> "@),
        decimal_literal(a),
        decimal_literal(b),
        digit_run(n),
        digit_run(w),
    ensures
        text_lines(operator_line(op, rel, a, b, n, w)) == seq![operator_line(op, rel, a, b, n, w)],
        line_body(operator_line(op, rel, a, b, n, w)) == operator_line(op, rel, a, b, n, w),
{
    lemma_literals();
    let head = op + " on "@ + rel;
    let clause = a + ".."@ + b + " rows="@ + n + " width="@ + w + ")"@;
    let line = operator_line(op, rel, a, b, n, w);
    let o = op.len() as int;
    let r = rel.len() as int;
    let p = o + 4 + r + 2;
    assert(line =~= head + "  (cost="@ + clause);
    // one line, read whole
    assert forall|k: int| 0 <= k < line.len() implies line[k] != '\n' by {
        if k < o {
            assert(line[k] == op[k]);
        } else if o + 4 <= k < o + 4 + r {
            assert(line[k] == rel[k - o - 4]);
        } else if k >= p + 6 {
            assert(line[k] == clause[k - p - 6]);
            let c = clause;
            let la = a.len() as int;
            let lb = b.len() as int;
            let ln = n.len() as int;
            if k - p - 6 < la {
                assert(c[k - p - 6] == a[k - p - 6]);
            } else if la + 2 <= k - p - 6 < la + 2 + lb {
                assert(c[k - p - 6] == b[k - p - 6 - la - 2]);
            } else if la + 2 + lb + 6 <= k - p - 6 < la + 2 + lb + 6 + ln {
                assert(c[k - p - 6] == n[k - p - 6 - la - 2 - lb - 6]);
            } else if la + 2 + lb + 6 + ln + 7 <= k - p - 6 < la + 2 + lb + 6 + ln + 7 + w.len() {
                assert(c[k - p - 6] == w[k - p - 6 - la - 2 - lb - 6 - ln - 7]);
            }
        }
    }
    lemma_char_index_none(line, '\n', 0);
    assert(line.subrange(0, line.len() as int) =~= line);
    assert(text_lines(line) == seq![line]);
    assert(line[0] == op[0]);
    assert(line.last() == ')');
    lemma_trimmed(line);
    assert(!starts_with(line, "-> "@)) by {
        assert(line.subrange(0, 3) =~= (op + " on "@).subrange(0, 3));
    }
    assert(line_body(line) == line);
}

/// A line `<op> on <rel>  (cost=<a>..<b> rows=<n> width=<w>)` parses as a
/// single node with operator `<op>`, relation `<rel>`, the costs `<a>` and
/// `<b>`, `<n>` estimated rows, width `<w>`, and no children.
pub proof fn lemma_operator_line(
    op: Seq<char>,
    rel: Seq<char>,
    a: Seq<char>,
    b: Seq<char>,
    n: Seq<char>,
    w: Seq<char>,
)
    requires
        line_name(op),
        line_name(rel),
        !contains(op + seq![' '], " on "@),
        !starts_with(op + " on "@, "-> "@),
        decimal_literal(a),
        decimal_literal(b),
        digit_run(n),
        digits_value(n) <= u64::MAX,
        digit_run(w),
        digits_value(w) <= u32::MAX,
    ensures
        text_plan(operator_line(op, rel, a, b, n, w)) == Some(
            PlanTree {
                operator: op,
                relation: Some(rel),
                cost_startup: decimal_text(a)->Some_0,
                cost_total: decimal_text(b)->Some_0,
                estimated_rows: digits_value(n) as u64,
                actual_rows: None,
                actual_time_ms: None,
                width: digits_value(w) as u32,
                children: seq![],
                extra: seq![],
            },
        ),
{
    lemma_literals();
    let head = op + " on "@ + rel;
    let clause = a + ".."@ + b + " rows="@ + n + " width="@ + w + ")"@;
    let line = operator_line(op, rel, a, b, n, w);
    let o = op.len() as int;
    let r = rel.len() as int;
    let p = o + 4 + r + 2;
    assert(line =~= head + "  (cost="@ + clause);
    lemma_cost_marker(op, rel, clause);
    // the text before the clause
    let pre = line.take(p);
    assert(pre =~= head + seq![' ', ' ']);
    assert(head[0] == op[0]);
    assert(head.last() == rel.last());
    lemma_leading_ws_prefix(pre, 0);
    assert(pre.skip(0) =~= pre);
    lemma_trailing_ws_suffix(pre, 2);
    assert(pre.take(pre.len() - 2) =~= head);
    assert(trim(pre) == head);
    lemma_on_split(op, rel);
    assert(head.take(o) =~= op);
    assert(head.skip(o + 4) =~= rel);
    lemma_trimmed(rel);
    assert(line_operator(line) == op);
    assert(line_relation(line) == Some(rel));
    // the cost clause
    assert(line.skip(p + 6) =~= clause);
    lemma_clause_words(a, b, n, w);
    assert(cost_words(line) == seq![a + ".."@ + b, "rows="@ + n, "width="@ + w + ")"@]);
    lemma_cost_range(a, b);
    lemma_tags(a + ".."@ + b, n, w);
    lemma_single_line(op, rel, a, b, n, w);
    let lines = seq![line];
    assert(children_at(lines, 0, 1).0 =~= Seq::<PlanTree>::empty());
}

} // verus!
