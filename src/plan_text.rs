//! Line-level pieces of the indentation-text plan format: splitting text
//! into lines and words, and reading one operator line.
use vstd::prelude::*;
use crate::numeric::{decimal_text, parse_decimal, parse_uint, uint_text, zero_decimal, Decimal};
use crate::text::{
    chars_of, find, find_chars, is_ws, is_ws_char, lemma_find_bounds, matches_at, slice_chars,
    starts_with, string_of, trim, trim_chars,
};

verus! {

// ---------------------------------------------------------------------------
// Lines
// ---------------------------------------------------------------------------

/// Index of the first `c` in `s` at or after `i`, or the length of `s`.
pub open spec fn char_index(s: Seq<char>, c: char, i: int) -> int
    decreases s.len() - i,
{
    if 0 <= i < s.len() && s[i] != c {
        char_index(s, c, i + 1)
    } else {
        i
    }
}

/// A line without the `\r` of a `\r\n` ending.
pub open spec fn strip_cr(l: Seq<char>) -> Seq<char> {
    if l.len() > 0 && l.last() == '\r' {
        l.drop_last()
    } else {
        l
    }
}

/// The lines of `s` from position `i` on, as `str::lines` gives them: split
/// at `\n`, a `\r` before it dropped, and no empty line after a final `\n`.
pub open spec fn lines_from(s: Seq<char>, i: int) -> Seq<Seq<char>>
    decreases s.len() - i,
{
    if i < 0 || i >= s.len() {
        seq![]
    } else {
        let j = char_index(s, '\n', i);
        if i <= j < s.len() {
            seq![strip_cr(s.subrange(i, j))] + lines_from(s, j + 1)
        } else {
            seq![s.subrange(i, s.len() as int)]
        }
    }
}

pub open spec fn text_lines(s: Seq<char>) -> Seq<Seq<char>> {
    lines_from(s, 0)
}

pub proof fn lemma_char_index_range(s: Seq<char>, c: char, i: int)
    requires
        0 <= i <= s.len(),
    ensures
        i <= char_index(s, c, i) <= s.len(),
        char_index(s, c, i) < s.len() ==> s[char_index(s, c, i)] == c,
    decreases s.len() - i,
{
    if i < s.len() && s[i] != c {
        lemma_char_index_range(s, c, i + 1);
    }
}

fn index_of_char(s: &Vec<char>, c: char, from: usize) -> (r: usize)
    requires
        from <= s.len(),
    ensures
        r == char_index(s@, c, from as int),
        from <= r <= s.len(),
{
    proof {
        lemma_char_index_range(s@, c, from as int);
    }
    let mut i = from;
    while i < s.len() && s[i] != c
        invariant
            from <= i <= s.len(),
            char_index(s@, c, from as int) == char_index(s@, c, i as int),
        decreases s.len() - i,
    {
        i = i + 1;
    }
    i
}

pub open spec fn views(v: Seq<Vec<char>>) -> Seq<Seq<char>> {
    v.map_values(|l: Vec<char>| l@)
}

/// The lines of `s` (see `lines_from`).
pub fn split_lines(s: &Vec<char>) -> (r: Vec<Vec<char>>)
    ensures
        views(r@) == text_lines(s@),
{
    let mut out: Vec<Vec<char>> = Vec::new();
    let mut i: usize = 0;
    while i < s.len()
        invariant
            i <= s.len(),
            text_lines(s@) == views(out@) + lines_from(s@, i as int),
        decreases s.len() - i,
    {
        let j = index_of_char(s, '\n', i);
        let ghost before = out@;
        if j < s.len() {
            let mut l = slice_chars(s, i, j);
            if l.len() > 0 && l[l.len() - 1] == '\r' {
                l.pop();
            }
            assert(l@ =~= strip_cr(s@.subrange(i as int, j as int)));
            out.push(l);
            proof {
                assert(views(out@) =~= views(before).push(strip_cr(s@.subrange(i as int, j as int))));
                assert(views(out@) + lines_from(s@, j + 1) =~= views(before) + lines_from(s@, i as int));
            }
            i = j + 1;
        } else {
            let l = slice_chars(s, i, s.len());
            out.push(l);
            proof {
                assert(views(out@) =~= views(before).push(s@.subrange(i as int, s.len() as int)));
                assert(views(out@) + lines_from(s@, s.len() as int) =~= views(before) + lines_from(s@, i as int));
            }
            i = s.len();
        }
    }
    assert(views(out@) + lines_from(s@, i as int) =~= views(out@));
    out
}

// ---------------------------------------------------------------------------
// Words
// ---------------------------------------------------------------------------

/// End of the run of non-whitespace characters of `s` that starts at `i`.
pub open spec fn word_end(s: Seq<char>, i: int) -> int
    decreases s.len() - i,
{
    if 0 <= i < s.len() && !is_ws(s[i]) {
        word_end(s, i + 1)
    } else {
        i
    }
}

/// The whitespace-separated words of `s` from position `i` on, as
/// `str::split_whitespace` gives them.
pub open spec fn words_from(s: Seq<char>, i: int) -> Seq<Seq<char>>
    decreases s.len() - i,
{
    if i < 0 || i >= s.len() {
        seq![]
    } else if is_ws(s[i]) {
        words_from(s, i + 1)
    } else {
        let e = word_end(s, i);
        if e <= i || e > s.len() {
            seq![]
        } else {
            seq![s.subrange(i, e)] + words_from(s, e)
        }
    }
}

pub proof fn lemma_word_end_range(s: Seq<char>, i: int)
    requires
        0 <= i <= s.len(),
    ensures
        i <= word_end(s, i) <= s.len(),
        i < s.len() && !is_ws(s[i]) ==> i < word_end(s, i),
    decreases s.len() - i,
{
    if i < s.len() && !is_ws(s[i]) {
        lemma_word_end_range(s, i + 1);
    }
}

/// The words of `s` (see `words_from`).
pub fn split_words(s: &Vec<char>) -> (r: Vec<Vec<char>>)
    ensures
        views(r@) == words_from(s@, 0),
{
    let mut out: Vec<Vec<char>> = Vec::new();
    let mut i: usize = 0;
    while i < s.len()
        invariant
            i <= s.len(),
            words_from(s@, 0) == views(out@) + words_from(s@, i as int),
        decreases s.len() - i,
    {
        if is_ws_char(s[i]) {
            i = i + 1;
        } else {
            proof {
                lemma_word_end_range(s@, i as int);
            }
            let mut e = i;
            while e < s.len() && !is_ws_char(s[e])
                invariant
                    i <= e <= s.len(),
                    word_end(s@, i as int) == word_end(s@, e as int),
                decreases s.len() - e,
            {
                e = e + 1;
            }
            let ghost before = out@;
            out.push(slice_chars(s, i, e));
            proof {
                assert(views(out@) =~= views(before).push(s@.subrange(i as int, e as int)));
                assert(views(out@) + words_from(s@, e as int) =~= views(before) + words_from(s@, i as int));
            }
            i = e;
        }
    }
    assert(views(out@) + words_from(s@, i as int) =~= views(out@));
    out
}

// ---------------------------------------------------------------------------
// One operator line
// ---------------------------------------------------------------------------

/// `s` without any leading `"-> "` markers.
pub open spec fn strip_arrows(s: Seq<char>) -> Seq<char>
    decreases s.len(),
{
    if starts_with(s, "-> "@) && s.len() >= 3 {
        strip_arrows(s.skip(3))
    } else {
        s
    }
}

/// `s` without its trailing `)` characters.
pub open spec fn trim_parens(s: Seq<char>) -> Seq<char>
    decreases s.len(),
{
    if s.len() > 0 && s.last() == ')' {
        trim_parens(s.drop_last())
    } else {
        s
    }
}

pub open spec fn uint_or_zero(s: Seq<char>, max: nat) -> nat {
    match uint_text(s, max) {
        Some(v) => v,
        None => 0,
    }
}

pub open spec fn decimal_or_zero(s: Seq<char>) -> Decimal {
    match decimal_text(s) {
        Some(d) => d,
        None => zero_decimal(),
    }
}

/// The two costs of a `<startup>..<total>` range; zeros unless the text
/// splits at `..` into exactly two pieces.
pub open spec fn cost_pair(r: Seq<char>) -> (Decimal, Decimal) {
    match find(r, ".."@) {
        Some(i) => {
            let rest = r.skip(i + 2);
            if find(rest, ".."@) is None {
                (decimal_or_zero(r.take(i)), decimal_or_zero(rest))
            } else {
                (zero_decimal(), zero_decimal())
            }
        },
        None => (zero_decimal(), zero_decimal()),
    }
}

/// The words after the `(cost=` marker of a line.
pub open spec fn cost_words(line: Seq<char>) -> Seq<Seq<char>> {
    match find(line, "(cost="@) {
        Some(p) => words_from(line.skip(p + 6), 0),
        None => seq![],
    }
}

/// The value of the last word that starts with `tag` (zero where it is not
/// a number), or zero where no word does.
pub open spec fn tagged_value(words: Seq<Seq<char>>, tag: Seq<char>, max: nat) -> nat
    decreases words.len(),
{
    if words.len() == 0 {
        0
    } else if starts_with(words.last(), tag) {
        uint_or_zero(trim_parens(words.last().skip(tag.len() as int)), max)
    } else {
        tagged_value(words.drop_last(), tag, max)
    }
}

/// The operator name of a line: the text before its cost clause up to
/// `" on "`; the whole line where it has no cost clause or nothing before it.
pub open spec fn line_operator(line: Seq<char>) -> Seq<char> {
    match find(line, "(cost="@) {
        None => line,
        Some(p) => {
            let b = trim(line.take(p));
            if b.len() == 0 {
                line
            } else {
                match find(b, " on "@) {
                    Some(k) => b.take(k),
                    None => b,
                }
            }
        },
    }
}

/// The relation of a line: the text after `" on "` before the cost clause.
pub open spec fn line_relation(line: Seq<char>) -> Option<Seq<char>> {
    match find(line, "(cost="@) {
        None => None,
        Some(p) => {
            let b = trim(line.take(p));
            match find(b, " on "@) {
                Some(k) => Some(trim(b.skip(k + 4))),
                None => None,
            }
        },
    }
}

pub open spec fn line_costs(line: Seq<char>) -> (Decimal, Decimal) {
    let w = cost_words(line);
    if w.len() > 0 {
        cost_pair(trim_parens(w[0]))
    } else {
        (zero_decimal(), zero_decimal())
    }
}

pub open spec fn line_rows(line: Seq<char>) -> u64 {
    tagged_value(cost_words(line), "rows="@, u64::MAX as nat) as u64
}

pub open spec fn line_width(line: Seq<char>) -> u32 {
    tagged_value(cost_words(line), "width="@, u32::MAX as nat) as u32
}

/// The fields read from one operator line.
pub struct LineFields {
    pub operator: String,
    pub relation: Option<String>,
    pub cost_startup: Decimal,
    pub cost_total: Decimal,
    pub rows: u64,
    pub width: u32,
}

impl LineFields {
    pub open spec fn describes(&self, line: Seq<char>) -> bool {
        &&& self.operator@ == line_operator(line)
        &&& match self.relation {
            Some(r) => line_relation(line) == Some(r@),
            None => line_relation(line) is None,
        }
        &&& self.cost_startup == line_costs(line).0
        &&& self.cost_total == line_costs(line).1
        &&& self.rows == line_rows(line)
        &&& self.width == line_width(line)
    }
}

pub fn strip_arrows_chars(s: &Vec<char>) -> (r: Vec<char>)
    ensures
        r@ == strip_arrows(s@),
{
    let arrow = chars_of("-> ");
    proof {
        reveal_strlit("-> ");
    }
    let mut cur = slice_chars(s, 0, s.len());
    assert(cur@ =~= s@);
    while cur.len() >= 3 && matches_at(&cur, &arrow, 0)
        invariant
            arrow@ == "-> "@,
            strip_arrows(cur@) == strip_arrows(s@),
        decreases cur.len(),
    {
        cur = slice_chars(&cur, 3, cur.len());
    }
    cur
}

fn trim_parens_chars(s: &Vec<char>) -> (r: Vec<char>)
    ensures
        r@ == trim_parens(s@),
{
    let mut n = s.len();
    assert(s@.take(n as int) =~= s@);
    while n > 0 && s[n - 1] == ')'
        invariant
            n <= s.len(),
            trim_parens(s@) == trim_parens(s@.take(n as int)),
        decreases n,
    {
        assert(s@.take(n as int).drop_last() =~= s@.take(n - 1));
        n = n - 1;
    }
    slice_chars(s, 0, n)
}

fn decimal_or_zero_chars(s: &Vec<char>) -> (r: Decimal)
    ensures
        r == decimal_or_zero(s@),
{
    match parse_decimal(s) {
        Some(d) => d,
        None => Decimal { units: 0, scale: 0 },
    }
}

fn cost_pair_chars(r: &Vec<char>) -> (p: (Decimal, Decimal))
    ensures
        p == cost_pair(r@),
{
    let dots = chars_of("..");
    proof {
        reveal_strlit("..");
        assert(dots@ =~= seq!['.', '.']);
    }
    let zero = Decimal { units: 0, scale: 0 };
    match find_chars(r, &dots) {
        Some(i) => {
            proof {
                lemma_find_bounds(r@, dots@);
                assert(find(r@, dots@) == Some(i as int));
                assert(i + dots@.len() <= r@.len());
                assert(dots@.len() == 2);
                assert(i + 2 <= r.len());
            }
            let rest = slice_chars(r, i + 2, r.len());
            assert(rest@ =~= r@.skip(i + 2));
            match find_chars(&rest, &dots) {
                None => {
                    let first = slice_chars(r, 0, i);
                    assert(first@ =~= r@.take(i as int));
                    (decimal_or_zero_chars(&first), decimal_or_zero_chars(&rest))
                },
                Some(_) => (zero, zero),
            }
        },
        None => (zero, zero),
    }
}

fn tagged_value_chars(words: &Vec<Vec<char>>, tag: &str, max: u64) -> (r: u64)
    requires
        max == u64::MAX || max == u32::MAX,
    ensures
        r == tagged_value(views(words@), tag@, max as nat),
        r <= max,
{
    let t = chars_of(tag);
    let mut r: u64 = 0;
    let mut k: usize = 0;
    while k < words.len()
        invariant
            k <= words.len(),
            t@ == tag@,
            r == tagged_value(views(words@).take(k as int), tag@, max as nat),
            r <= max,
        decreases words.len() - k,
    {
        let w = &words[k];
        proof {
            assert(views(words@).take(k + 1).drop_last() =~= views(words@).take(k as int));
            assert(views(words@).take(k + 1).last() == w@);
        }
        if matches_at(w, &t, 0) {
            let tail = slice_chars(w, t.len(), w.len());
            assert(tail@ =~= w@.skip(t@.len() as int));
            let v = trim_parens_chars(&tail);
            r = match parse_uint(&v, max) {
                Some(x) => x,
                None => 0,
            };
        }
        k = k + 1;
    }
    assert(views(words@).take(k as int) =~= views(words@));
    r
}

/// Reads the operator, relation, costs, rows and width of one line.
pub fn parse_operator_line(line: &Vec<char>) -> (r: LineFields)
    ensures
        r.describes(line@),
{
    let marker = chars_of("(cost=");
    proof {
        reveal_strlit("(cost=");
        assert(marker@ =~= seq!['(', 'c', 'o', 's', 't', '=']);
    }
    let zero = Decimal { units: 0, scale: 0 };
    match find_chars(line, &marker) {
        None => LineFields {
            operator: string_of(line),
            relation: None,
            cost_startup: zero,
            cost_total: zero,
            rows: 0,
            width: 0,
        },
        Some(p) => {
            proof {
                lemma_find_bounds(line@, marker@);
                assert(find(line@, marker@) == Some(p as int));
                assert(marker@.len() == 6);
                assert(p + 6 <= line.len());
            }
            let head = slice_chars(line, 0, p);
            assert(head@ =~= line@.take(p as int));
            let before = trim_chars(&head);
            let on = chars_of(" on ");
            proof {
                reveal_strlit(" on ");
                assert(on@ =~= seq![' ', 'o', 'n', ' ']);
            }
            let (operator, relation) = match find_chars(&before, &on) {
                Some(k) => {
                    proof {
                        lemma_find_bounds(before@, on@);
                        assert(find(before@, on@) == Some(k as int));
                        assert(on@.len() == 4);
                        assert(k + 4 <= before.len());
                    }
                    let name = slice_chars(&before, 0, k);
                    assert(name@ =~= before@.take(k as int));
                    let tail = slice_chars(&before, k + 4, before.len());
                    assert(tail@ =~= before@.skip(k + 4));
                    (string_of(&name), Some(string_of(&trim_chars(&tail))))
                },
                None => if before.len() == 0 {
                    (string_of(line), None)
                } else {
                    (string_of(&before), None)
                },
            };
            let clause = slice_chars(line, p + 6, line.len());
            assert(clause@ =~= line@.skip(p + 6));
            let words = split_words(&clause);
            let (cost_startup, cost_total) = if words.len() > 0 {
                cost_pair_chars(&trim_parens_chars(&words[0]))
            } else {
                (zero, zero)
            };
            let rows = tagged_value_chars(&words, "rows=", u64::MAX);
            let width = tagged_value_chars(&words, "width=", u32::MAX as u64) as u32;
            LineFields { operator, relation, cost_startup, cost_total, rows, width }
        },
    }
}

} // verus!
