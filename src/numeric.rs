//! Decimal numbers as they appear in plan text: unsigned integers, exact
//! decimal fractions, and their textual form.
use vstd::prelude::*;
use crate::text::{chars_of, find, find_chars, lemma_find_first, occurs_at, slice_chars};

verus! {

pub open spec fn is_digit(c: char) -> bool {
    '0' <= c && c <= '9'
}

pub open spec fn digit_value(c: char) -> nat {
    (c as u32 - '0' as u32) as nat
}

pub open spec fn all_digits(s: Seq<char>) -> bool {
    forall|i: int| 0 <= i < s.len() ==> is_digit(#[trigger] s[i])
}

/// The value of a string of decimal digits, most significant first.
pub open spec fn digits_value(s: Seq<char>) -> nat
    decreases s.len(),
{
    if s.len() == 0 {
        0
    } else {
        digits_value(s.drop_last()) * 10 + digit_value(s.last())
    }
}

/// The text after one optional leading `+`.
pub open spec fn unsigned_body(s: Seq<char>) -> Seq<char> {
    if s.len() > 0 && s[0] == '+' {
        s.skip(1)
    } else {
        s
    }
}

/// A non-empty run of digits whose value is at most `max`.
pub open spec fn digits_within(s: Seq<char>, max: nat) -> Option<nat> {
    if s.len() > 0 && all_digits(s) && digits_value(s) <= max {
        Some(digits_value(s))
    } else {
        None
    }
}

/// What `u64::from_str` (or `u32::from_str` for `max == u32::MAX`) accepts:
/// an optional `+` and then one or more decimal digits, with a value that fits.
pub open spec fn uint_text(s: Seq<char>, max: nat) -> Option<nat> {
    digits_within(unsigned_body(s), max)
}

/// An exact non-negative decimal fraction: `units / 10^scale`.
#[derive(Clone, Copy, Debug, PartialEq, Eq, Structural)]
pub struct Decimal {
    pub units: u64,
    pub scale: u32,
}

pub open spec fn zero_decimal() -> Decimal {
    Decimal { units: 0, scale: 0 }
}

/// The mantissa of a decimal: an optional `+`, digits, and at most one `.`
/// with digits on either side (at least one digit in all). `"1234.56"` is
/// 123456 units at scale 2.
pub open spec fn mantissa_text(s: Seq<char>) -> Option<Decimal> {
    let b = unsigned_body(s);
    match find(b, seq!['.']) {
        None => match digits_within(b, u64::MAX as nat) {
            Some(v) => Some(Decimal { units: v as u64, scale: 0 }),
            None => None,
        },
        Some(p) => {
            let ip = b.take(p);
            let fp = b.skip(p + 1);
            match digits_within(ip + fp, u64::MAX as nat) {
                Some(v) => if fp.len() <= u32::MAX {
                    Some(Decimal { units: v as u64, scale: fp.len() as u32 })
                } else {
                    None
                },
                None => None,
            }
        },
    }
}

/// Index of the first `e` or `E` of `s` at or after `i`, or the length of `s`.
pub open spec fn exp_index(s: Seq<char>, i: int) -> int
    decreases s.len() - i,
{
    if 0 <= i < s.len() && s[i] != 'e' && s[i] != 'E' {
        exp_index(s, i + 1)
    } else {
        i
    }
}

pub open spec fn pow10(n: nat) -> nat
    decreases n,
{
    if n == 0 {
        1
    } else {
        10 * pow10((n - 1) as nat)
    }
}

/// The exponent after an `e`: an optional sign and digits, at most `u32::MAX`.
pub open spec fn exponent_text(x: Seq<char>) -> Option<int> {
    if x.len() > 0 && x[0] == '-' {
        match digits_within(x.skip(1), u32::MAX as nat) {
            Some(k) => Some(-k),
            None => None,
        }
    } else {
        match digits_within(unsigned_body(x), u32::MAX as nat) {
            Some(k) => Some(k as int),
            None => None,
        }
    }
}

/// `d` times `10^k`, where that is a `Decimal`.
pub open spec fn scaled(d: Decimal, k: int) -> Option<Decimal> {
    if k <= 0 {
        if d.scale - k <= u32::MAX {
            Some(Decimal { units: d.units, scale: (d.scale - k) as u32 })
        } else {
            None
        }
    } else if k <= d.scale {
        Some(Decimal { units: d.units, scale: (d.scale - k) as u32 })
    } else if d.units * pow10((k - d.scale) as nat) <= u64::MAX {
        Some(Decimal { units: (d.units * pow10((k - d.scale) as nat)) as u64, scale: 0 })
    } else {
        None
    }
}

/// The decimal notation read for costs and times: a mantissa (see
/// `mantissa_text`), optionally followed by `e` or `E` and a signed exponent.
/// `"1.5e3"` is 15 units times 100, `"2E-4"` is 2 units at scale 4. A minus
/// sign on the number and the special values `inf` and `NaN` are not read.
pub open spec fn decimal_text(s: Seq<char>) -> Option<Decimal> {
    let e = exp_index(s, 0);
    if e >= s.len() {
        mantissa_text(s)
    } else {
        match (mantissa_text(s.take(e)), exponent_text(s.skip(e + 1))) {
            (Some(d), Some(k)) => scaled(d, k),
            _ => None,
        }
    }
}

/// A decimal read from `s`, or zero where `s` is not a decimal.
pub open spec fn decimal_or_zero(s: Seq<char>) -> Decimal {
    match decimal_text(s) {
        Some(d) => d,
        None => zero_decimal(),
    }
}

pub open spec fn digit_char(d: nat) -> char {
    ((d % 10) + '0' as nat) as char
}

/// The decimal notation of `n`, without leading zeros.
pub open spec fn nat_text(n: nat) -> Seq<char>
    decreases n,
{
    if n < 10 {
        seq![digit_char(n)]
    } else {
        nat_text(n / 10).push(digit_char(n % 10))
    }
}

pub proof fn lemma_digits_value_prefix(s: Seq<char>, k: int)
    requires
        0 <= k <= s.len(),
    ensures
        digits_value(s.take(k)) <= digits_value(s),
    decreases s.len(),
{
    if k < s.len() {
        lemma_digits_value_prefix(s.drop_last(), k);
        assert(s.drop_last().take(k) =~= s.take(k));
    } else {
        assert(s.take(k) =~= s);
    }
}

pub proof fn lemma_digits_value_step(s: Seq<char>, i: int)
    requires
        0 <= i < s.len(),
    ensures
        digits_value(s.take(i + 1)) == digits_value(s.take(i)) * 10 + digit_value(s[i]),
{
    assert(s.take(i + 1).drop_last() =~= s.take(i));
}

/// Reads a non-empty run of digits whose value is at most `max`.
pub fn parse_digits(s: &Vec<char>, max: u64) -> (r: Option<u64>)
    ensures
        r matches Some(v) ==> digits_within(s@, max as nat) == Some(v as nat),
        r is None ==> digits_within(s@, max as nat) is None,
{
    if s.len() == 0 {
        return None;
    }
    let mut v: u64 = 0;
    let mut i: usize = 0;
    while i < s.len()
        invariant
            i <= s.len(),
            all_digits(s@.take(i as int)),
            v == digits_value(s@.take(i as int)),
            v <= max,
        decreases s.len() - i,
    {
        let c = s[i];
        if !('0' <= c && c <= '9') {
            return None;
        }
        let d = (c as u32 - '0' as u32) as u64;
        proof {
            lemma_digits_value_step(s@, i as int);
            if v <= max / 10 {
                assert(v * 10 <= max) by (nonlinear_arith)
                    requires
                        v <= max / 10,
                ;
            }
        }
        if v > max / 10 || d > max - v * 10 {
            proof {
                if all_digits(s@) {
                    lemma_digits_value_prefix(s@, i + 1);
                }
            }
            return None;
        }
        v = v * 10 + d;
        i = i + 1;
        assert(all_digits(s@.take(i as int))) by {
            assert forall|k: int| 0 <= k < i implies is_digit(#[trigger] s@.take(i as int)[k]) by {
                if k < i - 1 {
                    assert(s@.take(i as int)[k] == s@.take(i - 1)[k]);
                }
            }
        }
    }
    assert(s@.take(s.len() as int) =~= s@);
    Some(v)
}

/// `u64::from_str` over characters: `Some` exactly on the text that it accepts.
pub fn parse_uint(s: &Vec<char>, max: u64) -> (r: Option<u64>)
    ensures
        r matches Some(v) ==> uint_text(s@, max as nat) == Some(v as nat),
        r is None ==> uint_text(s@, max as nat) is None,
{
    if s.len() > 0 && s[0] == '+' {
        let body = slice_chars(s, 1, s.len());
        assert(body@ =~= s@.skip(1));
        parse_digits(&body, max)
    } else {
        parse_digits(s, max)
    }
}

/// Reads a `u64`, or zero where the text is not one.
pub fn parse_u64_or_zero(s: &Vec<char>) -> (r: u64)
    ensures
        r as nat == match uint_text(s@, u64::MAX as nat) {
            Some(v) => v,
            None => 0,
        },
{
    match parse_uint(s, u64::MAX) {
        Some(v) => v,
        None => 0,
    }
}

/// Reads a `u32`, or zero where the text is not one.
pub fn parse_u32_or_zero(s: &Vec<char>) -> (r: u32)
    ensures
        r as nat == match uint_text(s@, u32::MAX as nat) {
            Some(v) => v,
            None => 0,
        },
{
    match parse_uint(s, u32::MAX as u64) {
        Some(v) => v as u32,
        None => 0,
    }
}

proof fn lemma_all_digits_concat(a: Seq<char>, b: Seq<char>)
    ensures
        all_digits(a + b) <==> all_digits(a) && all_digits(b),
{
    if all_digits(a + b) {
        assert forall|i: int| 0 <= i < a.len() implies is_digit(#[trigger] a[i]) by {
            assert((a + b)[i] == a[i]);
        }
        assert forall|i: int| 0 <= i < b.len() implies is_digit(#[trigger] b[i]) by {
            assert((a + b)[a.len() + i] == b[i]);
        }
    }
}

/// Reads the mantissa of a decimal (see `mantissa_text`).
fn parse_mantissa(s: &Vec<char>) -> (r: Option<Decimal>)
    ensures
        r == mantissa_text(s@),
{
    let b = if s.len() > 0 && s[0] == '+' {
        slice_chars(s, 1, s.len())
    } else {
        slice_chars(s, 0, s.len())
    };
    assert(b@ =~= unsigned_body(s@));
    let dot = vec!['.'];
    assert(dot@ =~= seq!['.']);
    match find_chars(&b, &dot) {
        None => match parse_digits(&b, u64::MAX) {
            Some(v) => Some(Decimal { units: v, scale: 0 }),
            None => None,
        },
        Some(p) => {
            proof {
                crate::text::lemma_find_bounds(b@, dot@);
            }
            let ip = slice_chars(&b, 0, p);
            let fp = slice_chars(&b, p + 1, b.len());
            let mut all = ip.clone();
            let mut rest = fp.clone();
            all.append(&mut rest);
            assert(ip@ =~= b@.take(p as int));
            assert(fp@ =~= b@.skip(p + 1));
            match parse_digits(&all, u64::MAX) {
                Some(v) => if fp.len() <= u32::MAX as usize {
                    Some(Decimal { units: v, scale: fp.len() as u32 })
                } else {
                    None
                },
                None => None,
            }
        },
    }
}

proof fn lemma_exp_index_range(s: Seq<char>, i: int)
    requires
        0 <= i <= s.len(),
    ensures
        i <= exp_index(s, i) <= s.len(),
    decreases s.len() - i,
{
    if i < s.len() && s[i] != 'e' && s[i] != 'E' {
        lemma_exp_index_range(s, i + 1);
    }
}

proof fn lemma_pow10_step(n: nat)
    ensures
        pow10(n + 1) == 10 * pow10(n),
        pow10(n) >= 1,
    decreases n,
{
    if n > 0 {
        lemma_pow10_step((n - 1) as nat);
    }
}

proof fn lemma_pow10_mono(i: nat, n: nat)
    requires
        i <= n,
    ensures
        pow10(i) <= pow10(n),
    decreases n - i,
{
    if i < n {
        lemma_pow10_mono(i, (n - 1) as nat);
        lemma_pow10_step((n - 1) as nat);
    }
}

/// Reads an exponent (see `exponent_text`).
fn parse_exponent(x: &Vec<char>) -> (r: Option<i64>)
    ensures
        match r {
            Some(k) => exponent_text(x@) == Some(k as int),
            None => exponent_text(x@) is None,
        },
{
    if x.len() > 0 && x[0] == '-' {
        let body = slice_chars(x, 1, x.len());
        assert(body@ =~= x@.skip(1));
        match parse_digits(&body, u32::MAX as u64) {
            Some(k) => Some(-(k as i64)),
            None => None,
        }
    } else {
        let body = if x.len() > 0 && x[0] == '+' {
            slice_chars(x, 1, x.len())
        } else {
            slice_chars(x, 0, x.len())
        };
        assert(body@ =~= unsigned_body(x@));
        match parse_digits(&body, u32::MAX as u64) {
            Some(k) => Some(k as i64),
            None => None,
        }
    }
}

/// `d` times `10^k` (see `scaled`).
fn scale_decimal(d: Decimal, k: i64) -> (r: Option<Decimal>)
    requires
        -(u32::MAX as int) <= k <= u32::MAX,
    ensures
        r == scaled(d, k as int),
{
    if k <= 0 {
        let extra = (-k) as u64;
        if d.scale as u64 + extra <= u32::MAX as u64 {
            Some(Decimal { units: d.units, scale: (d.scale as u64 + extra) as u32 })
        } else {
            None
        }
    } else if k as u64 <= d.scale as u64 {
        Some(Decimal { units: d.units, scale: (d.scale as u64 - k as u64) as u32 })
    } else {
        let n = k as u64 - d.scale as u64;
        if d.units == 0 {
            proof {
                lemma_pow10_step(n as nat);
                assert(0 * pow10(n as nat) == 0);
            }
            return Some(Decimal { units: 0, scale: 0 });
        }
        let mut u: u64 = d.units;
        let mut i: u64 = 0;
        proof {
            assert(pow10(0) == 1);
        }
        while i < n
            invariant
                i <= n,
                n as int == k as int - d.scale as int,
                k as int > d.scale as int,
                d.units >= 1,
                u as nat == d.units as nat * pow10(i as nat),
            decreases n - i,
        {
            proof {
                lemma_pow10_step(i as nat);
            }
            if u > u64::MAX / 10 {
                proof {
                    assert(10 * (u as nat) > u64::MAX) by (nonlinear_arith)
                        requires
                            u > u64::MAX / 10,
                    ;
                    assert((k as int - d.scale as int) as nat == n as nat);
                    lemma_pow10_mono((i + 1) as nat, n as nat);
                    assert(d.units as nat * pow10((i + 1) as nat) <= d.units as nat * pow10(n as nat))
                        by (nonlinear_arith)
                        requires
                            pow10((i + 1) as nat) <= pow10(n as nat),
                    ;
                    assert(d.units as nat * pow10((i + 1) as nat) == 10 * (u as nat)) by (nonlinear_arith)
                        requires
                            u as nat == d.units as nat * pow10(i as nat),
                            pow10((i + 1) as nat) == 10 * pow10(i as nat),
                    ;
                }
                return None;
            }
            proof {
                assert(d.units as nat * pow10((i + 1) as nat) == 10 * (u as nat)) by (nonlinear_arith)
                    requires
                        u as nat == d.units as nat * pow10(i as nat),
                        pow10((i + 1) as nat) == 10 * pow10(i as nat),
                ;
            }
            u = u * 10;
            i = i + 1;
        }
        Some(Decimal { units: u, scale: 0 })
    }
}

/// Reads a decimal (see `decimal_text`).
pub fn parse_decimal(s: &Vec<char>) -> (r: Option<Decimal>)
    ensures
        r == decimal_text(s@),
{
    proof {
        lemma_exp_index_range(s@, 0);
    }
    let mut e: usize = 0;
    while e < s.len() && s[e] != 'e' && s[e] != 'E'
        invariant
            e <= s.len(),
            exp_index(s@, 0) == exp_index(s@, e as int),
        decreases s.len() - e,
    {
        e = e + 1;
    }
    if e >= s.len() {
        return parse_mantissa(s);
    }
    let m = slice_chars(s, 0, e);
    let x = slice_chars(s, e + 1, s.len());
    assert(m@ =~= s@.take(e as int));
    assert(x@ =~= s@.skip(e + 1));
    match (parse_mantissa(&m), parse_exponent(&x)) {
        (Some(d), Some(k)) => scale_decimal(d, k),
        _ => None,
    }
}

/// Appends the decimal notation of `n`.
pub fn push_nat_text(out: &mut String, n: u64)
    ensures
        final(out)@ == old(out)@ + nat_text(n as nat),
    decreases n,
{
    if n >= 10 {
        push_nat_text(out, n / 10);
    }
    let c = ((n % 10) as u32 + '0' as u32) as u8 as char;
    assert(c == digit_char(n as nat));
    crate::text::push_char(out, c);
    proof {
        if n >= 10 {
            assert(old(out)@ + nat_text(n as nat) =~= old(out)@ + nat_text((n / 10) as nat) + seq![c]);
        } else {
            assert(old(out)@ + nat_text(n as nat) =~= old(out)@ + seq![c]);
        }
    }
}

/// `n` zeros.
pub open spec fn zeros(n: nat) -> Seq<char> {
    Seq::new(n, |i: int| '0')
}

/// The digits of `d.units`, padded with leading zeros to more than `d.scale` digits.
pub open spec fn decimal_digits(d: Decimal) -> Seq<char> {
    let t = nat_text(d.units as nat);
    if t.len() <= d.scale {
        zeros((d.scale + 1 - t.len()) as nat) + t
    } else {
        t
    }
}

/// The plain decimal notation of `d`: its digits, with a `.` before the last
/// `d.scale` of them.
pub open spec fn decimal_string(d: Decimal) -> Seq<char> {
    let g = decimal_digits(d);
    if d.scale == 0 {
        g
    } else {
        g.take(g.len() - d.scale) + seq!['.'] + g.skip(g.len() - d.scale)
    }
}

proof fn lemma_digit_char(d: nat)
    ensures
        is_digit(digit_char(d)),
        digit_value(digit_char(d)) == d % 10,
{
    let x = (d % 10) + '0' as nat;
    assert(x as char as u32 == x);
}

pub proof fn lemma_nat_text(n: nat)
    ensures
        nat_text(n).len() >= 1,
        all_digits(nat_text(n)),
        digits_value(nat_text(n)) == n,
    decreases n,
{
    lemma_digit_char(n);
    if n >= 10 {
        lemma_digit_char(n % 10);
        lemma_nat_text(n / 10);
        let t = nat_text(n);
        assert(t.drop_last() =~= nat_text(n / 10));
        assert(t.last() == digit_char(n % 10));
        assert(digits_value(t) == digits_value(t.drop_last()) * 10 + digit_value(t.last()));
        assert(n == (n / 10) * 10 + n % 10) by (nonlinear_arith);
        assert((n % 10) % 10 == n % 10) by (nonlinear_arith);
        assert(digit_value(t.last()) == n % 10);
        assert forall|i: int| 0 <= i < t.len() implies is_digit(#[trigger] t[i]) by {
            if i < t.len() - 1 {
                assert(t[i] == nat_text(n / 10)[i]);
            }
        }
    } else {
        let t = nat_text(n);
        assert(t.drop_last() =~= Seq::<char>::empty());
        assert(digits_value(t.drop_last()) == 0);
        assert(t.last() == digit_char(n));
    }
}

proof fn lemma_zeros_value(z: Seq<char>, t: Seq<char>)
    requires
        forall|i: int| 0 <= i < z.len() ==> z[i] == '0',
    ensures
        digits_value(z + t) == digits_value(t),
    decreases z.len() + t.len(),
{
    if t.len() == 0 {
        assert(z + t =~= z);
        if z.len() > 0 {
            lemma_zeros_value(z.drop_last(), t);
            assert(z.drop_last() + t =~= z.drop_last());
            assert((z + t).drop_last() =~= z.drop_last());
        }
    } else {
        lemma_zeros_value(z, t.drop_last());
        assert((z + t).drop_last() =~= z + t.drop_last());
    }
}

pub proof fn lemma_decimal_digits(d: Decimal)
    ensures
        all_digits(decimal_digits(d)),
        digits_value(decimal_digits(d)) == d.units,
        decimal_digits(d).len() >= d.scale + 1,
{
    let t = nat_text(d.units as nat);
    lemma_nat_text(d.units as nat);
    if t.len() <= d.scale {
        let z = zeros((d.scale + 1 - t.len()) as nat);
        lemma_zeros_value(z, t);
        let g = z + t;
        assert forall|i: int| 0 <= i < g.len() implies is_digit(#[trigger] g[i]) by {
            if i >= z.len() {
                assert(g[i] == t[i - z.len()]);
            }
        }
    }
}

proof fn lemma_exp_index_none(s: Seq<char>, i: int)
    requires
        0 <= i <= s.len(),
        forall|k: int| 0 <= k < s.len() ==> s[k] != 'e' && s[k] != 'E',
    ensures
        exp_index(s, i) == s.len(),
    decreases s.len() - i,
{
    if i < s.len() {
        lemma_exp_index_none(s, i + 1);
    }
}

proof fn lemma_no_dot(s: Seq<char>)
    requires
        all_digits(s),
    ensures
        find(s, seq!['.']) is None,
{
    crate::text::lemma_find_bounds(s, seq!['.']);
    if find(s, seq!['.']) is Some {
        let p = find(s, seq!['.'])->Some_0;
        assert(s.subrange(p, p + 1)[0] == '.');
        assert(s[p] == '.');
    }
}

/// The plain decimal notation of a decimal reads back as that decimal.
pub proof fn lemma_decimal_string(d: Decimal)
    ensures
        decimal_text(decimal_string(d)) == Some(d),
{
    lemma_decimal_digits(d);
    let g = decimal_digits(d);
    let s = decimal_string(d);
    assert forall|k: int| 0 <= k < s.len() implies s[k] != 'e' && s[k] != 'E' by {
        if d.scale != 0 {
            let n = g.len() - d.scale;
            if k < n {
                assert(s[k] == g[k]);
            } else if k > n {
                assert(s[k] == g[k - 1]);
            }
        } else {
            assert(s[k] == g[k]);
        }
    }
    lemma_exp_index_none(s, 0);
    if d.scale == 0 {
        assert(unsigned_body(s) == s);
        lemma_no_dot(s);
    } else {
        let n = g.len() - d.scale;
        let a = g.take(n);
        let b = g.skip(n);
        assert(s == a + seq!['.'] + b);
        assert(unsigned_body(s) == s) by {
            assert(s[0] == g[0]);
        }
        assert(occurs_at(s, seq!['.'], n)) by {
            assert(s.subrange(n, n + 1) =~= seq!['.']);
        }
        assert forall|k: int| 0 <= k < n implies !occurs_at(s, seq!['.'], k) by {
            assert(s.subrange(k, k + 1)[0] == s[k]);
            assert(s[k] == g[k]);
        }
        lemma_find_first(s, seq!['.'], 0, n);
        assert(s.take(n) =~= a);
        assert(s.skip(n + 1) =~= b);
        assert(a + b =~= g);
    }
}

fn decimal_digit_chars(d: Decimal) -> (g: Vec<char>)
    ensures
        g@ == decimal_digits(d),
{
    let mut t = String::new();
    push_nat_text(&mut t, d.units);
    let tc = chars_of(t.as_str());
    let scale = d.scale as usize;
    let mut g: Vec<char> = Vec::new();
    if tc.len() <= scale {
        let pad = scale - tc.len() + 1;
        let mut i: usize = 0;
        while i < pad
            invariant
                i <= pad,
                g@ =~= zeros(i as nat),
            decreases pad - i,
        {
            g.push('0');
            i = i + 1;
        }
    }
    let mut k: usize = 0;
    let ghost g0 = g@;
    while k < tc.len()
        invariant
            k <= tc.len(),
            g@ =~= g0 + tc@.take(k as int),
        decreases tc.len() - k,
    {
        g.push(tc[k]);
        k = k + 1;
    }
    assert(tc@.take(k as int) =~= tc@);
    g
}

fn push_range(out: &mut String, v: &Vec<char>, from: usize, to: usize)
    requires
        from <= to <= v.len(),
    ensures
        final(out)@ == old(out)@ + v@.subrange(from as int, to as int),
{
    let mut j = from;
    while j < to
        invariant
            from <= j <= to <= v.len(),
            out@ == old(out)@ + v@.subrange(from as int, j as int),
        decreases to - j,
    {
        crate::text::push_char(out, v[j]);
        j = j + 1;
        assert(out@ =~= old(out)@ + v@.subrange(from as int, j as int));
    }
}

/// Appends the plain decimal notation of `d`.
pub fn push_decimal_text(out: &mut String, d: Decimal)
    ensures
        final(out)@ == old(out)@ + decimal_string(d),
{
    let g = decimal_digit_chars(d);
    proof {
        lemma_decimal_digits(d);
    }
    let scale = d.scale as usize;
    if scale == 0 {
        push_range(out, &g, 0, g.len());
        assert(g@.subrange(0, g.len() as int) =~= g@);
    } else {
        let cut = g.len() - scale;
        push_range(out, &g, 0, cut);
        crate::text::push_char(out, '.');
        push_range(out, &g, cut, g.len());
        assert(g@.subrange(0, cut as int) =~= g@.take(cut as int));
        assert(g@.subrange(cut as int, g.len() as int) =~= g@.skip(cut as int));
        assert(final(out)@ =~= old(out)@ + decimal_string(d));
    }
}

} // verus!
