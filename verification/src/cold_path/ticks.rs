//! Decimal string → integer tick conversion.
//!
//! Prices travel as unsigned integers at a fixed scale of 10^8 ticks per dollar. The parser
//! follows the textual steps of the conversion exactly: trim Unicode whitespace, take an
//! optional leading `-`, split at the first `.`, right-pad or truncate the fraction to the
//! requested number of decimals, glue integer and fraction together and read the result the
//! way an unsigned decimal literal is read (an optional `+`, then at least one ASCII digit).

use num_decimal::Num;
use vstd::prelude::*;
use vstd::string::*;

verus! {

/// Number of decimal places preserved in [`num_to_tick_u64`].
pub const PRICE_DECIMALS: u32 = 8;

/// Scale factor `10^PRICE_DECIMALS` for tick integers.
pub const PRICE_TICK_SCALE: u128 = 100_000_000;

// ---------------------------------------------------------------------------------------
// Specification
// ---------------------------------------------------------------------------------------

/// `10^e`.
pub open spec fn pow10(e: nat) -> nat
    decreases e,
{
    if e == 0 {
        1
    } else {
        10 * pow10((e - 1) as nat)
    }
}

/// Unicode `White_Space` characters (the set `char::is_whitespace` and `str::trim` use).
pub open spec fn is_unicode_whitespace(c: char) -> bool {
    let u = c as int;
    ||| 0x09 <= u <= 0x0D
    ||| u == 0x20
    ||| u == 0x85
    ||| u == 0xA0
    ||| u == 0x1680
    ||| 0x2000 <= u <= 0x200A
    ||| u == 0x2028
    ||| u == 0x2029
    ||| u == 0x202F
    ||| u == 0x205F
    ||| u == 0x3000
}

/// Index of the first non-whitespace character at or after `i` (or `s.len()`).
pub open spec fn skip_ws_from(s: Seq<char>, i: int) -> int
    decreases s.len() - i,
{
    if 0 <= i < s.len() && is_unicode_whitespace(s[i]) {
        skip_ws_from(s, i + 1)
    } else {
        i
    }
}

/// End (exclusive) of `s[..j]` once trailing whitespace is removed.
pub open spec fn trim_end_from(s: Seq<char>, j: int) -> int
    decreases j,
{
    if 0 < j <= s.len() && is_unicode_whitespace(s[j - 1]) {
        trim_end_from(s, j - 1)
    } else {
        j
    }
}

/// `s` without leading and trailing Unicode whitespace.
pub open spec fn trim_ws(s: Seq<char>) -> Seq<char> {
    let lo = skip_ws_from(s, 0);
    if lo >= s.len() {
        Seq::empty()
    } else {
        s.subrange(lo, trim_end_from(s, s.len() as int))
    }
}

/// Index of the first `.` at or after `i` (or `s.len()`).
pub open spec fn find_dot_from(s: Seq<char>, i: int) -> int
    decreases s.len() - i,
{
    if 0 <= i < s.len() && s[i] != '.' {
        find_dot_from(s, i + 1)
    } else {
        i
    }
}

pub open spec fn is_ascii_digit(c: char) -> bool {
    '0' as int <= c as int <= '9' as int
}

pub open spec fn all_ascii_digits(s: Seq<char>) -> bool {
    forall|i: int| 0 <= i < s.len() ==> is_ascii_digit(#[trigger] s[i])
}

/// Value of a string of decimal digits.
pub open spec fn digits_value(s: Seq<char>) -> nat
    decreases s.len(),
{
    if s.len() == 0 {
        0
    } else {
        digits_value(s.drop_last()) * 10 + (s.last() as int - '0' as int) as nat
    }
}

/// Reading `s` as an unsigned decimal literal: an optional `+`, then one or more ASCII
/// digits (no upper bound on the value).
pub open spec fn unsigned_literal(s: Seq<char>) -> Option<nat> {
    let body = if s.len() > 0 && s[0] == '+' {
        s.drop_first()
    } else {
        s
    };
    if body.len() > 0 && all_ascii_digits(body) {
        Some(digits_value(body))
    } else {
        None
    }
}

/// `n` copies of the digit `0`.
pub open spec fn zeros(n: nat) -> Seq<char> {
    Seq::new(n, |i: int| '0')
}

/// The pieces of a decimal string: whether it is negative, its integer part and its
/// fraction part (`None` when the trimmed string is empty or has neither part).
pub open spec fn decimal_parts(s: Seq<char>) -> Option<(bool, Seq<char>, Seq<char>)> {
    let t = trim_ws(s);
    if t.len() == 0 {
        None
    } else {
        let neg = t[0] == '-';
        let u = if neg {
            t.drop_first()
        } else {
            t
        };
        let k = find_dot_from(u, 0);
        let int_part = u.take(k);
        let frac_part = if k < u.len() {
            u.skip(k + 1)
        } else {
            Seq::empty()
        };
        if int_part.len() == 0 && frac_part.len() == 0 {
            None
        } else {
            Some((neg, int_part, frac_part))
        }
    }
}

/// The digit string read as the tick count: the integer part (`0` when empty), then the
/// fraction cut to `decimals` characters, then zeros up to `decimals` places.
pub open spec fn scaled_text(int_part: Seq<char>, frac_part: Seq<char>, decimals: nat) -> Seq<char> {
    let ip = if int_part.len() == 0 {
        seq!['0']
    } else {
        int_part
    };
    let fp = if frac_part.len() <= decimals {
        frac_part
    } else {
        frac_part.take(decimals as int)
    };
    ip + fp + zeros((decimals - fp.len()) as nat)
}

/// Decimal string → unsigned ticks with `decimals` places.
///
/// `None` for an empty or whitespace-only string, for `"."`/`"-"` alike, for anything that does
/// not read as an unsigned decimal literal after padding/truncation, for negative values and
/// for values above `u64::MAX`.
pub open spec fn spec_parse_scaled(s: Seq<char>, decimals: nat) -> Option<u64> {
    match decimal_parts(s) {
        None => None,
        Some((neg, int_part, frac_part)) => match unsigned_literal(
            scaled_text(int_part, frac_part, decimals),
        ) {
            Some(v) => if !neg && v <= u64::MAX {
                Some(v as u64)
            } else {
                None
            },
            None => None,
        },
    }
}

/// Bytes taken by `c` in UTF-8.
pub open spec fn char_utf8_len(c: char) -> nat {
    let u = c as int;
    if u < 0x80 {
        1
    } else if u < 0x800 {
        2
    } else if u < 0x10000 {
        3
    } else {
        4
    }
}

/// Bytes taken by `s` in UTF-8.
pub open spec fn utf8_len(s: Seq<char>) -> nat
    decreases s.len(),
{
    if s.len() == 0 {
        0
    } else {
        utf8_len(s.drop_last()) + char_utf8_len(s.last())
    }
}

/// Cutting the fraction to `decimals` bytes would split a multi-byte character (the
/// conversion panics there).
pub open spec fn fraction_cut_splits_char(s: Seq<char>, decimals: nat) -> bool {
    match decimal_parts(s) {
        None => false,
        Some((neg, int_part, frac_part)) => {
            &&& utf8_len(frac_part) > decimals
            &&& forall|k: int| 0 <= k <= frac_part.len() ==> utf8_len(#[trigger] frac_part.take(k)) != decimals
        },
    }
}

// ---------------------------------------------------------------------------------------
// Lemmas
// ---------------------------------------------------------------------------------------

proof fn lemma_skip_ws(s: Seq<char>, i: int)
    requires
        0 <= i <= s.len(),
    ensures
        i <= skip_ws_from(s, i) <= s.len(),
        forall|j: int| i <= j < skip_ws_from(s, i) ==> is_unicode_whitespace(s[j]),
        skip_ws_from(s, i) < s.len() ==> !is_unicode_whitespace(s[skip_ws_from(s, i)]),
    decreases s.len() - i,
{
    if i < s.len() && is_unicode_whitespace(s[i]) {
        lemma_skip_ws(s, i + 1);
    }
}

proof fn lemma_trim_end(s: Seq<char>, lo: int, j: int)
    requires
        0 <= lo < j <= s.len(),
        !is_unicode_whitespace(s[lo]),
    ensures
        lo < trim_end_from(s, j) <= j,
    decreases j,
{
    if is_unicode_whitespace(s[j - 1]) {
        lemma_trim_end(s, lo, j - 1);
    }
}

proof fn lemma_find_dot(s: Seq<char>, i: int)
    requires
        0 <= i <= s.len(),
    ensures
        i <= find_dot_from(s, i) <= s.len(),
        forall|j: int| i <= j < find_dot_from(s, i) ==> s[j] != '.',
        find_dot_from(s, i) < s.len() ==> s[find_dot_from(s, i)] == '.',
    decreases s.len() - i,
{
    if i < s.len() && s[i] != '.' {
        lemma_find_dot(s, i + 1);
    }
}

proof fn lemma_digits_push(s: Seq<char>, c: char)
    ensures
        digits_value(s.push(c)) == digits_value(s) * 10 + (c as int - '0' as int) as nat,
{
    assert(s.push(c).drop_last() =~= s);
}

/// Appending digits scales the value: `value(x + y) = value(x) * 10^|y| + value(y)`.
proof fn lemma_digits_concat(x: Seq<char>, y: Seq<char>)
    ensures
        digits_value(x + y) == digits_value(x) * pow10(y.len()) + digits_value(y),
    decreases y.len(),
{
    if y.len() == 0 {
        assert(x + y =~= x);
        assert(pow10(0) == 1);
        assert(digits_value(x) * 1 == digits_value(x));
    } else {
        let y0 = y.drop_last();
        lemma_digits_concat(x, y0);
        assert((x + y).drop_last() =~= x + y0);
        assert((x + y).last() == y.last());
        let p = pow10(y0.len());
        let dl = (y.last() as int - '0' as int) as nat;
        let dx = digits_value(x);
        let dy0 = digits_value(y0);
        assert(pow10(y.len()) == 10 * p);
        assert(digits_value(x + y) == digits_value(x + y0) * 10 + dl);
        assert(digits_value(y) == dy0 * 10 + dl);
        assert(digits_value(x + y0) == dx * p + dy0);
        assert((dx * p + dy0) * 10 + dl == dx * (10 * p) + (dy0 * 10 + dl)) by (nonlinear_arith);
        assert(digits_value(x + y) == dx * pow10(y.len()) + digits_value(y));
    }
}

proof fn lemma_pow10_positive(e: nat)
    ensures
        pow10(e) >= 1,
    decreases e,
{
    if e > 0 {
        lemma_pow10_positive((e - 1) as nat);
    }
}

proof fn lemma_zeros_value(n: nat)
    ensures
        digits_value(zeros(n)) == 0,
        all_ascii_digits(zeros(n)),
    decreases n,
{
    if n > 0 {
        lemma_zeros_value((n - 1) as nat);
        assert(zeros(n).drop_last() =~= zeros((n - 1) as nat));
    }
}

/// A digit string followed by more digits is worth at least as much as the prefix.
proof fn lemma_digits_prefix_bound(x: Seq<char>, y: Seq<char>)
    ensures
        digits_value(x + y) >= digits_value(x),
{
    lemma_digits_concat(x, y);
    lemma_pow10_positive(y.len());
    assert(digits_value(x) * pow10(y.len()) >= digits_value(x)) by (nonlinear_arith)
        requires
            pow10(y.len()) >= 1,
    ;
}

/// The integer and fraction parts of a decimal string are made of characters of the string.
pub proof fn lemma_chars_within_parts(s: Seq<char>)
    ensures
        decimal_parts(s) matches Some((neg, ip, fp)) ==> (forall|i: int|
            0 <= i < fp.len() ==> s.contains(#[trigger] fp[i])) && (forall|i: int|
            0 <= i < ip.len() ==> s.contains(#[trigger] ip[i])),
{
    if let Some((neg, ip, fp)) = decimal_parts(s) {
        lemma_skip_ws(s, 0);
        let lo = skip_ws_from(s, 0);
        lemma_trim_end(s, lo, s.len() as int);
        let hi = trim_end_from(s, s.len() as int);
        let t = trim_ws(s);
        assert(t == s.subrange(lo, hi));
        let start = if t[0] == '-' { lo + 1 } else { lo };
        let u = if t[0] == '-' { t.drop_first() } else { t };
        assert(u =~= s.subrange(start, hi));
        lemma_find_dot(u, 0);
        let k = find_dot_from(u, 0);
        assert forall|i: int| 0 <= i < ip.len() implies s.contains(#[trigger] ip[i]) by {
            assert(ip[i] == s[start + i]);
        }
        assert forall|i: int| 0 <= i < fp.len() implies s.contains(#[trigger] fp[i]) by {
            assert(fp[i] == s[start + k + 1 + i]);
        }
    }
}

/// An ASCII string takes one byte per character.
pub proof fn lemma_ascii_utf8_len(x: Seq<char>)
    requires
        forall|i: int| 0 <= i < x.len() ==> (#[trigger] x[i] as int) < 0x80,
    ensures
        utf8_len(x) == x.len(),
    decreases x.len(),
{
    if x.len() > 0 {
        let y = x.drop_last();
        assert forall|i: int| 0 <= i < y.len() implies (#[trigger] y[i] as int) < 0x80 by {
            assert(y[i] == x[i]);
        }
        lemma_ascii_utf8_len(y);
        assert(x.last() == x[x.len() - 1]);
    }
}

// ---------------------------------------------------------------------------------------
// Implementation
// ---------------------------------------------------------------------------------------

fn is_whitespace_char(c: char) -> (r: bool)
    ensures
        r == is_unicode_whitespace(c),
{
    let u = c as u32;
    (0x09 <= u && u <= 0x0D) || u == 0x20 || u == 0x85 || u == 0xA0 || u == 0x1680 || (0x2000
        <= u && u <= 0x200A) || u == 0x2028 || u == 0x2029 || u == 0x202F || u == 0x205F || u
        == 0x3000
}

pub(crate) fn chars_of(s: &str) -> (v: Vec<char>)
    ensures
        v@ == s@,
{
    let n = s.unicode_len();
    let mut v: Vec<char> = Vec::new();
    for i in 0..n
        invariant
            n == s@.len(),
            v@ == s@.take(i as int),
    {
        v.push(s.get_char(i));
        assert(v@ =~= s@.take(i + 1));
    }
    assert(s@.take(n as int) =~= s@);
    v
}

/// Value of a digit string, as long as it is all digits and fits in `u64`.
pub(crate) fn read_digits(d: &Vec<char>) -> (r: Option<u64>)
    ensures
        r matches Some(v) ==> all_ascii_digits(d@) && v == digits_value(d@),
        r is None ==> !all_ascii_digits(d@) || digits_value(d@) > u64::MAX,
{
    let mut acc: u64 = 0;
    let n = d.len();
    for i in 0..n
        invariant
            n == d@.len(),
            all_ascii_digits(d@.take(i as int)),
            acc == digits_value(d@.take(i as int)),
    {
        let c = d[i];
        assert(d@.take(i + 1) =~= d@.take(i as int).push(c));
        proof {
            lemma_digits_push(d@.take(i as int), c);
        }
        if !('0' <= c && c <= '9') {
            assert(!is_ascii_digit(d@[i as int]));
            return None;
        }
        let dv = (c as u32 - '0' as u32) as u64;
        assert(dv == c as int - '0' as int);
        if acc > (u64::MAX - dv) / 10 {
            proof {
                lemma_digits_prefix_bound(d@.take(i + 1), d@.skip(i + 1));
                assert(d@.take(i + 1) + d@.skip(i + 1) =~= d@);
            }
            return None;
        }
        acc = acc * 10 + dv;
    }
    assert(d@.take(n as int) =~= d@);
    Some(acc)
}

/// Bounds of `cs` once leading and trailing whitespace is removed (`None` when nothing is left).
pub(crate) fn trim_span(cs: &Vec<char>) -> (r: Option<(usize, usize)>)
    ensures
        match r {
            None => trim_ws(cs@).len() == 0,
            Some((lo, hi)) => lo < hi <= cs@.len() && trim_ws(cs@) == cs@.subrange(lo as int, hi as int),
        },
{
    let n = cs.len();
    let ghost sv = cs@;
    let mut lo: usize = 0;
    while lo < n && is_whitespace_char(cs[lo])
        invariant
            cs@ == sv,
            n == sv.len(),
            lo <= n,
            skip_ws_from(sv, lo as int) == skip_ws_from(sv, 0),
        decreases n - lo,
    {
        lo = lo + 1;
    }
    proof {
        lemma_skip_ws(sv, 0);
    }
    if lo == n {
        return None;
    }
    let mut hi: usize = n;
    while hi > lo && is_whitespace_char(cs[hi - 1])
        invariant
            cs@ == sv,
            n == sv.len(),
            lo < n,
            lo < hi <= n,
            !is_unicode_whitespace(sv[lo as int]),
            trim_end_from(sv, hi as int) == trim_end_from(sv, n as int),
        decreases hi,
    {
        hi = hi - 1;
    }
    Some((lo, hi))
}

/// Position of the first `.` in `cs[start..hi]` (or `hi`).
fn find_dot(cs: &Vec<char>, start: usize, hi: usize) -> (k: usize)
    requires
        start <= hi <= cs@.len(),
    ensures
        start <= k <= hi,
        find_dot_from(cs@.subrange(start as int, hi as int), 0) == k - start,
{
    let ghost u = cs@.subrange(start as int, hi as int);
    let mut k: usize = start;
    while k < hi && cs[k] != '.'
        invariant
            start <= k <= hi <= cs@.len(),
            u == cs@.subrange(start as int, hi as int),
            find_dot_from(u, k - start) == find_dot_from(u, 0),
        decreases hi - k,
    {
        k = k + 1;
    }
    k
}

/// `v * 10^e`, or `None` when that exceeds `u64::MAX`.
fn scale_pow10(v: u64, e: u32) -> (r: Option<u64>)
    ensures
        r matches Some(x) ==> x == v as nat * pow10(e as nat),
        r is None ==> v as nat * pow10(e as nat) > u64::MAX,
{
    let mut acc: u64 = v;
    let mut rem: u32 = e;
    while rem > 0 && acc != 0
        invariant
            acc as nat * pow10(rem as nat) == v as nat * pow10(e as nat),
            rem <= e,
        decreases rem,
    {
        let ghost p = pow10((rem - 1) as nat);
        assert(pow10(rem as nat) == 10 * p);
        assert(acc as nat * pow10(rem as nat) == (acc as nat * 10) * p) by (nonlinear_arith)
            requires
                pow10(rem as nat) == 10 * p,
        ;
        if acc > u64::MAX / 10 {
            proof {
                lemma_pow10_positive((rem - 1) as nat);
                assert((acc as nat * 10) * p >= acc as nat * 10) by (nonlinear_arith)
                    requires
                        p >= 1,
                ;
            }
            return None;
        }
        acc = acc * 10;
        rem = rem - 1;
    }
    if rem == 0 {
        assert(pow10(0) == 1);
        assert(acc as nat * 1 == acc as nat);
    }
    if acc == 0 {
        assert(acc as nat * pow10(rem as nat) == 0) by (nonlinear_arith)
            requires
                acc == 0,
        ;
    }
    Some(acc)
}

/// Copy `cs[from..to]` onto the end of `out`.
pub(crate) fn push_span(out: &mut Vec<char>, cs: &Vec<char>, from: usize, to: usize)
    requires
        from <= to <= cs@.len(),
    ensures
        final(out)@ == old(out)@ + cs@.subrange(from as int, to as int),
{
    let ghost init = out@;
    for j in from..to
        invariant
            from <= to <= cs@.len(),
            out@ == init + cs@.subrange(from as int, j as int),
    {
        out.push(cs[j]);
        assert(out@ =~= init + cs@.subrange(from as int, j + 1));
    }
}

/// Reading `body + zeros(pad)` as digits: valid exactly when `body` is, worth
/// `value(body) * 10^pad`.
proof fn lemma_padded_digits(body: Seq<char>, pad: nat)
    ensures
        all_ascii_digits(body + zeros(pad)) <==> all_ascii_digits(body),
        digits_value(body + zeros(pad)) == digits_value(body) * pow10(pad),
        (body + zeros(pad)).len() == body.len() + pad,
{
    lemma_zeros_value(pad);
    lemma_digits_concat(body, zeros(pad));
    let all = body + zeros(pad);
    if all_ascii_digits(body) {
        assert forall|i: int| 0 <= i < all.len() implies is_ascii_digit(#[trigger] all[i]) by {
            if i >= body.len() {
                assert(all[i] == zeros(pad)[i - body.len()]);
            }
        }
    }
    if all_ascii_digits(all) {
        assert forall|i: int| 0 <= i < body.len() implies is_ascii_digit(#[trigger] body[i]) by {
            assert(all[i] == body[i]);
        }
    }
}

/// A literal's value when it is a valid unsigned literal that fits in `u64`.
pub open spec fn literal_u64(text: Seq<char>) -> Option<u64> {
    match unsigned_literal(text) {
        Some(v) => if v <= u64::MAX {
            Some(v as u64)
        } else {
            None
        },
        None => None,
    }
}

/// Locate sign, integer part and fraction part of `cs`: returns `(neg, start, dot, frac_start, end)`
/// with the integer part at `cs[start..dot]` and the fraction at `cs[frac_start..end]`.
fn split_decimal(cs: &Vec<char>) -> (r: Option<(bool, usize, usize, usize, usize)>)
    ensures
        match r {
            None => decimal_parts(cs@) is None,
            Some((neg, start, dot, frac_start, end)) => {
                &&& start <= dot <= frac_start <= end <= cs@.len()
                &&& decimal_parts(cs@) == Some(
                    (
                        neg,
                        cs@.subrange(start as int, dot as int),
                        cs@.subrange(frac_start as int, end as int),
                    ),
                )
            },
        },
{
    let ghost sv = cs@;
    let (lo, hi) = match trim_span(cs) {
        None => {
            return None;
        },
        Some(span) => span,
    };
    let ghost t = sv.subrange(lo as int, hi as int);
    let neg = cs[lo] == '-';
    let start: usize = if neg { lo + 1 } else { lo };
    let ghost u = sv.subrange(start as int, hi as int);
    assert(u =~= if neg { t.drop_first() } else { t });
    let k = find_dot(cs, start, hi);
    proof {
        lemma_find_dot(u, 0);
    }
    let frac_start: usize = if k < hi { k + 1 } else { hi };
    let ghost int_part = u.take(k - start);
    let ghost frac_part = sv.subrange(frac_start as int, hi as int);
    assert(int_part =~= sv.subrange(start as int, k as int));
    assert(frac_part =~= if k < hi { u.skip(k - start + 1) } else { Seq::<char>::empty() });
    if k == start && frac_start == hi {
        return None;
    }
    Some((neg, start, k, frac_start, hi))
}

/// Value of the scaled text built from `cs[start..dot]` and `cs[frac_start..end]`.
#[verifier::rlimit(30)]
fn scaled_value(cs: &Vec<char>, start: usize, dot: usize, frac_start: usize, end: usize, decimals: u32) -> (r: Option<u64>)
    requires
        start <= dot <= frac_start <= end <= cs@.len(),
    ensures
        r == literal_u64(
            scaled_text(
                cs@.subrange(start as int, dot as int),
                cs@.subrange(frac_start as int, end as int),
                decimals as nat,
            ),
        ),
{
    let ghost sv = cs@;
    let ghost int_part = sv.subrange(start as int, dot as int);
    let ghost frac_part = sv.subrange(frac_start as int, end as int);
    let int_len = dot - start;
    let frac_len = end - frac_start;
    let kept: usize = if (frac_len as u64) <= (decimals as u64) { frac_len } else { decimals as usize };
    let pad: u32 = if (frac_len as u64) <= (decimals as u64) { decimals - frac_len as u32 } else { 0 };
    let ghost ip = if int_len == 0 { seq!['0'] } else { int_part };
    let ghost fp = frac_part.take(kept as int);
    let ghost text = scaled_text(int_part, frac_part, decimals as nat);
    assert(fp =~= if frac_part.len() <= decimals as nat { frac_part } else { frac_part.take(decimals as int) });
    assert(text =~= ip + fp + zeros(pad as nat));
    let plus = int_len > 0 && cs[start] == '+';
    let mut digits: Vec<char> = Vec::new();
    if int_len == 0 {
        digits.push('0');
    } else {
        let istart: usize = if plus { start + 1 } else { start };
        push_span(&mut digits, cs, istart, dot);
    }
    let ghost ip_body = if plus { ip.drop_first() } else { ip };
    assert(digits@ =~= ip_body);
    push_span(&mut digits, cs, frac_start, frac_start + kept);
    assert(sv.subrange(frac_start as int, frac_start + kept) =~= fp);
    let ghost body = digits@ + zeros(pad as nat);
    assert(body =~= if text.len() > 0 && text[0] == '+' { text.drop_first() } else { text }) by {
        if plus {
            assert(text[0] == '+');
            assert(text.drop_first() =~= ip.drop_first() + fp + zeros(pad as nat));
        } else if int_len == 0 {
            assert(text[0] == '0');
        } else {
            assert(text[0] == sv[start as int]);
        }
    }
    proof {
        lemma_padded_digits(digits@, pad as nat);
    }
    if digits.len() == 0 && pad == 0 {
        return None;
    }
    match read_digits(&digits) {
        None => {
            proof {
                lemma_pow10_positive(pad as nat);
                assert(digits_value(digits@) * pow10(pad as nat) >= digits_value(digits@)) by (nonlinear_arith)
                    requires
                        pow10(pad as nat) >= 1,
                ;
            }
            None
        },
        Some(v) => scale_pow10(v, pad),
    }
}

/// Parse a decimal string into an unsigned integer scaled by `10^decimals`
/// (e.g. `"10.5"` with 8 decimals is `1_050_000_000`).
pub fn parse_decimal_to_scaled_u64(s: &str, decimals: u32) -> (r: Option<u64>)
    requires
        !fraction_cut_splits_char(s@, decimals as nat),
    ensures
        r == spec_parse_scaled(s@, decimals as nat),
{
    let cs = chars_of(s);
    match split_decimal(&cs) {
        None => None,
        Some((neg, start, dot, frac_start, end)) => {
            if neg {
                None
            } else {
                scaled_value(&cs, start, dot, frac_start, end, decimals)
            }
        },
    }
}

// ---------------------------------------------------------------------------------------
// Laws
// ---------------------------------------------------------------------------------------

proof fn lemma_pow10_add(x: nat, y: nat)
    ensures
        pow10(x + y) == pow10(x) * pow10(y),
    decreases x,
{
    if x > 0 {
        let x1 = (x - 1) as nat;
        lemma_pow10_add(x1, y);
        assert(x + y == (x1 + y) + 1);
        assert(pow10(x + y) == 10 * pow10(x1 + y));
        assert(pow10(x) == 10 * pow10(x1));
        let p = pow10(x1);
        let q = pow10(y);
        assert(10 * (p * q) == (10 * p) * q) by (nonlinear_arith);
    } else {
        assert(pow10(0) == 1);
        assert(x + y == y);
        let q = pow10(y);
        assert(1 * q == q);
    }
}

/// A string that starts and ends with non-whitespace is its own trimmed form.
proof fn lemma_trim_noop(s: Seq<char>)
    requires
        s.len() > 0,
        !is_unicode_whitespace(s[0]),
        !is_unicode_whitespace(s[s.len() - 1]),
    ensures
        trim_ws(s) == s,
{
    assert(skip_ws_from(s, 0) == 0);
    assert(trim_end_from(s, s.len() as int) == s.len());
    assert(s.subrange(0, s.len() as int) =~= s);
}

proof fn lemma_digits_no_ws_dot(a: Seq<char>)
    requires
        all_ascii_digits(a),
    ensures
        forall|i: int| 0 <= i < a.len() ==> !is_unicode_whitespace(#[trigger] a[i]) && a[i] != '.' && a[i]
            != '-' && a[i] != '+',
{
    assert forall|i: int| 0 <= i < a.len() implies !is_unicode_whitespace(#[trigger] a[i]) && a[i] != '.'
        && a[i] != '-' && a[i] != '+' by {
        assert(is_ascii_digit(a[i]));
    }
}

/// The parts of a plain decimal `a.b` are `a` and `b`.
proof fn lemma_plain_parts(a: Seq<char>, b: Seq<char>)
    requires
        a.len() > 0,
        all_ascii_digits(a),
        all_ascii_digits(b),
    ensures
        decimal_parts(a + seq!['.'] + b) == Some((false, a, b)),
{
    let s = a + seq!['.'] + b;
    lemma_digits_no_ws_dot(a);
    lemma_digits_no_ws_dot(b);
    assert(s[0] == a[0]);
    if b.len() > 0 {
        assert(s[s.len() - 1] == b[b.len() - 1]);
    } else {
        assert(s[s.len() - 1] == '.');
    }
    lemma_trim_noop(s);
    lemma_find_dot(s, 0);
    let k = find_dot_from(s, 0);
    assert(s[a.len() as int] == '.');
    if k < a.len() {
        assert(s[k] == a[k]);
    }
    assert(k == a.len());
    assert(s.take(k) =~= a);
    assert(s.skip(k + 1) =~= b);
}

/// A plain decimal `a.b` (digits, at most `decimals` fraction digits) converts to
/// `a * 10^decimals + b * 10^(decimals - |b|)` ticks, when that fits in `u64`.
pub proof fn law_parse_plain_decimal(a: Seq<char>, b: Seq<char>, decimals: nat)
    requires
        a.len() > 0,
        all_ascii_digits(a),
        all_ascii_digits(b),
        b.len() <= decimals,
    ensures
        ({
            let v = digits_value(a) * pow10(decimals) + digits_value(b) * pow10((decimals - b.len()) as nat);
            spec_parse_scaled(a + seq!['.'] + b, decimals) == if v <= u64::MAX {
                Some(v as u64)
            } else {
                None
            }
        }),
{
    lemma_plain_parts(a, b);
    let pad = (decimals - b.len()) as nat;
    let text = scaled_text(a, b, decimals);
    assert(text =~= (a + b) + zeros(pad));
    assert(text[0] == a[0]);
    lemma_padded_digits(a + b, pad);
    assert(all_ascii_digits(a + b)) by {
        assert forall|i: int| 0 <= i < (a + b).len() implies is_ascii_digit(#[trigger] (a + b)[i]) by {
            if i < a.len() {
                assert((a + b)[i] == a[i]);
            } else {
                assert((a + b)[i] == b[i - a.len()]);
            }
        }
    }
    lemma_digits_concat(a, b);
    lemma_pow10_add(b.len(), pad);
    assert(b.len() + pad == decimals);
    let va = digits_value(a);
    let vb = digits_value(b);
    assert((va * pow10(b.len()) + vb) * pow10(pad) == va * (pow10(b.len()) * pow10(pad)) + vb * pow10(pad))
        by (nonlinear_arith);
}

/// The ASCII digit for `d` (below ten).
pub open spec fn digit_char(d: nat) -> char {
    (48 + d) as char
}

/// `n` written in decimal without leading zeros (`0` for zero), as `{}` prints it.
pub open spec fn nat_digits(n: nat) -> Seq<char>
    decreases n,
{
    if n < 10 {
        seq![digit_char(n)]
    } else {
        nat_digits(n / 10).push(digit_char(n % 10))
    }
}

/// `n` in decimal, padded with leading zeros to at least `width` digits, as `{:0width$}` prints
/// it.
pub open spec fn padded_digits(n: nat, width: nat) -> Seq<char> {
    let d = nat_digits(n);
    if d.len() < width {
        zeros((width - d.len()) as nat) + d
    } else {
        d
    }
}

/// Tick count `n` written as a price: whole units, `.`, and the eight fraction digits.
pub open spec fn tick_text(n: nat) -> Seq<char> {
    nat_digits(n / pow10(PRICE_DECIMALS as nat)) + seq!['.'] + padded_digits(
        n % pow10(PRICE_DECIMALS as nat),
        PRICE_DECIMALS as nat,
    )
}

proof fn lemma_nat_digits(n: nat)
    ensures
        all_ascii_digits(nat_digits(n)),
        digits_value(nat_digits(n)) == n,
        nat_digits(n).len() >= 1,
        forall|k: nat| n < #[trigger] pow10(k) ==> nat_digits(n).len() <= k || k == 0,
    decreases n,
{
    if n < 10 {
        assert(digit_char(n) as int == 48 + n);
        assert(nat_digits(n).drop_last() =~= Seq::<char>::empty());
        assert(digits_value(Seq::<char>::empty()) == 0);
        assert(nat_digits(n).last() == digit_char(n));
        assert forall|k: nat| n < #[trigger] pow10(k) implies nat_digits(n).len() <= k || k == 0 by {}
    } else {
        lemma_nat_digits(n / 10);
        let d = nat_digits(n / 10);
        assert(nat_digits(n).drop_last() =~= d);
        lemma_digits_push(d, digit_char(n % 10));
        assert(digit_char(n % 10) as int == 48 + n % 10);
        assert forall|i: int| 0 <= i < nat_digits(n).len() implies is_ascii_digit(#[trigger] nat_digits(n)[i]) by {
            if i < d.len() {
                assert(nat_digits(n)[i] == d[i]);
            }
        }
        assert forall|k: nat| n < #[trigger] pow10(k) implies nat_digits(n).len() <= k || k == 0 by {
            if k > 0 {
                let k1 = (k - 1) as nat;
                assert(pow10(k) == 10 * pow10(k1));
                assert(n / 10 < pow10(k1));
                if k1 == 0 {
                    assert(pow10(0) == 1);
                    assert(false);
                }
            }
        }
    }
}

/// A tick count printed as a price (whole units, `.`, eight zero-padded fraction digits) parses
/// back to the same tick count.
pub proof fn law_tick_text_round_trip(n: u64)
    ensures
        spec_parse_scaled(tick_text(n as nat), PRICE_DECIMALS as nat) == Some(n),
{
    let p = pow10(PRICE_DECIMALS as nat);
    reveal_with_fuel(pow10, 9);
    assert(p == 100000000);
    let hi = (n as nat) / p;
    let lo = (n as nat) % p;
    lemma_nat_digits(hi);
    lemma_nat_digits(lo);
    let d = nat_digits(lo);
    assert(d.len() <= 8);
    let pad = (8 - d.len()) as nat;
    let b = padded_digits(lo, 8);
    assert(b =~= zeros(pad) + d);
    lemma_zeros_value(pad);
    lemma_digits_concat(zeros(pad), d);
    assert(all_ascii_digits(b)) by {
        assert forall|i: int| 0 <= i < b.len() implies is_ascii_digit(#[trigger] b[i]) by {
            if i < pad {
                assert(b[i] == zeros(pad)[i]);
            } else {
                assert(b[i] == d[i - pad]);
            }
        }
    }
    assert(digits_value(b) == lo);
    assert(b.len() == 8);
    law_parse_plain_decimal(nat_digits(hi), b, 8);
    assert(pow10(0) == 1);
    assert(hi * p + lo == n as nat);
    assert(tick_text(n as nat) == nat_digits(hi) + seq!['.'] + b);
    assert(pow10(8) == p);
    assert(pow10((8 - b.len()) as nat) == 1);
    assert(digits_value(b) * 1 == lo);
    assert(digits_value(nat_digits(hi)) == hi);
    assert(digits_value(nat_digits(hi)) * pow10(8) + digits_value(b) * pow10((8 - b.len()) as nat) == n as nat);
}

/// Fraction digits beyond `decimals` are cut off, not rounded: only the first `decimals`
/// fraction digits matter.
pub proof fn law_parse_truncates(a: Seq<char>, b: Seq<char>, decimals: nat)
    requires
        a.len() > 0,
        all_ascii_digits(a),
        all_ascii_digits(b),
        b.len() > decimals,
    ensures
        spec_parse_scaled(a + seq!['.'] + b, decimals) == spec_parse_scaled(
            a + seq!['.'] + b.take(decimals as int),
            decimals,
        ),
{
    let c = b.take(decimals as int);
    assert(all_ascii_digits(c));
    lemma_plain_parts(a, b);
    lemma_plain_parts(a, c);
    assert(scaled_text(a, b, decimals) =~= scaled_text(a, c, decimals));
}

/// Negative amounts never convert.
pub proof fn law_parse_rejects_negative(s: Seq<char>, decimals: nat)
    requires
        trim_ws(s).len() > 0,
        trim_ws(s)[0] == '-',
    ensures
        spec_parse_scaled(s, decimals) is None,
{
}

proof fn lemma_skip_ws_exact(s: Seq<char>, k: int)
    requires
        0 <= k < s.len(),
        forall|j: int| 0 <= j < k ==> is_unicode_whitespace(#[trigger] s[j]),
        !is_unicode_whitespace(s[k]),
    ensures
        skip_ws_from(s, 0) == k,
{
    lemma_skip_ws(s, 0);
    let r = skip_ws_from(s, 0);
    if r < k {
        assert(is_unicode_whitespace(s[r]));
    } else if r > k {
        assert(is_unicode_whitespace(s[k]));
    }
}

proof fn lemma_trim_end_exact(s: Seq<char>, e: int, j: int)
    requires
        0 < e <= j <= s.len(),
        forall|i: int| e <= i < j ==> is_unicode_whitespace(#[trigger] s[i]),
        !is_unicode_whitespace(s[e - 1]),
    ensures
        trim_end_from(s, j) == e,
    decreases j,
{
    if j > e {
        lemma_trim_end_exact(s, e, j - 1);
    }
}

/// Surrounding Unicode whitespace does not change the conversion.
pub proof fn law_parse_ignores_surrounding_whitespace(
    lead: Seq<char>,
    s: Seq<char>,
    trail: Seq<char>,
    decimals: nat,
)
    requires
        s.len() > 0,
        !is_unicode_whitespace(s[0]),
        !is_unicode_whitespace(s[s.len() - 1]),
        forall|i: int| 0 <= i < lead.len() ==> is_unicode_whitespace(#[trigger] lead[i]),
        forall|i: int| 0 <= i < trail.len() ==> is_unicode_whitespace(#[trigger] trail[i]),
    ensures
        spec_parse_scaled(lead + s + trail, decimals) == spec_parse_scaled(s, decimals),
{
    let x = lead + s + trail;
    let lo = lead.len() as int;
    let hi = lo + s.len();
    assert forall|j: int| 0 <= j < lo implies is_unicode_whitespace(#[trigger] x[j]) by {
        assert(x[j] == lead[j]);
    }
    assert(x[lo] == s[0]);
    lemma_skip_ws_exact(x, lo);
    assert forall|i: int| hi <= i < x.len() implies is_unicode_whitespace(#[trigger] x[i]) by {
        assert(x[i] == trail[i - hi]);
    }
    assert(x[hi - 1] == s[s.len() - 1]);
    lemma_trim_end_exact(x, hi, x.len() as int);
    assert(trim_ws(x) =~= s);
    lemma_trim_noop(s);
}

// ---------------------------------------------------------------------------------------
// Stream decimals
// ---------------------------------------------------------------------------------------

#[verifier::external_type_specification]
#[verifier::external_body]
pub struct ExNum(Num);

/// A character of the decimal text `Num` renders: an ASCII digit, `-` or `.`.
pub open spec fn is_decimal_text_char(c: char) -> bool {
    ('0' as int <= c as int <= '9' as int) || c == '-' || c == '.'
}

pub open spec fn is_decimal_text(s: Seq<char>) -> bool {
    forall|i: int| 0 <= i < s.len() ==> is_decimal_text_char(#[trigger] s[i])
}

/// The decimal text `Num`'s `Display` renders for a value (a function of the value alone).
pub uninterp spec fn num_decimal_text(n: Num) -> Seq<char>;

/// `Num`'s `Display` (via `to_string`): an optional `-`, the integer digits and, when the value
/// has a fraction, `.` and its digits (the value rounded to num-decimal's maximum precision).
/// The text is named by [`num_decimal_text`]; of its content the contract states only the
/// characters that can occur.
#[verifier::external_body]
fn num_text(n: &Num) -> (s: String)
    ensures
        s@ == num_decimal_text(*n),
        is_decimal_text(s@),
{
    n.to_string()
}

/// Ticks of a stream decimal: its decimal text converted with [`PRICE_DECIMALS`] places.
pub open spec fn spec_num_ticks(n: Num) -> Option<u64> {
    spec_parse_scaled(num_decimal_text(n), PRICE_DECIMALS as nat)
}

/// Convert a stream decimal to unsigned ticks at [`crate::cold_path::ticks::PRICE_TICK_SCALE`], through its
/// decimal text. `None` for negative values and values beyond `u64::MAX` ticks.
pub fn num_to_tick_u64(n: &Num) -> (r: Option<u64>)
    ensures
        r == spec_num_ticks(*n),
{
    let s = num_text(n);
    proof {
        lemma_decimal_text_never_splits(s@, PRICE_DECIMALS as nat);
    }
    parse_decimal_to_scaled_u64(s.as_str(), PRICE_DECIMALS)
}

/// Decimal text is ASCII, so cutting its fraction at any byte count falls between characters.
proof fn lemma_decimal_text_never_splits(s: Seq<char>, decimals: nat)
    requires
        is_decimal_text(s),
    ensures
        !fraction_cut_splits_char(s, decimals),
{
    if let Some((neg, int_part, frac_part)) = decimal_parts(s) {
        lemma_chars_within_parts(s);
        assert forall|i: int| 0 <= i < frac_part.len() implies (#[trigger] frac_part[i] as int) < 0x80 by {
            assert(s.contains(frac_part[i]));
        }
        if utf8_len(frac_part) > decimals {
            lemma_ascii_utf8_len(frac_part);
            lemma_ascii_utf8_len(frac_part.take(decimals as int));
            assert(utf8_len(frac_part.take(decimals as int)) == decimals);
        }
    }
}

} // verus!
