//! Configuration values: symbol lists (comma-separated, each entry trimmed and upper-cased,
//! empty entries dropped) and the aggregator queue's capacity.

use crate::cold_path::ticks::{chars_of, push_span, read_digits, trim_span, trim_ws, unsigned_literal};
use vstd::prelude::*;
use vstd::string::*;

verus! {

/// What `str::to_uppercase` returns for a string (Unicode upper-casing, which may change
/// the length, e.g. `ß` → `SS`).
pub uninterp spec fn unicode_uppercase(s: Seq<char>) -> Seq<char>;

/// `str::to_uppercase`: the Unicode upper-case form of `s`, named by [`unicode_uppercase`].
#[verifier::external_body]
fn to_uppercase(s: &str) -> (r: String)
    ensures
        r@ == unicode_uppercase(s@),
{
    s.to_uppercase()
}

/// Index of the first `,` at or after `i` (or `s.len()`).
pub open spec fn find_comma_from(s: Seq<char>, i: int) -> int
    decreases s.len() - i,
{
    if 0 <= i < s.len() && s[i] != ',' {
        find_comma_from(s, i + 1)
    } else {
        i
    }
}

/// The symbols a comma-separated list names, in order: each entry between commas, trimmed of
/// Unicode whitespace and upper-cased; entries that end up empty are dropped.
pub open spec fn symbol_list(s: Seq<char>) -> Seq<Seq<char>>
    decreases s.len(),
{
    let k = find_comma_from(s, 0);
    let up = unicode_uppercase(trim_ws(s.take(k)));
    let head = if up.len() > 0 {
        seq![up]
    } else {
        Seq::empty()
    };
    if 0 <= k < s.len() {
        head + symbol_list(s.skip(k + 1))
    } else {
        head
    }
}

proof fn lemma_find_comma(s: Seq<char>, i: int)
    requires
        0 <= i <= s.len(),
    ensures
        i <= find_comma_from(s, i) <= s.len(),
        forall|j: int| i <= j < find_comma_from(s, i) ==> s[j] != ',',
        find_comma_from(s, i) < s.len() ==> s[find_comma_from(s, i)] == ',',
    decreases s.len() - i,
{
    if i < s.len() && s[i] != ',' {
        lemma_find_comma(s, i + 1);
    }
}

/// The upper-cased, trimmed form of `s`, or `None` when that is empty.
fn normalized_entry(s: &str) -> (r: Option<String>)
    ensures
        ({
            let up = unicode_uppercase(trim_ws(s@));
            &&& r matches Some(v) ==> v@ == up && up.len() > 0
            &&& r is None ==> up.len() == 0
        }),
{
    let cs = chars_of(s);
    let trimmed: &str = match trim_span(&cs) {
        None => {
            assert(trim_ws(s@) =~= Seq::<char>::empty());
            let e = s.substring_char(0, 0);
            assert(e@ =~= trim_ws(s@));
            e
        },
        Some((lo, hi)) => s.substring_char(lo, hi),
    };
    let up = to_uppercase(trimmed);
    if up.as_str().unicode_len() == 0 {
        None
    } else {
        Some(up)
    }
}

/// Parse a comma-separated symbol list (`" spy, qqq ,,aapl "` → `["SPY", "QQQ", "AAPL"]`).
pub fn symbols_from_list(raw: &str) -> (r: Vec<String>)
    ensures
        r@.len() == symbol_list(raw@).len(),
        forall|i: int| 0 <= i < r@.len() ==> #[trigger] r@[i]@ == symbol_list(raw@)[i],
{
    let n = raw.unicode_len();
    let mut out: Vec<String> = Vec::new();
    let mut start: usize = 0;
    let ghost sv = raw@;
    assert(sv.skip(0) =~= sv);
    assert(Seq::new(out@.len(), |i: int| out@[i]@) =~= Seq::<Seq<char>>::empty());
    loop
        invariant
            sv == raw@,
            n == sv.len(),
            start <= n,
            Seq::new(out@.len(), |i: int| out@[i]@) + symbol_list(sv.skip(start as int)) == symbol_list(sv),
        decreases n - start,
    {
        let ghost rest = sv.skip(start as int);
        let mut k: usize = start;
        while k < n && raw.get_char(k) != ','
            invariant
                sv == raw@,
                n == sv.len(),
                start <= k <= n,
                rest == sv.skip(start as int),
                find_comma_from(rest, k - start) == find_comma_from(rest, 0),
            decreases n - k,
        {
            assert(rest[k - start] == sv[k as int]);
            k = k + 1;
        }
        proof {
            lemma_find_comma(rest, 0);
        }
        let piece = raw.substring_char(start, k);
        assert(piece@ =~= rest.take(k - start));
        let ghost before = Seq::new(out@.len(), |i: int| out@[i]@);
        let entry = normalized_entry(piece);
        if let Some(v) = entry {
            out.push(v);
        }
        let ghost after = Seq::new(out@.len(), |i: int| out@[i]@);
        let ghost up = unicode_uppercase(trim_ws(rest.take(k - start)));
        let ghost head = if up.len() > 0 { seq![up] } else { Seq::<Seq<char>>::empty() };
        assert(after =~= before + head);
        if k >= n {
            assert(symbol_list(rest) == head);
            assert(after =~= symbol_list(sv));
            return out;
        }
        assert(rest.skip(k - start + 1) =~= sv.skip(k + 1));
        assert(symbol_list(rest) == head + symbol_list(sv.skip(k + 1)));
        assert(after + symbol_list(sv.skip(k + 1)) =~= before + symbol_list(rest));
        start = k + 1;
    }
}

/// Aggregator queue capacity when none (or no usable one) is configured.
pub const DEFAULT_FEED_CAP: usize = 65_536;

/// The configured aggregator queue capacity: the setting read as an unsigned decimal (an
/// optional `+`, then digits, as `usize`'s `FromStr` reads it) when that is a positive `usize`;
/// otherwise [`DEFAULT_FEED_CAP`].
pub open spec fn spec_feed_cap(raw: Option<Seq<char>>) -> usize {
    match raw {
        Some(s) => match unsigned_literal(s) {
            Some(v) => if 0 < v <= usize::MAX {
                v as usize
            } else {
                DEFAULT_FEED_CAP
            },
            None => DEFAULT_FEED_CAP,
        },
        None => DEFAULT_FEED_CAP,
    }
}

/// View of an optional string.
pub open spec fn opt_text(raw: Option<&str>) -> Option<Seq<char>> {
    match raw {
        Some(s) => Some(s@),
        None => None,
    }
}

/// Capacity of the aggregator queue from its setting (`None` when unset).
pub fn feed_cap_from(raw: Option<&str>) -> (r: usize)
    ensures
        r == spec_feed_cap(opt_text(raw)),
{
    let s = match raw {
        None => {
            return DEFAULT_FEED_CAP;
        },
        Some(s) => s,
    };
    let cs = chars_of(s);
    let start: usize = if cs.len() > 0 && cs[0] == '+' {
        1
    } else {
        0
    };
    let mut body: Vec<char> = Vec::new();
    push_span(&mut body, &cs, start, cs.len());
    assert(body@ =~= if s@.len() > 0 && s@[0] == '+' {
        s@.drop_first()
    } else {
        s@
    });
    if body.len() == 0 {
        return DEFAULT_FEED_CAP;
    }
    match read_digits(&body) {
        None => DEFAULT_FEED_CAP,
        Some(v) => if 0 < v && v <= usize::MAX as u64 {
            v as usize
        } else {
            DEFAULT_FEED_CAP
        },
    }
}

} // verus!
