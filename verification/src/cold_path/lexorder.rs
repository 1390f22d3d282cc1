//! Lexicographic order on character sequences, the order in which symbols are kept.
//!
//! Characters compare by code point. Because UTF-8 preserves code point order byte-wise,
//! this is the same order as `String`'s `Ord` (byte-wise comparison).

use vstd::prelude::*;
use vstd::string::*;

verus! {

/// Length of the longest common prefix of `a` and `b`, searching from position `i`.
pub open spec fn common_prefix_from(a: Seq<char>, b: Seq<char>, i: int) -> int
    decreases a.len() - i,
{
    if i < 0 || i >= a.len() || i >= b.len() || a[i] != b[i] {
        i
    } else {
        common_prefix_from(a, b, i + 1)
    }
}

/// Length of the longest common prefix of `a` and `b`.
pub open spec fn common_prefix(a: Seq<char>, b: Seq<char>) -> int {
    common_prefix_from(a, b, 0)
}

/// `a` sorts strictly before `b`: at the first differing position `a` has the smaller code
/// point, or `a` is a proper prefix of `b`.
pub open spec fn lex_lt(a: Seq<char>, b: Seq<char>) -> bool {
    let k = common_prefix(a, b);
    if k < a.len() && k < b.len() {
        (a[k] as int) < (b[k] as int)
    } else {
        a.len() < b.len()
    }
}

/// Every element sorts strictly before every later one (sorted, no duplicates).
pub open spec fn strictly_sorted(s: Seq<Seq<char>>) -> bool {
    forall|i: int, j: int| 0 <= i < j < s.len() ==> lex_lt(#[trigger] s[i], #[trigger] s[j])
}

/// The result of comparing two strings.
#[derive(Clone, Copy, Debug, PartialEq, Eq)]
pub enum LexOrder {
    Less,
    Equal,
    Greater,
}

/// Characterization of the common prefix found from `i`.
pub proof fn lemma_common_prefix_from(a: Seq<char>, b: Seq<char>, i: int)
    requires
        0 <= i <= a.len(),
        i <= b.len(),
    ensures
        i <= common_prefix_from(a, b, i) <= a.len(),
        common_prefix_from(a, b, i) <= b.len(),
        forall|j: int| i <= j < common_prefix_from(a, b, i) ==> a[j] == b[j],
        common_prefix_from(a, b, i) < a.len() && common_prefix_from(a, b, i) < b.len() ==> a[common_prefix_from(a, b, i)] != b[common_prefix_from(a, b, i)],
    decreases a.len() - i,
{
    if i < a.len() && i < b.len() && a[i] == b[i] {
        lemma_common_prefix_from(a, b, i + 1);
    }
}

/// Characterization of the common prefix: `k` is the common prefix length exactly when the
/// sequences agree below `k` and differ at `k` (or one of them ends there).
pub proof fn lemma_common_prefix(a: Seq<char>, b: Seq<char>)
    ensures
        0 <= common_prefix(a, b) <= a.len(),
        common_prefix(a, b) <= b.len(),
        forall|j: int| 0 <= j < common_prefix(a, b) ==> a[j] == b[j],
        common_prefix(a, b) < a.len() && common_prefix(a, b) < b.len() ==> a[common_prefix(a, b)]
            != b[common_prefix(a, b)],
{
    lemma_common_prefix_from(a, b, 0);
}

/// Any position with the characterizing properties is the common prefix length.
pub proof fn lemma_common_prefix_unique(a: Seq<char>, b: Seq<char>, k: int)
    requires
        0 <= k <= a.len(),
        k <= b.len(),
        forall|j: int| 0 <= j < k ==> a[j] == b[j],
        k < a.len() && k < b.len() ==> a[k] != b[k],
    ensures
        common_prefix(a, b) == k,
{
    lemma_common_prefix(a, b);
    let c = common_prefix(a, b);
    if c < k {
        assert(a[c] == b[c]);
    } else if c > k {
        assert(a[k] == b[k]);
    }
}

pub proof fn lemma_common_prefix_symmetric(a: Seq<char>, b: Seq<char>)
    ensures
        common_prefix(a, b) == common_prefix(b, a),
{
    lemma_common_prefix(a, b);
    lemma_common_prefix_unique(b, a, common_prefix(a, b));
}

pub proof fn lemma_common_prefix_full(a: Seq<char>, b: Seq<char>)
    ensures
        (common_prefix(a, b) == a.len() && a.len() == b.len()) <==> a == b,
{
    lemma_common_prefix(a, b);
    if a == b {
        lemma_common_prefix_unique(a, b, a.len() as int);
    }
    if common_prefix(a, b) == a.len() && a.len() == b.len() {
        assert(a =~= b);
    }
}

/// `lex_lt` is irreflexive.
pub proof fn lemma_lex_irreflexive(a: Seq<char>)
    ensures
        !lex_lt(a, a),
{
    lemma_common_prefix_full(a, a);
}

/// `lex_lt` is total on distinct sequences and asymmetric.
pub proof fn lemma_lex_trichotomy(a: Seq<char>, b: Seq<char>)
    ensures
        a == b || lex_lt(a, b) || lex_lt(b, a),
        !(lex_lt(a, b) && lex_lt(b, a)),
        lex_lt(a, b) ==> a != b,
{
    lemma_common_prefix(a, b);
    lemma_common_prefix_symmetric(a, b);
    lemma_common_prefix_full(a, b);
    lemma_lex_irreflexive(a);
    let k = common_prefix(a, b);
    if k < a.len() && k < b.len() {
        assert(a[k] != b[k]);
        assert((a[k] as int) != (b[k] as int));
    }
}

/// `lex_lt` is transitive.
pub proof fn lemma_lex_transitive(a: Seq<char>, b: Seq<char>, c: Seq<char>)
    requires
        lex_lt(a, b),
        lex_lt(b, c),
    ensures
        lex_lt(a, c),
{
    lemma_common_prefix(a, b);
    lemma_common_prefix(b, c);
    let k1 = common_prefix(a, b);
    let k2 = common_prefix(b, c);
    if k1 < k2 {
        assert(forall|j: int| 0 <= j < k1 ==> a[j] == c[j]);
        if k1 < a.len() {
            assert(b[k1] == c[k1]);
            lemma_common_prefix_unique(a, c, k1);
        } else {
            lemma_common_prefix_unique(a, c, k1);
        }
    } else if k2 < k1 {
        assert(forall|j: int| 0 <= j < k2 ==> a[j] == c[j]);
        assert(a[k2] == b[k2]);
        lemma_common_prefix_unique(a, c, k2);
    } else {
        assert(forall|j: int| 0 <= j < k1 ==> a[j] == c[j]);
        lemma_common_prefix_unique(a, c, k1);
    }
}

/// In a strictly sorted sequence the elements are pairwise distinct.
pub proof fn lemma_sorted_distinct(s: Seq<Seq<char>>, i: int, j: int)
    requires
        strictly_sorted(s),
        0 <= i < s.len(),
        0 <= j < s.len(),
        i != j,
    ensures
        s[i] != s[j],
{
    if i < j {
        assert(lex_lt(s[i], s[j]));
        lemma_lex_irreflexive(s[i]);
    } else {
        assert(lex_lt(s[j], s[i]));
        lemma_lex_irreflexive(s[j]);
    }
}

/// Two strictly sorted sequences that hold the same elements are equal.
pub proof fn lemma_sorted_unique(a: Seq<Seq<char>>, b: Seq<Seq<char>>)
    requires
        strictly_sorted(a),
        strictly_sorted(b),
        forall|x: Seq<char>| a.contains(x) <==> b.contains(x),
    ensures
        a == b,
    decreases a.len(),
{
    if a.len() == 0 {
        if b.len() > 0 {
            assert(b.contains(b[0]));
        }
        assert(a =~= b);
    } else {
        assert(a.contains(a[0]));
        assert(b.len() > 0);
        assert(b.contains(b[0]));
        let ia = choose|i: int| 0 <= i < a.len() && a[i] == b[0];
        let ib = choose|i: int| 0 <= i < b.len() && b[i] == a[0];
        if a[0] != b[0] {
            // a[0] <= b[0] since b[0] occurs in a at ia; b[0] <= a[0] likewise.
            assert(ia != 0);
            assert(lex_lt(a[0], a[ia]));
            assert(ib != 0);
            assert(lex_lt(b[0], b[ib]));
            lemma_lex_trichotomy(a[0], b[0]);
        }
        let ta = a.drop_first();
        let tb = b.drop_first();
        assert forall|x: Seq<char>| ta.contains(x) implies tb.contains(x) by {
            let i = choose|i: int| 0 <= i < ta.len() && ta[i] == x;
            assert(a[i + 1] == x);
            lemma_sorted_distinct(a, 0, i + 1);
            assert(b.contains(x));
            let j = choose|j: int| 0 <= j < b.len() && b[j] == x;
            assert(j != 0);
            assert(tb[j - 1] == x);
        }
        assert forall|x: Seq<char>| tb.contains(x) implies ta.contains(x) by {
            let i = choose|i: int| 0 <= i < tb.len() && tb[i] == x;
            assert(b[i + 1] == x);
            lemma_sorted_distinct(b, 0, i + 1);
            assert(a.contains(x));
            let j = choose|j: int| 0 <= j < a.len() && a[j] == x;
            assert(j != 0);
            assert(ta[j - 1] == x);
        }
        assert(strictly_sorted(ta)) by {
            assert forall|i: int, j: int| 0 <= i < j < ta.len() implies lex_lt(
                #[trigger] ta[i],
                #[trigger] ta[j],
            ) by {
                assert(lex_lt(a[i + 1], a[j + 1]));
            }
        }
        assert(strictly_sorted(tb)) by {
            assert forall|i: int, j: int| 0 <= i < j < tb.len() implies lex_lt(
                #[trigger] tb[i],
                #[trigger] tb[j],
            ) by {
                assert(lex_lt(b[i + 1], b[j + 1]));
            }
        }
        lemma_sorted_unique(ta, tb);
        assert(a =~= b) by {
            assert forall|i: int| 0 <= i < a.len() implies a[i] == b[i] by {
                if i > 0 {
                    assert(ta[i - 1] == tb[i - 1]);
                }
            }
        }
    }
}

/// Compare two strings by code point, lexicographically.
pub fn lex_compare(a: &str, b: &str) -> (r: LexOrder)
    ensures
        (r == LexOrder::Less) == lex_lt(a@, b@),
        (r == LexOrder::Equal) == (a@ == b@),
        (r == LexOrder::Greater) == lex_lt(b@, a@),
{
    proof {
        lemma_lex_trichotomy(a@, b@);
        lemma_common_prefix(a@, b@);
        lemma_common_prefix_symmetric(a@, b@);
        lemma_common_prefix_full(a@, b@);
    }
    let la = a.unicode_len();
    let lb = b.unicode_len();
    let mut i: usize = 0;
    while i < la && i < lb
        invariant
            la == a@.len(),
            lb == b@.len(),
            i <= la,
            i <= lb,
            common_prefix_from(a@, b@, i as int) == common_prefix(a@, b@),
            common_prefix(a@, b@) == common_prefix(b@, a@),
            !(lex_lt(a@, b@) && lex_lt(b@, a@)),
        decreases la - i,
    {
        let ca = a.get_char(i);
        let cb = b.get_char(i);
        if ca != cb {
            assert(common_prefix_from(a@, b@, i as int) == i);
            if (ca as u32) < (cb as u32) {
                return LexOrder::Less;
            } else {
                assert((ca as int) != (cb as int));
                return LexOrder::Greater;
            }
        }
        i = i + 1;
    }
    assert(common_prefix_from(a@, b@, i as int) == i);
    if la < lb {
        LexOrder::Less
    } else if lb < la {
        LexOrder::Greater
    } else {
        LexOrder::Equal
    }
}

} // verus!
