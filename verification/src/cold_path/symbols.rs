//! Symbol → compact `symbol_id` mapping.
//!
//! The registry keeps its symbols sorted lexicographically and free of duplicates; a symbol's
//! id is its position in that order (as `u16`). Lookups use binary search over the sorted list.

use crate::cold_path::lexorder::{
    lemma_lex_irreflexive, lemma_lex_transitive, lemma_sorted_distinct, lemma_sorted_unique,
    lex_compare, lex_lt, strictly_sorted, LexOrder,
};
use vstd::prelude::*;

verus! {

/// The character sequences of a list of strings.
pub open spec fn string_views(v: Seq<String>) -> Seq<Seq<char>> {
    Seq::new(v.len(), |i: int| v[i]@)
}

/// The id a registry whose sorted symbols are `syms` gives `symbol`: its position, as `u16`,
/// or `None` when it is not registered.
pub open spec fn spec_symbol_id(syms: Seq<Seq<char>>, symbol: Seq<char>) -> Option<u16> {
    if syms.contains(symbol) {
        Some(syms.index_of(symbol) as u16)
    } else {
        None
    }
}

#[derive(Debug)]
pub struct SymbolRegistry {
    /// Lexicographically sorted symbols, no duplicates.
    symbols: Vec<String>,
}

impl SymbolRegistry {
    #[verifier::type_invariant]
    spec fn sorted_without_duplicates(&self) -> bool {
        strictly_sorted(string_views(self.symbols@))
    }
}

impl View for SymbolRegistry {
    type V = Seq<Seq<char>>;

    closed spec fn view(&self) -> Seq<Seq<char>> {
        string_views(self.symbols@)
    }
}

/// Where a key sits in a strictly sorted list of strings.
enum SearchResult {
    Found(usize),
    Insert(usize),
}

/// Binary search for `key` in a strictly sorted list.
fn search_sorted(sorted: &Vec<String>, key: &str) -> (r: SearchResult)
    requires
        strictly_sorted(string_views(sorted@)),
    ensures
        match r {
            SearchResult::Found(i) => i < sorted@.len() && sorted@[i as int]@ == key@,
            SearchResult::Insert(p) => {
                &&& p <= sorted@.len()
                &&& forall|j: int| 0 <= j < p ==> lex_lt(#[trigger] sorted@[j]@, key@)
                &&& forall|j: int| p <= j < sorted@.len() ==> lex_lt(key@, #[trigger] sorted@[j]@)
            },
        },
{
    let ghost sv = string_views(sorted@);
    let mut lo: usize = 0;
    let mut hi: usize = sorted.len();
    while lo < hi
        invariant
            sv == string_views(sorted@),
            strictly_sorted(sv),
            lo <= hi <= sorted@.len(),
            forall|j: int| 0 <= j < lo ==> lex_lt(#[trigger] sorted@[j]@, key@),
            forall|j: int| hi <= j < sorted@.len() ==> lex_lt(key@, #[trigger] sorted@[j]@),
        decreases hi - lo,
    {
        let mid = lo + (hi - lo) / 2;
        match lex_compare(sorted[mid].as_str(), key) {
            LexOrder::Equal => {
                return SearchResult::Found(mid);
            },
            LexOrder::Less => {
                assert forall|j: int| 0 <= j <= mid implies lex_lt(#[trigger] sorted@[j]@, key@) by {
                    if j < mid {
                        assert(sv[j] == sorted@[j]@ && sv[mid as int] == sorted@[mid as int]@);
                        lemma_lex_transitive(sorted@[j]@, sorted@[mid as int]@, key@);
                    }
                }
                lo = mid + 1;
            },
            LexOrder::Greater => {
                assert forall|j: int| mid <= j < sorted@.len() implies lex_lt(
                    key@,
                    #[trigger] sorted@[j]@,
                ) by {
                    if j > mid {
                        assert(sv[j] == sorted@[j]@ && sv[mid as int] == sorted@[mid as int]@);
                        lemma_lex_transitive(key@, sorted@[mid as int]@, sorted@[j]@);
                    }
                }
                hi = mid;
            },
        }
    }
    SearchResult::Insert(lo)
}

/// The position of `x` in a strictly sorted list is the only index holding it.
proof fn lemma_index_of_sorted(s: Seq<Seq<char>>, i: int)
    requires
        strictly_sorted(s),
        0 <= i < s.len(),
    ensures
        s.contains(s[i]),
        s.index_of(s[i]) == i,
{
    assert(s.contains(s[i]));
    let k = s.index_of(s[i]);
    if k != i {
        lemma_sorted_distinct(s, k, i);
    }
}

impl SymbolRegistry {
    /// Build a registry from raw symbols: sorted lexicographically, duplicates removed.
    pub fn new(symbols: Vec<String>) -> (r: Self)
        ensures
            strictly_sorted(r@),
            forall|x: Seq<char>| r@.contains(x) <==> string_views(symbols@).contains(x),
    {
        let mut out: Vec<String> = Vec::new();
        let n = symbols.len();
        for i in 0..n
            invariant
                n == symbols@.len(),
                strictly_sorted(string_views(out@)),
                forall|x: Seq<char>|
                    string_views(out@).contains(x) <==> string_views(symbols@).take(
                        i as int,
                    ).contains(x),
        {
            let ghost before = string_views(out@);
            let ghost prefix = string_views(symbols@).take(i as int);
            let ghost next = string_views(symbols@).take(i + 1);
            assert(next =~= prefix.push(symbols@[i as int]@));
            match search_sorted(&out, symbols[i].as_str()) {
                SearchResult::Found(k) => {
                    assert(before[k as int] == symbols@[i as int]@);
                    assert forall|x: Seq<char>| before.contains(x) <==> next.contains(x) by {
                        if next.contains(x) && !prefix.contains(x) {
                            let j = choose|j: int| 0 <= j < next.len() && next[j] == x;
                            if j < i {
                                assert(prefix[j] == x);
                            }
                            assert(before[k as int] == x);
                        }
                        if prefix.contains(x) {
                            let j = choose|j: int| 0 <= j < prefix.len() && prefix[j] == x;
                            assert(next[j] == x);
                        }
                    }
                },
                SearchResult::Insert(p) => {
                    let s = symbols[i].clone();
                    out.insert(p, s);
                    let ghost after = string_views(out@);
                    assert(after =~= before.insert(p as int, symbols@[i as int]@));
                    assert forall|a: int, b: int| 0 <= a < b < after.len() implies lex_lt(
                        #[trigger] after[a],
                        #[trigger] after[b],
                    ) by {
                        if b < p {
                            assert(after[a] == before[a] && after[b] == before[b]);
                        } else if b == p {
                            assert(after[a] == before[a]);
                        } else if a < p {
                            assert(after[a] == before[a] && after[b] == before[b - 1]);
                            assert(lex_lt(before[a], symbols@[i as int]@));
                            assert(lex_lt(symbols@[i as int]@, before[b - 1]));
                            lemma_lex_transitive(before[a], symbols@[i as int]@, before[b - 1]);
                        } else if a == p {
                            assert(after[b] == before[b - 1]);
                        } else {
                            assert(after[a] == before[a - 1] && after[b] == before[b - 1]);
                        }
                    }
                    assert forall|x: Seq<char>| after.contains(x) <==> next.contains(x) by {
                        if after.contains(x) {
                            let j = choose|j: int| 0 <= j < after.len() && after[j] == x;
                            if j < p {
                                assert(before[j] == x);
                            } else if j > p {
                                assert(before[j - 1] == x);
                            }
                            if x != symbols@[i as int]@ {
                                assert(before.contains(x));
                                assert(prefix.contains(x));
                                let m = choose|m: int| 0 <= m < prefix.len() && prefix[m] == x;
                                assert(next[m] == x);
                            } else {
                                assert(next[i as int] == x);
                            }
                        }
                        if next.contains(x) {
                            let j = choose|j: int| 0 <= j < next.len() && next[j] == x;
                            if j < i {
                                assert(prefix[j] == x);
                                assert(before.contains(x));
                                let m = choose|m: int| 0 <= m < before.len() && before[m] == x;
                                if m < p {
                                    assert(after[m] == x);
                                } else {
                                    assert(after[m + 1] == x);
                                }
                            } else {
                                assert(after[p as int] == x);
                            }
                        }
                    }
                },
            }
        }
        assert(string_views(symbols@).take(n as int) =~= string_views(symbols@));
        SymbolRegistry { symbols: out }
    }

    /// The id of `symbol`: its position in the sorted list, or `None` when it is not registered.
    pub fn id(&self, symbol: &str) -> (r: Option<u16>)
        ensures
            r == spec_symbol_id(self@, symbol@),
    {
        proof {
            use_type_invariant(self);
        }
        match search_sorted(&self.symbols, symbol) {
            SearchResult::Found(i) => {
                proof {
                    assert(self@[i as int] == symbol@);
                    lemma_index_of_sorted(self@, i as int);
                }
                Some(i as u16)
            },
            SearchResult::Insert(p) => {
                proof {
                    if self@.contains(symbol@) {
                        let j = choose|j: int| 0 <= j < self@.len() && self@[j] == symbol@;
                        assert(self@[j] == self.symbols@[j]@);
                        lemma_lex_irreflexive(symbol@);
                        if j < p {
                            assert(lex_lt(self.symbols@[j]@, symbol@));
                        } else {
                            assert(lex_lt(symbol@, self.symbols@[j]@));
                        }
                    }
                }
                None
            },
        }
    }

    /// The registered symbols, in sorted order.
    pub fn symbols_sorted(&self) -> (r: &[String])
        ensures
            string_views(r@) == self@,
            strictly_sorted(self@),
    {
        proof {
            use_type_invariant(self);
        }
        self.symbols.as_slice()
    }

    /// Number of registered symbols.
    pub fn len(&self) -> (r: usize)
        ensures
            r == self@.len(),
    {
        self.symbols.len()
    }
}

/// Ids are stable positions: the symbol at position `i` of a registry has id `i` (as `u16`).
pub proof fn law_id_is_position(r: SymbolRegistry, i: int)
    requires
        strictly_sorted(r@),
        0 <= i < r@.len(),
    ensures
        spec_symbol_id(r@, r@[i]) == Some(i as u16),
{
    lemma_index_of_sorted(r@, i);
}

/// A registry is determined by the set of symbols it was built from: input order and
/// duplicates do not matter.
pub proof fn law_registry_canonical(a: SymbolRegistry, b: SymbolRegistry)
    requires
        strictly_sorted(a@),
        strictly_sorted(b@),
        forall|x: Seq<char>| a@.contains(x) <==> b@.contains(x),
    ensures
        a@ == b@,
{
    lemma_sorted_unique(a@, b@);
}

/// Lookup is exact: a symbol has an id exactly when it was among the registered symbols.
pub proof fn law_id_defined_iff_registered(r: SymbolRegistry, symbol: Seq<char>)
    ensures
        spec_symbol_id(r@, symbol) is Some <==> r@.contains(symbol),
{
}

} // verus!
