//! Registry of shared per-symbol order books, in the same order as the symbol registry.

use crate::hot_path::book::{book_new, book_symbol};
use orderbook_rs::DefaultOrderBook;
use std::sync::Arc;
use vstd::prelude::*;

verus! {

/// One shared order book per symbol, in registry order.
#[derive(Clone)]
pub struct BookRegistry {
    books: Arc<Vec<Arc<DefaultOrderBook>>>,
}

impl View for BookRegistry {
    type V = Seq<Arc<DefaultOrderBook>>;

    closed spec fn view(&self) -> Seq<Arc<DefaultOrderBook>> {
        (*self.books)@
    }
}

impl BookRegistry {
    /// An empty order book for each symbol, in the given (sorted) order.
    pub fn from_sorted_symbols(symbols: &[String]) -> (r: Self)
        ensures
            r@.len() == symbols@.len(),
            forall|i: int| 0 <= i < symbols@.len() ==> book_symbol(*#[trigger] r@[i]) == symbols@[i]@,
    {
        let mut books: Vec<Arc<DefaultOrderBook>> = Vec::new();
        for i in 0..symbols.len()
            invariant
                books@.len() == i,
                forall|j: int| 0 <= j < i ==> book_symbol(*#[trigger] books@[j]) == symbols@[j]@,
        {
            books.push(Arc::new(book_new(symbols[i].as_str())));
        }
        BookRegistry { books: Arc::new(books) }
    }

    /// The books, in registry order.
    pub fn books(&self) -> (r: &[Arc<DefaultOrderBook>])
        ensures
            r@ == self@,
    {
        self.books.as_slice()
    }

    /// The book of symbol `symbol_id`, if there is one.
    pub fn book_by_id(&self, symbol_id: u16) -> (r: Option<&Arc<DefaultOrderBook>>)
        ensures
            (symbol_id as int) < self@.len() ==> r == Some(&self@[symbol_id as int]),
            (symbol_id as int) >= self@.len() ==> r is None,
    {
        let i = symbol_id as usize;
        if i < self.books.len() {
            Some(&self.books[i])
        } else {
            None
        }
    }
}

} // verus!
