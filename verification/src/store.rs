//! The product catalog.
//!
//! A `Store` is an immutable mapping from product name to price, built once
//! before any session starts and only read afterwards, so sessions may
//! consult it concurrently without a lock. Looking up an unknown name is a
//! recoverable per-session condition, reported as `ShopError::ProductNotFound`.

use vstd::prelude::*;
use crate::text::{dec_seq, join_from, str_eq, u32_to_string};

verus! {

/// The per-session error conditions a shopping command can raise.
#[derive(Clone, Copy, PartialEq, Eq, Structural, Debug)]
pub enum ShopError {
    /// The requested product is not in the catalog.
    ProductNotFound,
}

/// An immutable product-name-to-price table.
pub struct Store {
    products: Vec<(String, i32)>,
}

/// Catalog well-formedness over raw entries: names unique, prices non-negative.
pub open spec fn entries_wf(entries: Seq<(String, i32)>) -> bool {
    &&& forall|i: int, j: int| 0 <= i < j < entries.len() ==> entries[i].0@ != entries[j].0@
    &&& forall|i: int| 0 <= i < entries.len() ==> entries[i].1 >= 0
}

/// The price of `name` among the catalog entries from position `i` on:
/// the price of the first entry whose name matches, if any.
pub open spec fn lookup_from(entries: Seq<(String, i32)>, i: int, name: Seq<char>) -> Option<int>
    decreases entries.len() - i,
{
    if i < 0 || i >= entries.len() {
        None
    } else if entries[i].0@ == name {
        Some(entries[i].1 as int)
    } else {
        lookup_from(entries, i + 1, name)
    }
}

/// One line of the catalog listing per entry from position `i` on:
/// the name, a tab, the decimal price, a newline.
pub open spec fn listing_from(entries: Seq<(String, i32)>, i: int) -> Seq<char>
    decreases entries.len() - i,
{
    if i < 0 || i >= entries.len() {
        Seq::empty()
    } else {
        entries[i].0@ + seq!['\t'] + dec_seq(entries[i].1 as nat) + seq!['\n'] + listing_from(
            entries,
            i + 1,
        )
    }
}

/// A successful lookup among non-negative prices yields a non-negative price.
pub proof fn lemma_lookup_price_nonneg(entries: Seq<(String, i32)>, i: int, name: Seq<char>)
    requires
        forall|k: int| 0 <= k < entries.len() ==> entries[k].1 >= 0,
    ensures
        lookup_from(entries, i, name) matches Some(p) ==> p >= 0,
    decreases entries.len() - i,
{
    if 0 <= i < entries.len() && entries[i].0@ != name {
        lemma_lookup_price_nonneg(entries, i + 1, name);
    }
}

impl Store {
    /// The catalog contents, in construction order.
    pub closed spec fn entries(self) -> Seq<(String, i32)> {
        self.products@
    }

    /// The price of `name`, if the catalog has it.
    pub open spec fn price_of(self, name: Seq<char>) -> Option<int> {
        lookup_from(self.entries(), 0, name)
    }

    /// Catalog invariant: names are unique and prices non-negative.
    pub open spec fn wf(self) -> bool {
        entries_wf(self.entries())
    }

    /// The fixed default catalog.
    pub fn new() -> (s: Store)
        ensures
            s.entries().len() == 4,
            s.entries()[0].0@ == "candies"@ && s.entries()[0].1 == 1,
            s.entries()[1].0@ == "car"@ && s.entries()[1].1 == 30000,
            s.entries()[2].0@ == "pen"@ && s.entries()[2].1 == 40,
            s.entries()[3].0@ == "book"@ && s.entries()[3].1 == 100,
            s.wf(),
    {
        let mut products: Vec<(String, i32)> = Vec::new();
        products.push(("candies".to_owned(), 1));
        products.push(("car".to_owned(), 30000));
        products.push(("pen".to_owned(), 40));
        products.push(("book".to_owned(), 100));
        let s = Store { products };
        proof {
            reveal_strlit("candies");
            reveal_strlit("car");
            reveal_strlit("pen");
            reveal_strlit("book");
            assert(s.wf()) by {
                assert(forall|i: int, j: int|
                    0 <= i < j < s.entries().len() ==> s.entries()[i].0@ != s.entries()[j].0@)
                    by {
                    assert("candies"@.len() == 7);
                    assert("car"@.len() == 3);
                    assert("pen"@.len() == 3);
                    assert("book"@.len() == 4);
                    assert("car"@[0] == 'c');
                    assert("pen"@[0] == 'p');
                    assert("book"@[0] == 'b');
                };
            };
        }
        s
    }

    /// A catalog built from caller-supplied entries; `None` when a name
    /// repeats or a price is negative.
    pub fn from_entries(products: Vec<(String, i32)>) -> (r: Option<Store>)
        ensures
            match r {
                Some(s) => {
                    &&& s.entries() == products@
                    &&& s.wf()
                },
                None => !entries_wf(products@),
            },
    {
        let ghost entries = products@;
        let mut i: usize = 0;
        while i < products.len()
            invariant
                i <= entries.len(),
                entries == products@,
                forall|p: int, q: int| 0 <= p < q < i ==> entries[p].0@ != entries[q].0@,
                forall|p: int| 0 <= p < i ==> entries[p].1 >= 0,
            decreases entries.len() - i,
        {
            if products[i].1 < 0 {
                return None;
            }
            let mut j: usize = 0;
            while j < i
                invariant
                    j <= i < entries.len(),
                    entries == products@,
                    forall|p: int| 0 <= p < j ==> entries[p].0@ != entries[i as int].0@,
                decreases i - j,
            {
                if str_eq(products[j].0.as_str(), products[i].0.as_str()) {
                    return None;
                }
                j = j + 1;
            }
            i = i + 1;
        }
        Some(Store { products })
    }

    /// The product list as one string, one `name<TAB>price` line per entry.
    pub fn as_string(&self) -> (r: String)
        requires
            self.wf(),
        ensures
            r@ == listing_from(self.entries(), 0),
    {
        self.listing_rec(0)
    }

    /// Renders the catalog lines from position `i` on.
    fn listing_rec(&self, i: usize) -> (r: String)
        requires
            forall|k: int| 0 <= k < self.entries().len() ==> self.entries()[k].1 >= 0,
        ensures
            r@ == listing_from(self.entries(), i as int),
        decreases self.entries().len() - i,
    {
        if i >= self.products.len() {
            let s = String::new();
            proof {
                assert(s@ =~= listing_from(self.entries(), i as int));
            }
            s
        } else {
            let mut s = self.products[i].0.clone();
            s.append("\t");
            let price = self.products[i].1;
            let digits = u32_to_string(price as u32);
            s.append(digits.as_str());
            s.append("\n");
            let rest = self.listing_rec(i + 1);
            s.append(rest.as_str());
            proof {
                reveal_strlit("\t");
                reveal_strlit("\n");
                assert("\t"@ =~= seq!['\t']);
                assert("\n"@ =~= seq!['\n']);
                assert(s@ =~= listing_from(self.entries(), i as int));
            }
            s
        }
    }

    /// The price of `product`, or `ProductNotFound` for a name the catalog
    /// does not have.
    pub fn get_product_price(&self, product: &str) -> (r: Result<i32, ShopError>)
        ensures
            match r {
                Ok(price) => self.price_of(product@) == Some(price as int),
                Err(e) => e == ShopError::ProductNotFound && self.price_of(product@).is_none(),
            },
    {
        self.price_rec(0, product)
    }

    /// Scans the entries from position `i` on for `product`.
    fn price_rec(&self, i: usize, product: &str) -> (r: Result<i32, ShopError>)
        ensures
            match r {
                Ok(price) => lookup_from(self.entries(), i as int, product@) == Some(price as int),
                Err(e) => e == ShopError::ProductNotFound && lookup_from(
                    self.entries(),
                    i as int,
                    product@,
                ).is_none(),
            },
        decreases self.entries().len() - i,
    {
        if i >= self.products.len() {
            Err(ShopError::ProductNotFound)
        } else if str_eq(self.products[i].0.as_str(), product) {
            Ok(self.products[i].1)
        } else {
            self.price_rec(i + 1, product)
        }
    }
}

} // verus!
