//! The purchase log.
//!
//! A `Pocket` is an ordered, append-only record of purchased product names,
//! shared by all sessions behind a mutual-exclusion lock. `add_product` is
//! the one atomic mutation: under the lock it appends exactly one entry, so
//! no two concurrent appends can lose or duplicate an entry. `snapshot` and
//! `get_pocket` read a consistent copy that later appends cannot change.

use vstd::prelude::*;
use crate::text::{join_from, join_strings, views_of};

verus! {

/// An append-only collection of purchased product names.
pub struct Pocket {
    products: Vec<String>,
}

impl Pocket {
    /// The logged names as character sequences, oldest first.
    pub closed spec fn log(self) -> Seq<Seq<char>> {
        views_of(self.products@)
    }

    /// An empty pocket.
    pub fn new() -> (p: Pocket)
        ensures
            p.log() == Seq::<Seq<char>>::empty(),
    {
        let p = Pocket { products: Vec::new() };
        proof {
            assert(p.log() =~= Seq::<Seq<char>>::empty());
        }
        p
    }

    /// The atomic append: adds `product` at the end and changes nothing else.
    pub fn add_product(&mut self, product: String)
        ensures
            final(self).log() == old(self).log().push(product@),
    {
        self.products.push(product);
        proof {
            assert(self.log() =~= old(self).log().push(self.products@.last()@));
        }
    }

    /// A copy of the current contents, oldest first; the copy is unaffected
    /// by later appends.
    pub fn snapshot(&self) -> (r: Vec<String>)
        ensures
            views_of(r@) == self.log(),
    {
        let mut out: Vec<String> = Vec::new();
        let mut i: usize = 0;
        while i < self.products.len()
            invariant
                i <= self.log().len(),
                out@.len() == i,
                forall|j: int| 0 <= j < i ==> out@[j]@ == self.log()[j],
            decreases self.log().len() - i,
        {
            out.push(self.products[i].clone());
            i = i + 1;
        }
        proof {
            assert(views_of(out@) =~= self.log());
        }
        out
    }

    /// The contents of the pocket as a single comma-separated string.
    pub fn get_pocket(&self) -> (r: String)
        ensures
            r@ == join_from(self.log(), 0, ", "@),
    {
        join_strings(&self.products, ", ")
    }
}

} // verus!
