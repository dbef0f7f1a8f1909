//! A counter that yields one to five, and a filter over shoes.
use vstd::prelude::*;

verus! {

/// A source of items, one at a time.
pub trait Iterator {
    /// What is yielded.
    type Item;

    /// The next item, or `None` when there is none.
    fn next(&mut self) -> Option<Self::Item>;
}

/// Counts from one to five, then stops.
pub struct Counter {
    count: u32,
}

impl Counter {
    /// How far the counter has gone: the last number yielded, or six once exhausted.
    pub closed spec fn count(&self) -> nat {
        self.count as nat
    }

    /// A counter that has yielded nothing.
    pub fn new() -> (c: Counter)
        ensures
            c.count() == 0,
    {
        Counter { count: 0 }
    }

    /// The next number: one more than the last, while that is below six.
    pub fn next(&mut self) -> (r: Option<u32>)
        ensures
            old(self).count() < 5 ==> r == Some((old(self).count() + 1) as u32),
            old(self).count() < 5 ==> final(self).count() == old(self).count() + 1,
            old(self).count() >= 5 ==> r is None,
            old(self).count() == 5 ==> final(self).count() == 6,
            old(self).count() >= 6 ==> final(self).count() == old(self).count(),
    {
        if self.count < 6 {
            self.count = self.count + 1;
        }
        if self.count < 6 {
            Some(self.count)
        } else {
            None
        }
    }
}

impl Iterator for Counter {
    type Item = u32;

    fn next(&mut self) -> Option<u32> {
        Counter::next(self)
    }
}

/// A shoe on the shelf.
#[derive(PartialEq, Debug)]
pub struct Shoe {
    pub size: u32,
    pub style: String,
}

/// The shoes of `shoe_size`, in the order given.
pub fn shoes_in_my_size(shoes: Vec<Shoe>, shoe_size: u32) -> (r: Vec<Shoe>)
    ensures
        r@ == shoes@.filter(|s: Shoe| s.size == shoe_size),
{
    let ghost all = shoes@;
    let ghost keep = |s: Shoe| s.size == shoe_size;
    let mut rest = shoes;
    let mut r: Vec<Shoe> = Vec::new();
    let ghost mut i: int = 0;
    while rest.len() > 0
        invariant
            0 <= i <= all.len(),
            keep == (|s: Shoe| s.size == shoe_size),
            rest@ == all.skip(i),
            r@ == all.take(i).filter(keep),
        decreases rest.len(),
    {
        let s = rest.remove(0);
        proof {
            assert(s == all[i]);
            assert(all.take(i + 1) =~= all.take(i).push(all[i]));
            all.take(i).lemma_filter_push(all[i], keep);
            assert(rest@ =~= all.skip(i + 1));
        }
        if s.size == shoe_size {
            r.push(s);
        }
        proof {
            i = i + 1;
        }
    }
    proof {
        assert(all.take(i) =~= all);
    }
    r
}

} // verus!
