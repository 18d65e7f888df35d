//! Filtering shoes by size, and a small hand-driven counter.

use vstd::prelude::*;

verus! {

/// A shoe, by size and style.
#[derive(PartialEq, Debug)]
pub struct Shoe {
    pub size: u32,
    pub style: String,
}

/// The shoes of exactly the given size, in their original order.
pub fn shoes_in_my_size(shoes: Vec<Shoe>, shoe_size: u32) -> (r: Vec<Shoe>)
    ensures
        r@ == shoes@.filter(|s: Shoe| s.size == shoe_size),
{
    let ghost pred = |s: Shoe| s.size == shoe_size;
    let mut r: Vec<Shoe> = Vec::new();
    proof {
        reveal(Seq::filter);
        assert(shoes@.take(0).filter(pred) =~= r@);
    }
    let mut i: usize = 0;
    while i < shoes.len()
        invariant
            0 <= i <= shoes@.len(),
            pred == (|s: Shoe| s.size == shoe_size),
            r@ == shoes@.take(i as int).filter(pred),
        decreases shoes@.len() - i,
    {
        proof {
            reveal(Seq::filter);
            assert(shoes@.take(i + 1).drop_last() =~= shoes@.take(i as int));
            assert(shoes@.take(i + 1).last() == shoes@[i as int]);
        }
        let s = &shoes[i];
        if s.size == shoe_size {
            let moved = Shoe { size: s.size, style: s.style.clone() };
            proof {
                assert(moved == shoes@[i as int]);
            }
            r.push(moved);
        }
        i = i + 1;
    }
    proof {
        assert(shoes@.take(shoes@.len() as int) =~= shoes@);
    }
    r
}

/// A counter that yields the numbers one through five, then nothing.
pub struct Counter {
    count: u32,
}

impl Counter {
    /// How many times the counter has been advanced.
    pub closed spec fn spec_count(&self) -> u32 {
        self.count
    }

    /// A fresh counter.
    pub fn new() -> (r: Counter)
        ensures
            r.spec_count() == 0,
    {
        Counter { count: 0 }
    }

    /// Advances the counter: the first five calls yield one through
    /// five, every later call yields nothing.
    pub fn next(&mut self) -> (r: Option<u32>)
        requires
            old(self).spec_count() < u32::MAX,
        ensures
            final(self).spec_count() == old(self).spec_count() + 1,
            r == if old(self).spec_count() + 1 < 6 {
                Some((old(self).spec_count() + 1) as u32)
            } else {
                None::<u32>
            },
    {
        self.count += 1;

        if self.count < 6 {
            Some(self.count)
        } else {
            None
        }
    }
}

} // verus!
