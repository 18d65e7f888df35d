//! Memoization of a calculation behind a hash table: each argument is
//! computed at most once, later calls are served from the cache.

use std::collections::HashMap;
use vstd::prelude::*;

verus! {

broadcast use vstd::std_specs::hash::group_hash_axioms;

/// A memoizing wrapper around a calculation.
pub struct Cacher<T> where T: Fn(u32) -> u32 {
    calculation: T,
    values: HashMap<u32, u32>,
}

impl<T> Cacher<T> where T: Fn(u32) -> u32 {
    /// The wrapped calculation.
    pub closed spec fn spec_calculation(&self) -> T {
        self.calculation
    }

    /// The memo table built so far.
    pub closed spec fn cache(&self) -> Map<u32, u32> {
        self.values@
    }

    /// Every cached value is one the calculation could have returned for
    /// its key.
    pub open spec fn wf(&self) -> bool {
        forall|k: u32, v: u32| #[trigger]
            self.cache().contains_pair(k, v) ==> call_ensures(self.spec_calculation(), (k,), v)
    }

    /// Wraps a calculation with an empty cache.
    pub fn new(calculation: T) -> (r: Cacher<T>)
        ensures
            r.wf(),
            r.spec_calculation() == calculation,
            r.cache() == Map::<u32, u32>::empty(),
    {
        Cacher { calculation, values: HashMap::new() }
    }

    /// The calculation's result for `arg`: computed on the first call,
    /// replayed from the cache on every later one.
    pub fn value(&mut self, arg: u32) -> (r: u32)
        requires
            old(self).wf(),
            call_requires(old(self).spec_calculation(), (arg,)),
        ensures
            final(self).wf(),
            final(self).spec_calculation() == old(self).spec_calculation(),
            call_ensures(final(self).spec_calculation(), (arg,), r),
            old(self).cache().contains_key(arg) ==> r == old(self).cache()[arg]
                && final(self).cache() == old(self).cache(),
            !old(self).cache().contains_key(arg) ==> final(self).cache()
                == old(self).cache().insert(arg, r),
    {
        match self.values.get(&arg) {
            Some(v) => {
                let r = *v;
                proof {
                    assert(self.cache().contains_pair(arg, r));
                }
                r
            },
            None => {
                let v = (self.calculation)(arg);
                self.values.insert(arg, v);
                proof {
                    assert forall|k: u32, w: u32| #[trigger]
                        self.cache().contains_pair(k, w) implies call_ensures(
                        self.spec_calculation(),
                        (k,),
                        w,
                    ) by {
                        if k != arg {
                            assert(old(self).cache().contains_pair(k, w));
                        }
                    }
                }
                v
            },
        }
    }
}

} // verus!
