//! A deferred-read handle for a value decoded out of a buffer. The handle
//! holds its own copy of the value (the buffer gives no alignment guarantee,
//! so materialising by copy is the portable form of the deferred load) and
//! hands it out on demand.

use vstd::prelude::*;

verus! {

/// A decoded value, materialised on demand via [`Chomp::inner`].
#[derive(Clone, Copy, Debug)]
pub struct Chomp<T>(T);

impl<T> Chomp<T> {
    /// The value this handle stands for.
    pub closed spec fn spec_inner(self) -> T {
        self.0
    }

    /// Wrap an owned, already-decoded value.
    pub(crate) fn of(value: T) -> (r: Self)
        ensures
            r.spec_inner() == value,
    {
        Chomp(value)
    }
}

impl<T: Copy> Chomp<T> {
    /// Make a handle for the value behind `value`.
    pub fn new(value: &T) -> (r: Self)
        ensures
            r.spec_inner() == *value,
    {
        Chomp(*value)
    }

    /// Materialise the value.
    pub fn inner(&self) -> (r: T)
        ensures
            r == self.spec_inner(),
    {
        self.0
    }
}

/// The views of the values a run of handles stands for.
pub open spec fn spec_chomp_views<T: View>(s: Seq<Chomp<T>>) -> Seq<T::V> {
    s.map_values(|c: Chomp<T>| c.spec_inner()@)
}

/// Collapse a run of handles into the plain values they stand for.
pub trait ChompFlatten<T> {
    /// The values the run stands for.
    spec fn spec_flatten(&self) -> Seq<T>;

    /// Materialise every handle, in order.
    fn flatten(&self) -> (r: Vec<T>)
        ensures
            r@ == self.spec_flatten(),
    ;
}

impl<T: Copy> ChompFlatten<T> for Vec<Chomp<T>> {
    open spec fn spec_flatten(&self) -> Seq<T> {
        self@.map_values(|c: Chomp<T>| c.spec_inner())
    }

    fn flatten(&self) -> (r: Vec<T>) {
        let mut r: Vec<T> = Vec::new();
        let mut i: usize = 0;
        while i < self.len()
            invariant
                i <= self@.len(),
                r@ == self@.take(i as int).map_values(|c: Chomp<T>| c.spec_inner()),
            decreases self@.len() - i,
        {
            let c: Chomp<T> = self[i];
            proof {
                assert(self@.take(i + 1) =~= self@.take(i as int).push(c));
                assert(self@.take(i + 1).map_values(|ch: Chomp<T>| ch.spec_inner()) =~= self@.take(
                    i as int,
                ).map_values(|ch: Chomp<T>| ch.spec_inner()).push(c.spec_inner()));
            }
            r.push(c.inner());
            i = i + 1;
        }
        proof {
            assert(self@.take(self@.len() as int) =~= self@);
        }
        r
    }
}

} // verus!
