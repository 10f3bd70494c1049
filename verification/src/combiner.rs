//! Collecting a fixed number of values before acting on them as a group.

use vstd::prelude::*;

verus! {

/// `TryFrom<Vec<T>>` for `[T; K]`: the vector's items as an array, in the
/// same order. The vector holds exactly `K` items.
#[verifier::external_body]
fn into_array<T, const K: usize>(items: Vec<T>) -> (a: [T; K])
    requires
        items@.len() == K,
    ensures
        a@ == items@,
{
    <[T; K]>::try_from(items).ok().unwrap()
}

/// Collects exactly `K` values and then hands them out once, in the order
/// in which they came. What is offered after that is dropped.
pub struct Combiner<T, const K: usize> {
    quorum: Vec<T>,
    done: bool,
}

impl<T, const K: usize> Combiner<T, K> {
    /// The values collected and not yet handed out.
    pub closed spec fn collected(&self) -> Seq<T> {
        self.quorum@
    }

    /// Whether the `K` values have been handed out.
    pub closed spec fn exhausted(&self) -> bool {
        self.done
    }

    /// Fewer than `K` values are held, and none once the combiner is
    /// exhausted.
    pub open spec fn wf(&self) -> bool {
        &&& self.collected().len() < K
        &&& self.exhausted() ==> self.collected().len() == 0
    }

    /// A combiner that has collected nothing. `K` is at least 1.
    pub fn new() -> (c: Combiner<T, K>)
        requires
            K > 0,
        ensures
            c.wf(),
            c.collected() == Seq::<T>::empty(),
            !c.exhausted(),
    {
        Combiner { quorum: Vec::new(), done: false }
    }

    /// Adds `value`. The `K`-th value completes the collection, which is
    /// returned and leaves the combiner exhausted; before that, and ever
    /// after, the result is `None`.
    pub fn combine(&mut self, value: T) -> (r: Option<[T; K]>)
        requires
            old(self).wf(),
        ensures
            final(self).wf(),
            old(self).exhausted() ==> {
                &&& r is None
                &&& final(self).exhausted()
                &&& final(self).collected() == old(self).collected()
            },
            !old(self).exhausted() && old(self).collected().len() + 1 < K ==> {
                &&& r is None
                &&& !final(self).exhausted()
                &&& final(self).collected() == old(self).collected().push(value)
            },
            !old(self).exhausted() && old(self).collected().len() + 1 == K ==> {
                &&& r is Some
                &&& r.unwrap()@ == old(self).collected().push(value)
                &&& final(self).exhausted()
                &&& final(self).collected() == Seq::<T>::empty()
            },
    {
        if self.done {
            return None;
        }
        self.quorum.push(value);
        if self.quorum.len() == K {
            let mut result: Vec<T> = Vec::new();
            core::mem::swap(&mut result, &mut self.quorum);
            self.done = true;
            Some(into_array(result))
        } else {
            None
        }
    }
}

} // verus!
