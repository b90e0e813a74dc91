//! A window over a slice: each element together with what follows it.
use vstd::prelude::*;
use vstd::slice::slice_subrange;

verus! {

/// Walks a slice, yielding each element with the remainder strictly after it
/// (`None` for the last element).
pub struct Slide<'a, T> {
    v: &'a [T],
    pos: usize,
}

impl<'a, T> Slide<'a, T> {
    /// The elements being walked.
    pub closed spec fn items(&self) -> Seq<T> {
        self.v@
    }

    /// How many elements have been yielded so far.
    pub closed spec fn position(&self) -> nat {
        self.pos as nat
    }

    /// The position never passes the end of the slice.
    pub open spec fn wf(&self) -> bool {
        self.position() <= self.items().len()
    }

    /// Yields the next element and the remainder after it, or `None` once
    /// every element has been yielded.
    pub fn next(&mut self) -> (r: Option<(&'a T, Option<&'a [T]>)>)
        requires
            old(self).wf(),
        ensures
            final(self).wf(),
            final(self).items() == old(self).items(),
            old(self).position() < old(self).items().len() ==> {
                let p = old(self).position() as int;
                let n = old(self).items().len() as int;
                &&& r is Some
                &&& *r.unwrap().0 == old(self).items()[p]
                &&& final(self).position() == p + 1
                &&& p + 1 < n ==> r.unwrap().1 is Some && r.unwrap().1.unwrap()@ == old(self).items().subrange(p + 1, n)
                &&& p + 1 >= n ==> r.unwrap().1 is None
            },
            old(self).position() >= old(self).items().len() ==> r is None && final(self).position()
                == old(self).position(),
    {
        if self.pos < self.v.len() {
            let val = &self.v[self.pos];
            self.pos = self.pos + 1;
            if self.v.len() > self.pos {
                Some((val, Some(slice_subrange(self.v, self.pos, self.v.len()))))
            } else {
                Some((val, None))
            }
        } else {
            None
        }
    }

    /// The exact number of elements still to be yielded, as a lower and an
    /// upper bound.
    pub fn size_hint(&self) -> (r: (usize, Option<usize>))
        requires
            self.wf(),
        ensures
            r.0 == self.items().len() - self.position(),
            r.1 == Some(r.0),
    {
        let diff = self.v.len() - self.pos;
        (diff, Some(diff))
    }
}

/// Anything that can be walked by a [`Slide`].
pub trait Slider<'a, T> {
    /// The elements that a walk visits, in order.
    spec fn elements(&self) -> Seq<T>;

    /// Starts a walk at the first element.
    fn slide(&'a self) -> (r: Slide<'a, T>)
        ensures
            r.wf(),
            r.items() == self.elements(),
            r.position() == 0,
    ;
}

impl<'a, T> Slider<'a, T> for &'a [T] {
    open spec fn elements(&self) -> Seq<T> {
        (*self)@
    }

    fn slide(&'a self) -> (r: Slide<'a, T>) {
        Slide { v: *self, pos: 0 }
    }
}

impl<'a, T> Slider<'a, T> for Vec<T> {
    open spec fn elements(&self) -> Seq<T> {
        self@
    }

    fn slide(&'a self) -> (r: Slide<'a, T>) {
        Slide { v: self.as_slice(), pos: 0 }
    }
}

} // verus!
