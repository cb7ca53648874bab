//! Ray-parameter hits against referenced objects, and the ordered selection
//! of the visually relevant one.
//!
//! An [`Intersection`] borrows the object it hit; intersections are transient
//! query results and never own the scene. An [`Intersections`] collection
//! keeps its entries in insertion order for positional access, while
//! [`Intersections::hit`] selects the smallest non-negative ray parameter.

use vstd::prelude::*;
use crate::ray::Ray;
use crate::scalar::Scalar;
use crate::tuple::Tuple;

verus! {

/// An object a ray can hit, reporting a borrowed reference to itself on each
/// resulting intersection, and answering surface-normal queries.
///
/// Each implementor states through the spec functions when its queries are
/// meaningful and exactly what they return.
pub trait Intersect<T> {
    /// When an intersection query is meaningful for this object.
    spec fn intersect_pre(&self, ray: Ray) -> bool;

    /// What the returned collection of intersections holds.
    spec fn intersect_post(&self, ray: Ray, r: Intersections<'_, T>) -> bool;

    /// When a surface-normal query is meaningful for this object.
    spec fn normal_pre(&self, point: Tuple) -> bool;

    /// What the returned surface normal is.
    spec fn normal_post(&self, point: Tuple, r: Tuple) -> bool;

    /// All intersections of the ray with this object.
    fn intersect<'a>(&'a self, ray: &Ray) -> (r: Intersections<'a, T>)
        requires
            self.intersect_pre(*ray),
        ensures
            self.intersect_post(*ray, r),
    ;

    /// The surface normal at a world-space point of this object.
    fn normal_at(&self, point: Tuple) -> (r: Tuple)
        requires
            self.normal_pre(point),
        ensures
            self.normal_post(point, r),
    ;
}

/// One hit: the borrowed object and the ray parameter at which it was hit.
#[derive(Debug, Clone, Copy, PartialEq)]
pub struct Intersection<'a, T> {
    pub object: &'a T,
    pub point: Scalar,
}

impl<'a, T> Intersection<'a, T> {
    /// A hit of `object` at ray parameter `point`.
    pub fn new(object: &'a T, point: Scalar) -> (r: Intersection<'a, T>)
        ensures
            r.object == object,
            r.point == point,
    {
        Intersection { object, point }
    }

    /// The borrowed object.
    pub fn object(&self) -> (r: &'a T)
        ensures
            r == self.object,
    {
        self.object
    }

    /// The ray parameter.
    pub fn point(&self) -> (r: Scalar)
        ensures
            r == self.point,
    {
        self.point
    }
}

/// A collection of intersections in insertion order.
pub struct Intersections<'a, T> {
    pub elems: Vec<Intersection<'a, T>>,
}

impl<'a, T> Intersections<'a, T> {
    /// A collection holding the given intersections, in order.
    pub fn new(intersections: Vec<Intersection<'a, T>>) -> (r: Intersections<'a, T>)
        ensures
            r.elems@ == intersections@,
    {
        Intersections { elems: intersections }
    }

    /// An empty collection.
    pub fn new_empty() -> (r: Intersections<'a, T>)
        ensures
            r.elems@.len() == 0,
    {
        Intersections { elems: Vec::new() }
    }

    /// An empty collection with room reserved for `capacity` entries.
    pub fn with_capacity(capacity: usize) -> (r: Intersections<'a, T>)
        ensures
            r.elems@.len() == 0,
    {
        Intersections { elems: Vec::with_capacity(capacity) }
    }

    /// Record one more intersection, after all earlier ones.
    pub fn add_point(&mut self, intersection: Intersection<'a, T>)
        ensures
            final(self).elems@ == old(self).elems@.push(intersection),
    {
        self.elems.push(intersection);
    }

    /// How many intersections are recorded.
    pub fn len(&self) -> (r: usize)
        ensures
            r == self.elems@.len(),
    {
        self.elems.len()
    }

    /// The intersection at an in-bounds position, in insertion order.
    pub fn get(&self, idx: usize) -> (r: &Intersection<'a, T>)
        requires
            idx < self.elems@.len(),
        ensures
            *r == self.elems@[idx as int],
    {
        vstd::std_specs::vec::vec_index(&self.elems, idx)
    }

    /// The visually relevant hit: among the recorded intersections with a
    /// non-negative ray parameter, one with the smallest parameter; `None`
    /// exactly when every recorded parameter is negative.
    pub fn hit(&self) -> (r: Option<&Intersection<'a, T>>)
        ensures
            match r {
                None => forall|k: int|
                    0 <= k < self.elems@.len() ==> (#[trigger] self.elems@[k]).point@ < 0,
                Some(i) => {
                    &&& i.point@ >= 0
                    &&& exists|k: int|
                        0 <= k < self.elems@.len() && #[trigger] self.elems@[k] == *i
                    &&& forall|k: int|
                        0 <= k < self.elems@.len() && (#[trigger] self.elems@[k]).point@ >= 0
                            ==> i.point@ <= self.elems@[k].point@
                },
            },
    {
        let n = self.elems.len();
        let mut best: Option<usize> = None;
        let mut k: usize = 0;
        while k < n
            invariant
                n == self.elems@.len(),
                k <= n,
                match best {
                    None => forall|l: int|
                        0 <= l < k ==> (#[trigger] self.elems@[l]).point@ < 0,
                    Some(b) => {
                        &&& b < k
                        &&& self.elems@[b as int].point@ >= 0
                        &&& forall|l: int|
                            0 <= l < k && (#[trigger] self.elems@[l]).point@ >= 0 ==> self.elems@[
                                b as int
                            ].point@ <= self.elems@[l].point@
                    },
                },
            decreases n - k,
        {
            let t = vstd::std_specs::vec::vec_index(&self.elems, k).point;
            if t.millionths() >= 0 {
                match best {
                    None => {
                        best = Some(k);
                    },
                    Some(b) => {
                        if t.millionths() < vstd::std_specs::vec::vec_index(
                            &self.elems,
                            b,
                        ).point.millionths() {
                            best = Some(k);
                        }
                    },
                }
            }
            k = k + 1;
        }
        match best {
            None => None,
            Some(b) => Some(vstd::std_specs::vec::vec_index(&self.elems, b)),
        }
    }
}

} // verus!
