//! The scene aggregate and the nearest-hit search.

use vstd::prelude::*;

use crate::fx::Fx;
use crate::lights::Light;
use crate::objects::{obj_intersect, Object};
use crate::vector3::{Vec3V, Vector3};

verus! {

/// Mathematical model of a ray.
pub ghost struct RayV {
    pub origin: Vec3V,
    pub direction: Vec3V,
}

/// A half-line along which light is traced; `direction` is expected to be a
/// unit vector for distance comparisons to be meaningful.
#[derive(Clone, Copy, Debug)]
pub struct Ray {
    pub origin: Vector3,
    pub direction: Vector3,
}

impl View for Ray {
    type V = RayV;

    open spec fn view(&self) -> RayV {
        RayV { origin: self.origin@, direction: self.direction@ }
    }
}

/// A hit: the parametric distance along the ray and the index of the
/// primitive hit in the scene's list.
#[derive(Clone, Copy, Debug)]
pub struct Intersection {
    pub distance: Fx,
    pub item: usize,
}

/// The root aggregate: output raster size, lights, and primitives.
/// Read-only for the duration of a render.
pub struct Scene {
    pub width: u32,
    pub height: u32,
    pub lights: Vec<Light>,
    pub items: Vec<Object>,
}

/// Nearest hit among the first `n` primitives: the least intersection
/// distance, ties resolved to the earliest primitive in the list.
pub open spec fn nearest_upto(items: Seq<Object>, r: RayV, n: int) -> Option<(int, int)>
    decreases n,
{
    if n <= 0 {
        None
    } else {
        let prev = nearest_upto(items, r, n - 1);
        match obj_intersect(items[n - 1], r) {
            None => prev,
            Some(d) => match prev {
                None => Some((d, n - 1)),
                Some(p) => if d < p.0 {
                    Some((d, n - 1))
                } else {
                    prev
                },
            },
        }
    }
}

/// Nearest hit of the ray over the whole primitive list, as distance and index.
pub open spec fn nearest(items: Seq<Object>, r: RayV) -> Option<(int, int)> {
    nearest_upto(items, r, items.len() as int)
}

/// The primitive at index `j` either misses the ray or is hit no nearer
/// than `d`.
pub open spec fn no_closer_hit(items: Seq<Object>, r: RayV, d: int, j: int) -> bool {
    match obj_intersect(items[j], r) {
        Some(dj) => d <= dj,
        None => true,
    }
}

/// The primitive at index `j` either misses the ray or is hit strictly
/// farther than `d`.
pub open spec fn no_hit_within(items: Seq<Object>, r: RayV, d: int, j: int) -> bool {
    match obj_intersect(items[j], r) {
        Some(dj) => d < dj,
        None => true,
    }
}

proof fn lemma_nearest_upto_minimal(items: Seq<Object>, r: RayV, n: int)
    requires
        0 <= n <= items.len(),
    ensures
        match nearest_upto(items, r, n) {
            Some(p) => {
                &&& 0 <= p.1 < n
                &&& obj_intersect(items[p.1], r) == Some(p.0)
                &&& forall|j: int| 0 <= j < n ==> no_closer_hit(items, r, p.0, j)
                &&& forall|j: int| 0 <= j < p.1 ==> no_hit_within(items, r, p.0, j)
            },
            None => forall|j: int| 0 <= j < n ==> obj_intersect(items[j], r) is None,
        },
    decreases n,
{
    if n > 0 {
        lemma_nearest_upto_minimal(items, r, n - 1);
        match nearest_upto(items, r, n) {
            None => {},
            Some(p) => {
                assert forall|j: int| 0 <= j < n implies no_closer_hit(items, r, p.0, j) by {
                    if j < n - 1 {
                        match nearest_upto(items, r, n - 1) {
                            Some(q) => {
                                assert(no_closer_hit(items, r, q.0, j));
                            },
                            None => {
                                assert(obj_intersect(items[j], r) is None);
                            },
                        }
                    }
                }
                assert forall|j: int| 0 <= j < p.1 implies no_hit_within(items, r, p.0, j) by {
                    match nearest_upto(items, r, n - 1) {
                        Some(q) => {
                            if j < q.1 {
                                assert(no_hit_within(items, r, q.0, j));
                            } else {
                                assert(no_closer_hit(items, r, q.0, j));
                            }
                        },
                        None => {
                            assert(obj_intersect(items[j], r) is None);
                        },
                    }
                }
            },
        }
    }
}

/// The nearest-hit search returns a primitive that the ray hits, at the
/// least hit distance over the whole list, and ties go to the earliest
/// such primitive; it returns nothing only when every primitive misses.
pub proof fn lemma_nearest_minimal(items: Seq<Object>, r: RayV)
    ensures
        match nearest(items, r) {
            Some(p) => {
                &&& 0 <= p.1 < items.len()
                &&& obj_intersect(items[p.1], r) == Some(p.0)
                &&& forall|j: int| 0 <= j < items.len() ==> no_closer_hit(items, r, p.0, j)
                &&& forall|j: int| 0 <= j < p.1 ==> no_hit_within(items, r, p.0, j)
            },
            None => forall|j: int| 0 <= j < items.len() ==> obj_intersect(items[j], r) is None,
        },
{
    lemma_nearest_upto_minimal(items, r, items.len() as int);
}

impl Scene {
    /// Linear scan for the nearest hit of the ray across all primitives.
    pub fn send_ray(&self, ray: &Ray) -> (res: Option<Intersection>)
        ensures
            match res {
                Some(i) => nearest(self.items@, ray@) == Some((i.distance@, i.item as int))
                    && i.item < self.items@.len(),
                None => nearest(self.items@, ray@) is None,
            },
    {
        let mut best: Option<Intersection> = None;
        let mut idx: usize = 0;
        while idx < self.items.len()
            invariant
                idx <= self.items@.len(),
                match best {
                    Some(i) => nearest_upto(self.items@, ray@, idx as int) == Some(
                        (i.distance@, i.item as int),
                    ) && i.item < idx,
                    None => nearest_upto(self.items@, ray@, idx as int) is None,
                },
            decreases self.items@.len() - idx,
        {
            match self.items[idx].intersect(ray) {
                Some(d) => {
                    match best {
                        Some(b) => {
                            if d.bits < b.distance.bits {
                                best = Some(Intersection { distance: d, item: idx });
                            }
                        },
                        None => {
                            best = Some(Intersection { distance: d, item: idx });
                        },
                    }
                },
                None => {},
            }
            idx = idx + 1;
        }
        best
    }
}

} // verus!
