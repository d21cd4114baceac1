//! Facet storage: one value per column, or one per voxel, of a region.

use crate::extent::{Extent3, Point3};
use vstd::prelude::*;

verus! {

/// The columns of `region` as a flat box: one layer at height 0 with the
/// region's footprint.
pub open spec fn footprint(region: Extent3) -> Extent3 {
    Extent3 {
        minimum: Point3 { x: region.minimum.x, y: 0, z: region.minimum.z },
        shape: Point3 { x: region.shape.x, y: 1, z: region.shape.z },
    }
}

/// The columns of `region` as a flat box.
pub fn columns(region: Extent3) -> (plane: Extent3)
    ensures
        plane == footprint(region),
{
    Extent3 {
        minimum: Point3 { x: region.minimum.x, y: 0, z: region.minimum.z },
        shape: Point3 { x: region.shape.x, y: 1, z: region.shape.z },
    }
}

fn filled<T: Copy>(n: usize, value: T) -> (v: Vec<T>)
    ensures
        v@ == Seq::new(n as nat, |i: int| value),
{
    let mut v: Vec<T> = Vec::new();
    let mut i: usize = 0;
    while i < n
        invariant
            i <= n,
            v@ == Seq::new(i as nat, |j: int| value),
        decreases n - i,
    {
        v.push(value);
        i += 1;
        assert(v@ =~= Seq::new(i as nat, |j: int| value));
    }
    v
}

/// A field over the horizontal plane: one value for each column of a region.
pub struct Facet2D<T> {
    plane: Extent3,
    data: Vec<T>,
}

impl<T: Copy> Facet2D<T> {
    /// The columns covered, as a one-layer box at height 0.
    pub closed spec fn plane(&self) -> Extent3 {
        self.plane
    }

    /// The value of the column through `(x, z)`.
    pub closed spec fn at(&self, x: int, z: int) -> T {
        self.data@[(z - self.plane.minimum.z) * self.plane.shape.x + (x - self.plane.minimum.x)]
    }

    /// Whether the column through `(x, z)` is covered.
    pub open spec fn has(&self, x: int, z: int) -> bool {
        &&& self.plane().minimum.x <= x < self.plane().minimum.x + self.plane().shape.x
        &&& self.plane().minimum.z <= z < self.plane().minimum.z + self.plane().shape.z
    }

    /// There is one stored value for each column.
    pub closed spec fn wf(&self) -> bool {
        &&& self.plane.valid()
        &&& self.plane.minimum.y == 0
        &&& self.plane.shape.y == 1
        &&& self.data@.len() == self.plane.volume()
    }

    proof fn lemma_index(&self, x: int, z: int)
        requires
            self.wf(),
            self.has(x, z),
        ensures
            self.plane.has(Point3 { x: x as i32, y: 0, z: z as i32 }),
            self.plane.offset(Point3 { x: x as i32, y: 0, z: z as i32 }) == (z
                - self.plane.minimum.z) * self.plane.shape.x + (x - self.plane.minimum.x),
            0 <= (z - self.plane.minimum.z) * self.plane.shape.x + (x - self.plane.minimum.x)
                < self.data@.len(),
    {
        let p = Point3 { x: x as i32, y: 0, z: z as i32 };
        self.plane.lemma_offset_bound(p);
        assert(((z - self.plane.minimum.z) * 1 + 0) * self.plane.shape.x == (z
            - self.plane.minimum.z) * self.plane.shape.x) by (nonlinear_arith);
    }

    /// A field over the columns of `region` that holds `value` everywhere.
    pub fn new(region: Extent3, value: T) -> (f: Facet2D<T>)
        requires
            footprint(region).valid(),
        ensures
            f.wf(),
            f.plane() == footprint(region),
            forall|x: int, z: int| f.has(x, z) ==> f.at(x, z) == value,
    {
        let plane = columns(region);
        let n = plane.num_points();
        let f = Facet2D { plane, data: filled(n, value) };
        assert forall|x: int, z: int| f.has(x, z) implies f.at(x, z) == value by {
            f.lemma_index(x, z);
        }
        f
    }

    /// A field over the columns of `region` with the given values, listed row
    /// by row: `x` runs fastest, then `z`. `None` when the number of values is
    /// not the number of columns.
    pub fn from_values(region: Extent3, values: Vec<T>) -> (r: Option<Facet2D<T>>)
        requires
            footprint(region).valid(),
        ensures
            r is Some <==> values@.len() == footprint(region).volume(),
            r matches Some(f) ==> {
                &&& f.wf()
                &&& f.plane() == footprint(region)
                &&& forall|x: int, z: int|
                    f.has(x, z) ==> f.at(x, z) == values@[(z - region.minimum.z) * region.shape.x
                        + (x - region.minimum.x)]
            },
    {
        let plane = columns(region);
        if values.len() != plane.num_points() {
            return None;
        }
        Some(Facet2D { plane, data: values })
    }

    /// The columns covered, as a one-layer box at height 0.
    pub fn extent(&self) -> (e: Extent3)
        ensures
            e == self.plane(),
    {
        self.plane
    }

    /// Whether the column through `(x, z)` is covered.
    pub fn contains(&self, x: i32, z: i32) -> (r: bool)
        requires
            self.wf(),
        ensures
            r == self.has(x as int, z as int),
    {
        self.plane.contains(Point3 { x, y: 0, z })
    }

    /// The value of the column through `(x, z)`.
    pub fn get(&self, x: i32, z: i32) -> (v: T)
        requires
            self.wf(),
            self.has(x as int, z as int),
        ensures
            v == self.at(x as int, z as int),
    {
        proof {
            self.lemma_index(x as int, z as int);
        }
        let i = self.plane.offset_of(Point3 { x, y: 0, z });
        self.data[i]
    }

    /// Stores `value` for the column through `(x, z)`; every other column
    /// keeps its value.
    pub fn set(&mut self, x: i32, z: i32, value: T)
        requires
            old(self).wf(),
            old(self).has(x as int, z as int),
        ensures
            final(self).wf(),
            final(self).plane() == old(self).plane(),
            final(self).at(x as int, z as int) == value,
            forall|a: int, b: int|
                old(self).has(a, b) && !(a == x && b == z) ==> final(self).at(a, b) == old(self).at(
                    a,
                    b,
                ),
    {
        proof {
            self.lemma_index(x as int, z as int);
        }
        let p = Point3 { x, y: 0, z };
        let i = self.plane.offset_of(p);
        self.data.set(i, value);
        proof {
            assert forall|a: int, b: int|
                old(self).has(a, b) && !(a == x && b == z) implies final(self).at(a, b) == old(
                self,
            ).at(a, b) by {
                let q = Point3 { x: a as i32, y: 0, z: b as i32 };
                old(self).lemma_index(a, b);
                self.plane.lemma_point_at_of_offset(p);
                self.plane.lemma_point_at_of_offset(q);
            }
        }
    }
}

/// A field over a volume: one value for each voxel of a region.
pub struct Facet3D<T> {
    region: Extent3,
    data: Vec<T>,
}

impl<T: Copy> Facet3D<T> {
    /// The box of voxels covered.
    pub closed spec fn region(&self) -> Extent3 {
        self.region
    }

    /// The value stored for `p`.
    pub closed spec fn at(&self, p: Point3) -> T {
        self.data@[self.region.offset(p)]
    }

    /// There is one stored value for each voxel of a valid box.
    pub closed spec fn wf(&self) -> bool {
        &&& self.region.valid()
        &&& self.data@.len() == self.region.volume()
    }

    /// The covered box of a well-formed field is valid.
    pub proof fn lemma_region_valid(&self)
        requires
            self.wf(),
        ensures
            self.region().valid(),
    {
    }

    /// A field over `region` that holds `value` everywhere.
    pub fn new(region: Extent3, value: T) -> (f: Facet3D<T>)
        requires
            region.valid(),
        ensures
            f.wf(),
            f.region() == region,
            forall|p: Point3| region.has(p) ==> f.at(p) == value,
    {
        let n = region.num_points();
        let f = Facet3D { region, data: filled(n, value) };
        assert forall|p: Point3| region.has(p) implies f.at(p) == value by {
            region.lemma_offset_bound(p);
        }
        f
    }

    /// A field over `region` with the given values, listed in row-major order:
    /// `x` runs fastest, then `y`, then `z`. `None` when the number of values
    /// is not the number of voxels.
    pub fn from_values(region: Extent3, values: Vec<T>) -> (r: Option<Facet3D<T>>)
        requires
            region.valid(),
        ensures
            r is Some <==> values@.len() == region.volume(),
            r matches Some(f) ==> {
                &&& f.wf()
                &&& f.region() == region
                &&& forall|p: Point3| region.has(p) ==> f.at(p) == values@[region.offset(p)]
            },
    {
        if values.len() != region.num_points() {
            return None;
        }
        Some(Facet3D { region, data: values })
    }

    /// The box of voxels covered.
    pub fn extent(&self) -> (e: Extent3)
        ensures
            e == self.region(),
    {
        self.region
    }

    /// Whether `p` is covered.
    pub fn contains(&self, p: Point3) -> (r: bool)
        requires
            self.wf(),
        ensures
            r == self.region().has(p),
    {
        self.region.contains(p)
    }

    /// The value stored for `p`.
    pub fn get(&self, p: Point3) -> (v: T)
        requires
            self.wf(),
            self.region().has(p),
        ensures
            v == self.at(p),
    {
        let i = self.region.offset_of(p);
        self.data[i]
    }

    /// Stores `value` for `p`; every other voxel keeps its value.
    pub fn set(&mut self, p: Point3, value: T)
        requires
            old(self).wf(),
            old(self).region().has(p),
        ensures
            final(self).wf(),
            final(self).region() == old(self).region(),
            final(self).at(p) == value,
            forall|q: Point3|
                old(self).region().has(q) && q != p ==> final(self).at(q) == old(self).at(q),
    {
        let i = self.region.offset_of(p);
        self.data.set(i, value);
        proof {
            assert forall|q: Point3| old(self).region().has(q) && q != p implies final(self).at(q)
                == old(self).at(q) by {
                self.region.lemma_offset_bound(q);
                self.region.lemma_point_at_of_offset(p);
                self.region.lemma_point_at_of_offset(q);
            }
        }
    }
}

} // verus!
