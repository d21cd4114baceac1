//! Integer lattice points and axis-aligned boxes of them.

use vstd::prelude::*;

verus! {

/// A point of the integer lattice.
#[derive(Clone, Copy, Debug, PartialEq, Eq, Structural, Hash)]
pub struct Point3 {
    pub x: i32,
    pub y: i32,
    pub z: i32,
}

impl Point3 {
    pub fn new(x: i32, y: i32, z: i32) -> (p: Point3)
        ensures
            p == (Point3 { x, y, z }),
    {
        Point3 { x, y, z }
    }

    /// The point with the given `[x, y, z]` components.
    pub fn from_array(a: [i32; 3]) -> (p: Point3)
        ensures
            p == (Point3 { x: a[0], y: a[1], z: a[2] }),
    {
        Point3 { x: a[0], y: a[1], z: a[2] }
    }

    /// The components as `[x, y, z]`.
    pub fn to_array(&self) -> (a: [i32; 3])
        ensures
            a[0] == self.x,
            a[1] == self.y,
            a[2] == self.z,
    {
        [self.x, self.y, self.z]
    }
}

/// A box of lattice points: in each dimension the half-open interval from
/// `minimum` to `minimum + shape`.
#[derive(Clone, Copy, Debug, PartialEq, Eq, Structural)]
pub struct Extent3 {
    /// The least point of the box.
    pub minimum: Point3,
    /// The length of the box in each dimension.
    pub shape: Point3,
}

impl Extent3 {
    /// The number of points in the box.
    pub open spec fn volume(self) -> int {
        self.shape.x * self.shape.y * self.shape.z
    }

    /// A box with no negative length whose upper corner lies inside `i32`.
    pub open spec fn bounded(self) -> bool {
        &&& 0 <= self.shape.x
        &&& 0 <= self.shape.y
        &&& 0 <= self.shape.z
        &&& self.minimum.x + self.shape.x <= i32::MAX
        &&& self.minimum.y + self.shape.y <= i32::MAX
        &&& self.minimum.z + self.shape.z <= i32::MAX
    }

    /// A bounded box of at most `i32::MAX` points, so that a position in its
    /// enumeration fits the machine integers too.
    pub open spec fn valid(self) -> bool {
        &&& self.bounded()
        &&& self.volume() <= i32::MAX
    }

    /// The points of the box in row-major order: `x` runs fastest, then `y`,
    /// then `z`.
    pub open spec fn points(self) -> Seq<Point3> {
        Seq::new(self.volume() as nat, |i: int| self.point_at(i))
    }

    /// Whether `p` lies in the box.
    pub open spec fn has(self, p: Point3) -> bool {
        &&& self.minimum.x <= p.x < self.minimum.x + self.shape.x
        &&& self.minimum.y <= p.y < self.minimum.y + self.shape.y
        &&& self.minimum.z <= p.z < self.minimum.z + self.shape.z
    }

    /// Position of `p` in the row-major enumeration of the box: `x` runs
    /// fastest, then `y`, then `z`.
    pub open spec fn offset(self, p: Point3) -> int {
        ((p.z - self.minimum.z) * self.shape.y + (p.y - self.minimum.y)) * self.shape.x + (p.x
            - self.minimum.x)
    }

    /// The point at position `i` of the row-major enumeration.
    pub open spec fn point_at(self, i: int) -> Point3 {
        Point3 {
            x: (self.minimum.x + i % (self.shape.x as int)) as i32,
            y: (self.minimum.y + (i / (self.shape.x as int)) % (self.shape.y as int)) as i32,
            z: (self.minimum.z + (i / (self.shape.x as int)) / (self.shape.y as int)) as i32,
        }
    }

    /// The box grown by `pad` on every side.
    pub open spec fn grown(self, pad: int) -> Extent3 {
        Extent3 {
            minimum: Point3 {
                x: (self.minimum.x - pad) as i32,
                y: (self.minimum.y - pad) as i32,
                z: (self.minimum.z - pad) as i32,
            },
            shape: Point3 {
                x: (self.shape.x + 2 * pad) as i32,
                y: (self.shape.y + 2 * pad) as i32,
                z: (self.shape.z + 2 * pad) as i32,
            },
        }
    }

    /// The offset of a point of the box is a position below the volume.
    pub proof fn lemma_offset_bound(self, p: Point3)
        requires
            self.bounded(),
            self.has(p),
        ensures
            0 <= self.offset(p) < self.volume(),
            0 <= (p.z - self.minimum.z) * self.shape.y + (p.y - self.minimum.y) < self.shape.y
                * self.shape.z,
            self.shape.y * self.shape.z <= self.volume(),
    {
        let dx = p.x - self.minimum.x;
        let dy = p.y - self.minimum.y;
        let dz = p.z - self.minimum.z;
        let sx = self.shape.x as int;
        let sy = self.shape.y as int;
        let sz = self.shape.z as int;
        assert(0 <= dz * sy && dz * sy + sy <= sz * sy) by (nonlinear_arith)
            requires
                0 <= dz < sz,
                0 <= sy,
        ;
        let row = dz * sy + dy;
        assert(sz * sy == sy * sz) by (nonlinear_arith);
        assert(0 <= row * sx && row * sx + sx <= (sy * sz) * sx) by (nonlinear_arith)
            requires
                0 <= row < sy * sz,
                0 <= sx,
        ;
        assert((sy * sz) * sx == sx * sy * sz) by (nonlinear_arith);
        assert(sy * sz <= sx * sy * sz) by (nonlinear_arith)
            requires
                1 <= sx,
                0 <= sy * sz,
        ;
    }

    /// Enumerating and locating are inverse to each other on the box.
    pub proof fn lemma_offset_of_point_at(self, i: int)
        requires
            self.bounded(),
            0 <= i < self.volume(),
        ensures
            self.has(self.point_at(i)),
            self.offset(self.point_at(i)) == i,
    {
        let sx = self.shape.x as int;
        let sy = self.shape.y as int;
        let sz = self.shape.z as int;
        assert(sx > 0 && sy > 0 && sz > 0) by (nonlinear_arith)
            requires
                0 <= sx,
                0 <= sy,
                0 <= sz,
                0 <= i < sx * sy * sz,
        ;
        let row = i / sx;
        let dx = i % sx;
        vstd::arithmetic::div_mod::lemma_fundamental_div_mod(i, sx);
        vstd::arithmetic::div_mod::lemma_fundamental_div_mod(row, sy);
        let dz = row / sy;
        let dy = row % sy;
        assert(0 <= row < sy * sz) by (nonlinear_arith)
            requires
                i == sx * row + dx,
                0 <= dx < sx,
                0 <= i < sx * sy * sz,
                0 < sy,
                0 < sz,
        ;
        assert(0 <= dz < sz) by (nonlinear_arith)
            requires
                row == sy * dz + dy,
                0 <= dy < sy,
                0 <= row < sy * sz,
        ;
        assert((dz * sy + dy) * sx + dx == i) by (nonlinear_arith)
            requires
                row == sy * dz + dy,
                i == sx * row + dx,
        ;
    }

    /// Locating and enumerating are inverse to each other on the box.
    pub proof fn lemma_point_at_of_offset(self, p: Point3)
        requires
            self.bounded(),
            self.has(p),
        ensures
            self.point_at(self.offset(p)) == p,
    {
        let dx = p.x - self.minimum.x;
        let dy = p.y - self.minimum.y;
        let dz = p.z - self.minimum.z;
        let sx = self.shape.x as int;
        let sy = self.shape.y as int;
        let row = dz * sy + dy;
        vstd::arithmetic::div_mod::lemma_fundamental_div_mod_converse(row * sx + dx, sx, row, dx);
        vstd::arithmetic::div_mod::lemma_fundamental_div_mod_converse(row, sy, dz, dy);
    }

    /// Every point of the box stands exactly once in its enumeration.
    pub proof fn lemma_points(self)
        requires
            self.bounded(),
        ensures
            self.points().no_duplicates(),
            forall|p: Point3| #[trigger] self.points().contains(p) <==> self.has(p),
    {
        let pts = self.points();
        assert forall|i: int, j: int| 0 <= i < pts.len() && 0 <= j < pts.len() && i != j implies pts[i]
            != pts[j] by {
            self.lemma_offset_of_point_at(i);
            self.lemma_offset_of_point_at(j);
        }
        assert forall|p: Point3| pts.contains(p) <==> self.has(p) by {
            if pts.contains(p) {
                let i = choose|i: int| 0 <= i < pts.len() && pts[i] == p;
                self.lemma_offset_of_point_at(i);
            }
            if self.has(p) {
                self.lemma_offset_bound(p);
                self.lemma_point_at_of_offset(p);
                assert(pts[self.offset(p)] == p);
            }
        }
    }

    /// The box with the given least point and shape.
    pub fn from_min_and_shape(minimum: Point3, shape: Point3) -> (e: Extent3)
        ensures
            e == (Extent3 { minimum, shape }),
    {
        Extent3 { minimum, shape }
    }

    /// The number of points in the box.
    pub fn num_points(&self) -> (n: usize)
        requires
            self.valid(),
        ensures
            n == self.volume(),
    {
        let sx = self.shape.x as i64;
        let sy = self.shape.y as i64;
        let sz = self.shape.z as i64;
        if sx == 0 || sy == 0 || sz == 0 {
            assert(self.volume() == 0) by (nonlinear_arith)
                requires
                    self.shape.x == 0 || self.shape.y == 0 || self.shape.z == 0,
                    self.volume() == self.shape.x * self.shape.y * self.shape.z,
            ;
            return 0;
        }
        assert(sx * sy <= sx * sy * sz && 0 <= sx * sy) by (nonlinear_arith)
            requires
                1 <= sx,
                1 <= sy,
                1 <= sz,
        ;
        let area: i64 = sx * sy;
        let n: i64 = area * sz;
        n as usize
    }

    /// Whether `p` lies in the box.
    pub fn contains(&self, p: Point3) -> (r: bool)
        requires
            self.bounded(),
        ensures
            r == self.has(p),
    {
        self.minimum.x <= p.x && p.x < self.minimum.x + self.shape.x && self.minimum.y <= p.y
            && p.y < self.minimum.y + self.shape.y && self.minimum.z <= p.z && p.z
            < self.minimum.z + self.shape.z
    }

    /// Position of a point of the box in its row-major enumeration.
    pub fn offset_of(&self, p: Point3) -> (i: usize)
        requires
            self.valid(),
            self.has(p),
        ensures
            i == self.offset(p),
            i < self.volume(),
    {
        proof {
            self.lemma_offset_bound(p);
        }
        let dx: i64 = p.x as i64 - self.minimum.x as i64;
        let dy: i64 = p.y as i64 - self.minimum.y as i64;
        let dz: i64 = p.z as i64 - self.minimum.z as i64;
        assert(0 <= dz * (self.shape.y as int) <= dz * (self.shape.y as int) + dy) by (nonlinear_arith)
            requires
                0 <= dz,
                0 <= dy,
                0 <= self.shape.y,
        ;
        let row: i64 = dz * (self.shape.y as i64) + dy;
        assert(0 <= row * (self.shape.x as int) <= row * (self.shape.x as int) + dx) by (nonlinear_arith)
            requires
                0 <= row,
                0 <= dx,
                0 <= self.shape.x,
        ;
        let i: i64 = row * (self.shape.x as i64) + dx;
        i as usize
    }

    /// The point at position `i` of the row-major enumeration.
    pub fn point_of(&self, i: usize) -> (p: Point3)
        requires
            self.valid(),
            i < self.volume(),
        ensures
            p == self.point_at(i as int),
            self.has(p),
            self.offset(p) == i,
    {
        proof {
            self.lemma_offset_of_point_at(i as int);
            assert(self.shape.x > 0 && self.shape.y > 0) by (nonlinear_arith)
                requires
                    0 <= self.shape.x,
                    0 <= self.shape.y,
                    0 <= self.shape.z,
                    0 <= i < self.shape.x * self.shape.y * self.shape.z,
            ;
        }
        let sx = self.shape.x as usize;
        let sy = self.shape.y as usize;
        let row = i / sx;
        let dx = i % sx;
        let dy = row % sy;
        let dz = row / sy;
        Point3 {
            x: (self.minimum.x as i64 + dx as i64) as i32,
            y: (self.minimum.y as i64 + dy as i64) as i32,
            z: (self.minimum.z as i64 + dz as i64) as i32,
        }
    }

    /// Whether every point of `inner` lies in this box, judged by the corners.
    pub open spec fn encloses(self, inner: Extent3) -> bool {
        &&& self.minimum.x <= inner.minimum.x
        &&& self.minimum.y <= inner.minimum.y
        &&& self.minimum.z <= inner.minimum.z
        &&& inner.minimum.x + inner.shape.x <= self.minimum.x + self.shape.x
        &&& inner.minimum.y + inner.shape.y <= self.minimum.y + self.shape.y
        &&& inner.minimum.z + inner.shape.z <= self.minimum.z + self.shape.z
    }

    /// Runtime test of `encloses`.
    pub fn is_enclosing(&self, inner: &Extent3) -> (r: bool)
        requires
            self.bounded(),
            inner.bounded(),
        ensures
            r == self.encloses(*inner),
    {
        self.minimum.x <= inner.minimum.x && self.minimum.y <= inner.minimum.y && self.minimum.z
            <= inner.minimum.z && inner.minimum.x + inner.shape.x <= self.minimum.x + self.shape.x
            && inner.minimum.y + inner.shape.y <= self.minimum.y + self.shape.y && inner.minimum.z
            + inner.shape.z <= self.minimum.z + self.shape.z
    }

    /// Runtime test of `valid`.
    pub fn is_valid(&self) -> (r: bool)
        ensures
            r == self.valid(),
    {
        if self.shape.x < 0 || self.shape.y < 0 || self.shape.z < 0 {
            return false;
        }
        if self.minimum.x as i64 + self.shape.x as i64 > i32::MAX as i64 || self.minimum.y as i64
            + self.shape.y as i64 > i32::MAX as i64 || self.minimum.z as i64 + self.shape.z as i64
            > i32::MAX as i64 {
            return false;
        }
        let sx = self.shape.x as i64;
        let sy = self.shape.y as i64;
        let sz = self.shape.z as i64;
        assert(0 <= sx * sy <= 0x7fff_ffff * 0x7fff_ffff) by (nonlinear_arith)
            requires
                0 <= sx <= 0x7fff_ffff,
                0 <= sy <= 0x7fff_ffff,
        ;
        let area: i64 = sx * sy;
        if area > i32::MAX as i64 {
            if sz > 0 {
                assert(sx * sy * sz > i32::MAX) by (nonlinear_arith)
                    requires
                        sx * sy > i32::MAX,
                        sz >= 1,
                ;
                return false;
            }
            assert(sx * sy * sz == 0) by (nonlinear_arith)
                requires
                    sz == 0,
            ;
            return true;
        }
        assert(0 <= area * sz <= 0x7fff_ffff * 0x7fff_ffff) by (nonlinear_arith)
            requires
                0 <= area <= 0x7fff_ffff,
                0 <= sz <= 0x7fff_ffff,
        ;
        area * sz <= i32::MAX as i64
    }

    /// The box grown by `pad` on every side (shrunk for a negative `pad`).
    pub fn padded(&self, pad: i32) -> (e: Extent3)
        requires
            i32::MIN <= self.minimum.x - pad <= i32::MAX,
            i32::MIN <= self.minimum.y - pad <= i32::MAX,
            i32::MIN <= self.minimum.z - pad <= i32::MAX,
            i32::MIN <= self.shape.x + 2 * pad <= i32::MAX,
            i32::MIN <= self.shape.y + 2 * pad <= i32::MAX,
            i32::MIN <= self.shape.z + 2 * pad <= i32::MAX,
        ensures
            e == self.grown(pad as int),
    {
        let twice: i64 = 2 * (pad as i64);
        Extent3 {
            minimum: Point3 {
                x: self.minimum.x - pad,
                y: self.minimum.y - pad,
                z: self.minimum.z - pad,
            },
            shape: Point3 {
                x: (self.shape.x as i64 + twice) as i32,
                y: (self.shape.y as i64 + twice) as i32,
                z: (self.shape.z as i64 + twice) as i32,
            },
        }
    }
}

} // verus!
