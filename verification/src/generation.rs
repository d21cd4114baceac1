//! Terrain facets of a region, and the rasterizer that turns them into voxels.

use crate::chunk::Chunk;
use crate::extent::{Extent3, Point3};
use crate::facet::{footprint, Facet2D, Facet3D};
use crate::voxel::{Voxel, DIRT, STONE, WATER};
use vstd::prelude::*;

verus! {

/// Height of the sea surface.
pub const SEA_LEVEL: i32 = 32;

/// Height of flat terrain.
pub const FLAT_ELEVATION: i32 = 40;

/// Density above which solid ground is stone.
pub const HARDNESS: i32 = 32;

/// The region of an in-flight generation request, in voxel coordinates.
#[derive(Clone, Copy, Debug)]
pub struct GeneratingArea(pub Extent3);

/// The sea level of a region.
#[derive(Clone, Copy, Debug)]
pub struct SeaLevel(pub i32);

/// The terrain height of each column of a region.
pub struct ElevationFacet(pub Facet2D<i32>);

/// For each voxel of a region, whether it is the top voxel of the ground.
pub struct SurfaceFacet(pub Facet3D<bool>);

/// The density of each voxel of a region: positive inside the ground.
pub struct DensityFacet(pub Facet3D<Density>);

/// The sign of a number.
#[derive(Clone, Copy, Debug, PartialEq, Eq, Structural)]
pub enum Sign {
    Negative,
    Zero,
    Positive,
}

/// A density value, known by its integer part (rounded toward zero) and by the
/// sign of what the rounding dropped.
#[derive(Clone, Copy, Debug, PartialEq, Eq, Structural)]
pub struct Density {
    pub whole: i64,
    pub fraction: Sign,
}

impl Density {
    /// Whether the density is greater than the integer `k`.
    pub open spec fn exceeds(self, k: int) -> bool {
        self.whole > k || (self.whole == k && self.fraction == Sign::Positive)
    }

    /// Whether the density is greater than zero.
    pub open spec fn positive(self) -> bool {
        self.exceeds(0)
    }

    /// The density as a height offset: its integer part, held to the range
    /// from 0 to `i32::MAX`.
    pub open spec fn rise(self) -> int {
        if self.whole <= 0 {
            0
        } else if self.whole > i32::MAX {
            i32::MAX as int
        } else {
            self.whole as int
        }
    }

    /// The density equal to the integer `v`.
    pub fn of_int(v: i64) -> (d: Density)
        ensures
            d == (Density { whole: v, fraction: Sign::Zero }),
    {
        Density { whole: v, fraction: Sign::Zero }
    }

    /// Whether the density is greater than `k`.
    pub fn is_above(&self, k: i32) -> (r: bool)
        ensures
            r == self.exceeds(k as int),
    {
        self.whole > k as i64 || (self.whole == k as i64 && self.fraction == Sign::Positive)
    }

    /// Whether the density is greater than zero.
    pub fn is_positive(&self) -> (r: bool)
        ensures
            r == self.positive(),
    {
        self.is_above(0)
    }
}

/// The material that the rasterizer gives a voxel at height `y`, or `None`
/// where it leaves the voxel as it is. In order: water below sea level under
/// ground that rises above sea level; dirt on the surface of the ground; stone
/// in ground denser than the hardness threshold and dirt in other ground;
/// water at or below sea level; otherwise nothing.
pub open spec fn material(y: int, sea_level: int, density: Density, on_surface: bool) -> Option<
    u8,
> {
    let top = y + density.rise();
    if y < sea_level && top > sea_level {
        Some(WATER)
    } else if density.positive() && on_surface {
        Some(DIRT)
    } else if density.positive() {
        if density.exceeds(HARDNESS as int) {
            Some(STONE)
        } else {
            Some(DIRT)
        }
    } else if top <= sea_level {
        Some(WATER)
    } else {
        None
    }
}

/// The voxel after rasterization, given the voxel before it.
pub open spec fn rasterized(
    before: u8,
    y: int,
    sea_level: int,
    density: Density,
    on_surface: bool,
) -> u8 {
    match material(y, sea_level, density, on_surface) {
        Some(id) => id,
        None => before,
    }
}

/// Classifies one voxel: the material it gets, or `None` where it is left as
/// it is.
pub fn classify(y: i32, sea_level: i32, density: Density, on_surface: bool) -> (r: Option<Voxel>)
    ensures
        r is Some <==> material(y as int, sea_level as int, density, on_surface) is Some,
        r matches Some(v) ==> Some(v.0) == material(
            y as int,
            sea_level as int,
            density,
            on_surface,
        ),
{
    let rise: i64 = if density.whole <= 0 {
        0
    } else if density.whole > i32::MAX as i64 {
        i32::MAX as i64
    } else {
        density.whole
    };
    let top: i64 = y as i64 + rise;
    if y < sea_level && top > sea_level as i64 {
        Some(Voxel(WATER))
    } else if density.is_positive() && on_surface {
        Some(Voxel(DIRT))
    } else if density.is_positive() {
        if density.is_above(HARDNESS) {
            Some(Voxel(STONE))
        } else {
            Some(Voxel(DIRT))
        }
    } else if top <= sea_level as i64 {
        Some(Voxel(WATER))
    } else {
        None
    }
}

/// The sea level facet: the constant sea level.
pub fn provide_sealevel_facet() -> (sea_level: SeaLevel)
    ensures
        sea_level.0 == SEA_LEVEL,
{
    SeaLevel(SEA_LEVEL)
}

/// The elevation facet of flat terrain: every column of the area has the flat
/// height.
pub fn provide_flat_elevation_facet(area: &GeneratingArea) -> (elevation: ElevationFacet)
    requires
        footprint(area.0).valid(),
    ensures
        elevation.0.wf(),
        elevation.0.plane() == footprint(area.0),
        forall|x: int, z: int| elevation.0.has(x, z) ==> elevation.0.at(x, z) == FLAT_ELEVATION,
{
    ElevationFacet(Facet2D::new(area.0, FLAT_ELEVATION))
}

/// Whether `p` is the top of the ground by the elevation alone: its column is
/// covered and its height is the column's elevation.
pub open spec fn coarse_surface_at(elevation: &ElevationFacet, p: Point3) -> bool {
    elevation.0.has(p.x as int, p.z as int) && elevation.0.at(p.x as int, p.z as int) == p.y
}

/// The coarse surface facet: true exactly at the voxel of each column whose
/// height is the column's elevation.
pub fn provide_surface_facet(area: &GeneratingArea, elevation: &ElevationFacet) -> (surface:
    SurfaceFacet)
    requires
        area.0.valid(),
        elevation.0.wf(),
    ensures
        surface.0.wf(),
        surface.0.region() == area.0,
        forall|p: Point3| area.0.has(p) ==> surface.0.at(p) == coarse_surface_at(elevation, p),
{
    let region = area.0;
    let mut facet: Facet3D<bool> = Facet3D::new(region, false);
    let n = region.num_points();
    let mut i: usize = 0;
    while i < n
        invariant
            i <= n,
            n == region.volume(),
            region == area.0,
            region.valid(),
            elevation.0.wf(),
            facet.wf(),
            facet.region() == region,
            forall|j: int|
                0 <= j < i ==> facet.at(#[trigger] region.point_at(j)) == coarse_surface_at(
                    elevation,
                    region.point_at(j),
                ),
        decreases n - i,
    {
        let p = region.point_of(i);
        let on = elevation.0.contains(p.x, p.z) && elevation.0.get(p.x, p.z) == p.y;
        facet.set(p, on);
        proof {
            assert forall|j: int| 0 <= j < i + 1 implies facet.at(#[trigger] region.point_at(j))
                == coarse_surface_at(elevation, region.point_at(j)) by {
                region.lemma_offset_of_point_at(j);
            }
        }
        i += 1;
    }
    proof {
        assert forall|p: Point3| area.0.has(p) implies facet.at(p) == coarse_surface_at(
            elevation,
            p,
        ) by {
            region.lemma_offset_bound(p);
            region.lemma_point_at_of_offset(p);
            assert(region.point_at(region.offset(p)) == p);
        }
    }
    SurfaceFacet(facet)
}

/// The coarse density of `p`: the elevation of its column less its height, or
/// zero where the column is not covered.
pub open spec fn coarse_density_at(elevation: &ElevationFacet, p: Point3) -> Density {
    if elevation.0.has(p.x as int, p.z as int) {
        Density {
            whole: (elevation.0.at(p.x as int, p.z as int) - p.y) as i64,
            fraction: Sign::Zero,
        }
    } else {
        Density { whole: 0, fraction: Sign::Zero }
    }
}

/// The coarse density facet: in every column, the elevation less the height.
pub fn provide_density_facet(area: &GeneratingArea, elevation: &ElevationFacet) -> (density:
    DensityFacet)
    requires
        area.0.valid(),
        elevation.0.wf(),
    ensures
        density.0.wf(),
        density.0.region() == area.0,
        forall|p: Point3| area.0.has(p) ==> density.0.at(p) == coarse_density_at(elevation, p),
{
    let region = area.0;
    let mut facet: Facet3D<Density> = Facet3D::new(region, Density::of_int(0));
    let n = region.num_points();
    let mut i: usize = 0;
    while i < n
        invariant
            i <= n,
            n == region.volume(),
            region == area.0,
            region.valid(),
            elevation.0.wf(),
            facet.wf(),
            facet.region() == region,
            forall|j: int|
                0 <= j < i ==> facet.at(#[trigger] region.point_at(j)) == coarse_density_at(
                    elevation,
                    region.point_at(j),
                ),
        decreases n - i,
    {
        let p = region.point_of(i);
        let d = if elevation.0.contains(p.x, p.z) {
            Density::of_int(elevation.0.get(p.x, p.z) as i64 - p.y as i64)
        } else {
            Density::of_int(0)
        };
        facet.set(p, d);
        proof {
            assert forall|j: int| 0 <= j < i + 1 implies facet.at(#[trigger] region.point_at(j))
                == coarse_density_at(elevation, region.point_at(j)) by {
                region.lemma_offset_of_point_at(j);
            }
        }
        i += 1;
    }
    proof {
        assert forall|p: Point3| area.0.has(p) implies facet.at(p) == coarse_density_at(
            elevation,
            p,
        ) by {
            region.lemma_offset_bound(p);
            region.lemma_point_at_of_offset(p);
            assert(region.point_at(region.offset(p)) == p);
        }
    }
    DensityFacet(facet)
}

/// The voxel just above `p`.
pub open spec fn above(p: Point3) -> Point3 {
    Point3 { x: p.x, y: (p.y + 1) as i32, z: p.z }
}

/// Whether `p` is on the refined surface: where the density covers `p` and the
/// voxel above it, the ground ends at `p` (density positive at `p` and not
/// above it); elsewhere the coarse value stands.
pub open spec fn refined_surface_at(density: &DensityFacet, coarse: bool, p: Point3) -> bool {
    if density.0.region().has(p) && density.0.region().has(above(p)) {
        density.0.at(p).positive() && !density.0.at(above(p)).positive()
    } else {
        coarse
    }
}

/// Recomputes the surface from a density field: the surface is where density
/// goes from positive to not positive, moving up.
pub fn refine_surface(density: &DensityFacet, surface: &mut SurfaceFacet)
    requires
        density.0.wf(),
        old(surface).0.wf(),
    ensures
        final(surface).0.wf(),
        final(surface).0.region() == old(surface).0.region(),
        forall|p: Point3|
            old(surface).0.region().has(p) ==> final(surface).0.at(p) == refined_surface_at(
                density,
                old(surface).0.at(p),
                p,
            ),
{
    let region = surface.0.extent();
    proof {
        surface.0.lemma_region_valid();
        density.0.lemma_region_valid();
    }
    let n = region.num_points();
    let mut i: usize = 0;
    while i < n
        invariant
            i <= n,
            n == region.volume(),
            region == old(surface).0.region(),
            region.valid(),
            density.0.wf(),
            density.0.region().valid(),
            surface.0.wf(),
            surface.0.region() == region,
            forall|j: int|
                0 <= j < i ==> surface.0.at(#[trigger] region.point_at(j)) == refined_surface_at(
                    density,
                    old(surface).0.at(region.point_at(j)),
                    region.point_at(j),
                ),
            forall|j: int|
                i <= j < n ==> surface.0.at(#[trigger] region.point_at(j)) == old(surface).0.at(
                    region.point_at(j),
                ),
        decreases n - i,
    {
        let p = region.point_of(i);
        let up = Point3 { x: p.x, y: p.y + 1, z: p.z };
        if density.0.contains(p) && density.0.contains(up) {
            let on = density.0.get(p).is_positive() && !density.0.get(up).is_positive();
            surface.0.set(p, on);
        }
        proof {
            assert forall|j: int| 0 <= j < i + 1 implies surface.0.at(
                #[trigger] region.point_at(j),
            ) == refined_surface_at(
                density,
                old(surface).0.at(region.point_at(j)),
                region.point_at(j),
            ) by {
                region.lemma_offset_of_point_at(j);
            }
            assert forall|j: int| i + 1 <= j < n implies surface.0.at(
                #[trigger] region.point_at(j),
            ) == old(surface).0.at(region.point_at(j)) by {
                region.lemma_offset_of_point_at(j);
            }
        }
        i += 1;
    }
    proof {
        assert forall|p: Point3| region.has(p) implies surface.0.at(p) == refined_surface_at(
            density,
            old(surface).0.at(p),
            p,
        ) by {
            region.lemma_offset_bound(p);
            region.lemma_point_at_of_offset(p);
            assert(region.point_at(region.offset(p)) == p);
        }
    }
}

/// Installs a perturbed density field and refines the surface from it. The
/// perturbed values are listed in the row-major order of the density region.
/// Returns false, and changes nothing, when their number is not the number of
/// voxels of that region.
pub fn provide_density_noise(
    density: &mut DensityFacet,
    surface: &mut SurfaceFacet,
    perturbed: Vec<Density>,
) -> (applied: bool)
    requires
        old(density).0.wf(),
        old(surface).0.wf(),
    ensures
        applied == (perturbed@.len() == old(density).0.region().volume()),
        !applied ==> *final(density) == *old(density) && *final(surface) == *old(surface),
        applied ==> {
            &&& final(density).0.wf()
            &&& final(density).0.region() == old(density).0.region()
            &&& forall|p: Point3|
                old(density).0.region().has(p) ==> final(density).0.at(p) == perturbed@[old(
                    density,
                ).0.region().offset(p)]
            &&& final(surface).0.wf()
            &&& final(surface).0.region() == old(surface).0.region()
            &&& forall|p: Point3|
                old(surface).0.region().has(p) ==> final(surface).0.at(p) == refined_surface_at(
                    final(density),
                    old(surface).0.at(p),
                    p,
                )
        },
{
    let region = density.0.extent();
    proof {
        density.0.lemma_region_valid();
    }
    match Facet3D::from_values(region, perturbed) {
        Some(field) => {
            *density = DensityFacet(field);
            refine_surface(density, surface);
            true
        },
        None => false,
    }
}

/// The voxel at `p` after rasterizing the facets into `before`: classified
/// from its height, the sea level, its density and the surface where `p` lies
/// in the chunk's own region, and untouched in the border.
pub open spec fn rasterized_at(
    before: &Chunk,
    surface: &SurfaceFacet,
    density: &DensityFacet,
    sea_level: SeaLevel,
    p: Point3,
) -> u8 {
    if before.location().region().has(p) {
        rasterized(
            before.voxel(p),
            p.y as int,
            sea_level.0 as int,
            density.0.at(p),
            surface.0.at(p),
        )
    } else {
        before.voxel(p)
    }
}

/// Whether `after` is what rasterizing the facets into `before` gives.
pub open spec fn is_rasterization(
    before: &Chunk,
    after: &Chunk,
    surface: &SurfaceFacet,
    density: &DensityFacet,
    sea_level: SeaLevel,
) -> bool {
    &&& after.location() == before.location()
    &&& forall|p: Point3|
        before.extent().has(p) ==> #[trigger] after.voxel(p) == rasterized_at(
            before,
            surface,
            density,
            sea_level,
            p,
        )
}

/// Rasterizes the facets of a chunk's region into its voxels.
pub fn generate_chunk_system(
    chunk: &mut Chunk,
    surface: &SurfaceFacet,
    solidity: &DensityFacet,
    sealevel: &SeaLevel,
)
    requires
        old(chunk).wf(),
        surface.0.wf(),
        solidity.0.wf(),
        surface.0.region().encloses(old(chunk).location().region()),
        solidity.0.region().encloses(old(chunk).location().region()),
    ensures
        final(chunk).wf(),
        is_rasterization(old(chunk), final(chunk), surface, solidity, *sealevel),
{
    let at = chunk.pos();
    proof {
        old(chunk).lemma_wf();
        Chunk::lemma_extent(at);
    }
    let region = at.voxel_region();
    let sea_level = sealevel.0;
    let n = region.num_points();
    let mut i: usize = 0;
    while i < n
        invariant
            i <= n,
            n == region.volume(),
            at == old(chunk).location(),
            at.representable(),
            region == at.region(),
            region.valid(),
            sea_level == sealevel.0,
            surface.0.wf(),
            solidity.0.wf(),
            surface.0.region().encloses(region),
            solidity.0.region().encloses(region),
            chunk.wf(),
            chunk.location() == at,
            forall|j: int|
                0 <= j < i ==> chunk.voxel(#[trigger] region.point_at(j)) == rasterized(
                    old(chunk).voxel(region.point_at(j)),
                    region.point_at(j).y as int,
                    sea_level as int,
                    solidity.0.at(region.point_at(j)),
                    surface.0.at(region.point_at(j)),
                ),
            forall|q: Point3|
                chunk.extent().has(q) && !(region.has(q) && region.offset(q) < i)
                    ==> #[trigger] chunk.voxel(q) == old(chunk).voxel(q),
        decreases n - i,
    {
        let p = region.point_of(i);
        let density = solidity.0.get(p);
        match classify(p.y, sea_level, density, surface.0.get(p)) {
            Some(v) => {
                chunk.set(p, v);
            },
            None => {},
        }
        proof {
            assert forall|j: int| 0 <= j < i + 1 implies chunk.voxel(#[trigger] region.point_at(j))
                == rasterized(
                old(chunk).voxel(region.point_at(j)),
                region.point_at(j).y as int,
                sea_level as int,
                solidity.0.at(region.point_at(j)),
                surface.0.at(region.point_at(j)),
            ) by {
                region.lemma_offset_of_point_at(j);
            }
        }
        i += 1;
    }
    proof {
        assert forall|p: Point3| old(chunk).extent().has(p) implies #[trigger] chunk.voxel(p)
            == rasterized_at(old(chunk), surface, solidity, *sealevel, p) by {
            if region.has(p) {
                region.lemma_offset_bound(p);
                region.lemma_point_at_of_offset(p);
                assert(region.point_at(region.offset(p)) == p);
            }
        }
    }
}

/// Rasterization is a function of its inputs: two runs from the same chunk
/// with the same facets give the same voxel everywhere.
pub proof fn lemma_rasterization_deterministic(
    before: &Chunk,
    first: &Chunk,
    second: &Chunk,
    surface: &SurfaceFacet,
    density: &DensityFacet,
    sea_level: SeaLevel,
)
    requires
        is_rasterization(before, first, surface, density, sea_level),
        is_rasterization(before, second, surface, density, sea_level),
    ensures
        first.location() == second.location(),
        forall|p: Point3| before.extent().has(p) ==> first.voxel(p) == second.voxel(p),
{
    assert forall|p: Point3| before.extent().has(p) implies first.voxel(p) == second.voxel(p) by {
        assert(first.voxel(p) == rasterized_at(before, surface, density, sea_level, p));
        assert(second.voxel(p) == rasterized_at(before, surface, density, sea_level, p));
    }
}

} // verus!
