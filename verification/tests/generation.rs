use voxel_terrain::chunk::Chunk;
use voxel_terrain::extent::{Extent3, Point3};
use voxel_terrain::facet::{Facet2D, Facet3D};
use voxel_terrain::generation::{
    classify, generate_chunk_system, provide_density_facet, provide_density_noise,
    provide_flat_elevation_facet, provide_sealevel_facet, provide_surface_facet, refine_surface,
    Density, DensityFacet, ElevationFacet, GeneratingArea, SeaLevel, Sign, SurfaceFacet,
    FLAT_ELEVATION, HARDNESS, SEA_LEVEL,
};
use voxel_terrain::location::chunk_location;
use voxel_terrain::scheduling::spawn_chunk;
use voxel_terrain::voxel::{Voxel, DIRT, STONE, WATER};

fn density(whole: i64) -> Density {
    Density::of_int(whole)
}

fn flat_facets(area: &GeneratingArea) -> (SeaLevel, SurfaceFacet, DensityFacet) {
    let sea_level = provide_sealevel_facet();
    let elevation = provide_flat_elevation_facet(area);
    let mut surface = provide_surface_facet(area, &elevation);
    let mut density = provide_density_facet(area, &elevation);
    let region = area.0;
    let mut same: Vec<Density> = Vec::new();
    for i in 0..region.num_points() {
        same.push(density.0.get(region.point_of(i)));
    }
    assert!(provide_density_noise(&mut density, &mut surface, same));
    (sea_level, surface, density)
}

#[test]
fn constants() {
    assert_eq!(SEA_LEVEL, 32);
    assert_eq!(FLAT_ELEVATION, 40);
    assert_eq!(HARDNESS, 32);
    assert_eq!(provide_sealevel_facet().0, 32);
}

#[test]
fn flat_elevation_is_40_in_every_column() {
    let (_, area) = spawn_chunk(chunk_location([3, 1, -2]));
    let elevation = provide_flat_elevation_facet(&area);
    for x in 96..128 {
        for z in -64..-32 {
            assert!(elevation.0.contains(x, z));
            assert_eq!(elevation.0.get(x, z), 40);
        }
    }
    assert!(!elevation.0.contains(95, -64));
    assert!(!elevation.0.contains(96, -32));
}

#[test]
fn coarse_surface_is_at_the_elevation() {
    let (_, area) = spawn_chunk(chunk_location([0, 1, 0]));
    let elevation = provide_flat_elevation_facet(&area);
    let surface = provide_surface_facet(&area, &elevation);
    for x in 0..32 {
        for z in 0..32 {
            for y in 32..64 {
                assert_eq!(surface.0.get(Point3::new(x, y, z)), y == 40);
            }
        }
    }
    let (_, below) = spawn_chunk(chunk_location([0, 0, 0]));
    let none = provide_surface_facet(&below, &provide_flat_elevation_facet(&below));
    for i in 0..below.0.num_points() {
        assert!(!none.0.get(below.0.point_of(i)));
    }
}

#[test]
fn coarse_density_is_elevation_less_height() {
    let (_, area) = spawn_chunk(chunk_location([0, 1, 0]));
    let elevation = provide_flat_elevation_facet(&area);
    let field = provide_density_facet(&area, &elevation);
    assert_eq!(field.0.get(Point3::new(0, 32, 0)), density(8));
    assert_eq!(field.0.get(Point3::new(31, 40, 31)), density(0));
    assert_eq!(field.0.get(Point3::new(5, 63, 7)), density(-23));
}

#[test]
fn density_follows_uneven_elevation() {
    let region = Extent3::from_min_and_shape(Point3::new(10, -2, 20), Point3::new(2, 4, 2));
    let area = GeneratingArea(region);
    let heights = Facet2D::from_values(region, vec![0, 1, i32::MAX, i32::MIN]).unwrap();
    let elevation = ElevationFacet(heights);
    assert_eq!(elevation.0.get(10, 20), 0);
    assert_eq!(elevation.0.get(11, 20), 1);
    assert_eq!(elevation.0.get(10, 21), i32::MAX);
    assert_eq!(elevation.0.get(11, 21), i32::MIN);
    let field = provide_density_facet(&area, &elevation);
    assert_eq!(field.0.get(Point3::new(10, -2, 20)), density(2));
    assert_eq!(field.0.get(Point3::new(11, 1, 20)), density(0));
    assert_eq!(field.0.get(Point3::new(10, -2, 21)), density(i32::MAX as i64 + 2));
    assert_eq!(field.0.get(Point3::new(11, 1, 21)), density(i32::MIN as i64 - 1));
    let surface = provide_surface_facet(&area, &elevation);
    assert!(surface.0.get(Point3::new(10, 0, 20)));
    assert!(surface.0.get(Point3::new(11, 1, 20)));
    assert!(!surface.0.get(Point3::new(11, 0, 20)));
    assert!(!surface.0.get(Point3::new(10, 1, 21)));
}

#[test]
fn facets_reject_a_wrong_number_of_values() {
    let region = Extent3::from_min_and_shape(Point3::new(0, 0, 0), Point3::new(2, 3, 2));
    assert!(Facet2D::from_values(region, vec![1, 2, 3]).is_none());
    assert!(Facet2D::from_values(region, vec![1, 2, 3, 4]).is_some());
    assert!(Facet3D::from_values(region, vec![true; 11]).is_none());
    assert!(Facet3D::from_values(region, vec![true; 12]).is_some());
}

#[test]
fn facet_values_are_found_in_row_major_order() {
    let region = Extent3::from_min_and_shape(Point3::new(-1, 5, 2), Point3::new(2, 2, 2));
    let field = Facet3D::from_values(region, vec![0, 1, 2, 3, 4, 5, 6, 7]).unwrap();
    assert_eq!(field.extent(), region);
    assert_eq!(field.get(Point3::new(-1, 5, 2)), 0);
    assert_eq!(field.get(Point3::new(0, 5, 2)), 1);
    assert_eq!(field.get(Point3::new(-1, 6, 2)), 2);
    assert_eq!(field.get(Point3::new(-1, 5, 3)), 4);
    assert_eq!(field.get(Point3::new(0, 6, 3)), 7);
    let mut plane = Facet2D::new(region, 9);
    plane.set(0, 3, 1);
    assert_eq!(plane.get(0, 3), 1);
    assert_eq!(plane.get(-1, 3), 9);
    assert_eq!(plane.get(0, 2), 9);
    let mut volume = Facet3D::new(region, false);
    volume.set(Point3::new(0, 6, 2), true);
    assert!(volume.get(Point3::new(0, 6, 2)));
    assert!(!volume.get(Point3::new(0, 6, 3)));
    assert!(volume.contains(Point3::new(0, 6, 3)));
    assert!(!volume.contains(Point3::new(1, 6, 3)));
}

#[test]
fn refined_surface_is_where_density_stops_being_positive() {
    let region = Extent3::from_min_and_shape(Point3::new(0, 0, 0), Point3::new(1, 5, 1));
    let half = Density { whole: 0, fraction: Sign::Positive };
    let minus_half = Density { whole: 0, fraction: Sign::Negative };
    let field = DensityFacet(
        Facet3D::from_values(region, vec![density(3), half, minus_half, density(1), density(2)])
            .unwrap(),
    );
    let mut surface = SurfaceFacet(Facet3D::new(region, true));
    refine_surface(&field, &mut surface);
    assert!(!surface.0.get(Point3::new(0, 0, 0)));
    assert!(surface.0.get(Point3::new(0, 1, 0)));
    assert!(!surface.0.get(Point3::new(0, 2, 0)));
    assert!(!surface.0.get(Point3::new(0, 3, 0)));
    assert!(surface.0.get(Point3::new(0, 4, 0)));
}

#[test]
fn density_noise_needs_one_value_per_voxel() {
    let region = Extent3::from_min_and_shape(Point3::new(0, 0, 0), Point3::new(1, 2, 1));
    let mut field = DensityFacet(Facet3D::new(region, density(5)));
    let mut surface = SurfaceFacet(Facet3D::new(region, false));
    assert!(!provide_density_noise(&mut field, &mut surface, vec![density(1)]));
    assert_eq!(field.0.get(Point3::new(0, 0, 0)), density(5));
    assert!(provide_density_noise(&mut field, &mut surface, vec![density(1), density(-1)]));
    assert_eq!(field.0.get(Point3::new(0, 0, 0)), density(1));
    assert_eq!(field.0.get(Point3::new(0, 1, 0)), density(-1));
    assert!(surface.0.get(Point3::new(0, 0, 0)));
    assert!(!surface.0.get(Point3::new(0, 1, 0)));
}

#[test]
fn density_comparisons() {
    let half = Density { whole: 0, fraction: Sign::Positive };
    let minus_half = Density { whole: 0, fraction: Sign::Negative };
    let just_over = Density { whole: 32, fraction: Sign::Positive };
    assert!(!density(0).is_positive());
    assert!(half.is_positive());
    assert!(!minus_half.is_positive());
    assert!(density(1).is_positive());
    assert!(!density(-1).is_positive());
    assert!(!density(32).is_above(32));
    assert!(just_over.is_above(32));
    assert!(density(33).is_above(32));
    assert!(density(-2).is_above(-3));
    assert!(!Density { whole: -2, fraction: Sign::Negative }.is_above(-2));
}

#[test]
fn classification_rules_in_order() {
    let half = Density { whole: 0, fraction: Sign::Positive };
    // below the sea, under ground that rises above it
    assert_eq!(classify(31, 32, density(9), true), Some(Voxel::new(WATER)));
    assert_eq!(classify(0, 32, density(40), false), Some(Voxel::new(WATER)));
    // below the sea, ground that ends at sea level: not the first rule
    assert_eq!(classify(31, 32, density(1), false), Some(Voxel::new(DIRT)));
    // on the surface
    assert_eq!(classify(39, 32, density(1), true), Some(Voxel::new(DIRT)));
    assert_eq!(classify(40, 32, density(100), true), Some(Voxel::new(DIRT)));
    assert_eq!(classify(40, 32, half, true), Some(Voxel::new(DIRT)));
    // inside the ground
    assert_eq!(classify(40, 32, density(33), false), Some(Voxel::new(STONE)));
    assert_eq!(classify(40, 32, density(32), false), Some(Voxel::new(DIRT)));
    assert_eq!(
        classify(40, 32, Density { whole: 32, fraction: Sign::Positive }, false),
        Some(Voxel::new(STONE))
    );
    assert_eq!(classify(40, 32, density(1), false), Some(Voxel::new(DIRT)));
    // open water
    assert_eq!(classify(32, 32, density(0), false), Some(Voxel::new(WATER)));
    assert_eq!(classify(32, 32, density(-5), true), Some(Voxel::new(WATER)));
    assert_eq!(classify(-100, 32, density(-5), false), Some(Voxel::new(WATER)));
    // air
    assert_eq!(classify(33, 32, density(0), false), None);
    assert_eq!(classify(33, 32, density(-1), true), None);
    // a density beyond the range of heights
    assert_eq!(classify(i32::MAX, 32, density(i64::MAX), false), Some(Voxel::new(STONE)));
    assert_eq!(classify(i32::MIN, 32, density(i64::MAX), false), Some(Voxel::new(STONE)));
    assert_eq!(classify(-5, 32, density(i64::MAX), false), Some(Voxel::new(WATER)));
    assert_eq!(classify(i32::MAX, 32, density(i64::MIN), false), None);
}

#[test]
fn flat_terrain_above_sea_level() {
    let c = chunk_location([0, 1, 0]);
    let (mut chunk, area) = spawn_chunk(c);
    let (sea_level, surface, density) = flat_facets(&area);
    assert_eq!(sea_level.0, 32);
    generate_chunk_system(&mut chunk, &surface, &density, &sea_level);
    for x in 0..32 {
        for z in 0..32 {
            for y in 32..39 {
                assert_eq!(chunk.get(Point3::new(x, y, z)).id(), DIRT);
            }
            assert!(surface.0.get(Point3::new(x, 39, z)));
            assert_eq!(chunk.get(Point3::new(x, 39, z)).id(), DIRT);
            for y in 40..64 {
                assert!(chunk.get(Point3::new(x, y, z)).is_empty());
            }
        }
    }
}

#[test]
fn flat_terrain_below_sea_level_is_water() {
    let c = chunk_location([0, 0, 0]);
    let (mut chunk, area) = spawn_chunk(c);
    let (sea_level, surface, density) = flat_facets(&area);
    generate_chunk_system(&mut chunk, &surface, &density, &sea_level);
    for i in 0..area.0.num_points() {
        assert_eq!(chunk.get(area.0.point_of(i)).id(), WATER);
    }
}

#[test]
fn stone_lies_more_than_32_below_the_surface() {
    let region = Extent3::from_min_and_shape(Point3::new(0, 0, 0), Point3::new(32, 32, 32));
    let area = GeneratingArea(region);
    let elevation = provide_flat_elevation_facet(&area);
    let surface = provide_surface_facet(&area, &elevation);
    let density = provide_density_facet(&area, &elevation);
    let mut chunk = Chunk::new(chunk_location([0, 0, 0]));
    generate_chunk_system(&mut chunk, &surface, &density, &SeaLevel(-1));
    for x in 0..32 {
        for z in 0..32 {
            for y in 0..8 {
                assert_eq!(chunk.get(Point3::new(x, y, z)).id(), STONE);
            }
            for y in 8..32 {
                assert_eq!(chunk.get(Point3::new(x, y, z)).id(), DIRT);
            }
        }
    }
}

#[test]
fn rasterizer_leaves_the_border_alone() {
    let c = chunk_location([0, 0, 0]);
    let (mut chunk, area) = spawn_chunk(c);
    chunk.set(Point3::new(-1, 0, 0), Voxel::new(9));
    chunk.set(Point3::new(32, 32, 32), Voxel::new(8));
    let (sea_level, surface, density) = flat_facets(&area);
    generate_chunk_system(&mut chunk, &surface, &density, &sea_level);
    assert_eq!(chunk.get(Point3::new(-1, 0, 0)).id(), 9);
    assert_eq!(chunk.get(Point3::new(32, 32, 32)).id(), 8);
    assert_eq!(chunk.get(Point3::new(0, -1, 0)).id(), 0);
    assert_eq!(chunk.get(Point3::new(0, 0, 0)).id(), WATER);
}

#[test]
fn rasterizer_keeps_voxels_that_no_rule_covers() {
    let c = chunk_location([0, 2, 0]);
    let (mut chunk, area) = spawn_chunk(c);
    chunk.set(Point3::new(3, 70, 3), Voxel::new(STONE));
    let (sea_level, surface, density) = flat_facets(&area);
    generate_chunk_system(&mut chunk, &surface, &density, &sea_level);
    assert_eq!(chunk.get(Point3::new(3, 70, 3)).id(), STONE);
    assert_eq!(chunk.get(Point3::new(3, 71, 3)).id(), 0);
}

#[test]
fn rasterization_repeats_exactly() {
    let c = chunk_location([1, 1, 1]);
    let region = c.voxel_region();
    let area = GeneratingArea(region);
    let mut heights: Vec<i32> = Vec::new();
    for i in 0..(32 * 32) {
        heights.push(30 + (i * 7919 % 23) as i32);
    }
    let elevation = ElevationFacet(Facet2D::from_values(region, heights).unwrap());
    let mut first = Chunk::new(c);
    let mut second = Chunk::new(c);
    for run in [&mut first, &mut second] {
        let mut surface = provide_surface_facet(&area, &elevation);
        let mut density = provide_density_facet(&area, &elevation);
        let mut values: Vec<Density> = Vec::new();
        for i in 0..region.num_points() {
            let d = density.0.get(region.point_of(i));
            let fraction = if i % 3 == 0 { Sign::Positive } else { Sign::Zero };
            values.push(Density { whole: if d.whole < 0 { 0 } else { d.whole }, fraction });
        }
        assert!(provide_density_noise(&mut density, &mut surface, values));
        generate_chunk_system(run, &surface, &density, &SeaLevel(32));
    }
    let stored = region.padded(1);
    let mut solid = 0;
    for i in 0..stored.num_points() {
        let p = stored.point_of(i);
        assert_eq!(first.get(p), second.get(p));
        if !first.get(p).is_empty() {
            solid += 1;
        }
    }
    assert!(solid > 0);
}
