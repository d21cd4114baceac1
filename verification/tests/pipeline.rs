use voxel_terrain::pipeline::{runnable, FacetSet, Stage};
use voxel_terrain::sampling::{modulus, sample_cell, SampleCell};

#[test]
fn stages_run_in_dependency_order() {
    let mut have = FacetSet::new();
    assert_eq!(runnable(&have), vec![Stage::SeaLevel]);
    have.insert(Stage::SeaLevel);
    assert_eq!(runnable(&have), vec![Stage::Elevation]);
    have.insert(Stage::Elevation);
    assert_eq!(runnable(&have), vec![Stage::Roughness, Stage::Surface, Stage::Density]);
    have.insert(Stage::Density);
    assert_eq!(runnable(&have), vec![Stage::Roughness, Stage::Surface]);
    have.insert(Stage::Roughness);
    assert_eq!(runnable(&have), vec![Stage::Surface]);
    assert!(!Stage::DensityNoise.is_ready(&have));
    assert!(!Stage::Rasterize.is_ready(&have));
    have.insert(Stage::Surface);
    assert_eq!(runnable(&have), vec![Stage::DensityNoise]);
    have.insert(Stage::DensityNoise);
    assert_eq!(runnable(&have), vec![Stage::Rasterize]);
    have.insert(Stage::Rasterize);
    assert!(runnable(&have).is_empty());
    for stage in [
        Stage::SeaLevel,
        Stage::Elevation,
        Stage::Roughness,
        Stage::Surface,
        Stage::Density,
        Stage::DensityNoise,
        Stage::Rasterize,
    ] {
        assert!(have.contains(stage));
        assert!(!stage.is_ready(&have));
    }
}

#[test]
fn a_stage_does_not_run_twice() {
    let mut have = FacetSet::new();
    assert!(Stage::SeaLevel.is_ready(&have));
    have.insert(Stage::SeaLevel);
    assert!(!Stage::SeaLevel.is_ready(&have));
    assert!(!have.contains(Stage::Elevation));
}

#[test]
fn modulus_is_never_negative() {
    assert_eq!(modulus(0, 4), 0);
    assert_eq!(modulus(5, 4), 1);
    assert_eq!(modulus(-1, 4), 3);
    assert_eq!(modulus(-4, 4), 0);
    assert_eq!(modulus(-5, 4), 3);
    assert_eq!(modulus(i32::MIN, 4), 0);
    assert_eq!(modulus(i32::MAX, 4), 3);
    assert_eq!(modulus(-7, i32::MAX), i32::MAX - 7);
    assert_eq!(modulus(i32::MIN, i32::MAX), i32::MAX - 1);
    assert_eq!(modulus(9, 1), 0);
}

#[test]
fn sample_points_are_their_own_cell() {
    for x in [-8, -4, 0, 4, 8, 400] {
        let cell = sample_cell(x, 4);
        assert_eq!(cell, SampleCell { low: x as i64, high: x as i64 + 4, offset: 0 });
    }
}

#[test]
fn cells_enclose_their_coordinate() {
    assert_eq!(sample_cell(5, 4), SampleCell { low: 4, high: 8, offset: 1 });
    assert_eq!(sample_cell(-1, 4), SampleCell { low: -4, high: 0, offset: 3 });
    assert_eq!(sample_cell(-5, 4), SampleCell { low: -8, high: -4, offset: 3 });
    assert_eq!(sample_cell(7, 1), SampleCell { low: 7, high: 8, offset: 0 });
    assert_eq!(
        sample_cell(i32::MAX, 4),
        SampleCell { low: i32::MAX as i64 - 3, high: i32::MAX as i64 + 1, offset: 3 }
    );
    assert_eq!(
        sample_cell(i32::MIN + 1, 1 << 30),
        SampleCell { low: i32::MIN as i64, high: i32::MIN as i64 + (1 << 30), offset: 1 }
    );
}
