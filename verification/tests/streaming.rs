use voxel_terrain::extent::Point3;
use voxel_terrain::location::{chunk_location, ChunkLocation};
use voxel_terrain::scheduling::{generate_chunk, spawn_chunk};
use voxel_terrain::streaming::{
    chunk_location_add, chunk_location_transition, is_in_reach, relative_update, ChunkEvent,
    Relative, StreamingSubject,
};
use voxel_terrain::world::{add_to_world, remove_from_world, ChunkId, ChunkWorld};

#[test]
fn chunk_coordinate_divides_by_32_toward_zero() {
    assert_eq!(chunk_location_add(Point3::new(0, 31, 32)), chunk_location([0, 0, 1]));
    assert_eq!(chunk_location_add(Point3::new(63, 64, 65)), chunk_location([1, 2, 2]));
    assert_eq!(chunk_location_add(Point3::new(-1, -31, -32)), chunk_location([0, 0, -1]));
    assert_eq!(chunk_location_add(Point3::new(-33, -64, -65)), chunk_location([-1, -2, -2]));
    assert_eq!(
        chunk_location_add(Point3::new(i32::MAX, i32::MIN, 0)),
        chunk_location([67108863, -67108864, 0])
    );
}

#[test]
fn transition_reports_a_change_only_across_a_chunk_boundary() {
    let mut location = chunk_location_add(Point3::new(5, 5, 5));
    assert!(!chunk_location_transition(&mut location, Point3::new(31, 0, 17)));
    assert_eq!(location, chunk_location([0, 0, 0]));
    assert!(chunk_location_transition(&mut location, Point3::new(32, 0, 17)));
    assert_eq!(location, chunk_location([1, 0, 0]));
    assert!(!chunk_location_transition(&mut location, Point3::new(63, 31, 0)));
    assert!(chunk_location_transition(&mut location, Point3::new(-40, 0, 0)));
    assert_eq!(location, chunk_location([-1, 0, 0]));
}

#[test]
fn radius_one_around_the_origin_asks_for_27_chunks() {
    let world = ChunkWorld::new();
    let events = relative_update(&world, &chunk_location([0, 0, 0]), &Relative([1, 1, 1]));
    assert_eq!(events.len(), 27);
    let mut seen: Vec<ChunkLocation> = Vec::new();
    for event in events.iter() {
        match event {
            ChunkEvent::Generate(c) => {
                assert!(!seen.contains(c));
                assert!((-1..=1).contains(&c.0.x));
                assert!((-1..=1).contains(&c.0.y));
                assert!((-1..=1).contains(&c.0.z));
                seen.push(*c);
            }
            _ => panic!("only generate requests are expected"),
        }
    }
    for x in -1..=1 {
        for y in -1..=1 {
            for z in -1..=1 {
                assert!(seen.contains(&chunk_location([x, y, z])));
            }
        }
    }
}

#[test]
fn requests_walk_the_box_x_fastest() {
    let world = ChunkWorld::new();
    let events = relative_update(&world, &chunk_location([10, 20, 30]), &Relative([1, 0, 1]));
    let expected: Vec<ChunkEvent> = vec![
        ChunkEvent::Generate(chunk_location([9, 20, 29])),
        ChunkEvent::Generate(chunk_location([10, 20, 29])),
        ChunkEvent::Generate(chunk_location([11, 20, 29])),
        ChunkEvent::Generate(chunk_location([9, 20, 30])),
        ChunkEvent::Generate(chunk_location([10, 20, 30])),
        ChunkEvent::Generate(chunk_location([11, 20, 30])),
        ChunkEvent::Generate(chunk_location([9, 20, 31])),
        ChunkEvent::Generate(chunk_location([10, 20, 31])),
        ChunkEvent::Generate(chunk_location([11, 20, 31])),
    ];
    assert_eq!(events, expected);
}

#[test]
fn requests_skip_coordinates_in_the_index() {
    let mut world = ChunkWorld::new();
    add_to_world(
        &mut world,
        &vec![
            (ChunkId(1), chunk_location([0, 0, 0])),
            (ChunkId(2), chunk_location([1, 0, 0])),
            (ChunkId(3), chunk_location([5, 5, 5])),
        ],
    );
    let events = relative_update(&world, &chunk_location([0, 0, 0]), &Relative([1, 0, 0]));
    assert_eq!(events, vec![ChunkEvent::Generate(chunk_location([-1, 0, 0]))]);
    let none = relative_update(&world, &chunk_location([5, 5, 5]), &Relative([0, 0, 0]));
    assert!(none.is_empty());
}

#[test]
fn negative_radius_asks_for_nothing() {
    let world = ChunkWorld::new();
    assert!(relative_update(&world, &chunk_location([0, 0, 0]), &Relative([-1, 1, 1])).is_empty());
    assert!(relative_update(&world, &chunk_location([3, 3, 3]), &Relative([2, 2, -5])).is_empty());
    assert_eq!(
        relative_update(&world, &chunk_location([3, 3, 3]), &Relative([0, 0, 0])),
        vec![ChunkEvent::Generate(chunk_location([3, 3, 3]))]
    );
}

#[test]
fn index_holds_one_chunk_per_coordinate() {
    let mut world = ChunkWorld::default();
    let a = chunk_location([1, 2, 3]);
    let b = chunk_location([-1, -2, -3]);
    assert!(!world.contains_key(a));
    assert_eq!(world.get(a), None);
    add_to_world(&mut world, &vec![(ChunkId(10), a), (ChunkId(11), b)]);
    assert_eq!(world.get(a), Some(ChunkId(10)));
    assert_eq!(world.get(b), Some(ChunkId(11)));
    add_to_world(&mut world, &vec![(ChunkId(12), a)]);
    assert_eq!(world.get(a), Some(ChunkId(12)));
    assert_eq!(world.get(b), Some(ChunkId(11)));
    remove_from_world(&mut world, &vec![ChunkId(10)]);
    assert_eq!(world.get(a), Some(ChunkId(12)));
    remove_from_world(&mut world, &vec![ChunkId(12), ChunkId(99)]);
    assert_eq!(world.get(a), None);
    assert_eq!(world.get(b), Some(ChunkId(11)));
}

#[test]
fn a_chunk_is_found_at_one_coordinate_only() {
    let mut world = ChunkWorld::new();
    let a = chunk_location([0, 0, 0]);
    let b = chunk_location([0, 0, 1]);
    world.register(a, ChunkId(7));
    world.register(b, ChunkId(7));
    assert_eq!(world.get(a), None);
    assert_eq!(world.get(b), Some(ChunkId(7)));
    world.unregister(ChunkId(7));
    assert!(!world.contains_key(b));
}

#[test]
fn distinct_coordinates_do_not_collide() {
    let mut world = ChunkWorld::new();
    let corners = [
        chunk_location([i32::MIN, i32::MIN, i32::MIN]),
        chunk_location([i32::MAX, i32::MAX, i32::MAX]),
        chunk_location([i32::MIN, 0, i32::MAX]),
        chunk_location([0, 1, 0]),
        chunk_location([1, 0, 0]),
        chunk_location([0, 0, 1]),
        chunk_location([-1, 0, 0]),
    ];
    for (i, c) in corners.iter().enumerate() {
        world.register(*c, ChunkId(i as u64));
    }
    for (i, c) in corners.iter().enumerate() {
        assert_eq!(world.get(*c), Some(ChunkId(i as u64)));
    }
}

#[test]
fn generate_brings_one_chunk_into_being() {
    let mut world = ChunkWorld::new();
    let c = chunk_location([2, 0, -1]);
    let spawns = generate_chunk(&vec![ChunkEvent::Generate(c)], &world);
    assert_eq!(spawns, vec![c]);
    let (chunk, area) = spawn_chunk(c);
    assert_eq!(chunk.pos(), c);
    assert_eq!(area.0.minimum, Point3::new(64, 0, -32));
    assert_eq!(area.0.shape, Point3::new(32, 32, 32));
    add_to_world(&mut world, &vec![(ChunkId(1), c)]);
    assert_eq!(world.get(c), Some(ChunkId(1)));
    let again = generate_chunk(&vec![ChunkEvent::Generate(c)], &world);
    assert!(again.is_empty());
    assert_eq!(world.get(c), Some(ChunkId(1)));
}

#[test]
fn generate_drops_repeats_within_a_batch() {
    let world = ChunkWorld::new();
    let a = chunk_location([0, 0, 0]);
    let b = chunk_location([0, 1, 0]);
    let spawns = generate_chunk(
        &vec![
            ChunkEvent::Generate(a),
            ChunkEvent::Generate(b),
            ChunkEvent::Generate(a),
            ChunkEvent::Generate(b),
            ChunkEvent::Generate(a),
        ],
        &world,
    );
    assert_eq!(spawns, vec![a, b]);
}

#[test]
fn update_and_remove_requests_bring_nothing_about() {
    let world = ChunkWorld::new();
    let a = chunk_location([0, 0, 0]);
    let spawns = generate_chunk(&vec![ChunkEvent::Update(a), ChunkEvent::Remove(a)], &world);
    assert!(spawns.is_empty());
}

#[test]
fn a_subject_asks_only_when_its_chunk_changes() {
    let mut world = ChunkWorld::new();
    let mut subject = StreamingSubject::new(Relative([0, 0, 0]));
    assert_eq!(subject.location, None);
    assert_eq!(
        subject.observe(Point3::new(1, 1, 1), &world),
        vec![ChunkEvent::Generate(chunk_location([0, 0, 0]))]
    );
    assert_eq!(subject.location, Some(chunk_location([0, 0, 0])));
    assert!(subject.observe(Point3::new(31, 0, 0), &world).is_empty());
    assert!(subject.observe(Point3::new(-31, 0, 0), &world).is_empty());
    assert_eq!(
        subject.observe(Point3::new(32, 0, 0), &world),
        vec![ChunkEvent::Generate(chunk_location([1, 0, 0]))]
    );
    assert_eq!(subject.location, Some(chunk_location([1, 0, 0])));
    world.register(chunk_location([0, 0, 0]), ChunkId(1));
    assert!(subject.observe(Point3::new(0, 0, 0), &world).is_empty());
    assert_eq!(subject.location, Some(chunk_location([0, 0, 0])));
}

#[test]
fn reach_is_limited_by_the_range_of_coordinates() {
    assert!(is_in_reach(&chunk_location([0, 0, 0]), &Relative([5, 5, 5])));
    assert!(is_in_reach(&chunk_location([0, 0, 0]), &Relative([-5, 0, 1073741823])));
    assert!(!is_in_reach(&chunk_location([0, 0, 0]), &Relative([0, 0, 1073741824])));
    assert!(!is_in_reach(&chunk_location([i32::MAX, 0, 0]), &Relative([0, 0, 0])));
    assert!(is_in_reach(&chunk_location([i32::MAX - 1, 0, 0]), &Relative([0, 0, 0])));
    assert!(!is_in_reach(&chunk_location([i32::MIN, 0, 0]), &Relative([1, 0, 0])));
    assert!(is_in_reach(&chunk_location([i32::MIN, 0, 0]), &Relative([0, 0, 0])));
}
