use std::time::Duration;

use mono_slam::error::SlamError;
use mono_slam::frame::{Feature, Frame};
use mono_slam::ids::IdAllocator;
use mono_slam::keyframe::KeyFrame;
use mono_slam::map_graph::{sightings_by, MapGraph};
use mono_slam::mappoint::{MapPoint, MapPointReference};
use mono_slam::payload::Payload;

struct Plain;

impl Payload for Plain {
    type Image = u32;
    type KeyPoint = (f32, f32);
    type Descriptor = [u8; 4];
    type Camera = [f64; 8];
    type Pose = [f64; 7];
    type Position = [f64; 3];
    type Information = [f64; 4];
}

const CAMERA: [f64; 8] = [458.654, 457.296, 367.215, 248.375, -0.28340811, 0.07395907, 0.00019359, 1.76187114e-05];
const IDENTITY: [f64; 7] = [0.0, 0.0, 0.0, 0.0, 0.0, 0.0, 1.0];

fn feature(x: f32, y: f32, d: u8) -> Feature<Plain> {
    Feature { keypoint: (x, y), descriptor: [d, d, d, d] }
}

fn keyframe(id: usize) -> KeyFrame<Plain> {
    KeyFrame::new_with_id(
        id,
        Duration::from_nanos(1000 + id as u64),
        7,
        vec![feature(1.0, 2.0, 1), feature(3.0, 4.0, 2)],
        CAMERA,
        IDENTITY,
    )
}

#[test]
fn keyframe_new_with_id_is_fresh() {
    let kf = keyframe(5);
    assert_eq!(kf.id, 5);
    assert_eq!(kf.timestamp, Duration::from_nanos(1005));
    assert_eq!(kf.img, 7);
    assert_eq!(kf.keypoints.len(), 2);
    assert_eq!(kf.keypoints[1].keypoint, (3.0, 4.0));
    assert_eq!(kf.keypoints[1].descriptor, [2, 2, 2, 2]);
    assert_eq!(kf.intrinsics, CAMERA);
    assert_eq!(kf.pose, IDENTITY);
    assert!(kf.observations.is_empty());
    assert!(kf.connections.is_empty());
}

#[test]
fn keyframe_new_draws_its_identity() {
    let mut ids = IdAllocator::starting_at(3);
    let a = KeyFrame::<Plain>::new(&mut ids, Duration::from_nanos(1), 0, vec![], CAMERA, IDENTITY).unwrap();
    let b = KeyFrame::<Plain>::new(&mut ids, Duration::from_nanos(2), 0, vec![], CAMERA, IDENTITY).unwrap();
    assert_eq!(a.id, 3);
    assert_eq!(b.id, 4);
}

#[test]
fn keyframe_new_fails_without_identities() {
    let mut ids = IdAllocator::starting_at(usize::MAX);
    let r = KeyFrame::<Plain>::new(&mut ids, Duration::from_nanos(1), 0, vec![], CAMERA, IDENTITY);
    assert!(matches!(r, Err(SlamError::IdSpaceExhausted)));
}

#[test]
fn keyframe_from_frame_copies_the_frame() {
    let pose = [1.0, 2.0, 3.0, 0.0, 0.0, 0.0, 1.0];
    let frame: Frame<Plain> =
        Frame::new(Duration::from_nanos(99), 12, vec![feature(5.0, 6.0, 9)], pose);
    let mut ids = IdAllocator::new();
    let kf = KeyFrame::from_frame(&mut ids, &frame, &CAMERA).unwrap();
    assert_eq!(kf.id, 0);
    assert_eq!(kf.timestamp, Duration::from_nanos(99));
    assert_eq!(kf.img, 12);
    assert_eq!(kf.keypoints.len(), 1);
    assert_eq!(kf.keypoints[0].keypoint, (5.0, 6.0));
    assert_eq!(kf.keypoints[0].descriptor, [9, 9, 9, 9]);
    assert_eq!(kf.pose, pose);
    assert_eq!(kf.intrinsics, CAMERA);
    assert!(kf.observations.is_empty());
    assert_eq!(frame.keypoints.len(), 1);
}

#[test]
fn keyframe_observations_and_connections_append() {
    let mut kf = keyframe(1);
    kf.add_observation(10);
    kf.add_observations(vec![11, 12]);
    kf.add_connection(2);
    kf.add_connections(vec![3, 4]);
    assert_eq!(kf.observations, vec![10, 11, 12]);
    assert_eq!(kf.connections, vec![2, 3, 4]);
    assert_eq!(kf.id, 1);
    assert_eq!(kf.observation(11), Some(11));
    assert_eq!(kf.observation(2), None);
}

#[test]
fn mappoint_references_append() {
    let mut mp: MapPoint<Plain> = MapPoint::new_with_id(8, [0.0, 0.0, 5.0], [1, 2, 3, 4]);
    assert_eq!(mp.id, 8);
    assert_eq!(mp.position, [0.0, 0.0, 5.0]);
    assert_eq!(mp.descriptor, [1, 2, 3, 4]);
    assert!(mp.references.is_empty());
    let kf = keyframe(3);
    mp.add_reference(MapPointReference::new(2, &(1.0, 2.0), &[5, 5, 5, 5]));
    mp.add_references(vec![MapPointReference::new_with_kf(&kf, &(3.0, 4.0), &[6, 6, 6, 6])]);
    assert_eq!(mp.references.len(), 2);
    assert_eq!(mp.references[0].id, 2);
    assert_eq!(mp.references[0].keypoint, (1.0, 2.0));
    assert_eq!(mp.references[1].id, 3);
    assert_eq!(mp.references[1].descriptor, [6, 6, 6, 6]);
}

#[test]
fn mappoint_new_shares_the_counter_with_keyframes() {
    let mut ids = IdAllocator::new();
    let kf = KeyFrame::<Plain>::new(&mut ids, Duration::from_nanos(1), 0, vec![], CAMERA, IDENTITY).unwrap();
    let mp = MapPoint::<Plain>::new(&mut ids, [1.0, 2.0, 3.0], [0, 0, 0, 0]).unwrap();
    let kf2 = KeyFrame::<Plain>::new(&mut ids, Duration::from_nanos(2), 0, vec![], CAMERA, IDENTITY).unwrap();
    assert_eq!((kf.id, mp.id, kf2.id), (0, 1, 2));
}

#[test]
fn mappoint_new_fails_without_identities() {
    let mut ids = IdAllocator::starting_at(usize::MAX);
    let r = MapPoint::<Plain>::new(&mut ids, [1.0, 2.0, 3.0], [0, 0, 0, 0]);
    assert!(matches!(r, Err(SlamError::IdSpaceExhausted)));
}

#[test]
fn inserted_keyframe_is_found_again() {
    let mut map: MapGraph<Plain> = MapGraph::new();
    let mut kf = keyframe(4);
    kf.add_observation(9);
    map.insert_keyframe(kf);
    let found = map.keyframe(4).unwrap();
    assert_eq!(found.id, 4);
    assert_eq!(found.observations, vec![9]);
    assert_eq!(found.timestamp, Duration::from_nanos(1004));
    assert!(matches!(map.keyframe(5), Err(SlamError::NotFound)));
    assert!(matches!(map.mappoint(4), Err(SlamError::NotFound)));
}

#[test]
fn inserted_mappoint_is_found_again() {
    let mut map: MapGraph<Plain> = MapGraph::new();
    map.insert_mappoint(MapPoint::new_with_id(2, [1.0, 2.0, 3.0], [9, 9, 9, 9]));
    let found = map.mappoint(2).unwrap();
    assert_eq!(found.id, 2);
    assert_eq!(found.position, [1.0, 2.0, 3.0]);
    assert!(matches!(map.mappoint(3), Err(SlamError::NotFound)));
    assert!(matches!(map.keyframe(2), Err(SlamError::NotFound)));
}

#[test]
fn inserting_under_a_used_identity_replaces() {
    let mut map: MapGraph<Plain> = MapGraph::new();
    map.insert_mappoint(MapPoint::new_with_id(2, [1.0, 2.0, 3.0], [9, 9, 9, 9]));
    map.insert_mappoint(MapPoint::new_with_id(2, [4.0, 5.0, 6.0], [8, 8, 8, 8]));
    assert_eq!(map.points().len(), 1);
    assert_eq!(map.mappoint(2).unwrap().position, [4.0, 5.0, 6.0]);
}

#[test]
fn points_lists_every_landmark_once() {
    let mut map: MapGraph<Plain> = MapGraph::new();
    assert!(map.points().is_empty());
    for id in [5usize, 1, 9] {
        map.insert_mappoint(MapPoint::new_with_id(id, [id as f64, 0.0, 0.0], [0, 0, 0, 0]));
    }
    let mut ids: Vec<usize> = map.points().iter().map(|p| p.id).collect();
    ids.sort();
    assert_eq!(ids, vec![1, 5, 9]);
    let again: Vec<usize> = map.points().iter().map(|p| p.id).collect();
    assert_eq!(again.len(), 3);
}

#[test]
fn set_pose_changes_only_the_pose() {
    let mut map: MapGraph<Plain> = MapGraph::new();
    let mut kf = keyframe(4);
    kf.add_observation(9);
    map.insert_keyframe(kf);
    map.insert_keyframe(keyframe(6));
    let pose = [1.0, 0.0, 0.0, 0.0, 0.0, 0.0, 1.0];
    assert_eq!(map.set_pose(4, pose), Ok(()));
    assert_eq!(map.keyframe(4).unwrap().pose, pose);
    assert_eq!(map.keyframe(4).unwrap().observations, vec![9]);
    assert_eq!(map.keyframe(4).unwrap().keypoints.len(), 2);
    assert_eq!(map.keyframe(6).unwrap().pose, IDENTITY);
    assert_eq!(map.set_pose(5, pose), Err(SlamError::NotFound));
    assert_eq!(map.keyframes.len(), 2);
}

#[test]
fn set_position_changes_only_the_position() {
    let mut map: MapGraph<Plain> = MapGraph::new();
    let mut mp: MapPoint<Plain> = MapPoint::new_with_id(2, [1.0, 2.0, 3.0], [9, 9, 9, 9]);
    mp.add_reference(MapPointReference::new(0, &(1.0, 2.0), &[5, 5, 5, 5]));
    map.insert_mappoint(mp);
    assert_eq!(map.set_position(2, [7.0, 8.0, 9.0]), Ok(()));
    let found = map.mappoint(2).unwrap();
    assert_eq!(found.position, [7.0, 8.0, 9.0]);
    assert_eq!(found.descriptor, [9, 9, 9, 9]);
    assert_eq!(found.references.len(), 1);
    assert_eq!(map.set_position(3, [0.0, 0.0, 0.0]), Err(SlamError::NotFound));
    assert_eq!(map.mappoints.len(), 1);
}

#[test]
fn next_id_draws_from_the_graphs_counter() {
    let mut map: MapGraph<Plain> = MapGraph::with_ids(IdAllocator::starting_at(10));
    assert_eq!(map.next_id(), Ok(10));
    assert_eq!(map.next_id(), Ok(11));
    let mut full: MapGraph<Plain> = MapGraph::with_ids(IdAllocator::starting_at(usize::MAX));
    assert_eq!(full.next_id(), Err(SlamError::IdSpaceExhausted));
}

#[test]
fn sightings_by_collects_the_pixels_of_one_keyframe() {
    let mut a: MapPoint<Plain> = MapPoint::new_with_id(2, [1.0, 2.0, 3.0], [9, 9, 9, 9]);
    a.add_reference(MapPointReference::new(0, &(1.0, 2.0), &[5, 5, 5, 5]));
    a.add_reference(MapPointReference::new(1, &(3.0, 4.0), &[5, 5, 5, 5]));
    a.add_reference(MapPointReference::new(0, &(5.0, 6.0), &[5, 5, 5, 5]));
    let b: MapPoint<Plain> = MapPoint::new_with_id(3, [1.0, 2.0, 3.0], [9, 9, 9, 9]);
    let mut c: MapPoint<Plain> = MapPoint::new_with_id(4, [1.0, 2.0, 3.0], [9, 9, 9, 9]);
    c.add_reference(MapPointReference::new(1, &(7.0, 8.0), &[5, 5, 5, 5]));
    c.add_reference(MapPointReference::new(0, &(9.0, 10.0), &[5, 5, 5, 5]));
    let points = vec![&a, &b, &c];
    assert_eq!(sightings_by(&points, 0), vec![(1.0, 2.0), (5.0, 6.0), (9.0, 10.0)]);
    assert_eq!(sightings_by(&points, 1), vec![(3.0, 4.0), (7.0, 8.0)]);
    assert!(sightings_by(&points, 2).is_empty());
    assert!(sightings_by::<Plain>(&vec![], 0).is_empty());
}
