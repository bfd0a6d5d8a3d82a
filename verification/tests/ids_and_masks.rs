use mono_slam::error::SlamError;
use mono_slam::frame::{matches2indices, matches2points, select_by_status, Feature, FeatureMatch};
use mono_slam::ids::{generate_id, IdAllocator, MAX_ID};
use mono_slam::mask::{count_inliers, select_by_mask, status_mask};
use mono_slam::payload::Payload;

struct Plain;

impl Payload for Plain {
    type Image = u32;
    type KeyPoint = (f32, f32);
    type Descriptor = [u8; 4];
    type Camera = [f64; 8];
    type Pose = [f64; 7];
    type Position = [f64; 3];
    type Information = [f64; 4];
}

fn feature(x: f32, y: f32, d: u8) -> Feature<Plain> {
    Feature { keypoint: (x, y), descriptor: [d, d, d, d] }
}

fn m(train_idx: i32, query_idx: i32) -> FeatureMatch {
    FeatureMatch { query_idx, train_idx }
}

#[test]
fn ids_count_up_from_zero() {
    let mut ids = IdAllocator::new();
    assert_eq!(generate_id(&mut ids), Ok(0));
    assert_eq!(generate_id(&mut ids), Ok(1));
    assert_eq!(generate_id(&mut ids), Ok(2));
}

#[test]
fn ids_are_distinct_and_increasing() {
    let mut ids = IdAllocator::starting_at(40);
    let mut seen: Vec<usize> = Vec::new();
    for _ in 0..100 {
        seen.push(generate_id(&mut ids).unwrap());
    }
    for i in 1..seen.len() {
        assert!(seen[i - 1] < seen[i]);
    }
    assert_eq!(seen[0], 40);
    assert_eq!(seen[99], 139);
}

#[test]
fn max_id_is_half_the_range() {
    assert_eq!(MAX_ID, usize::MAX / 2);
}

#[test]
fn the_largest_id_is_handed_out_once() {
    let mut ids = IdAllocator::starting_at(MAX_ID - 1);
    assert_eq!(ids.remaining(), 2);
    assert_eq!(generate_id(&mut ids), Ok(MAX_ID - 1));
    assert_eq!(generate_id(&mut ids), Ok(MAX_ID));
    assert_eq!(ids.remaining(), 0);
    assert_eq!(generate_id(&mut ids), Err(SlamError::IdSpaceExhausted));
    assert_eq!(generate_id(&mut ids), Err(SlamError::IdSpaceExhausted));
}

#[test]
fn a_counter_beyond_the_range_is_exhausted() {
    let mut ids = IdAllocator::starting_at(usize::MAX);
    assert_eq!(ids.remaining(), 0);
    assert_eq!(generate_id(&mut ids), Err(SlamError::IdSpaceExhausted));
}

#[test]
fn remaining_counts_down() {
    let mut ids = IdAllocator::new();
    assert_eq!(ids.remaining(), MAX_ID + 1);
    generate_id(&mut ids).unwrap();
    assert_eq!(ids.remaining(), MAX_ID);
}

#[test]
fn count_inliers_counts_true_entries() {
    assert_eq!(count_inliers(&vec![]), 0);
    assert_eq!(count_inliers(&vec![false, false]), 0);
    assert_eq!(count_inliers(&vec![true, false, true, true]), 3);
}

#[test]
fn select_by_mask_keeps_marked_items_in_order() {
    let items = vec![10u32, 11, 12, 13, 14];
    let mask = vec![true, false, false, true, true];
    assert_eq!(select_by_mask(&items, &mask), vec![10, 13, 14]);
}

#[test]
fn select_by_mask_pairs_from_the_front() {
    let items = vec![10u32, 11, 12, 13, 14];
    assert_eq!(select_by_mask(&items, &vec![false, true]), vec![11]);
    assert_eq!(select_by_mask(&vec![7u32], &vec![true, true, true]), vec![7]);
    assert_eq!(select_by_mask(&items, &vec![]), Vec::<u32>::new());
}

#[test]
fn status_mask_is_true_where_nonzero() {
    assert_eq!(status_mask(&vec![0, 1, 255, 0, 2]), vec![false, true, true, false, true]);
    assert_eq!(status_mask(&vec![]), Vec::<bool>::new());
}

#[test]
fn select_by_status_keeps_accepted_matches() {
    let matches = vec![m(0, 1), m(1, 2), m(2, 0), m(3, 3)];
    let kept = select_by_status(&matches, &vec![1, 0, 0, 7]);
    assert_eq!(kept, vec![m(0, 1), m(3, 3)]);
}

#[test]
fn matches2points_resolves_both_sides() {
    let first = vec![feature(1.0, 2.0, 1), feature(3.0, 4.0, 2), feature(5.0, 6.0, 3)];
    let second = vec![feature(10.0, 20.0, 4), feature(30.0, 40.0, 5)];
    let matches = vec![m(2, 0), m(0, 1)];
    let (left, right) = matches2points::<Plain>(&matches, &first, &second).unwrap();
    assert_eq!(left, vec![(5.0, 6.0), (1.0, 2.0)]);
    assert_eq!(right, vec![(10.0, 20.0), (30.0, 40.0)]);
}

#[test]
fn matches2points_of_no_matches_is_empty() {
    let first = vec![feature(1.0, 2.0, 1)];
    let (left, right) = matches2points::<Plain>(&vec![], &first, &first).unwrap();
    assert!(left.is_empty());
    assert!(right.is_empty());
}

#[test]
fn matches2points_refuses_a_place_beyond_the_frame() {
    let first = vec![feature(1.0, 2.0, 1)];
    let second = vec![feature(10.0, 20.0, 4)];
    assert_eq!(
        matches2points::<Plain>(&vec![m(0, 0), m(1, 0)], &first, &second),
        Err(SlamError::MatchFailed)
    );
    assert_eq!(
        matches2points::<Plain>(&vec![m(0, 1)], &first, &second),
        Err(SlamError::MatchFailed)
    );
}

#[test]
fn matches2points_refuses_a_negative_place() {
    let first = vec![feature(1.0, 2.0, 1)];
    assert_eq!(
        matches2points::<Plain>(&vec![m(-1, 0)], &first, &first),
        Err(SlamError::MatchFailed)
    );
    assert_eq!(
        matches2points::<Plain>(&vec![m(0, -3)], &first, &first),
        Err(SlamError::MatchFailed)
    );
}

#[test]
fn matches2indices_splits_train_and_query() {
    let (idx1, idx2) = matches2indices(&vec![m(4, 9), m(0, 2)]);
    assert_eq!(idx1, vec![4, 0]);
    assert_eq!(idx2, vec![9, 2]);
}

#[test]
fn matches2indices_wraps_a_negative_place() {
    let (idx1, idx2) = matches2indices(&vec![m(-1, -2)]);
    assert_eq!(idx1, vec![usize::MAX]);
    assert_eq!(idx2, vec![usize::MAX - 1]);
}
