use std::time::Duration;
use vstd::prelude::*;
use crate::error::SlamError;
use crate::mask::{select, status_bit, select_by_mask, status_mask};
use crate::payload::Payload;

verus! {

/// One feature of a frame: where it was seen and what it looks like.
pub struct Feature<T: Payload> {
    pub keypoint: T::KeyPoint,
    pub descriptor: T::Descriptor,
}

/// A putative correspondence between two frames: the place of a feature in
/// the first (train) frame and the place of its partner in the second
/// (query) frame.
#[derive(Clone, Copy, Debug, PartialEq, Eq, Structural)]
pub struct FeatureMatch {
    pub query_idx: i32,
    pub train_idx: i32,
}

/// One incoming camera frame, reduced to its features.
pub struct Frame<T: Payload> {
    pub timestamp: Duration,
    pub img: T::Image,
    pub keypoints: Vec<Feature<T>>,
    pub pose: T::Pose,
}

/// Copies a sequence of features.
pub fn copy_features<T: Payload>(features: &Vec<Feature<T>>) -> (copy: Vec<Feature<T>>)
    ensures
        copy@ == features@,
{
    let mut copy: Vec<Feature<T>> = Vec::new();
    let mut i: usize = 0;
    while i < features.len()
        invariant
            i <= features.len(),
            copy@ == features@.take(i as int),
        decreases features.len() - i,
    {
        let f = &features[i];
        copy.push(Feature { keypoint: f.keypoint, descriptor: f.descriptor });
        proof {
            assert(features@.take(i + 1) == features@.take(i as int).push(features@[i as int]));
        }
        i = i + 1;
    }
    proof {
        assert(features@.take(features.len() as int) == features@);
    }
    copy
}

impl<T: Payload> Frame<T> {
    /// A frame with the given content.
    pub fn new(
        timestamp: Duration,
        img: T::Image,
        keypoints: Vec<Feature<T>>,
        pose: T::Pose,
    ) -> (frame: Self)
        ensures
            frame.timestamp == timestamp,
            frame.img == img,
            frame.keypoints == keypoints,
            frame.pose == pose,
    {
        Frame { timestamp, img, keypoints, pose }
    }
}

/// Whether both places of a correspondence exist, in frames of `n1` and `n2`
/// features.
pub open spec fn in_range(m: FeatureMatch, n1: int, n2: int) -> bool {
    0 <= m.train_idx < n1 && 0 <= m.query_idx < n2
}

/// Whether every correspondence names features that exist.
pub open spec fn all_in_range(matches: Seq<FeatureMatch>, n1: int, n2: int) -> bool {
    forall|i: int| 0 <= i < matches.len() ==> in_range(#[trigger] matches[i], n1, n2)
}

/// Tells whether every correspondence names features that exist, in frames
/// of `n1` and `n2` features.
pub fn matches_in_range(matches: &Vec<FeatureMatch>, n1: usize, n2: usize) -> (b: bool)
    ensures
        b == all_in_range(matches@, n1 as int, n2 as int),
{
    let mut i: usize = 0;
    while i < matches.len()
        invariant
            i <= matches.len(),
            forall|j: int| 0 <= j < i ==> in_range(#[trigger] matches@[j], n1 as int, n2 as int),
        decreases matches.len() - i,
    {
        let m = matches[i];
        if m.train_idx < 0 || m.query_idx < 0 {
            assert(!in_range(matches@[i as int], n1 as int, n2 as int));
            return false;
        }
        if m.train_idx as usize >= n1 || m.query_idx as usize >= n2 {
            assert(!in_range(matches@[i as int], n1 as int, n2 as int));
            return false;
        }
        i = i + 1;
    }
    true
}

/// Resolves each correspondence to its two keypoints. Fails with
/// `MatchFailed` if a correspondence names a feature that does not exist.
pub fn matches2points<T: Payload>(
    matches: &Vec<FeatureMatch>,
    keypoints1: &Vec<Feature<T>>,
    keypoints2: &Vec<Feature<T>>,
) -> (r: Result<(Vec<T::KeyPoint>, Vec<T::KeyPoint>), SlamError>)
    ensures
        match r {
            Ok((points1, points2)) => {
                &&& all_in_range(matches@, keypoints1.len() as int, keypoints2.len() as int)
                &&& points1.len() == matches.len()
                &&& points2.len() == matches.len()
                &&& forall|i: int|
                    0 <= i < matches.len() ==> #[trigger] points1[i]
                        == keypoints1[matches[i].train_idx as int].keypoint
                &&& forall|i: int|
                    0 <= i < matches.len() ==> #[trigger] points2[i]
                        == keypoints2[matches[i].query_idx as int].keypoint
            },
            Err(e) => {
                &&& !all_in_range(matches@, keypoints1.len() as int, keypoints2.len() as int)
                &&& e == SlamError::MatchFailed
            },
        },
{
    let mut points1: Vec<T::KeyPoint> = Vec::new();
    let mut points2: Vec<T::KeyPoint> = Vec::new();
    let mut i: usize = 0;
    while i < matches.len()
        invariant
            i <= matches.len(),
            points1.len() == i,
            points2.len() == i,
            all_in_range(matches@.take(i as int), keypoints1.len() as int, keypoints2.len() as int),
            forall|j: int|
                0 <= j < i ==> #[trigger] points1[j] == keypoints1[matches[j].train_idx as int].keypoint,
            forall|j: int|
                0 <= j < i ==> #[trigger] points2[j] == keypoints2[matches[j].query_idx as int].keypoint,
        decreases matches.len() - i,
    {
        let m = matches[i];
        if m.train_idx < 0 || m.query_idx < 0 {
            assert(!in_range(matches@[i as int], keypoints1.len() as int, keypoints2.len() as int));
            return Err(SlamError::MatchFailed);
        }
        let i1: usize = m.train_idx as usize;
        let i2: usize = m.query_idx as usize;
        if i1 >= keypoints1.len() || i2 >= keypoints2.len() {
            assert(!in_range(matches@[i as int], keypoints1.len() as int, keypoints2.len() as int));
            return Err(SlamError::MatchFailed);
        }
        points1.push(keypoints1[i1].keypoint);
        points2.push(keypoints2[i2].keypoint);
        proof {
            assert forall|j: int| 0 <= j < i + 1 implies in_range(
                #[trigger] matches@.take(i + 1)[j],
                keypoints1.len() as int,
                keypoints2.len() as int,
            ) by {
                if j < i {
                    assert(matches@.take(i + 1)[j] == matches@.take(i as int)[j]);
                }
            }
        }
        i = i + 1;
    }
    proof {
        assert(matches@.take(matches.len() as int) == matches@);
    }
    Ok((points1, points2))
}

/// The two places of each correspondence, as positions in a feature list.
/// A negative place wraps around, as a conversion to an unsigned integer
/// does, and so names no feature of any frame.
pub fn matches2indices(matches: &Vec<FeatureMatch>) -> (r: (Vec<usize>, Vec<usize>))
    ensures
        r.0.len() == matches.len(),
        r.1.len() == matches.len(),
        forall|i: int| 0 <= i < matches.len() ==> #[trigger] r.0[i] == matches[i].train_idx as usize,
        forall|i: int| 0 <= i < matches.len() ==> #[trigger] r.1[i] == matches[i].query_idx as usize,
{
    let mut idx1: Vec<usize> = Vec::new();
    let mut idx2: Vec<usize> = Vec::new();
    let mut i: usize = 0;
    while i < matches.len()
        invariant
            i <= matches.len(),
            idx1.len() == i,
            idx2.len() == i,
            forall|j: int| 0 <= j < i ==> #[trigger] idx1[j] == matches[j].train_idx as usize,
            forall|j: int| 0 <= j < i ==> #[trigger] idx2[j] == matches[j].query_idx as usize,
        decreases matches.len() - i,
    {
        let m = matches[i];
        idx1.push(m.train_idx as usize);
        idx2.push(m.query_idx as usize);
        i = i + 1;
    }
    (idx1, idx2)
}

/// Keeps the correspondences that a robust fit accepted: those whose status
/// byte is not zero.
pub fn select_by_status(matches: &Vec<FeatureMatch>, status: &Vec<u8>) -> (kept: Vec<FeatureMatch>)
    ensures
        kept@ == select(matches@, status@.map_values(|s: u8| status_bit(s))),
{
    let mask = status_mask(status);
    select_by_mask(matches, &mask)
}

} // verus!
