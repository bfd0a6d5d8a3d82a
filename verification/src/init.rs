use vstd::prelude::*;
use crate::error::SlamError;
use crate::frame::{all_in_range, in_range, matches_in_range, FeatureMatch, Frame};
use crate::ids::{spec_remaining, MAX_ID};
use crate::keyframe::{KeyFrame, KeyFrameId};
use crate::map_graph::{MapGraph, MapGraphView};
use crate::mappoint::{MapPoint, MapPointId, MapPointReference};
use crate::mask::{
    count_inliers,
    count_true,
    count_true_upto,
    lemma_count_monotone,
    lemma_select_len,
    select,
    select_upto,
};
use crate::payload::Payload;
use crate::recover_pose::Hypothesis;

verus! {

broadcast use vstd::std_specs::hash::group_hash_axioms;

/// What the matching collaborator and the epipolar recovery found for a pair
/// of frames: the correspondences that the essential fit kept, and the pose
/// hypothesis that won, whose mask and points stand in the order of the
/// correspondences.
pub struct Pairing<T: Payload> {
    pub matches: Vec<FeatureMatch>,
    pub recovery: Hypothesis<T>,
}

impl<T: Payload> Pairing<T> {
    /// Whether the pairing can belong to the two frames: mask and points are
    /// as long as the list of correspondences, and every correspondence
    /// names features that the frames have.
    pub open spec fn fits(self, first: Frame<T>, second: Frame<T>) -> bool {
        &&& self.recovery.mask@.len() == self.matches@.len()
        &&& self.recovery.points3d@.len() == self.matches@.len()
        &&& all_in_range(self.matches@, first.keypoints@.len() as int, second.keypoints@.len() as int)
    }

    /// The correspondences that are inliers, in their order.
    pub open spec fn inlier_matches(self) -> Seq<FeatureMatch> {
        select(self.matches@, self.recovery.mask@)
    }

    /// The triangulated points of the inliers, in the same order.
    pub open spec fn inlier_points(self) -> Seq<T::Position> {
        select(self.recovery.points3d@, self.recovery.mask@)
    }
}

/// Whether `mappoint` is the landmark of correspondence `m`: it has the
/// given identity and position, the descriptor of its feature in the second
/// frame, and one sighting by each of the two keyframes, the first
/// keyframe's first.
pub open spec fn is_landmark_of<T: Payload>(
    mappoint: MapPoint<T>,
    id: MapPointId,
    position: T::Position,
    m: FeatureMatch,
    first: Frame<T>,
    second: Frame<T>,
    kf1: KeyFrameId,
    kf2: KeyFrameId,
) -> bool {
    let f1 = first.keypoints@[m.train_idx as int];
    let f2 = second.keypoints@[m.query_idx as int];
    &&& mappoint.id == id
    &&& mappoint.position == position
    &&& mappoint.descriptor == f2.descriptor
    &&& mappoint.references@ == seq![
        MapPointReference::<T> { id: kf1, keypoint: f1.keypoint, descriptor: f1.descriptor },
        MapPointReference::<T> { id: kf2, keypoint: f2.keypoint, descriptor: f2.descriptor },
    ]
}

/// The identities `start`, `start + 1`, ... of `count` landmarks.
pub open spec fn landmark_ids(start: nat, count: nat) -> Seq<MapPointId> {
    Seq::new(count, |j: int| (start + j) as usize)
}

/// Whether `graph` is the map that two frames and their pairing give when
/// identities are counted from `start`: the first frame as keyframe
/// `start`, the second as keyframe `start + 1` under the recovered pose, and
/// one landmark for each inlier, numbered from `start + 2` in the order of
/// the correspondences, seen by both keyframes.
pub open spec fn is_bootstrap<T: Payload>(
    graph: MapGraphView<T>,
    first: Frame<T>,
    second: Frame<T>,
    intrinsics: T::Camera,
    pairing: Pairing<T>,
    start: nat,
) -> bool {
    let matches = pairing.inlier_matches();
    let points = pairing.inlier_points();
    let count = matches.len();
    let kf1 = start as usize;
    let kf2 = (start + 1) as usize;
    &&& graph.next_id == start + 2 + count
    &&& graph.keyframes.dom() == set![kf1, kf2]
    &&& graph.keyframes[kf1].carries(
        kf1,
        first.timestamp,
        first.img,
        first.keypoints@,
        intrinsics,
        first.pose,
    )
    &&& graph.keyframes[kf1].observations@ == landmark_ids(start + 2, count)
    &&& graph.keyframes[kf1].connections@ == Seq::<KeyFrameId>::empty()
    &&& graph.keyframes[kf2].carries(
        kf2,
        second.timestamp,
        second.img,
        second.keypoints@,
        intrinsics,
        pairing.recovery.pose,
    )
    &&& graph.keyframes[kf2].observations@ == landmark_ids(start + 2, count)
    &&& graph.keyframes[kf2].connections@ == Seq::<KeyFrameId>::empty()
    &&& graph.mappoints.dom() == Set::new(|id: MapPointId| start + 2 <= id < start + 2 + count)
    &&& forall|j: int|
        0 <= j < count ==> is_landmark_of(
            #[trigger] graph.mappoints[(start + 2 + j) as usize],
            (start + 2 + j) as usize,
            points[j],
            matches[j],
            first,
            second,
            kf1,
            kf2,
        )
}

/// The map of a bootstrap is consistent: every sighting names one of its two
/// keyframes, every observation names one of its landmarks, and each entity
/// is stored under its own identity.
pub proof fn lemma_bootstrap_consistent<T: Payload>(
    graph: MapGraphView<T>,
    first: Frame<T>,
    second: Frame<T>,
    intrinsics: T::Camera,
    pairing: Pairing<T>,
    start: nat,
)
    requires
        is_bootstrap(graph, first, second, intrinsics, pairing, start),
        start + 2 + pairing.inlier_matches().len() <= MAX_ID + 1,
    ensures
        graph.consistent(),
{
    let count = pairing.inlier_matches().len();
    let kf1 = start as usize;
    let kf2 = (start + 1) as usize;
    assert(graph.keyframes.contains_key(kf1));
    assert(graph.keyframes.contains_key(kf2));
    assert forall|m: MapPointId, i: int|
        graph.mappoints.contains_key(m) && 0 <= i < graph.mappoints[m].references@.len()
        implies graph.keyframes.contains_key(
        #[trigger] graph.mappoints[m].references@[i].id,
    ) by {
        let j = m - (start + 2);
        assert(graph.mappoints[(start + 2 + j) as usize] == graph.mappoints[m]);
    }
    assert forall|k: KeyFrameId, i: int|
        graph.keyframes.contains_key(k) && 0 <= i < graph.keyframes[k].observations@.len()
        implies graph.mappoints.contains_key(
        #[trigger] graph.keyframes[k].observations@[i],
    ) by {
        assert(k == kf1 || k == kf2);
        assert(graph.keyframes[k].observations@[i] == (start + 2 + i) as usize);
    }
    assert forall|m: MapPointId| graph.mappoints.contains_key(m) implies (
    #[trigger] graph.mappoints[m]).id == m by {
        let j = m - (start + 2);
        assert(graph.mappoints[(start + 2 + j) as usize] == graph.mappoints[m]);
    }
}

/// Where a bootstrap stands.
#[derive(Clone, Copy, Debug, PartialEq, Eq, Structural)]
pub enum InitState {
    /// No frame is held yet.
    AwaitingFirstFrame,
    /// The first frame is held, and no later frame could be paired with it.
    AwaitingSecondFrame,
    /// The initial map stands.
    Done,
}

/// The two-frame bootstrap: holds the first frame until a later frame can be
/// paired with it, then builds the initial map from the two.
pub struct Init<T: Payload> {
    /// The frame against which every later frame is tried.
    pub first_frame: Option<Frame<T>>,
    pub intrinsics: T::Camera,
    /// The map of the last bootstrap that succeeded; empty before.
    pub map: MapGraph<T>,
    pub done: bool,
}

impl<T: Payload> Init<T> {
    /// Whether a bootstrap from the held first frame, `second` and `pairing`
    /// fails for want of identities.
    pub open spec fn short_of_ids(self, pairing: Pairing<T>) -> bool {
        spec_remaining(self.map@.next_id) < 2 + count_true(pairing.recovery.mask@)
    }

    /// An initializer that holds no frame yet, with an empty map.
    pub fn new(intrinsics: &T::Camera) -> (init: Self)
        ensures
            init.first_frame is None,
            init.intrinsics == *intrinsics,
            init.map@.keyframes == Map::<KeyFrameId, KeyFrame<T>>::empty(),
            init.map@.mappoints == Map::<MapPointId, MapPoint<T>>::empty(),
            init.map@.next_id == 0,
            !init.done,
    {
        Init { first_frame: None, intrinsics: *intrinsics, map: MapGraph::new(), done: false }
    }

    /// Where the bootstrap stands.
    pub open spec fn spec_state(self) -> InitState {
        if self.done {
            InitState::Done
        } else if self.first_frame is None {
            InitState::AwaitingFirstFrame
        } else {
            InitState::AwaitingSecondFrame
        }
    }

    /// Where the bootstrap stands.
    pub fn state(&self) -> (state: InitState)
        ensures
            state == self.spec_state(),
    {
        if self.done {
            InitState::Done
        } else if self.first_frame.is_none() {
            InitState::AwaitingFirstFrame
        } else {
            InitState::AwaitingSecondFrame
        }
    }

    /// Whether a bootstrap has succeeded.
    pub fn done(&self) -> (done: bool)
        ensures
            done == self.done,
    {
        self.done
    }

    /// Builds the initial map from the held first frame, `second_frame` and
    /// their pairing, and marks the initializer as done.
    ///
    /// Fails with `MatchFailed` if the pairing does not fit the two frames,
    /// and with `IdSpaceExhausted` if the counter cannot number two
    /// keyframes and one landmark for each inlier. A failure changes nothing.
    pub fn initialize(&mut self, second_frame: Frame<T>, pairing: Pairing<T>) -> (r: Result<(), SlamError>)
        requires
            old(self).first_frame is Some,
        ensures
            match r {
                Ok(()) => {
                    &&& pairing.fits(old(self).first_frame->0, second_frame)
                    &&& !old(self).short_of_ids(pairing)
                    &&& final(self).done
                    &&& final(self).first_frame == old(self).first_frame
                    &&& final(self).intrinsics == old(self).intrinsics
                    &&& is_bootstrap(
                        final(self).map@,
                        old(self).first_frame->0,
                        second_frame,
                        old(self).intrinsics,
                        pairing,
                        old(self).map@.next_id,
                    )
                    &&& final(self).map@.consistent()
                },
                Err(e) => {
                    &&& *final(self) == *old(self)
                    &&& if pairing.fits(old(self).first_frame->0, second_frame) {
                        e == SlamError::IdSpaceExhausted && old(self).short_of_ids(pairing)
                    } else {
                        e == SlamError::MatchFailed
                    }
                },
            },
    {
        let n: usize = pairing.matches.len();
        let fits: bool = match &self.first_frame {
            Some(first) => pairing.recovery.mask.len() == n && pairing.recovery.points3d.len() == n
                && matches_in_range(&pairing.matches, first.keypoints.len(), second_frame.keypoints.len()),
            None => false,
        };
        if !fits {
            return Err(SlamError::MatchFailed);
        }
        let count: usize = count_inliers(&pairing.recovery.mask);
        let left: usize = self.map.ids.remaining();
        if left < 2 || left - 2 < count {
            return Err(SlamError::IdSpaceExhausted);
        }
        let ghost start: nat = self.map@.next_id;
        let ghost first_spec: Frame<T> = self.first_frame->0;
        let ghost mask = pairing.recovery.mask@;
        let ghost matches = pairing.matches@;
        let ghost points3d = pairing.recovery.points3d@;
        proof {
            lemma_select_len(matches, mask, n as int);
            lemma_select_len(points3d, mask, n as int);
        }
        let first: &Frame<T> = match &self.first_frame {
            Some(first) => first,
            None => {
                return Err(SlamError::MatchFailed);
            },
        };
        let mut kf1: KeyFrame<T> = match KeyFrame::from_frame(&mut self.map.ids, first, &self.intrinsics) {
            Ok(kf) => kf,
            Err(e) => {
                return Err(e);
            },
        };
        let mut kf2: KeyFrame<T> = match KeyFrame::new(
            &mut self.map.ids,
            second_frame.timestamp,
            second_frame.img,
            second_frame.keypoints,
            self.intrinsics,
            pairing.recovery.pose,
        ) {
            Ok(kf) => kf,
            Err(e) => {
                return Err(e);
            },
        };
        let mut map: MapGraph<T> = MapGraph::new();
        let mut i: usize = 0;
        while i < n
            invariant
                i <= n,
                n == matches.len(),
                n == mask.len(),
                n == points3d.len(),
                matches == pairing.matches@,
                mask == pairing.recovery.mask@,
                points3d == pairing.recovery.points3d@,
                *first == first_spec,
                all_in_range(matches, first.keypoints@.len() as int, kf2.keypoints@.len() as int),
                start + 2 + count <= MAX_ID + 1,
                count == count_true(mask),
                self.map.ids@ == start + 2 + count_true_upto(mask, i as int),
                self.first_frame == old(self).first_frame,
                self.intrinsics == old(self).intrinsics,
                self.done == old(self).done,
                self.map.keyframes == old(self).map.keyframes,
                self.map.mappoints == old(self).map.mappoints,
                kf1.carries(
                    start as usize,
                    first_spec.timestamp,
                    first_spec.img,
                    first_spec.keypoints@,
                    old(self).intrinsics,
                    first_spec.pose,
                ),
                kf1.connections@ == Seq::<KeyFrameId>::empty(),
                kf1.observations@ == landmark_ids(start + 2, count_true_upto(mask, i as int)),
                kf2.carries(
                    (start + 1) as usize,
                    second_frame.timestamp,
                    second_frame.img,
                    second_frame.keypoints@,
                    old(self).intrinsics,
                    pairing.recovery.pose,
                ),
                kf2.connections@ == Seq::<KeyFrameId>::empty(),
                kf2.observations@ == landmark_ids(start + 2, count_true_upto(mask, i as int)),
                map@.keyframes == Map::<KeyFrameId, KeyFrame<T>>::empty(),
                map@.mappoints.dom() == Set::new(
                    |id: MapPointId| start + 2 <= id < start + 2 + count_true_upto(mask, i as int),
                ),
                select_upto(matches, mask, i as int).len() == count_true_upto(mask, i as int),
                select_upto(points3d, mask, i as int).len() == count_true_upto(mask, i as int),
                forall|j: int|
                    0 <= j < count_true_upto(mask, i as int) ==> is_landmark_of(
                        #[trigger] map@.mappoints[(start + 2 + j) as usize],
                        (start + 2 + j) as usize,
                        select_upto(points3d, mask, i as int)[j],
                        select_upto(matches, mask, i as int)[j],
                        first_spec,
                        second_frame,
                        start as usize,
                        (start + 1) as usize,
                    ),
            decreases n - i,
        {
            let ghost seen = count_true_upto(mask, i as int);
            proof {
                lemma_count_monotone(mask, i as int + 1, n as int);
                lemma_select_len(matches, mask, i as int + 1);
                lemma_select_len(points3d, mask, i as int + 1);
            }
            if pairing.recovery.mask[i] {
                let m = pairing.matches[i];
                assert(in_range(
                    matches[i as int],
                    first.keypoints@.len() as int,
                    kf2.keypoints@.len() as int,
                ));
                let keypoint1 = first.keypoints[m.train_idx as usize].keypoint;
                let descriptor1 = first.keypoints[m.train_idx as usize].descriptor;
                let keypoint2 = kf2.keypoints[m.query_idx as usize].keypoint;
                let descriptor2 = kf2.keypoints[m.query_idx as usize].descriptor;
                let mut mappoint: MapPoint<T> = match MapPoint::new(
                    &mut self.map.ids,
                    pairing.recovery.points3d[i],
                    descriptor2,
                ) {
                    Ok(mappoint) => mappoint,
                    Err(e) => {
                        return Err(e);
                    },
                };
                kf1.add_observation(mappoint.id);
                kf2.add_observation(mappoint.id);
                mappoint.add_reference(MapPointReference::new_with_kf(&kf1, &keypoint1, &descriptor1));
                mappoint.add_reference(MapPointReference::new_with_kf(&kf2, &keypoint2, &descriptor2));
                let ghost before = map@;
                let ghost added = mappoint;
                map.insert_mappoint(mappoint);
                proof {
                    assert(added.id == start + 2 + seen);
                    assert(kf1.observations@ =~= landmark_ids(start + 2, seen + 1));
                    assert(kf2.observations@ =~= landmark_ids(start + 2, seen + 1));
                    assert(map@.mappoints.dom() =~= Set::new(
                        |id: MapPointId| start + 2 <= id < start + 2 + (seen + 1),
                    ));
                    assert(added.references@ =~= seq![
                        MapPointReference::<T> {
                            id: start as usize,
                            keypoint: keypoint1,
                            descriptor: descriptor1,
                        },
                        MapPointReference::<T> {
                            id: (start + 1) as usize,
                            keypoint: keypoint2,
                            descriptor: descriptor2,
                        },
                    ]);
                    assert forall|j: int| 0 <= j < seen + 1 implies is_landmark_of(
                        #[trigger] map@.mappoints[(start + 2 + j) as usize],
                        (start + 2 + j) as usize,
                        select_upto(points3d, mask, i as int + 1)[j],
                        select_upto(matches, mask, i as int + 1)[j],
                        first_spec,
                        second_frame,
                        start as usize,
                        (start + 1) as usize,
                    ) by {
                        if j < seen {
                            assert(map@.mappoints[(start + 2 + j) as usize] == before.mappoints[(start + 2
                                + j) as usize]);
                        }
                    }
                }
            }
            i = i + 1;
        }
        map.insert_keyframe(kf1);
        map.insert_keyframe(kf2);
        self.map.keyframes = map.keyframes;
        self.map.mappoints = map.mappoints;
        self.done = true;
        proof {
            assert(final(self).map@.keyframes.dom() =~= set![start as usize, (start + 1) as usize]);
            assert(is_bootstrap(
                final(self).map@,
                first_spec,
                second_frame,
                old(self).intrinsics,
                pairing,
                start,
            ));
            lemma_bootstrap_consistent(
                final(self).map@,
                first_spec,
                second_frame,
                old(self).intrinsics,
                pairing,
                start,
            );
        }
        Ok(())
    }

    /// Takes the next frame of the stream.
    ///
    /// While no frame is held, `inframe` becomes the first frame and the
    /// pairing is not looked at. After that, `pairing` is what the
    /// collaborators found for the held first frame and `inframe`: with a
    /// failed pairing nothing changes, and the first frame stays for the
    /// next try; with a pairing, the bootstrap runs. Returns whether this
    /// call completed a bootstrap.
    pub fn run(&mut self, inframe: Frame<T>, pairing: Result<Pairing<T>, SlamError>) -> (done: bool)
        ensures
            old(self).first_frame is None ==> {
                &&& !done
                &&& final(self).first_frame == Some(inframe)
                &&& final(self).intrinsics == old(self).intrinsics
                &&& final(self).map == old(self).map
                &&& final(self).done == old(self).done
            },
            old(self).first_frame is Some && pairing is Err ==> !done && *final(self) == *old(self),
            old(self).first_frame is Some && pairing is Ok ==> {
                &&& done == (pairing->Ok_0.fits(old(self).first_frame->0, inframe) && !old(self).short_of_ids(pairing->Ok_0))
                &&& !done ==> *final(self) == *old(self)
                &&& done ==> {
                    &&& final(self).done
                    &&& final(self).first_frame == old(self).first_frame
                    &&& final(self).intrinsics == old(self).intrinsics
                    &&& is_bootstrap(
                        final(self).map@,
                        old(self).first_frame->0,
                        inframe,
                        old(self).intrinsics,
                        pairing->Ok_0,
                        old(self).map@.next_id,
                    )
                    &&& final(self).map@.consistent()
                }
            },
    {
        if self.first_frame.is_none() {
            self.first_frame = Some(inframe);
            return false;
        }
        match pairing {
            Ok(pairing) => self.initialize(inframe, pairing).is_ok(),
            Err(_) => false,
        }
    }
}

} // verus!
