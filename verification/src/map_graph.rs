use std::collections::HashMap;
use vstd::prelude::*;
use vstd::std_specs::hash::spec_values_iter;
use vstd::std_specs::iter::IteratorSpec;
use crate::error::SlamError;
use crate::ids::{generate_id, spec_generate, IdAllocator};
use crate::keyframe::{KeyFrame, KeyFrameId};
use crate::mappoint::{MapPoint, MapPointId, MapPointReference};
use crate::payload::Payload;

verus! {

broadcast use vstd::std_specs::hash::group_hash_axioms;

/// What a map graph holds, as mathematics: the two tables and the place at
/// which its identity counter stands.
pub struct MapGraphView<T: Payload> {
    pub keyframes: Map<KeyFrameId, KeyFrame<T>>,
    pub mappoints: Map<MapPointId, MapPoint<T>>,
    pub next_id: nat,
}

impl<T: Payload> MapGraphView<T> {
    /// The graph with `keyframe` stored under its identity.
    pub open spec fn insert_keyframe(self, keyframe: KeyFrame<T>) -> Self {
        MapGraphView { keyframes: self.keyframes.insert(keyframe.id, keyframe), ..self }
    }

    /// The graph with `mappoint` stored under its identity.
    pub open spec fn insert_mappoint(self, mappoint: MapPoint<T>) -> Self {
        MapGraphView { mappoints: self.mappoints.insert(mappoint.id, mappoint), ..self }
    }

    /// The keyframe stored under `id`.
    pub open spec fn keyframe(self, id: KeyFrameId) -> Result<KeyFrame<T>, SlamError> {
        if self.keyframes.contains_key(id) {
            Ok(self.keyframes[id])
        } else {
            Err(SlamError::NotFound)
        }
    }

    /// The landmark stored under `id`.
    pub open spec fn mappoint(self, id: MapPointId) -> Result<MapPoint<T>, SlamError> {
        if self.mappoints.contains_key(id) {
            Ok(self.mappoints[id])
        } else {
            Err(SlamError::NotFound)
        }
    }

    /// The graph in which the keyframe under `id` has the given pose.
    pub open spec fn with_pose(self, id: KeyFrameId, pose: T::Pose) -> Self
        recommends
            self.keyframes.contains_key(id),
    {
        MapGraphView {
            keyframes: self.keyframes.insert(id, KeyFrame { pose, ..self.keyframes[id] }),
            ..self
        }
    }

    /// The graph in which the landmark under `id` has the given position.
    pub open spec fn with_position(self, id: MapPointId, position: T::Position) -> Self
        recommends
            self.mappoints.contains_key(id),
    {
        MapGraphView {
            mappoints: self.mappoints.insert(id, MapPoint { position, ..self.mappoints[id] }),
            ..self
        }
    }

    /// Every sighting of every landmark names a keyframe of the graph.
    pub open spec fn references_resolve(self) -> bool {
        forall|m: MapPointId, i: int|
            self.mappoints.contains_key(m) && 0 <= i < self.mappoints[m].references@.len()
                ==> self.keyframes.contains_key(#[trigger] self.mappoints[m].references@[i].id)
    }

    /// Every observation of every keyframe names a landmark of the graph.
    pub open spec fn observations_resolve(self) -> bool {
        forall|k: KeyFrameId, i: int|
            self.keyframes.contains_key(k) && 0 <= i < self.keyframes[k].observations@.len()
                ==> self.mappoints.contains_key(#[trigger] self.keyframes[k].observations@[i])
    }

    /// Every keyframe and every landmark is stored under its own identity.
    pub open spec fn keyed_by_id(self) -> bool {
        &&& forall|k: KeyFrameId| self.keyframes.contains_key(k) ==> (#[trigger] self.keyframes[k]).id == k
        &&& forall|m: MapPointId| self.mappoints.contains_key(m) ==> (#[trigger] self.mappoints[m]).id == m
    }

    /// The cross references of the graph are sound.
    pub open spec fn consistent(self) -> bool {
        &&& self.references_resolve()
        &&& self.observations_resolve()
        &&& self.keyed_by_id()
    }

    /// Whether every observation of `keyframe` names a landmark of the graph.
    pub open spec fn sees_known_landmarks(self, keyframe: KeyFrame<T>) -> bool {
        forall|i: int|
            0 <= i < keyframe.observations@.len() ==> self.mappoints.contains_key(
                #[trigger] keyframe.observations@[i],
            )
    }

    /// Whether every sighting of `mappoint` names a keyframe of the graph.
    pub open spec fn seen_by_known_keyframes(self, mappoint: MapPoint<T>) -> bool {
        forall|i: int|
            0 <= i < mappoint.references@.len() ==> self.keyframes.contains_key(
                #[trigger] mappoint.references@[i].id,
            )
    }
}

/// A keyframe that was inserted is found again under its identity, as it was
/// given.
pub proof fn lemma_keyframe_round_trip<T: Payload>(graph: MapGraphView<T>, keyframe: KeyFrame<T>)
    ensures
        graph.insert_keyframe(keyframe).keyframe(keyframe.id) == Ok::<KeyFrame<T>, SlamError>(keyframe),
        forall|id: KeyFrameId|
            id != keyframe.id ==> graph.insert_keyframe(keyframe).keyframe(id) == graph.keyframe(id),
        forall|id: MapPointId| graph.insert_keyframe(keyframe).mappoint(id) == graph.mappoint(id),
{
}

/// A landmark that was inserted is found again under its identity, as it was
/// given.
pub proof fn lemma_mappoint_round_trip<T: Payload>(graph: MapGraphView<T>, mappoint: MapPoint<T>)
    ensures
        graph.insert_mappoint(mappoint).mappoint(mappoint.id) == Ok::<MapPoint<T>, SlamError>(mappoint),
        forall|id: MapPointId|
            id != mappoint.id ==> graph.insert_mappoint(mappoint).mappoint(id) == graph.mappoint(id),
        forall|id: KeyFrameId| graph.insert_mappoint(mappoint).keyframe(id) == graph.keyframe(id),
{
}

/// Inserting a keyframe whose observations name landmarks of the graph keeps
/// a consistent graph consistent.
pub proof fn lemma_insert_keyframe_consistent<T: Payload>(graph: MapGraphView<T>, keyframe: KeyFrame<T>)
    requires
        graph.consistent(),
        graph.sees_known_landmarks(keyframe),
    ensures
        graph.insert_keyframe(keyframe).consistent(),
{
    let after = graph.insert_keyframe(keyframe);
    assert forall|k: KeyFrameId, i: int|
        after.keyframes.contains_key(k) && 0 <= i < after.keyframes[k].observations@.len()
        implies after.mappoints.contains_key(
        #[trigger] after.keyframes[k].observations@[i],
    ) by {
        if k != keyframe.id {
            assert(graph.keyframes.contains_key(k));
            assert(graph.mappoints.contains_key(graph.keyframes[k].observations@[i]));
        }
    }
    assert forall|m: MapPointId, i: int|
        after.mappoints.contains_key(m) && 0 <= i < after.mappoints[m].references@.len()
        implies after.keyframes.contains_key(
        #[trigger] after.mappoints[m].references@[i].id,
    ) by {
        assert(graph.keyframes.contains_key(graph.mappoints[m].references@[i].id));
    }
}

/// Inserting a landmark whose sightings name keyframes of the graph keeps a
/// consistent graph consistent.
pub proof fn lemma_insert_mappoint_consistent<T: Payload>(graph: MapGraphView<T>, mappoint: MapPoint<T>)
    requires
        graph.consistent(),
        graph.seen_by_known_keyframes(mappoint),
    ensures
        graph.insert_mappoint(mappoint).consistent(),
{
    let after = graph.insert_mappoint(mappoint);
    assert forall|m: MapPointId, i: int|
        after.mappoints.contains_key(m) && 0 <= i < after.mappoints[m].references@.len()
        implies after.keyframes.contains_key(
        #[trigger] after.mappoints[m].references@[i].id,
    ) by {
        if m != mappoint.id {
            assert(graph.mappoints.contains_key(m));
            assert(graph.keyframes.contains_key(graph.mappoints[m].references@[i].id));
        }
    }
    assert forall|k: KeyFrameId, i: int|
        after.keyframes.contains_key(k) && 0 <= i < after.keyframes[k].observations@.len()
        implies after.mappoints.contains_key(
        #[trigger] after.keyframes[k].observations@[i],
    ) by {
        assert(graph.mappoints.contains_key(graph.keyframes[k].observations@[i]));
    }
}

/// In a graph that stores every landmark under its own identity, a listing
/// that is as long as the table of landmarks and holds the same landmarks
/// holds each of them once: no two of its entries share an identity.
pub proof fn lemma_listing_is_distinct<T: Payload>(graph: MapGraphView<T>, points: Seq<MapPoint<T>>)
    requires
        graph.keyed_by_id(),
        graph.mappoints.dom().finite(),
        points.len() == graph.mappoints.dom().len(),
        points.to_set() == graph.mappoints.values(),
    ensures
        forall|i: int, j: int| 0 <= i < j < points.len() ==> points[i].id != points[j].id,
{
    assert(graph.mappoints.is_injective()) by {
        assert forall|x: MapPointId, y: MapPointId|
            x != y && graph.mappoints.dom().contains(x) && graph.mappoints.dom().contains(
                y,
            ) implies #[trigger] graph.mappoints[x] != #[trigger] graph.mappoints[y] by {
            assert(graph.mappoints[x].id == x);
            assert(graph.mappoints[y].id == y);
        }
    }
    graph.mappoints.lemma_injective_values_len();
    points.lemma_no_dup_set_cardinality();
    assert forall|i: int, j: int| 0 <= i < j < points.len() implies points[i].id != points[j].id by {
        assert(points.to_set().contains(points[i]));
        assert(points.to_set().contains(points[j]));
        assert(graph.mappoints.contains_value(points[i]));
        assert(graph.mappoints.contains_value(points[j]));
        let a = choose|a: MapPointId| graph.mappoints.contains_key(a) && graph.mappoints[a] == points[i];
        let b = choose|b: MapPointId| graph.mappoints.contains_key(b) && graph.mappoints[b] == points[j];
        assert(graph.mappoints[a].id == a);
        assert(graph.mappoints[b].id == b);
        assert(points[i] != points[j]);
    }
}

/// The pixels at which the keyframe `id` saw the first `n` of `points`, in
/// the order of the points and, for each, of its sightings.
pub open spec fn sightings_upto<T: Payload>(
    points: Seq<MapPoint<T>>,
    id: KeyFrameId,
    n: int,
) -> Seq<T::KeyPoint>
    decreases n,
{
    if n <= 0 || n > points.len() {
        Seq::empty()
    } else {
        sightings_upto(points, id, n - 1) + points[n - 1].references@.filter(
            |r: MapPointReference<T>| r.id == id,
        ).map_values(|r: MapPointReference<T>| r.keypoint)
    }
}

/// The pixels at which the keyframe `id` saw the given landmarks, in the
/// order of the landmarks and, for each, of its sightings.
pub fn sightings_by<T: Payload>(points: &Vec<&MapPoint<T>>, id: KeyFrameId) -> (pixels: Vec<T::KeyPoint>)
    ensures
        pixels@ == sightings_upto(points@.unref(), id, points@.len() as int),
{
    let ghost by_id = |r: MapPointReference<T>| r.id == id;
    let ghost pixel = |r: MapPointReference<T>| r.keypoint;
    let ghost all = points@.unref();
    let mut pixels: Vec<T::KeyPoint> = Vec::new();
    let mut i: usize = 0;
    while i < points.len()
        invariant
            i <= points.len(),
            all == points@.unref(),
            all.len() == points@.len(),
            by_id == |r: MapPointReference<T>| r.id == id,
            pixel == |r: MapPointReference<T>| r.keypoint,
            pixels@ == sightings_upto(all, id, i as int),
        decreases points.len() - i,
    {
        let point = points[i];
        let ghost before = pixels@;
        let ghost references = point.references@;
        assert(all[i as int] == *point);
        let mut r: usize = 0;
        while r < point.references.len()
            invariant
                r <= point.references.len(),
                references == point.references@,
                by_id == |r: MapPointReference<T>| r.id == id,
                pixel == |r: MapPointReference<T>| r.keypoint,
                pixels@ == before + references.take(r as int).filter(by_id).map_values(pixel),
            decreases point.references.len() - r,
        {
            let reference = &point.references[r];
            proof {
                assert(references.take(r + 1) =~= references.take(r as int).push(references[r as int]));
                references.take(r as int).lemma_filter_push(references[r as int], by_id);
            }
            if reference.id == id {
                pixels.push(reference.keypoint);
                proof {
                    assert(pixels@ =~= before + references.take(r + 1).filter(by_id).map_values(pixel));
                }
            }
            r = r + 1;
        }
        proof {
            assert(references.take(references.len() as int) =~= references);
        }
        i = i + 1;
    }
    pixels
}

/// The persistent map: the table of keyframes, the table of landmarks, and
/// the counter from which both draw their identities.
pub struct MapGraph<T: Payload> {
    pub keyframes: HashMap<KeyFrameId, KeyFrame<T>>,
    pub mappoints: HashMap<MapPointId, MapPoint<T>>,
    pub ids: IdAllocator,
}

impl<T: Payload> View for MapGraph<T> {
    type V = MapGraphView<T>;

    open spec fn view(&self) -> MapGraphView<T> {
        MapGraphView { keyframes: self.keyframes@, mappoints: self.mappoints@, next_id: self.ids@ }
    }
}

impl<T: Payload> MapGraph<T> {
    /// An empty graph whose counter starts at zero.
    pub fn new() -> (graph: Self)
        ensures
            graph@.keyframes == Map::<KeyFrameId, KeyFrame<T>>::empty(),
            graph@.mappoints == Map::<MapPointId, MapPoint<T>>::empty(),
            graph@.next_id == 0,
    {
        MapGraph { keyframes: HashMap::new(), mappoints: HashMap::new(), ids: IdAllocator::new() }
    }

    /// An empty graph that goes on counting where `ids` stands.
    pub fn with_ids(ids: IdAllocator) -> (graph: Self)
        ensures
            graph@.keyframes == Map::<KeyFrameId, KeyFrame<T>>::empty(),
            graph@.mappoints == Map::<MapPointId, MapPoint<T>>::empty(),
            graph@.next_id == ids@,
    {
        MapGraph { keyframes: HashMap::new(), mappoints: HashMap::new(), ids }
    }

    /// Stores a keyframe under its identity. A keyframe that was stored
    /// there before is replaced.
    pub fn insert_keyframe(&mut self, keyframe: KeyFrame<T>)
        ensures
            final(self)@ == old(self)@.insert_keyframe(keyframe),
    {
        self.keyframes.insert(keyframe.id, keyframe);
    }

    /// Stores a landmark under its identity. A landmark that was stored
    /// there before is replaced.
    pub fn insert_mappoint(&mut self, mappoint: MapPoint<T>)
        ensures
            final(self)@ == old(self)@.insert_mappoint(mappoint),
    {
        self.mappoints.insert(mappoint.id, mappoint);
    }

    /// The keyframe of the given identity. Fails with `NotFound` if the
    /// graph holds none.
    pub fn keyframe(&self, id: KeyFrameId) -> (r: Result<&KeyFrame<T>, SlamError>)
        ensures
            match r {
                Ok(keyframe) => self@.keyframe(id) == Ok::<KeyFrame<T>, SlamError>(*keyframe),
                Err(e) => self@.keyframe(id) == Err::<KeyFrame<T>, SlamError>(e),
            },
    {
        match self.keyframes.get(&id) {
            Some(keyframe) => Ok(keyframe),
            None => Err(SlamError::NotFound),
        }
    }

    /// The landmark of the given identity. Fails with `NotFound` if the
    /// graph holds none.
    pub fn mappoint(&self, id: MapPointId) -> (r: Result<&MapPoint<T>, SlamError>)
        ensures
            match r {
                Ok(mappoint) => self@.mappoint(id) == Ok::<MapPoint<T>, SlamError>(*mappoint),
                Err(e) => self@.mappoint(id) == Err::<MapPoint<T>, SlamError>(e),
            },
    {
        match self.mappoints.get(&id) {
            Some(mappoint) => Ok(mappoint),
            None => Err(SlamError::NotFound),
        }
    }

    /// Gives the keyframe of the given identity a new pose. Fails with
    /// `NotFound`, and changes nothing, if the graph holds no such keyframe.
    pub fn set_pose(&mut self, id: KeyFrameId, pose: T::Pose) -> (r: Result<(), SlamError>)
        ensures
            old(self)@.keyframes.contains_key(id) ==> r.is_ok() && final(self)@ == old(self)@.with_pose(
                id,
                pose,
            ),
            !old(self)@.keyframes.contains_key(id) ==> r == Err::<(), SlamError>(SlamError::NotFound)
                && final(self)@ == old(self)@,
    {
        match self.keyframes.remove(&id) {
            Some(keyframe) => {
                let mut keyframe = keyframe;
                keyframe.pose = pose;
                self.keyframes.insert(id, keyframe);
                proof {
                    assert(final(self)@.keyframes =~= old(self)@.with_pose(id, pose).keyframes);
                }
                Ok(())
            },
            None => {
                proof {
                    assert(self.keyframes@ =~= old(self).keyframes@);
                }
                Err(SlamError::NotFound)
            },
        }
    }

    /// Gives the landmark of the given identity a new position. Fails with
    /// `NotFound`, and changes nothing, if the graph holds no such landmark.
    pub fn set_position(&mut self, id: MapPointId, position: T::Position) -> (r: Result<(), SlamError>)
        ensures
            old(self)@.mappoints.contains_key(id) ==> r.is_ok() && final(self)@
                == old(self)@.with_position(id, position),
            !old(self)@.mappoints.contains_key(id) ==> r == Err::<(), SlamError>(SlamError::NotFound)
                && final(self)@ == old(self)@,
    {
        match self.mappoints.remove(&id) {
            Some(mappoint) => {
                let mut mappoint = mappoint;
                mappoint.position = position;
                self.mappoints.insert(id, mappoint);
                proof {
                    assert(final(self)@.mappoints =~= old(self)@.with_position(id, position).mappoints);
                }
                Ok(())
            },
            None => {
                proof {
                    assert(self.mappoints@ =~= old(self).mappoints@);
                }
                Err(SlamError::NotFound)
            },
        }
    }

    /// The next identity of the counter that keyframes and landmarks share.
    /// Fails with `IdSpaceExhausted` when no identity is left.
    pub fn next_id(&mut self) -> (r: Result<KeyFrameId, SlamError>)
        ensures
            r == spec_generate(old(self)@.next_id).0,
            final(self)@ == (MapGraphView { next_id: spec_generate(old(self)@.next_id).1, ..old(self)@ }),
    {
        generate_id(&mut self.ids)
    }

    /// All landmarks of the graph, in no particular order. Where the graph
    /// stores every landmark under its own identity, each is listed once.
    pub fn points(&self) -> (points: Vec<&MapPoint<T>>)
        ensures
            points.len() == self@.mappoints.dom().len(),
            points@.unref().to_set() == self@.mappoints.values(),
            self@.keyed_by_id() ==> forall|i: int, j: int|
                0 <= i < j < points.len() ==> points[i].id != points[j].id,
    {
        let ghost all = spec_values_iter(&self.mappoints).remaining();
        let mut points: Vec<&MapPoint<T>> = Vec::new();
        for mappoint in it: self.mappoints.values()
            invariant
                it.seq() == all,
                points@ == all.take(it.index()),
        {
            points.push(mappoint);
            proof {
                assert(all.take(it.index() + 1) =~= all.take(it.index()).push(all[it.index()]));
            }
        }
        proof {
            assert(all.take(all.len() as int) =~= all);
            if self@.keyed_by_id() {
                let listed = points@.unref();
                lemma_listing_is_distinct(self@, listed);
                assert forall|i: int, j: int| 0 <= i < j < points.len() implies points[i].id
                    != points[j].id by {
                    assert(listed[i] == *points[i]);
                    assert(listed[j] == *points[j]);
                }
            }
        }
        points
    }
}

} // verus!
