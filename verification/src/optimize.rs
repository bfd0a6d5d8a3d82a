use vstd::prelude::*;
use crate::error::SlamError;
use crate::graph::{Edge, Graph, Vertex};
use crate::keyframe::KeyFrameId;
use crate::map_graph::{MapGraph, MapGraphView};
use crate::mappoint::{MapPointId, MapPointReference};
use crate::payload::Payload;

verus! {

broadcast use vstd::std_specs::hash::group_hash_axioms;

/// Whether the map holds every keyframe and every landmark that is to be
/// optimized.
pub open spec fn all_known<T: Payload>(
    map: MapGraphView<T>,
    keyframes: Seq<KeyFrameId>,
    mappoints: Seq<MapPointId>,
) -> bool {
    &&& forall|i: int| 0 <= i < keyframes.len() ==> map.keyframes.contains_key(#[trigger] keyframes[i])
    &&& forall|j: int| 0 <= j < mappoints.len() ==> map.mappoints.contains_key(#[trigger] mappoints[j])
}

/// The edges that the first `r` sightings of one landmark give. A sighting
/// gives an edge if its keyframe is among the optimized ones; the edge then
/// ends at the first vertex of that keyframe. `point` is the place of the
/// landmark's vertex and `next` the identity of the first edge.
pub open spec fn point_edges<T: Payload>(
    map: MapGraphView<T>,
    keyframes: Seq<KeyFrameId>,
    point: int,
    references: Seq<MapPointReference<T>>,
    r: int,
    next: int,
    sigma: T::Information,
) -> Seq<Edge<T>>
    decreases r,
{
    if r <= 0 || r > references.len() {
        Seq::empty()
    } else {
        let before = point_edges(map, keyframes, point, references, r - 1, next, sigma);
        let reference = references[r - 1];
        match keyframes.index_of_first(reference.id) {
            Some(camera) => before.push(
                Edge {
                    id: (next + before.len()) as usize,
                    camera: camera as usize,
                    point: point as usize,
                    measurement: reference.keypoint,
                    sigma,
                    intrinsic: map.keyframes[reference.id].intrinsics,
                },
            ),
            None => before,
        }
    }
}

/// The edges of the first `j` optimized landmarks, in the order of the
/// landmarks and, for each, of its sightings.
pub open spec fn graph_edges<T: Payload>(
    map: MapGraphView<T>,
    keyframes: Seq<KeyFrameId>,
    mappoints: Seq<MapPointId>,
    j: int,
    sigma: T::Information,
) -> Seq<Edge<T>>
    decreases j,
{
    if j <= 0 || j > mappoints.len() {
        Seq::empty()
    } else {
        let before = graph_edges(map, keyframes, mappoints, j - 1, sigma);
        let references = map.mappoints[mappoints[j - 1]].references@;
        before + point_edges(
            map,
            keyframes,
            keyframes.len() + j - 1,
            references,
            references.len() as int,
            before.len() as int,
            sigma,
        )
    }
}

/// Whether the first `n` vertices of `graph` are the cameras of the first
/// `n` keyframes: each with the pose of its keyframe, the first one fixed.
pub open spec fn cameras_match<T: Payload>(
    graph: Graph<T>,
    map: MapGraphView<T>,
    keyframes: Seq<KeyFrameId>,
    n: int,
) -> bool {
    forall|i: int|
        0 <= i < n ==> (#[trigger] graph.vertices@[i] matches Vertex::Camera(c) && c.params
            == map.keyframes[keyframes[i]].pose && c.fixed == (i == 0) && c.hessian_index == 0)
}

/// Whether the `n` vertices of `graph` from place `first` on are the points
/// of the first `n` landmarks: each with the position of its landmark, none
/// fixed.
pub open spec fn points_match<T: Payload>(
    graph: Graph<T>,
    map: MapGraphView<T>,
    mappoints: Seq<MapPointId>,
    first: int,
    n: int,
) -> bool {
    forall|j: int|
        0 <= j < n ==> (#[trigger] graph.vertices@[first + j] matches Vertex::Point(p) && p.params
            == map.mappoints[mappoints[j]].position && !p.fixed && p.hessian_index == 0)
}

/// Whether `graph` is the bundle adjustment problem of the given keyframes
/// and landmarks: one camera vertex for each keyframe, in their order, then
/// one point vertex for each landmark, and one edge of weight `sigma` for
/// each sighting of an optimized landmark by an optimized keyframe.
pub open spec fn is_problem<T: Payload>(
    graph: Graph<T>,
    map: MapGraphView<T>,
    keyframes: Seq<KeyFrameId>,
    mappoints: Seq<MapPointId>,
    sigma: T::Information,
) -> bool {
    &&& graph.wf()
    &&& graph.vertices@.len() == keyframes.len() + mappoints.len()
    &&& cameras_match(graph, map, keyframes, keyframes.len() as int)
    &&& points_match(graph, map, mappoints, keyframes.len() as int, mappoints.len() as int)
    &&& graph.edges@ == graph_edges(map, keyframes, mappoints, mappoints.len() as int, sigma)
}

/// The first place at which `id` stands in `ids`.
pub fn position(ids: &[usize], id: usize) -> (r: Option<usize>)
    ensures
        match r {
            Some(i) => ids@.index_of_first(id) == Some(i as int),
            None => ids@.index_of_first(id).is_none(),
        },
{
    let mut i: usize = 0;
    while i < ids.len()
        invariant
            i <= ids.len(),
            forall|j: int| 0 <= j < i ==> ids@[j] != id,
        decreases ids.len() - i,
    {
        if ids[i] == id {
            proof {
                ids@.index_of_first_ensures(id);
                assert(ids@.contains(id));
                let first = ids@.index_of_first(id).unwrap();
                if first > i {
                    assert(ids@[i as int] != id);
                }
                if first < i {
                    assert(ids@[first] != id);
                }
            }
            return Some(i);
        }
        i = i + 1;
    }
    proof {
        ids@.index_of_first_ensures(id);
    }
    None
}

/// Lays out the bundle adjustment problem of the given keyframes and
/// landmarks, with `sigma` as the weight of every measurement. Fails with
/// `NotFound` if the map lacks one of them.
pub fn build_graph<T: Payload>(
    map: &MapGraph<T>,
    keyframes: &[KeyFrameId],
    mappoints: &[MapPointId],
    sigma: T::Information,
) -> (r: Result<Graph<T>, SlamError>)
    ensures
        match r {
            Ok(graph) => {
                &&& all_known(map@, keyframes@, mappoints@)
                &&& is_problem(graph, map@, keyframes@, mappoints@, sigma)
            },
            Err(e) => {
                &&& e == SlamError::NotFound
                &&& !all_known(map@, keyframes@, mappoints@)
            },
        },
{
    let mut graph: Graph<T> = Graph::new();
    let mut i: usize = 0;
    while i < keyframes.len()
        invariant
            i <= keyframes.len(),
            graph.wf(),
            graph.vertices@.len() == i,
            graph.edges@.len() == 0,
            cameras_match(graph, map@, keyframes@, i as int),
            forall|k: int| 0 <= k < i ==> map@.keyframes.contains_key(#[trigger] keyframes@[k]),
        decreases keyframes.len() - i,
    {
        let pose = match map.keyframe(keyframes[i]) {
            Ok(keyframe) => keyframe.pose,
            Err(e) => {
                assert(!map@.keyframes.contains_key(keyframes@[i as int]));
                return Err(e);
            },
        };
        let ghost before = graph;
        graph.add_camera(pose, i == 0);
        proof {
            assert forall|k: int| 0 <= k < i implies graph.vertices@[k] == before.vertices@[k] by {
                assert(graph.vertices@.take(i as int)[k] == graph.vertices@[k]);
            }
        }
        i = i + 1;
    }
    let cameras: usize = keyframes.len();
    let mut j: usize = 0;
    while j < mappoints.len()
        invariant
            j <= mappoints.len(),
            cameras == keyframes@.len(),
            graph.wf(),
            graph.vertices@.len() == cameras + j,
            cameras_match(graph, map@, keyframes@, cameras as int),
            points_match(graph, map@, mappoints@, cameras as int, j as int),
            graph.edges@ == graph_edges(map@, keyframes@, mappoints@, j as int, sigma),
            forall|k: int| 0 <= k < keyframes@.len() ==> map@.keyframes.contains_key(#[trigger] keyframes@[k]),
            forall|k: int| 0 <= k < j ==> map@.mappoints.contains_key(#[trigger] mappoints@[k]),
        decreases mappoints.len() - j,
    {
        let mappoint = match map.mappoint(mappoints[j]) {
            Ok(mappoint) => mappoint,
            Err(e) => {
                assert(!map@.mappoints.contains_key(mappoints@[j as int]));
                return Err(e);
            },
        };
        let ghost before = graph;
        let point: usize = graph.add_point(mappoint.position, false);
        proof {
            assert forall|k: int| 0 <= k < cameras + j implies graph.vertices@[k] == before.vertices@[k] by {
                assert(graph.vertices@.take(cameras + j)[k] == graph.vertices@[k]);
            }
        }
        let ghost earlier = graph_edges(map@, keyframes@, mappoints@, j as int, sigma);
        let ghost references = mappoint.references@;
        let mut r: usize = 0;
        while r < mappoint.references.len()
            invariant
                r <= mappoint.references.len(),
                references == mappoint.references@,
                j < mappoints.len(),
                cameras == keyframes@.len(),
                point == cameras + j,
                graph.wf(),
                graph.vertices@.len() == cameras + j + 1,
                cameras_match(graph, map@, keyframes@, cameras as int),
                points_match(graph, map@, mappoints@, cameras as int, j as int),
                graph.vertices@[point as int] matches Vertex::Point(p) && p.params == mappoint.position
                    && !p.fixed && p.hessian_index == 0,
                earlier == graph_edges(map@, keyframes@, mappoints@, j as int, sigma),
                graph.edges@ == earlier + point_edges(
                    map@,
                    keyframes@,
                    point as int,
                    references,
                    r as int,
                    earlier.len() as int,
                    sigma,
                ),
                forall|k: int|
                    0 <= k < keyframes@.len() ==> map@.keyframes.contains_key(#[trigger] keyframes@[k]),
            decreases mappoint.references.len() - r,
        {
            let reference = &mappoint.references[r];
            let ghost so_far = point_edges(
                map@,
                keyframes@,
                point as int,
                references,
                r as int,
                earlier.len() as int,
                sigma,
            );
            proof {
                keyframes@.index_of_first_ensures(reference.id);
            }
            match position(keyframes, reference.id) {
                Some(camera) => {
                    match map.keyframe(reference.id) {
                        Ok(keyframe) => {
                            let ghost before_edge = graph;
                            match graph.add_edge(camera, point, reference.keypoint, sigma, keyframe.intrinsics) {
                                Ok(_) => {
                                    proof {
                                        assert(graph.edges@ =~= earlier + so_far.push(
                                            Edge {
                                                id: (earlier.len() + so_far.len()) as usize,
                                                camera,
                                                point,
                                                measurement: reference.keypoint,
                                                sigma,
                                                intrinsic: keyframe.intrinsics,
                                            },
                                        ));
                                    }
                                },
                                Err(e) => {
                                    assert(before_edge.joins(camera as int, point as int));
                                    return Err(e);
                                },
                            }
                        },
                        Err(e) => {
                            assert(map@.keyframes.contains_key(keyframes@[camera as int]));
                            return Err(e);
                        },
                    }
                },
                None => {},
            }
            r = r + 1;
        }
        j = j + 1;
    }
    Ok(graph)
}

/// Whether a solved graph can be written back: the map holds every
/// optimized keyframe and landmark, and the graph has a camera vertex at the
/// place of each keyframe and a point vertex at the place of each landmark.
pub open spec fn solution_fits<T: Payload>(
    graph: Graph<T>,
    map: MapGraphView<T>,
    keyframes: Seq<KeyFrameId>,
    mappoints: Seq<MapPointId>,
) -> bool {
    &&& all_known(map, keyframes, mappoints)
    &&& graph.vertices@.len() >= keyframes.len() + mappoints.len()
    &&& forall|i: int| 0 <= i < keyframes.len() ==> #[trigger] graph.vertices@[i] is Camera
    &&& forall|j: int| 0 <= j < mappoints.len() ==> #[trigger] graph.vertices@[keyframes.len() + j] is Point
}

/// The map after the first `i` keyframes have taken the poses of their
/// vertices, one after the other.
pub open spec fn with_poses<T: Payload>(
    map: MapGraphView<T>,
    keyframes: Seq<KeyFrameId>,
    graph: Graph<T>,
    i: int,
) -> MapGraphView<T>
    decreases i,
{
    if i <= 0 || i > keyframes.len() {
        map
    } else {
        with_poses(map, keyframes, graph, i - 1).with_pose(
            keyframes[i - 1],
            graph.vertices@[i - 1]->Camera_0.params,
        )
    }
}

/// The map after the first `j` landmarks have taken the positions of their
/// vertices, one after the other. `first` is the place of the first point
/// vertex.
pub open spec fn with_positions<T: Payload>(
    map: MapGraphView<T>,
    mappoints: Seq<MapPointId>,
    graph: Graph<T>,
    first: int,
    j: int,
) -> MapGraphView<T>
    decreases j,
{
    if j <= 0 || j > mappoints.len() {
        map
    } else {
        with_positions(map, mappoints, graph, first, j - 1).with_position(
            mappoints[j - 1],
            graph.vertices@[first + j - 1]->Point_0.params,
        )
    }
}

/// The map after a solved graph has been written back: every optimized
/// keyframe has the pose of its camera vertex and every optimized landmark
/// the position of its point vertex. Where an identity is listed twice, the
/// later vertex decides.
pub open spec fn written_back<T: Payload>(
    map: MapGraphView<T>,
    keyframes: Seq<KeyFrameId>,
    mappoints: Seq<MapPointId>,
    graph: Graph<T>,
) -> MapGraphView<T> {
    with_positions(
        with_poses(map, keyframes, graph, keyframes.len() as int),
        mappoints,
        graph,
        keyframes.len() as int,
        mappoints.len() as int,
    )
}

/// Taking poses changes no landmark, no counter, and not which keyframes
/// the map holds.
pub proof fn lemma_with_poses_keeps<T: Payload>(
    map: MapGraphView<T>,
    keyframes: Seq<KeyFrameId>,
    graph: Graph<T>,
    i: int,
)
    requires
        forall|k: int| 0 <= k < keyframes.len() ==> map.keyframes.contains_key(#[trigger] keyframes[k]),
    ensures
        with_poses(map, keyframes, graph, i).keyframes.dom() == map.keyframes.dom(),
        with_poses(map, keyframes, graph, i).mappoints == map.mappoints,
        with_poses(map, keyframes, graph, i).next_id == map.next_id,
    decreases i,
{
    if 0 < i <= keyframes.len() {
        lemma_with_poses_keeps(map, keyframes, graph, i - 1);
        let before = with_poses(map, keyframes, graph, i - 1);
        assert(before.keyframes.contains_key(keyframes[i - 1]));
        assert(with_poses(map, keyframes, graph, i).keyframes.dom() =~= before.keyframes.dom());
    }
}

/// Taking positions changes no keyframe, no counter, and not which
/// landmarks the map holds.
pub proof fn lemma_with_positions_keeps<T: Payload>(
    map: MapGraphView<T>,
    mappoints: Seq<MapPointId>,
    graph: Graph<T>,
    first: int,
    j: int,
)
    requires
        forall|k: int| 0 <= k < mappoints.len() ==> map.mappoints.contains_key(#[trigger] mappoints[k]),
    ensures
        with_positions(map, mappoints, graph, first, j).mappoints.dom() == map.mappoints.dom(),
        with_positions(map, mappoints, graph, first, j).keyframes == map.keyframes,
        with_positions(map, mappoints, graph, first, j).next_id == map.next_id,
    decreases j,
{
    if 0 < j <= mappoints.len() {
        lemma_with_positions_keeps(map, mappoints, graph, first, j - 1);
        let before = with_positions(map, mappoints, graph, first, j - 1);
        assert(before.mappoints.contains_key(mappoints[j - 1]));
        assert(with_positions(map, mappoints, graph, first, j).mappoints.dom() =~= before.mappoints.dom());
    }
}

/// Writing a solution back keeps a consistent map consistent: it changes
/// poses and positions, and no identity, observation or sighting.
pub proof fn lemma_written_back_consistent<T: Payload>(
    map: MapGraphView<T>,
    keyframes: Seq<KeyFrameId>,
    mappoints: Seq<MapPointId>,
    graph: Graph<T>,
)
    requires
        map.consistent(),
        all_known(map, keyframes, mappoints),
    ensures
        written_back(map, keyframes, mappoints, graph).consistent(),
        written_back(map, keyframes, mappoints, graph).keyframes.dom() == map.keyframes.dom(),
        written_back(map, keyframes, mappoints, graph).mappoints.dom() == map.mappoints.dom(),
        written_back(map, keyframes, mappoints, graph).next_id == map.next_id,
{
    let cameras = keyframes.len() as int;
    lemma_with_poses_consistent(map, keyframes, graph, cameras);
    let posed = with_poses(map, keyframes, graph, cameras);
    lemma_with_positions_consistent(posed, mappoints, graph, cameras, mappoints.len() as int);
}

/// Taking poses keeps a consistent map consistent.
pub proof fn lemma_with_poses_consistent<T: Payload>(
    map: MapGraphView<T>,
    keyframes: Seq<KeyFrameId>,
    graph: Graph<T>,
    i: int,
)
    requires
        map.consistent(),
        forall|k: int| 0 <= k < keyframes.len() ==> map.keyframes.contains_key(#[trigger] keyframes[k]),
    ensures
        with_poses(map, keyframes, graph, i).consistent(),
        with_poses(map, keyframes, graph, i).keyframes.dom() == map.keyframes.dom(),
        with_poses(map, keyframes, graph, i).mappoints == map.mappoints,
        with_poses(map, keyframes, graph, i).next_id == map.next_id,
    decreases i,
{
    lemma_with_poses_keeps(map, keyframes, graph, i);
    if 0 < i <= keyframes.len() {
        lemma_with_poses_consistent(map, keyframes, graph, i - 1);
        lemma_with_poses_keeps(map, keyframes, graph, i - 1);
        let before = with_poses(map, keyframes, graph, i - 1);
        let after = with_poses(map, keyframes, graph, i);
        let id = keyframes[i - 1];
        assert(before.keyframes.contains_key(id));
        assert forall|k: KeyFrameId, x: int|
            after.keyframes.contains_key(k) && 0 <= x < after.keyframes[k].observations@.len()
            implies after.mappoints.contains_key(
            #[trigger] after.keyframes[k].observations@[x],
        ) by {
            assert(before.keyframes.contains_key(k));
            assert(after.keyframes[k].observations == before.keyframes[k].observations);
            assert(before.mappoints.contains_key(before.keyframes[k].observations@[x]));
        }
        assert forall|m: MapPointId, x: int|
            after.mappoints.contains_key(m) && 0 <= x < after.mappoints[m].references@.len()
            implies after.keyframes.contains_key(
            #[trigger] after.mappoints[m].references@[x].id,
        ) by {
            assert(before.keyframes.contains_key(before.mappoints[m].references@[x].id));
        }
        assert forall|k: KeyFrameId| after.keyframes.contains_key(k) implies (
        #[trigger] after.keyframes[k]).id == k by {
            assert(before.keyframes.contains_key(k));
            assert(before.keyframes[k].id == k);
        }
    }
}

/// Taking positions keeps a consistent map consistent.
pub proof fn lemma_with_positions_consistent<T: Payload>(
    map: MapGraphView<T>,
    mappoints: Seq<MapPointId>,
    graph: Graph<T>,
    first: int,
    j: int,
)
    requires
        map.consistent(),
        forall|k: int| 0 <= k < mappoints.len() ==> map.mappoints.contains_key(#[trigger] mappoints[k]),
    ensures
        with_positions(map, mappoints, graph, first, j).consistent(),
        with_positions(map, mappoints, graph, first, j).mappoints.dom() == map.mappoints.dom(),
        with_positions(map, mappoints, graph, first, j).keyframes == map.keyframes,
        with_positions(map, mappoints, graph, first, j).next_id == map.next_id,
    decreases j,
{
    lemma_with_positions_keeps(map, mappoints, graph, first, j);
    if 0 < j <= mappoints.len() {
        lemma_with_positions_consistent(map, mappoints, graph, first, j - 1);
        lemma_with_positions_keeps(map, mappoints, graph, first, j - 1);
        let before = with_positions(map, mappoints, graph, first, j - 1);
        let after = with_positions(map, mappoints, graph, first, j);
        let id = mappoints[j - 1];
        assert(before.mappoints.contains_key(id));
        assert forall|m: MapPointId, x: int|
            after.mappoints.contains_key(m) && 0 <= x < after.mappoints[m].references@.len()
            implies after.keyframes.contains_key(
            #[trigger] after.mappoints[m].references@[x].id,
        ) by {
            assert(before.mappoints.contains_key(m));
            assert(after.mappoints[m].references == before.mappoints[m].references);
            assert(before.keyframes.contains_key(before.mappoints[m].references@[x].id));
        }
        assert forall|k: KeyFrameId, x: int|
            after.keyframes.contains_key(k) && 0 <= x < after.keyframes[k].observations@.len()
            implies after.mappoints.contains_key(
            #[trigger] after.keyframes[k].observations@[x],
        ) by {
            assert(before.mappoints.contains_key(before.keyframes[k].observations@[x]));
        }
        assert forall|m: MapPointId| after.mappoints.contains_key(m) implies (
        #[trigger] after.mappoints[m]).id == m by {
            assert(before.mappoints.contains_key(m));
            assert(before.mappoints[m].id == m);
        }
    }
}

/// Tells whether a solved graph can be written back to the map.
pub fn check_solution<T: Payload>(
    map: &MapGraph<T>,
    keyframes: &[KeyFrameId],
    mappoints: &[MapPointId],
    graph: &Graph<T>,
) -> (fits: bool)
    ensures
        fits == solution_fits(*graph, map@, keyframes@, mappoints@),
{
    let cameras: usize = keyframes.len();
    if graph.vertices.len() < cameras || graph.vertices.len() - cameras < mappoints.len() {
        return false;
    }
    let mut i: usize = 0;
    while i < cameras
        invariant
            i <= cameras,
            cameras == keyframes@.len(),
            graph.vertices@.len() >= cameras + mappoints@.len(),
            forall|k: int| 0 <= k < i ==> map@.keyframes.contains_key(#[trigger] keyframes@[k]),
            forall|k: int| 0 <= k < i ==> #[trigger] graph.vertices@[k] is Camera,
        decreases cameras - i,
    {
        if !map.keyframes.contains_key(&keyframes[i]) {
            assert(!map@.keyframes.contains_key(keyframes@[i as int]));
            return false;
        }
        match &graph.vertices[i] {
            Vertex::Camera(_) => {},
            Vertex::Point(_) => {
                assert(!(graph.vertices@[i as int] is Camera));
                return false;
            },
        }
        i = i + 1;
    }
    let mut j: usize = 0;
    while j < mappoints.len()
        invariant
            j <= mappoints.len(),
            cameras == keyframes@.len(),
            graph.vertices@.len() >= cameras + mappoints@.len(),
            forall|k: int| 0 <= k < keyframes@.len() ==> map@.keyframes.contains_key(#[trigger] keyframes@[k]),
            forall|k: int| 0 <= k < keyframes@.len() ==> #[trigger] graph.vertices@[k] is Camera,
            forall|k: int| 0 <= k < j ==> map@.mappoints.contains_key(#[trigger] mappoints@[k]),
            forall|k: int| 0 <= k < j ==> #[trigger] graph.vertices@[cameras + k] is Point,
        decreases mappoints.len() - j,
    {
        assert(cameras + j < graph.vertices.len());
        if !map.mappoints.contains_key(&mappoints[j]) {
            assert(!map@.mappoints.contains_key(mappoints@[j as int]));
            return false;
        }
        match &graph.vertices[cameras + j] {
            Vertex::Point(_) => {},
            Vertex::Camera(_) => {
                assert(!(graph.vertices@[cameras + j] is Point));
                return false;
            },
        }
        j = j + 1;
    }
    true
}

/// Writes a solved graph back to the map: each optimized keyframe takes the
/// pose of its camera vertex, each optimized landmark the position of its
/// point vertex. Fails with `NotFound`, and changes nothing, if the graph
/// does not fit the keyframes and landmarks or the map lacks one of them.
pub fn write_back<T: Payload>(
    map: &mut MapGraph<T>,
    keyframes: &[KeyFrameId],
    mappoints: &[MapPointId],
    graph: &Graph<T>,
) -> (r: Result<(), SlamError>)
    ensures
        match r {
            Ok(()) => {
                &&& solution_fits(*graph, old(map)@, keyframes@, mappoints@)
                &&& final(map)@ == written_back(old(map)@, keyframes@, mappoints@, *graph)
            },
            Err(e) => {
                &&& e == SlamError::NotFound
                &&& !solution_fits(*graph, old(map)@, keyframes@, mappoints@)
                &&& final(map)@ == old(map)@
            },
        },
{
    if !check_solution(map, keyframes, mappoints, graph) {
        return Err(SlamError::NotFound);
    }
    let cameras: usize = keyframes.len();
    let mut i: usize = 0;
    while i < cameras
        invariant
            i <= cameras,
            cameras == keyframes@.len(),
            solution_fits(*graph, old(map)@, keyframes@, mappoints@),
            map@ == with_poses(old(map)@, keyframes@, *graph, i as int),
        decreases cameras - i,
    {
        proof {
            lemma_with_poses_keeps(old(map)@, keyframes@, *graph, i as int);
            assert(old(map)@.keyframes.contains_key(keyframes@[i as int]));
        }
        match &graph.vertices[i] {
            Vertex::Camera(camera) => {
                let written = map.set_pose(keyframes[i], camera.params);
                assert(written.is_ok());
            },
            Vertex::Point(_) => {
                assert(graph.vertices@[i as int] is Camera);
            },
        }
        i = i + 1;
    }
    let ghost posed = map@;
    let mut j: usize = 0;
    while j < mappoints.len()
        invariant
            j <= mappoints.len(),
            cameras == keyframes@.len(),
            solution_fits(*graph, old(map)@, keyframes@, mappoints@),
            posed == with_poses(old(map)@, keyframes@, *graph, cameras as int),
            map@ == with_positions(posed, mappoints@, *graph, cameras as int, j as int),
        decreases mappoints.len() - j,
    {
        proof {
            lemma_with_poses_keeps(old(map)@, keyframes@, *graph, cameras as int);
            assert forall|k: int| 0 <= k < mappoints@.len() implies posed.mappoints.contains_key(
                #[trigger] mappoints@[k],
            ) by {
                assert(old(map)@.mappoints.contains_key(mappoints@[k]));
            }
            lemma_with_positions_keeps(posed, mappoints@, *graph, cameras as int, j as int);
            assert(posed.mappoints.contains_key(mappoints@[j as int]));
            assert(cameras + j < graph.vertices.len());
        }
        match &graph.vertices[cameras + j] {
            Vertex::Point(point) => {
                let written = map.set_position(mappoints[j], point.params);
                assert(written.is_ok());
            },
            Vertex::Camera(_) => {
                assert(graph.vertices@[cameras + j] is Point);
            },
        }
        j = j + 1;
    }
    Ok(())
}

/// Refines the poses of the given keyframes and the positions of the given
/// landmarks: lays out the problem, with `sigma` as the weight of every
/// measurement, hands it to `solve`, and writes what comes back into the
/// map. The first keyframe is held fixed.
///
/// Fails with `NotFound`, and changes nothing, if the map lacks one of the
/// keyframes or landmarks, or if what the solver returns does not fit them.
pub fn optimize<T: Payload, S: FnOnce(Graph<T>) -> Graph<T>>(
    map: &mut MapGraph<T>,
    keyframes: &[KeyFrameId],
    mappoints: &[MapPointId],
    sigma: T::Information,
    solve: S,
) -> (r: Result<(), SlamError>)
    requires
        forall|problem: Graph<T>|
            is_problem(problem, old(map)@, keyframes@, mappoints@, sigma) ==> solve.requires((problem,)),
    ensures
        !all_known(old(map)@, keyframes@, mappoints@) ==> r == Err::<(), SlamError>(SlamError::NotFound)
            && final(map)@ == old(map)@,
        all_known(old(map)@, keyframes@, mappoints@) ==> exists|problem: Graph<T>, solved: Graph<T>|
            {
                &&& is_problem(problem, old(map)@, keyframes@, mappoints@, sigma)
                &&& solve.ensures((problem,), solved)
                &&& if solution_fits(solved, old(map)@, keyframes@, mappoints@) {
                    r.is_ok() && final(map)@ == written_back(old(map)@, keyframes@, mappoints@, solved)
                } else {
                    r == Err::<(), SlamError>(SlamError::NotFound) && final(map)@ == old(map)@
                }
            },
{
    let problem = match build_graph(map, keyframes, mappoints, sigma) {
        Ok(problem) => problem,
        Err(e) => {
            return Err(e);
        },
    };
    let ghost given = problem;
    let solved = solve(problem);
    let r = write_back(map, keyframes, mappoints, &solved);
    proof {
        assert(is_problem(given, old(map)@, keyframes@, mappoints@, sigma) && solve.ensures((given,), solved));
    }
    r
}

} // verus!
