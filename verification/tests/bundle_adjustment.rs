use std::time::Duration;

use mono_slam::error::SlamError;
use mono_slam::graph::{Graph, Vertex};
use mono_slam::keyframe::KeyFrame;
use mono_slam::map_graph::MapGraph;
use mono_slam::mappoint::{MapPoint, MapPointReference};
use mono_slam::optimize::{build_graph, check_solution, optimize, position, write_back};
use mono_slam::payload::Payload;

struct Plain;

impl Payload for Plain {
    type Image = u32;
    type KeyPoint = (f32, f32);
    type Descriptor = [u8; 4];
    type Camera = [f64; 8];
    type Pose = [f64; 7];
    type Position = [f64; 3];
    type Information = [f64; 4];
}

const UNIT: [f64; 4] = [1.0, 0.0, 0.0, 1.0];

fn camera(fx: f64) -> [f64; 8] {
    [fx, fx, 0.0, 0.0, 0.0, 0.0, 0.0, 0.0]
}

fn pose(x: f64) -> [f64; 7] {
    [x, 0.0, 0.0, 0.0, 0.0, 0.0, 1.0]
}

/// Keyframes 10, 11 and 12, and landmarks 20 (seen by 10 and 11), 21 (seen
/// by 11, 12 and 10) and 22 (seen by nobody).
fn sample_map() -> MapGraph<Plain> {
    let mut map: MapGraph<Plain> = MapGraph::new();
    for id in [10usize, 11, 12] {
        map.insert_keyframe(KeyFrame::new_with_id(
            id,
            Duration::from_nanos(id as u64),
            0,
            vec![],
            camera(id as f64),
            pose(id as f64),
        ));
    }
    let mut a: MapPoint<Plain> = MapPoint::new_with_id(20, [0.0, 0.0, 5.0], [0, 0, 0, 0]);
    a.add_reference(MapPointReference::new(10, &(1.0, 1.5), &[0, 0, 0, 0]));
    a.add_reference(MapPointReference::new(11, &(2.0, 2.5), &[0, 0, 0, 0]));
    map.insert_mappoint(a);
    let mut b: MapPoint<Plain> = MapPoint::new_with_id(21, [1.0, 0.0, 6.0], [0, 0, 0, 0]);
    b.add_reference(MapPointReference::new(11, &(3.0, 3.5), &[0, 0, 0, 0]));
    b.add_reference(MapPointReference::new(12, &(4.0, 4.5), &[0, 0, 0, 0]));
    b.add_reference(MapPointReference::new(10, &(5.0, 5.5), &[0, 0, 0, 0]));
    map.insert_mappoint(b);
    map.insert_mappoint(MapPoint::new_with_id(22, [2.0, 0.0, 7.0], [0, 0, 0, 0]));
    map
}

fn edge_summary(graph: &Graph<Plain>) -> Vec<(usize, usize, usize, (f32, f32), f64)> {
    graph.edges.iter().map(|e| (e.id, e.camera, e.point, e.measurement, e.intrinsic[0])).collect()
}

fn vertex_edges(graph: &Graph<Plain>, index: usize) -> Vec<usize> {
    match graph.vertex(index).unwrap() {
        Vertex::Camera(c) => c.edges.clone(),
        Vertex::Point(p) => p.edges.clone(),
    }
}

#[test]
fn position_finds_the_first_place() {
    assert_eq!(position(&[4, 7, 4, 9], 4), Some(0));
    assert_eq!(position(&[4, 7, 4, 9], 9), Some(3));
    assert_eq!(position(&[4, 7, 4, 9], 5), None);
    assert_eq!(position(&[], 5), None);
}

#[test]
fn graph_numbers_vertices_and_edges_by_place() {
    let mut graph: Graph<Plain> = Graph::new();
    assert_eq!(graph.add_camera(pose(1.0), true), 0);
    assert_eq!(graph.add_point([0.0, 0.0, 1.0], false), 1);
    assert_eq!(graph.add_camera(pose(2.0), false), 2);
    assert_eq!(graph.add_edge(0, 1, (1.0, 2.0), UNIT, camera(1.0)), Ok(0));
    assert_eq!(graph.add_edge(2, 1, (3.0, 4.0), UNIT, camera(1.0)), Ok(1));
    assert_eq!(vertex_edges(&graph, 0), vec![0]);
    assert_eq!(vertex_edges(&graph, 1), vec![0, 1]);
    assert_eq!(vertex_edges(&graph, 2), vec![1]);
    assert!(graph.vertex(0).unwrap().is_fixed());
    assert!(!graph.vertex(1).unwrap().is_fixed());
    assert!(graph.vertex(3).is_none());
}

fn hessian_index(graph: &Graph<Plain>, index: usize) -> usize {
    match graph.vertex(index).unwrap() {
        Vertex::Camera(c) => c.hessian_index,
        Vertex::Point(p) => p.hessian_index,
    }
}

#[test]
fn order_places_the_free_vertices_one_after_the_other() {
    let mut graph: Graph<Plain> = Graph::new();
    graph.add_camera(pose(1.0), true);
    graph.add_camera(pose(2.0), false);
    graph.add_point([0.0, 0.0, 1.0], false);
    graph.add_point([0.0, 0.0, 2.0], true);
    graph.add_point([0.0, 0.0, 3.0], false);
    graph.add_edge(1, 2, (1.0, 2.0), UNIT, camera(1.0)).unwrap();
    assert_eq!(graph.order(), Some(12));
    assert_eq!(hessian_index(&graph, 0), 0);
    assert_eq!(hessian_index(&graph, 1), 0);
    assert_eq!(hessian_index(&graph, 2), 6);
    assert_eq!(hessian_index(&graph, 3), 9);
    assert_eq!(hessian_index(&graph, 4), 9);
    assert_eq!(vertex_edges(&graph, 1), vec![0]);
    assert_eq!(graph.edges.len(), 1);
    assert_eq!(graph.order(), Some(12));
}

#[test]
fn order_of_a_graph_without_free_vertices_is_empty() {
    let mut graph: Graph<Plain> = Graph::new();
    assert_eq!(graph.order(), Some(0));
    graph.add_camera(pose(1.0), true);
    graph.add_point([0.0, 0.0, 1.0], true);
    assert_eq!(graph.order(), Some(0));
    assert_eq!(hessian_index(&graph, 1), 0);
}

#[test]
fn order_of_a_problem_skips_the_fixed_first_camera() {
    let map = sample_map();
    let mut graph = build_graph(&map, &[11, 10], &[20, 21, 22], UNIT).unwrap();
    assert_eq!(graph.order(), Some(6 + 9));
    assert_eq!(hessian_index(&graph, 1), 0);
    assert_eq!(hessian_index(&graph, 2), 6);
    assert_eq!(hessian_index(&graph, 4), 12);
}

#[test]
fn graph_refuses_an_edge_between_the_wrong_vertices() {
    let mut graph: Graph<Plain> = Graph::new();
    graph.add_camera(pose(1.0), true);
    graph.add_point([0.0, 0.0, 1.0], false);
    assert_eq!(graph.add_edge(1, 0, (1.0, 2.0), UNIT, camera(1.0)), Err(SlamError::NotFound));
    assert_eq!(graph.add_edge(0, 0, (1.0, 2.0), UNIT, camera(1.0)), Err(SlamError::NotFound));
    assert_eq!(graph.add_edge(0, 2, (1.0, 2.0), UNIT, camera(1.0)), Err(SlamError::NotFound));
    assert_eq!(graph.add_edge(5, 1, (1.0, 2.0), UNIT, camera(1.0)), Err(SlamError::NotFound));
    assert!(graph.edges.is_empty());
    assert!(vertex_edges(&graph, 0).is_empty());
    assert!(vertex_edges(&graph, 1).is_empty());
}

#[test]
fn build_graph_lays_out_cameras_then_points() {
    let map = sample_map();
    let graph = build_graph(&map, &[11, 10], &[20, 21, 22], UNIT).unwrap();
    assert_eq!(graph.vertices.len(), 5);
    match graph.vertex(0).unwrap() {
        Vertex::Camera(c) => {
            assert_eq!(c.id, 0);
            assert_eq!(c.params, pose(11.0));
            assert!(c.fixed);
            assert_eq!(c.hessian_index, 0);
        }
        Vertex::Point(_) => panic!("vertex 0 must be a camera"),
    }
    match graph.vertex(1).unwrap() {
        Vertex::Camera(c) => {
            assert_eq!(c.id, 1);
            assert_eq!(c.params, pose(10.0));
            assert!(!c.fixed);
        }
        Vertex::Point(_) => panic!("vertex 1 must be a camera"),
    }
    for (place, position) in [(2usize, [0.0, 0.0, 5.0]), (3, [1.0, 0.0, 6.0]), (4, [2.0, 0.0, 7.0])] {
        match graph.vertex(place).unwrap() {
            Vertex::Point(p) => {
                assert_eq!(p.id, place);
                assert_eq!(p.params, position);
                assert!(!p.fixed);
            }
            Vertex::Camera(_) => panic!("vertex must be a point"),
        }
    }
}

#[test]
fn build_graph_makes_an_edge_for_each_sighting_by_an_optimized_keyframe() {
    let map = sample_map();
    let graph = build_graph(&map, &[11, 10], &[20, 21, 22], UNIT).unwrap();
    assert_eq!(
        edge_summary(&graph),
        vec![
            (0, 1, 2, (1.0, 1.5), 10.0),
            (1, 0, 2, (2.0, 2.5), 11.0),
            (2, 0, 3, (3.0, 3.5), 11.0),
            (3, 1, 3, (5.0, 5.5), 10.0),
        ]
    );
    assert_eq!(vertex_edges(&graph, 0), vec![1, 2]);
    assert_eq!(vertex_edges(&graph, 1), vec![0, 3]);
    assert_eq!(vertex_edges(&graph, 2), vec![0, 1]);
    assert_eq!(vertex_edges(&graph, 3), vec![2, 3]);
    assert!(vertex_edges(&graph, 4).is_empty());
}

#[test]
fn build_graph_gives_every_edge_the_weight() {
    let map = sample_map();
    let weight = [2.0, 0.0, 0.0, 3.0];
    let graph = build_graph(&map, &[11, 10], &[20, 21, 22], weight).unwrap();
    assert_eq!(graph.edges.len(), 4);
    for edge in graph.edges.iter() {
        assert_eq!(edge.sigma, weight);
    }
}

#[test]
fn build_graph_ties_a_keyframe_listed_twice_to_its_first_vertex() {
    let map = sample_map();
    let graph = build_graph(&map, &[12, 10, 12], &[21], UNIT).unwrap();
    assert_eq!(graph.vertices.len(), 4);
    assert_eq!(
        edge_summary(&graph),
        vec![(0, 0, 3, (4.0, 4.5), 12.0), (1, 1, 3, (5.0, 5.5), 10.0)]
    );
    assert!(vertex_edges(&graph, 2).is_empty());
}

#[test]
fn build_graph_of_nothing_is_empty() {
    let map = sample_map();
    let graph = build_graph(&map, &[], &[], UNIT).unwrap();
    assert!(graph.vertices.is_empty());
    assert!(graph.edges.is_empty());
    let only_points = build_graph(&map, &[], &[20], UNIT).unwrap();
    assert_eq!(only_points.vertices.len(), 1);
    assert!(only_points.edges.is_empty());
}

#[test]
fn build_graph_fails_on_an_unknown_identity() {
    let map = sample_map();
    assert!(matches!(build_graph(&map, &[10, 13], &[20], UNIT), Err(SlamError::NotFound)));
    assert!(matches!(build_graph(&map, &[10], &[20, 10], UNIT), Err(SlamError::NotFound)));
}

#[test]
fn write_back_copies_poses_and_positions() {
    let mut map = sample_map();
    let mut graph: Graph<Plain> = Graph::new();
    graph.add_camera(pose(100.0), true);
    graph.add_camera(pose(101.0), false);
    graph.add_point([7.0, 7.0, 7.0], false);
    assert!(check_solution(&map, &[11, 10], &[21], &graph));
    assert_eq!(write_back(&mut map, &[11, 10], &[21], &graph), Ok(()));
    assert_eq!(map.keyframe(11).unwrap().pose, pose(100.0));
    assert_eq!(map.keyframe(10).unwrap().pose, pose(101.0));
    assert_eq!(map.keyframe(12).unwrap().pose, pose(12.0));
    assert_eq!(map.mappoint(21).unwrap().position, [7.0, 7.0, 7.0]);
    assert_eq!(map.mappoint(21).unwrap().references.len(), 3);
    assert_eq!(map.mappoint(20).unwrap().position, [0.0, 0.0, 5.0]);
    assert_eq!(map.keyframe(11).unwrap().intrinsics, camera(11.0));
}

#[test]
fn write_back_lets_the_later_vertex_decide() {
    let mut map = sample_map();
    let mut graph: Graph<Plain> = Graph::new();
    graph.add_camera(pose(100.0), true);
    graph.add_camera(pose(101.0), false);
    assert_eq!(write_back(&mut map, &[10, 10], &[], &graph), Ok(()));
    assert_eq!(map.keyframe(10).unwrap().pose, pose(101.0));
}

#[test]
fn write_back_refuses_a_graph_that_does_not_fit() {
    let mut map = sample_map();
    let mut graph: Graph<Plain> = Graph::new();
    graph.add_camera(pose(100.0), true);
    graph.add_point([7.0, 7.0, 7.0], false);
    assert!(!check_solution(&map, &[10, 11], &[], &graph));
    assert_eq!(write_back(&mut map, &[10, 11], &[], &graph), Err(SlamError::NotFound));
    assert_eq!(write_back(&mut map, &[10], &[20, 21], &graph), Err(SlamError::NotFound));
    assert_eq!(write_back(&mut map, &[13], &[20], &graph), Err(SlamError::NotFound));
    assert_eq!(write_back(&mut map, &[10], &[23], &graph), Err(SlamError::NotFound));
    assert_eq!(map.keyframe(10).unwrap().pose, pose(10.0));
    assert_eq!(map.mappoint(20).unwrap().position, [0.0, 0.0, 5.0]);
}

#[test]
fn optimize_writes_back_what_the_solver_returns() {
    let mut map = sample_map();
    let r = optimize(&mut map, &[10, 11], &[20, 21], UNIT, |mut graph: Graph<Plain>| {
        for vertex in graph.vertices.iter_mut() {
            match vertex {
                Vertex::Camera(c) => {
                    if !c.fixed {
                        c.params[0] += 0.5;
                    }
                }
                Vertex::Point(p) => {
                    p.params[2] -= 1.0;
                }
            }
        }
        graph
    });
    assert_eq!(r, Ok(()));
    assert_eq!(map.keyframe(10).unwrap().pose, pose(10.0));
    assert_eq!(map.keyframe(11).unwrap().pose, pose(11.5));
    assert_eq!(map.keyframe(12).unwrap().pose, pose(12.0));
    assert_eq!(map.mappoint(20).unwrap().position, [0.0, 0.0, 4.0]);
    assert_eq!(map.mappoint(21).unwrap().position, [1.0, 0.0, 5.0]);
    assert_eq!(map.mappoint(22).unwrap().position, [2.0, 0.0, 7.0]);
}

#[test]
fn optimize_with_a_solver_that_does_nothing_changes_nothing() {
    let mut map = sample_map();
    assert_eq!(optimize(&mut map, &[10, 11, 12], &[20, 21, 22], UNIT, |graph: Graph<Plain>| graph), Ok(()));
    assert_eq!(map.keyframe(10).unwrap().pose, pose(10.0));
    assert_eq!(map.keyframe(12).unwrap().pose, pose(12.0));
    assert_eq!(map.mappoint(21).unwrap().position, [1.0, 0.0, 6.0]);
    assert_eq!(map.mappoint(21).unwrap().references.len(), 3);
}

#[test]
fn optimize_fails_on_an_unknown_identity() {
    let mut map = sample_map();
    let mut called = false;
    let r = optimize(&mut map, &[10, 99], &[20], UNIT, |graph: Graph<Plain>| {
        called = true;
        graph
    });
    assert_eq!(r, Err(SlamError::NotFound));
    assert!(!called);
    assert_eq!(map.keyframe(10).unwrap().pose, pose(10.0));
}

#[test]
fn optimize_refuses_a_solution_of_another_shape() {
    let mut map = sample_map();
    let r = optimize(&mut map, &[10, 11], &[20], UNIT, |_graph: Graph<Plain>| Graph::new());
    assert_eq!(r, Err(SlamError::NotFound));
    assert_eq!(map.keyframe(11).unwrap().pose, pose(11.0));
    assert_eq!(map.mappoint(20).unwrap().position, [0.0, 0.0, 5.0]);
}
