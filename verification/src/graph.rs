use vstd::prelude::*;
use crate::error::SlamError;
use crate::payload::Payload;

verus! {

/// The vertex of one optimized keyframe. Its parameters are the pose of the
/// camera; the first camera of a problem is fixed, which anchors the gauge.
pub struct CameraVertex<T: Payload> {
    pub id: usize,
    pub params: T::Pose,
    /// The identities of the edges that end at this vertex.
    pub edges: Vec<usize>,
    pub fixed: bool,
    /// The place of this vertex in the solver's system.
    pub hessian_index: usize,
}

/// The vertex of one optimized landmark. Its parameters are the position of
/// the point.
pub struct PointVertex<T: Payload> {
    pub id: usize,
    pub params: T::Position,
    /// The identities of the edges that end at this vertex.
    pub edges: Vec<usize>,
    pub fixed: bool,
    /// The place of this vertex in the solver's system.
    pub hessian_index: usize,
}

/// A vertex of the optimization graph.
pub enum Vertex<T: Payload> {
    Camera(CameraVertex<T>),
    Point(PointVertex<T>),
}

impl<T: Payload> Vertex<T> {
    /// The identity of the vertex.
    pub open spec fn id(self) -> usize {
        match self {
            Vertex::Camera(c) => c.id,
            Vertex::Point(p) => p.id,
        }
    }

    /// The identities of the edges that the vertex lists.
    pub open spec fn edges(self) -> Seq<usize> {
        match self {
            Vertex::Camera(c) => c.edges@,
            Vertex::Point(p) => p.edges@,
        }
    }

    /// Whether the solver leaves the vertex as it is.
    pub open spec fn fixed(self) -> bool {
        match self {
            Vertex::Camera(c) => c.fixed,
            Vertex::Point(p) => p.fixed,
        }
    }

    /// The number of parameters of the vertex: six for a camera, three for a
    /// point.
    pub open spec fn dimension(self) -> nat {
        match self {
            Vertex::Camera(_) => 6,
            Vertex::Point(_) => 3,
        }
    }

    /// The number of parameters that the solver may change: none of a fixed
    /// vertex, all of a free one.
    pub open spec fn free_dimension(self) -> nat {
        if self.fixed() {
            0
        } else {
            self.dimension()
        }
    }

    /// The place of the vertex in the solver's system.
    pub open spec fn hessian_index(self) -> usize {
        match self {
            Vertex::Camera(c) => c.hessian_index,
            Vertex::Point(p) => p.hessian_index,
        }
    }

    /// Whether `self` and `other` are vertices of the same kind that differ
    /// in nothing but their places in the solver's system.
    pub open spec fn same_but_index(self, other: Self) -> bool {
        match (self, other) {
            (Vertex::Camera(a), Vertex::Camera(b)) => a.id == b.id && a.params == b.params && a.fixed
                == b.fixed && a.edges == b.edges,
            (Vertex::Point(a), Vertex::Point(b)) => a.id == b.id && a.params == b.params && a.fixed
                == b.fixed && a.edges == b.edges,
            _ => false,
        }
    }

    /// Whether `self` and `other` are vertices of the same kind that differ
    /// in nothing but their lists of edges.
    pub open spec fn same_but_edges(self, other: Self) -> bool {
        match (self, other) {
            (Vertex::Camera(a), Vertex::Camera(b)) => a.id == b.id && a.params == b.params && a.fixed
                == b.fixed && a.hessian_index == b.hessian_index,
            (Vertex::Point(a), Vertex::Point(b)) => a.id == b.id && a.params == b.params && a.fixed
                == b.fixed && a.hessian_index == b.hessian_index,
            _ => false,
        }
    }

    /// Whether the solver leaves this vertex as it is.
    pub fn is_fixed(&self) -> (fixed: bool)
        ensures
            fixed == self.fixed(),
    {
        match self {
            Vertex::Camera(c) => c.fixed,
            Vertex::Point(p) => p.fixed,
        }
    }
}

/// A reprojection constraint: the pixel at which the camera vertex saw the
/// point vertex, the weight of that measurement, and the calibration under
/// which it was made.
pub struct Edge<T: Payload> {
    pub id: usize,
    /// The place of the camera vertex in the graph.
    pub camera: usize,
    /// The place of the point vertex in the graph.
    pub point: usize,
    pub measurement: T::KeyPoint,
    pub sigma: T::Information,
    pub intrinsic: T::Camera,
}

/// Whether an edge ends at the vertex at place `v`.
pub open spec fn touches<T: Payload>(v: int) -> spec_fn(Edge<T>) -> bool {
    |e: Edge<T>| e.camera == v || e.point == v
}

/// The identities of the edges that end at the vertex at place `v`, in the
/// order of the edges.
pub open spec fn incident<T: Payload>(edges: Seq<Edge<T>>, v: int) -> Seq<usize> {
    edges.filter(touches::<T>(v)).map_values(|e: Edge<T>| e.id)
}

/// What one more edge does to the edges that end at a vertex.
pub proof fn lemma_incident_push<T: Payload>(edges: Seq<Edge<T>>, e: Edge<T>, v: int)
    ensures
        incident(edges.push(e), v) == if e.camera == v || e.point == v {
            incident(edges, v).push(e.id)
        } else {
            incident(edges, v)
        },
{
    edges.lemma_filter_push(e, touches::<T>(v));
    if e.camera == v || e.point == v {
        assert(edges.filter(touches::<T>(v)).push(e).map_values(|e: Edge<T>| e.id) =~= edges.filter(
            touches::<T>(v),
        ).map_values(|e: Edge<T>| e.id).push(e.id));
    }
}

/// No edge ends at a place that lies beyond both ends of every edge.
pub proof fn lemma_incident_none<T: Payload>(edges: Seq<Edge<T>>, v: int)
    requires
        forall|x: int| 0 <= x < edges.len() ==> (#[trigger] edges[x]).camera != v && edges[x].point != v,
    ensures
        incident(edges, v) == Seq::<usize>::empty(),
{
    assert(edges.all(|e: Edge<T>| !touches::<T>(v)(e)));
    edges.lemma_all_neg_filter_empty(touches::<T>(v));
    assert(incident(edges, v) =~= Seq::<usize>::empty());
}

/// The number of parameters that the solver may change among those of the
/// first `n` vertices.
pub open spec fn free_parameters<T: Payload>(vertices: Seq<Vertex<T>>, n: int) -> nat
    decreases n,
{
    if n <= 0 || n > vertices.len() {
        0
    } else {
        free_parameters(vertices, n - 1) + vertices[n - 1].free_dimension()
    }
}

/// The free parameters of a shorter run of vertices are no more than those
/// of a longer one, and there are at most six for each vertex.
pub proof fn lemma_free_parameters_grow<T: Payload>(vertices: Seq<Vertex<T>>, i: int, n: int)
    requires
        0 <= i <= n <= vertices.len(),
    ensures
        free_parameters(vertices, i) <= free_parameters(vertices, n),
        free_parameters(vertices, n) <= 6 * n,
    decreases n,
{
    if n > 0 {
        if i < n {
            lemma_free_parameters_grow(vertices, i, n - 1);
        } else {
            lemma_free_parameters_grow(vertices, n - 1, n - 1);
        }
    }
}

/// A graph in which every vertex is fixed has no free parameter: there is
/// nothing for a solver to change.
pub proof fn lemma_all_fixed_is_empty<T: Payload>(vertices: Seq<Vertex<T>>, n: int)
    requires
        0 <= n <= vertices.len(),
        forall|i: int| 0 <= i < n ==> (#[trigger] vertices[i]).fixed(),
    ensures
        free_parameters(vertices, n) == 0,
    decreases n,
{
    if n > 0 {
        lemma_all_fixed_is_empty(vertices, n - 1);
    }
}

/// The optimization graph of one bundle adjustment: camera and point
/// vertices, and the reprojection edges between them.
pub struct Graph<T: Payload> {
    pub vertices: Vec<Vertex<T>>,
    pub edges: Vec<Edge<T>>,
}

impl<T: Payload> Graph<T> {
    /// Whether `camera` and `point` are the places of a camera vertex and of
    /// a point vertex.
    pub open spec fn joins(self, camera: int, point: int) -> bool {
        &&& 0 <= camera < self.vertices@.len()
        &&& self.vertices@[camera] is Camera
        &&& 0 <= point < self.vertices@.len()
        &&& self.vertices@[point] is Point
    }

    /// The graph is well formed: vertices and edges are numbered by their
    /// places, every edge joins a camera vertex to a point vertex, and every
    /// vertex lists exactly the edges that end at it.
    pub open spec fn wf(self) -> bool {
        &&& forall|i: int| 0 <= i < self.vertices@.len() ==> (#[trigger] self.vertices@[i]).id() == i
        &&& forall|i: int|
            0 <= i < self.vertices@.len() ==> (#[trigger] self.vertices@[i]).edges() == incident(
                self.edges@,
                i,
            )
        &&& forall|x: int| 0 <= x < self.edges@.len() ==> (#[trigger] self.edges@[x]).id == x
        &&& forall|x: int|
            0 <= x < self.edges@.len() ==> self.joins(
                (#[trigger] self.edges@[x]).camera as int,
                self.edges@[x].point as int,
            )
    }

    /// A graph without vertices and edges.
    pub fn new() -> (graph: Self)
        ensures
            graph.vertices@.len() == 0,
            graph.edges@.len() == 0,
            graph.wf(),
    {
        Graph { vertices: Vec::new(), edges: Vec::new() }
    }

    /// Adds a camera vertex and returns its place, which is its identity.
    pub fn add_camera(&mut self, params: T::Pose, fixed: bool) -> (id: usize)
        ensures
            id == old(self).vertices@.len(),
            final(self).edges == old(self).edges,
            final(self).vertices@.len() == id + 1,
            final(self).vertices@.take(id as int) == old(self).vertices@,
            final(self).vertices@[id as int] matches Vertex::Camera(c) && c.id == id && c.params == params
                && c.fixed == fixed && c.hessian_index == 0 && c.edges@ == Seq::<usize>::empty(),
            old(self).wf() ==> final(self).wf(),
    {
        let id: usize = self.vertices.len();
        self.vertices.push(
            Vertex::Camera(CameraVertex { id, params, edges: Vec::new(), fixed, hessian_index: 0 }),
        );
        proof {
            assert(self.vertices@.take(id as int) =~= old(self).vertices@);
            if old(self).wf() {
                lemma_incident_none(self.edges@, id as int);
            }
        }
        id
    }

    /// Adds a point vertex and returns its place, which is its identity.
    pub fn add_point(&mut self, params: T::Position, fixed: bool) -> (id: usize)
        ensures
            id == old(self).vertices@.len(),
            final(self).edges == old(self).edges,
            final(self).vertices@.len() == id + 1,
            final(self).vertices@.take(id as int) == old(self).vertices@,
            final(self).vertices@[id as int] matches Vertex::Point(p) && p.id == id && p.params == params
                && p.fixed == fixed && p.hessian_index == 0 && p.edges@ == Seq::<usize>::empty(),
            old(self).wf() ==> final(self).wf(),
    {
        let id: usize = self.vertices.len();
        self.vertices.push(
            Vertex::Point(PointVertex { id, params, edges: Vec::new(), fixed, hessian_index: 0 }),
        );
        proof {
            assert(self.vertices@.take(id as int) =~= old(self).vertices@);
            if old(self).wf() {
                lemma_incident_none(self.edges@, id as int);
            }
        }
        id
    }

    /// Adds a reprojection edge between the camera vertex at place `camera`
    /// and the point vertex at place `point`, enters it in the lists of
    /// both, and returns its identity. Fails with `NotFound`, and changes
    /// nothing, unless the two places hold a camera and a point vertex.
    pub fn add_edge(
        &mut self,
        camera: usize,
        point: usize,
        measurement: T::KeyPoint,
        sigma: T::Information,
        intrinsic: T::Camera,
    ) -> (r: Result<usize, SlamError>)
        ensures
            match r {
                Ok(id) => {
                    &&& old(self).joins(camera as int, point as int)
                    &&& id == old(self).edges@.len()
                    &&& final(self).edges@ == old(self).edges@.push(
                        Edge { id, camera, point, measurement, sigma, intrinsic },
                    )
                    &&& final(self).vertices@.len() == old(self).vertices@.len()
                    &&& forall|i: int|
                        0 <= i < old(self).vertices@.len() ==> (#[trigger] final(self).vertices@[i]).same_but_edges(old(self).vertices@[i])
                    &&& forall|i: int|
                        0 <= i < old(self).vertices@.len() ==> (#[trigger] final(self).vertices@[i]).edges() == if i == camera || i == point {
                            old(self).vertices@[i].edges().push(id)
                        } else {
                            old(self).vertices@[i].edges()
                        }
                    &&& old(self).wf() ==> final(self).wf()
                },
                Err(e) => {
                    &&& e == SlamError::NotFound
                    &&& !old(self).joins(camera as int, point as int)
                    &&& *final(self) == *old(self)
                },
            },
    {
        if camera >= self.vertices.len() || point >= self.vertices.len() {
            return Err(SlamError::NotFound);
        }
        let joins: bool = match (&self.vertices[camera], &self.vertices[point]) {
            (Vertex::Camera(_), Vertex::Point(_)) => true,
            _ => false,
        };
        if !joins {
            return Err(SlamError::NotFound);
        }
        let id: usize = self.edges.len();
        self.edges.push(Edge { id, camera, point, measurement, sigma, intrinsic });
        match &mut self.vertices[camera] {
            Vertex::Camera(c) => {
                c.edges.push(id);
            },
            Vertex::Point(_) => {},
        }
        match &mut self.vertices[point] {
            Vertex::Camera(_) => {},
            Vertex::Point(p) => {
                p.edges.push(id);
            },
        }
        proof {
            if old(self).wf() {
                assert forall|i: int| 0 <= i < self.vertices@.len() implies (
                #[trigger] self.vertices@[i]).edges() == incident(self.edges@, i) by {
                    lemma_incident_push(
                        old(self).edges@,
                        Edge { id, camera, point, measurement, sigma, intrinsic },
                        i,
                    );
                }
            }
        }
        Ok(id)
    }

    /// Lays out the solver's system: every vertex gets as its place the
    /// number of free parameters of the vertices before it, so that the
    /// parameters of the free vertices stand one after the other. Returns
    /// the size of the system, the number of all free parameters; it is zero
    /// when every vertex is fixed.
    ///
    /// Returns `None`, and changes nothing, if that size does not fit the
    /// machine's integers.
    pub fn order(&mut self) -> (size: Option<usize>)
        ensures
            final(self).edges == old(self).edges,
            final(self).vertices@.len() == old(self).vertices@.len(),
            old(self).wf() ==> final(self).wf(),
            match size {
                Some(size) => {
                    &&& size == free_parameters(old(self).vertices@, old(self).vertices@.len() as int)
                    &&& forall|i: int|
                        0 <= i < old(self).vertices@.len() ==> (#[trigger] final(self).vertices@[i]).same_but_index(
                            old(self).vertices@[i],
                        )
                    &&& forall|i: int|
                        0 <= i < old(self).vertices@.len() ==> (#[trigger] final(self).vertices@[i]).hessian_index()
                            == free_parameters(old(self).vertices@, i)
                },
                None => {
                    &&& free_parameters(old(self).vertices@, old(self).vertices@.len() as int) > usize::MAX
                    &&& *final(self) == *old(self)
                },
            },
    {
        let n: usize = self.vertices.len();
        if n > usize::MAX / 6 {
            let mut total: usize = 0;
            let mut i: usize = 0;
            while i < n
                invariant
                    i <= n,
                    n == self.vertices@.len(),
                    *self == *old(self),
                    total == free_parameters(self.vertices@, i as int),
                decreases n - i,
            {
                let step: usize = match &self.vertices[i] {
                    Vertex::Camera(c) => if c.fixed { 0 } else { 6 },
                    Vertex::Point(p) => if p.fixed { 0 } else { 3 },
                };
                if total > usize::MAX - step {
                    proof {
                        lemma_free_parameters_grow(self.vertices@, i as int + 1, n as int);
                    }
                    return None;
                }
                total = total + step;
                i = i + 1;
            }
        }
        proof {
            lemma_free_parameters_grow(self.vertices@, 0, n as int);
        }
        let mut offset: usize = 0;
        let mut i: usize = 0;
        while i < n
            invariant
                i <= n,
                n == old(self).vertices@.len(),
                self.vertices@.len() == n,
                self.edges == old(self).edges,
                free_parameters(old(self).vertices@, n as int) <= usize::MAX,
                offset == free_parameters(old(self).vertices@, i as int),
                forall|k: int|
                    0 <= k < i ==> (#[trigger] self.vertices@[k]).same_but_index(old(self).vertices@[k]),
                forall|k: int|
                    0 <= k < i ==> (#[trigger] self.vertices@[k]).hessian_index() == free_parameters(
                        old(self).vertices@,
                        k,
                    ),
                forall|k: int| i <= k < n ==> #[trigger] self.vertices@[k] == old(self).vertices@[k],
            decreases n - i,
        {
            proof {
                lemma_free_parameters_grow(old(self).vertices@, i as int + 1, n as int);
            }
            let step: usize = match &mut self.vertices[i] {
                Vertex::Camera(c) => {
                    c.hessian_index = offset;
                    if c.fixed {
                        0
                    } else {
                        6
                    }
                },
                Vertex::Point(p) => {
                    p.hessian_index = offset;
                    if p.fixed {
                        0
                    } else {
                        3
                    }
                },
            };
            offset = offset + step;
            i = i + 1;
        }
        proof {
            if old(self).wf() {
                assert forall|k: int| 0 <= k < n implies (#[trigger] self.vertices@[k]).id() == k by {
                    assert(self.vertices@[k].same_but_index(old(self).vertices@[k]));
                }
                assert forall|k: int| 0 <= k < n implies (#[trigger] self.vertices@[k]).edges() == incident(
                    self.edges@,
                    k,
                ) by {
                    assert(self.vertices@[k].same_but_index(old(self).vertices@[k]));
                }
                assert forall|x: int| 0 <= x < self.edges@.len() implies self.joins(
                    (#[trigger] self.edges@[x]).camera as int,
                    self.edges@[x].point as int,
                ) by {
                    let e = self.edges@[x];
                    assert(old(self).joins(e.camera as int, e.point as int));
                    assert(self.vertices@[e.camera as int].same_but_index(old(self).vertices@[e.camera as int]));
                    assert(self.vertices@[e.point as int].same_but_index(old(self).vertices@[e.point as int]));
                }
            }
        }
        Some(offset)
    }

    /// The vertex at place `index`, if there is one.
    pub fn vertex(&self, index: usize) -> (r: Option<&Vertex<T>>)
        ensures
            index < self.vertices@.len() ==> r == Some(&self.vertices@[index as int]),
            index >= self.vertices@.len() ==> r.is_none(),
    {
        if index < self.vertices.len() {
            Some(&self.vertices[index])
        } else {
            None
        }
    }
}

} // verus!
