use vstd::prelude::*;

verus! {

/// What a vertex holds: its id, its label, and the model of its properties.
pub struct VertexModel<P> {
    pub id: u64,
    pub label: Seq<char>,
    pub properties: P,
}

/// What an edge holds: a vertex's members, and the ids of the vertices it joins.
pub struct EdgeModel<P> {
    pub id: u64,
    pub label: Seq<char>,
    pub properties: P,
    pub start_id: u64,
    pub end_id: u64,
}

/// What a path holds: its vertices and its edges, each in the order in which
/// they were met.
pub struct PathModel<V, E> {
    pub vertices: Seq<VertexModel<V>>,
    pub edges: Seq<EdgeModel<E>>,
}

/// A vertex of a graph.
#[derive(Debug)]
pub struct Vertex<T> {
    id: u64,
    label: String,
    properties: T,
}

/// An edge of a graph, from the vertex `start_id` to the vertex `end_id`.
#[derive(Debug)]
pub struct Edge<T> {
    id: u64,
    label: String,
    properties: T,
    start_id: u64,
    end_id: u64,
}

/// A path of a graph: its vertices and its edges, each in the order in which
/// they stood in the encoded value.
#[derive(Debug)]
pub struct Path<V, E> {
    vertices: Vec<Vertex<V>>,
    edges: Vec<Edge<E>>,
}

/// A payload carried to or from the database as an agtype value.
#[derive(Debug)]
pub struct AgType<T>(pub T);

impl<T> Vertex<T> {
    pub closed spec fn spec_id(&self) -> u64 {
        self.id
    }

    pub closed spec fn spec_label(&self) -> Seq<char> {
        self.label@
    }

    pub closed spec fn spec_properties(&self) -> T {
        self.properties
    }
}

impl<T> Edge<T> {
    pub closed spec fn spec_id(&self) -> u64 {
        self.id
    }

    pub closed spec fn spec_label(&self) -> Seq<char> {
        self.label@
    }

    pub closed spec fn spec_properties(&self) -> T {
        self.properties
    }

    pub closed spec fn spec_start_id(&self) -> u64 {
        self.start_id
    }

    pub closed spec fn spec_end_id(&self) -> u64 {
        self.end_id
    }
}

impl<V, E> Path<V, E> {
    pub closed spec fn spec_vertices(&self) -> Seq<Vertex<V>> {
        self.vertices@
    }

    pub closed spec fn spec_edges(&self) -> Seq<Edge<E>> {
        self.edges@
    }
}

impl<T: View> View for Vertex<T> {
    type V = VertexModel<T::V>;

    open spec fn view(&self) -> VertexModel<T::V> {
        VertexModel {
            id: self.spec_id(),
            label: self.spec_label(),
            properties: self.spec_properties()@,
        }
    }
}

impl<T: View> View for Edge<T> {
    type V = EdgeModel<T::V>;

    open spec fn view(&self) -> EdgeModel<T::V> {
        EdgeModel {
            id: self.spec_id(),
            label: self.spec_label(),
            properties: self.spec_properties()@,
            start_id: self.spec_start_id(),
            end_id: self.spec_end_id(),
        }
    }
}

/// The models of the vertices in `vs`.
pub open spec fn vertex_models<V: View>(vs: Seq<Vertex<V>>) -> Seq<VertexModel<V::V>> {
    vs.map_values(|v: Vertex<V>| v@)
}

/// The models of the edges in `es`.
pub open spec fn edge_models<E: View>(es: Seq<Edge<E>>) -> Seq<EdgeModel<E::V>> {
    es.map_values(|e: Edge<E>| e@)
}

impl<V: View, E: View> View for Path<V, E> {
    type V = PathModel<V::V, E::V>;

    open spec fn view(&self) -> PathModel<V::V, E::V> {
        PathModel {
            vertices: vertex_models(self.spec_vertices()),
            edges: edge_models(self.spec_edges()),
        }
    }
}

impl<T> Vertex<T> {
    /// A vertex made of its members.
    pub fn new(id: u64, label: String, properties: T) -> (r: Vertex<T>)
        ensures
            r.spec_id() == id,
            r.spec_label() == label@,
            r.spec_properties() == properties,
    {
        Vertex { id, label, properties }
    }

    pub fn id(&self) -> (r: u64)
        ensures
            r == self.spec_id(),
    {
        self.id
    }

    pub fn label(&self) -> (r: String)
        ensures
            r@ == self.spec_label(),
    {
        self.label.clone()
    }

    pub fn properties(&self) -> (r: &T)
        ensures
            *r == self.spec_properties(),
    {
        &self.properties
    }

    /// The members of the vertex, given up by value: id, label, properties.
    pub fn into_parts(self) -> (r: (u64, String, T))
        ensures
            r.0 == self.spec_id(),
            r.1@ == self.spec_label(),
            r.2 == self.spec_properties(),
    {
        (self.id, self.label, self.properties)
    }
}

impl<T> Edge<T> {
    /// An edge made of its members.
    pub fn new(id: u64, label: String, properties: T, start_id: u64, end_id: u64) -> (r: Edge<T>)
        ensures
            r.spec_id() == id,
            r.spec_label() == label@,
            r.spec_properties() == properties,
            r.spec_start_id() == start_id,
            r.spec_end_id() == end_id,
    {
        Edge { id, label, properties, start_id, end_id }
    }

    pub fn id(&self) -> (r: u64)
        ensures
            r == self.spec_id(),
    {
        self.id
    }

    pub fn label(&self) -> (r: String)
        ensures
            r@ == self.spec_label(),
    {
        self.label.clone()
    }

    pub fn properties(&self) -> (r: &T)
        ensures
            *r == self.spec_properties(),
    {
        &self.properties
    }

    pub fn start_id(&self) -> (r: u64)
        ensures
            r == self.spec_start_id(),
    {
        self.start_id
    }

    pub fn end_id(&self) -> (r: u64)
        ensures
            r == self.spec_end_id(),
    {
        self.end_id
    }

    /// The members of the edge, given up by value: id, label, properties,
    /// start id, end id.
    pub fn into_parts(self) -> (r: (u64, String, T, u64, u64))
        ensures
            r.0 == self.spec_id(),
            r.1@ == self.spec_label(),
            r.2 == self.spec_properties(),
            r.3 == self.spec_start_id(),
            r.4 == self.spec_end_id(),
    {
        (self.id, self.label, self.properties, self.start_id, self.end_id)
    }
}

impl<V, E> Path<V, E> {
    /// A path made of its vertices and edges.
    pub fn new(vertices: Vec<Vertex<V>>, edges: Vec<Edge<E>>) -> (r: Path<V, E>)
        ensures
            r.spec_vertices() == vertices@,
            r.spec_edges() == edges@,
    {
        Path { vertices, edges }
    }

    pub fn vertices(&self) -> (r: &Vec<Vertex<V>>)
        ensures
            r@ == self.spec_vertices(),
    {
        &self.vertices
    }

    pub fn edges(&self) -> (r: &Vec<Edge<E>>)
        ensures
            r@ == self.spec_edges(),
    {
        &self.edges
    }

    /// The vertices and edges of the path, given up by value.
    pub fn into_parts(self) -> (r: (Vec<Vertex<V>>, Vec<Edge<E>>))
        ensures
            r.0@ == self.spec_vertices(),
            r.1@ == self.spec_edges(),
    {
        (self.vertices, self.edges)
    }
}

} // verus!
