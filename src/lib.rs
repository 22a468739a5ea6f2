//! Codec for the graph values ("agtype") of the Apache AGE extension of
//! PostgreSQL: the version envelope, vertex and edge documents, composite path
//! values, generic payloads, and the SQL text that carries cypher queries.

pub mod codec;
pub mod document;
pub mod envelope;
pub mod error;
pub mod json;
pub mod laws;
pub mod markers;
pub mod path;
pub mod query;
pub mod types;

pub use codec::{edge_value, encoded, generic_value, path_value, vertex_value};
pub use document::{decode_edge_document, decode_vertex_document};
pub use envelope::{accepts, open_envelope, TypeDescriptor, SUPPORTED_VERSION};
pub use error::{DecodeError, SerializationError};
pub use markers::{EDGE_SUFFIX_LEN, PATH_SUFFIX_LEN, VERTEX_SUFFIX_LEN};
pub use path::{decode_path_content, LexState, Lexer, Token};
pub use query::{
    constraint_query, cypher_query, graph_exists_from_count, required_constraint_query,
    unique_index_query, CREATE_GRAPH, DROP_GRAPH, GRAPH_EXISTS, LOAD_AGE, SET_AGE,
};
pub use types::{AgType, Edge, EdgeModel, Path, PathModel, Vertex, VertexModel};
