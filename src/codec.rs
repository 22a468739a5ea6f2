use vstd::prelude::*;

use crate::document::{decode_edge_document, decode_vertex_document, edge_document, vertex_document};
use crate::envelope::{
    accepts, envelope_content, is_agtype, open_envelope, TypeDescriptor, SUPPORTED_VERSION,
};
use crate::error::{DecodeError, Fault};
use crate::markers::{EDGE_SUFFIX_LEN, VERTEX_SUFFIX_LEN};
use crate::path::{decode_path_content, path_content};
use crate::types::{AgType, Edge, EdgeModel, Path, PathModel, Vertex, VertexModel};

verus! {

/// The bytes of a value whose JSON document is `doc`: the version byte, then
/// the document.
pub open spec fn encoded(doc: Seq<u8>) -> Seq<u8> {
    seq![SUPPORTED_VERSION].add(doc)
}

/// The document of a generic value: the envelope's content, taken as it is.
pub open spec fn generic_value(ty: &TypeDescriptor, raw: Seq<u8>) -> Result<Seq<u8>, Fault> {
    envelope_content(ty, raw)
}

/// The vertex that the value `raw` of type `ty` holds: the content of the
/// envelope less its last `VERTEX_SUFFIX_LEN` bytes (the `::vertex` marker,
/// whose bytes are not read), decoded as a vertex document.
pub open spec fn vertex_value(ty: &TypeDescriptor, raw: Seq<u8>) -> Result<VertexModel<Seq<char>>, Fault> {
    match envelope_content(ty, raw) {
        Err(f) => Err(f),
        Ok(c) => if c.len() < VERTEX_SUFFIX_LEN {
            Err(Fault::Truncated)
        } else {
            vertex_document(c.subrange(0, c.len() - VERTEX_SUFFIX_LEN))
        },
    }
}

/// The edge that the value `raw` of type `ty` holds: the content of the
/// envelope less its last `EDGE_SUFFIX_LEN` bytes (the `::edge` marker, whose
/// bytes are not read), decoded as an edge document.
pub open spec fn edge_value(ty: &TypeDescriptor, raw: Seq<u8>) -> Result<EdgeModel<Seq<char>>, Fault> {
    match envelope_content(ty, raw) {
        Err(f) => Err(f),
        Ok(c) => if c.len() < EDGE_SUFFIX_LEN {
            Err(Fault::Truncated)
        } else {
            edge_document(c.subrange(0, c.len() - EDGE_SUFFIX_LEN))
        },
    }
}

/// The path that the value `raw` of type `ty` holds.
pub open spec fn path_value(ty: &TypeDescriptor, raw: Seq<u8>) -> Result<PathModel<Seq<char>, Seq<char>>, Fault> {
    match envelope_content(ty, raw) {
        Err(f) => Err(f),
        Ok(c) => path_content(c),
    }
}

impl Vertex<String> {
    /// Whether values of the type `ty` decode as vertices.
    pub fn accepts(ty: &TypeDescriptor) -> (r: bool)
        ensures
            r == is_agtype(ty.schema@, ty.name@),
    {
        accepts(ty)
    }

    /// Decodes the value `raw` of type `ty` as a vertex, its properties kept
    /// as JSON text.
    pub fn from_sql(ty: &TypeDescriptor, raw: &[u8]) -> (r: Result<Vertex<String>, DecodeError>)
        ensures
            r matches Ok(v) ==> vertex_value(ty, raw@) == Ok::<VertexModel<Seq<char>>, Fault>(v@),
            r matches Err(e) ==> vertex_value(ty, raw@) == Err::<VertexModel<Seq<char>>, Fault>(
                e.fault(),
            ),
    {
        let c = match open_envelope(ty, raw) {
            Ok(c) => c,
            Err(e) => return Err(e),
        };
        if c.len() < VERTEX_SUFFIX_LEN {
            return Err(DecodeError::Truncated);
        }
        let doc = vstd::slice::slice_subrange(c, 0, c.len() - VERTEX_SUFFIX_LEN);
        decode_vertex_document(doc)
    }
}

impl Edge<String> {
    /// Whether values of the type `ty` decode as edges.
    pub fn accepts(ty: &TypeDescriptor) -> (r: bool)
        ensures
            r == is_agtype(ty.schema@, ty.name@),
    {
        accepts(ty)
    }

    /// Decodes the value `raw` of type `ty` as an edge, its properties kept as
    /// JSON text.
    pub fn from_sql(ty: &TypeDescriptor, raw: &[u8]) -> (r: Result<Edge<String>, DecodeError>)
        ensures
            r matches Ok(v) ==> edge_value(ty, raw@) == Ok::<EdgeModel<Seq<char>>, Fault>(v@),
            r matches Err(e) ==> edge_value(ty, raw@) == Err::<EdgeModel<Seq<char>>, Fault>(
                e.fault(),
            ),
    {
        let c = match open_envelope(ty, raw) {
            Ok(c) => c,
            Err(e) => return Err(e),
        };
        if c.len() < EDGE_SUFFIX_LEN {
            return Err(DecodeError::Truncated);
        }
        let doc = vstd::slice::slice_subrange(c, 0, c.len() - EDGE_SUFFIX_LEN);
        decode_edge_document(doc)
    }
}

impl Path<String, String> {
    /// Whether values of the type `ty` decode as paths.
    pub fn accepts(ty: &TypeDescriptor) -> (r: bool)
        ensures
            r == is_agtype(ty.schema@, ty.name@),
    {
        accepts(ty)
    }

    /// Decodes the value `raw` of type `ty` as a path, the properties of its
    /// vertices and edges kept as JSON text.
    pub fn from_sql(ty: &TypeDescriptor, raw: &[u8]) -> (r: Result<Path<String, String>, DecodeError>)
        ensures
            r matches Ok(p) ==> path_value(ty, raw@) == Ok::<PathModel<Seq<char>, Seq<char>>, Fault>(
                p@,
            ),
            r matches Err(e) ==> path_value(ty, raw@) == Err::<
                PathModel<Seq<char>, Seq<char>>,
                Fault,
            >(e.fault()),
    {
        let c = match open_envelope(ty, raw) {
            Ok(c) => c,
            Err(e) => return Err(e),
        };
        decode_path_content(c)
    }
}

impl AgType<Vec<u8>> {
    /// Whether values of the type `ty` decode as generic values.
    pub fn accepts(ty: &TypeDescriptor) -> (r: bool)
        ensures
            r == is_agtype(ty.schema@, ty.name@),
    {
        accepts(ty)
    }

    /// Appends the encoding of the JSON document `self.0` to `out`: the
    /// version byte, then the document.
    pub fn to_sql(&self, out: &mut Vec<u8>)
        ensures
            final(out)@ == old(out)@ + encoded(self.0@),
    {
        out.push(SUPPORTED_VERSION);
        let mut i: usize = 0;
        while i < self.0.len()
            invariant
                i <= self.0@.len(),
                out@ == old(out)@ + encoded(self.0@).subrange(0, i + 1),
            decreases self.0@.len() - i,
        {
            out.push(self.0[i]);
            i = i + 1;
            assert(out@ =~= old(out)@ + encoded(self.0@).subrange(0, i + 1));
        }
        assert(encoded(self.0@).subrange(0, i + 1) =~= encoded(self.0@));
    }

    /// Decodes the value `raw` of type `ty` as a generic value: the JSON
    /// document that follows the version byte.
    pub fn from_sql(ty: &TypeDescriptor, raw: &[u8]) -> (r: Result<AgType<Vec<u8>>, DecodeError>)
        ensures
            r matches Ok(a) ==> generic_value(ty, raw@) == Ok::<Seq<u8>, Fault>(a.0@),
            r matches Err(e) ==> generic_value(ty, raw@) == Err::<Seq<u8>, Fault>(e.fault()),
    {
        match open_envelope(ty, raw) {
            Ok(c) => Ok(AgType(vstd::slice::slice_to_vec(c))),
            Err(e) => Err(e),
        }
    }
}

} // verus!
