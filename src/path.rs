use vstd::prelude::*;

use crate::document::{decode_edge_document, decode_vertex_document, edge_document, vertex_document};
use crate::error::{DecodeError, Fault};
use crate::markers::{
    edge_suffix, edge_suffix_bytes, ends_with, ends_with_marker, marker_at, occurs_at,
    path_suffix, path_suffix_bytes, vertex_suffix, vertex_suffix_bytes, ARRAY_OPEN, OBJECT_OPEN,
    PATH_SUFFIX_LEN,
};
use crate::types::{edge_models, vertex_models, Edge, Path, PathModel, Vertex};

verus! {

/// Where the lexer of a path stands: between documents, or inside a document
/// that opened at the given offset.
///
/// Only the first `{` after a boundary opens a document: braces nested in a
/// document's properties are neither counted nor balanced, and a document
/// ends only where a `::vertex` or `::edge` marker stands.
#[derive(Clone, Copy, Debug, PartialEq, Eq, Structural)]
pub enum LexState {
    Idle,
    InDocument(usize),
}

/// A document that the lexer has delimited: its kind and its byte range
/// `[start, end)`, the marker excluded.
#[derive(Clone, Copy, Debug, PartialEq, Eq, Structural)]
pub enum Token {
    Vertex(usize, usize),
    Edge(usize, usize),
}

/// One step of the lexer on the byte at offset `i` of `c`: the next state and
/// the document that ends there, if any; `None` where a marker stands while no
/// document is open.
pub open spec fn lex_step(c: Seq<u8>, st: LexState, i: int) -> Option<(LexState, Option<Token>)> {
    if c[i] == OBJECT_OPEN && st == LexState::Idle {
        Some((LexState::InDocument(i as usize), None))
    } else if occurs_at(c, i, vertex_suffix()) {
        match st {
            LexState::Idle => None,
            LexState::InDocument(s) => Some((LexState::Idle, Some(Token::Vertex(s, i as usize)))),
        }
    } else if occurs_at(c, i, edge_suffix()) {
        match st {
            LexState::Idle => None,
            LexState::InDocument(s) => Some((LexState::Idle, Some(Token::Edge(s, i as usize)))),
        }
    } else {
        Some((st, None))
    }
}

/// The empty path.
pub open spec fn empty_path() -> PathModel<Seq<char>, Seq<char>> {
    PathModel { vertices: Seq::empty(), edges: Seq::empty() }
}

/// The state of the lexer and the path assembled so far, once the bytes
/// `[0, n)` of `c` are read; each document is decoded where its marker is met,
/// and the first failure ends the whole.
pub open spec fn assemble(c: Seq<u8>, n: nat) -> Result<
    (LexState, PathModel<Seq<char>, Seq<char>>),
    Fault,
>
    decreases n,
{
    if n == 0 {
        Ok((LexState::Idle, empty_path()))
    } else {
        match assemble(c, (n - 1) as nat) {
            Err(f) => Err(f),
            Ok((st, p)) => match lex_step(c, st, n - 1) {
                None => Err(Fault::InvalidPath),
                Some((next, None)) => Ok((next, p)),
                Some((next, Some(Token::Vertex(s, e)))) => match vertex_document(
                    c.subrange(s as int, e as int),
                ) {
                    Err(f) => Err(f),
                    Ok(v) => Ok((next, PathModel { vertices: p.vertices.push(v), edges: p.edges })),
                },
                Some((next, Some(Token::Edge(s, e)))) => match edge_document(
                    c.subrange(s as int, e as int),
                ) {
                    Err(f) => Err(f),
                    Ok(ed) => Ok((next, PathModel { vertices: p.vertices, edges: p.edges.push(ed) })),
                },
            },
        }
    }
}

/// Once assembling has failed, reading more bytes keeps the same failure.
proof fn lemma_failure_persists(c: Seq<u8>, i: nat, n: nat)
    requires
        i <= n,
        assemble(c, i) is Err,
    ensures
        assemble(c, n) == assemble(c, i),
    decreases n - i,
{
    if i < n {
        lemma_failure_persists(c, i, (n - 1) as nat);
    }
}

/// Whether `c` has the frame of a path: it opens with `[` and ends with
/// `::path`.
pub open spec fn is_path_frame(c: Seq<u8>) -> bool {
    c.len() > 0 && c[0] == ARRAY_OPEN && ends_with(c, path_suffix())
}

/// The path that the content `c` of a path value holds: the documents found
/// by the lexer in the bytes before `::path`, decoded in the order met.
pub open spec fn path_content(c: Seq<u8>) -> Result<PathModel<Seq<char>, Seq<char>>, Fault> {
    if !is_path_frame(c) {
        Err(Fault::InvalidPath)
    } else {
        match assemble(c, (c.len() - PATH_SUFFIX_LEN) as nat) {
            Err(f) => Err(f),
            Ok((_, p)) => Ok(p),
        }
    }
}

/// The lexer that delimits the documents of a path.
pub struct Lexer {
    state: LexState,
    vertex_marker: Vec<u8>,
    edge_marker: Vec<u8>,
}

impl View for Lexer {
    type V = LexState;

    closed spec fn view(&self) -> LexState {
        self.state
    }
}

impl Lexer {
    /// Whether the lexer holds the right markers.
    pub closed spec fn wf(&self) -> bool {
        self.vertex_marker@ == vertex_suffix() && self.edge_marker@ == edge_suffix()
    }

    /// A lexer between documents.
    pub fn new() -> (r: Lexer)
        ensures
            r.wf(),
            r@ == LexState::Idle,
    {
        Lexer {
            state: LexState::Idle,
            vertex_marker: vertex_suffix_bytes(),
            edge_marker: edge_suffix_bytes(),
        }
    }

    /// Where the lexer stands.
    pub fn state(&self) -> (r: LexState)
        ensures
            r == self@,
    {
        self.state
    }

    /// Reads the byte at offset `i` of `c`, and gives the document that ends
    /// there, if any. Fails with `InvalidPath` where a marker stands while no
    /// document is open.
    pub fn step(&mut self, c: &[u8], i: usize) -> (r: Result<Option<Token>, DecodeError>)
        requires
            old(self).wf(),
            i < c@.len(),
        ensures
            final(self).wf(),
            lex_step(c@, old(self)@, i as int) is None ==> r matches Err(
                DecodeError::InvalidPath,
            ),
            lex_step(c@, old(self)@, i as int) matches Some((next, t)) ==> r == Ok::<
                Option<Token>,
                DecodeError,
            >(t) && final(self)@ == next,
    {
        if c[i] == OBJECT_OPEN && self.state == LexState::Idle {
            self.state = LexState::InDocument(i);
            Ok(None)
        } else if marker_at(c, i, self.vertex_marker.as_slice()) {
            match self.state {
                LexState::Idle => Err(DecodeError::InvalidPath),
                LexState::InDocument(s) => {
                    self.state = LexState::Idle;
                    Ok(Some(Token::Vertex(s, i)))
                },
            }
        } else if marker_at(c, i, self.edge_marker.as_slice()) {
            match self.state {
                LexState::Idle => Err(DecodeError::InvalidPath),
                LexState::InDocument(s) => {
                    self.state = LexState::Idle;
                    Ok(Some(Token::Edge(s, i)))
                },
            }
        } else {
            Ok(None)
        }
    }
}

/// Decodes the content of a path value (the bytes after the version byte):
/// its vertices and edges in the order in which their documents stand, each
/// document's properties kept as JSON text.
pub fn decode_path_content(c: &[u8]) -> (r: Result<Path<String, String>, DecodeError>)
    ensures
        r matches Ok(p) ==> path_content(c@) == Ok::<PathModel<Seq<char>, Seq<char>>, Fault>(p@),
        r matches Err(e) ==> path_content(c@) == Err::<PathModel<Seq<char>, Seq<char>>, Fault>(
            e.fault(),
        ),
{
    let path_marker = path_suffix_bytes();
    if c.len() == 0 || c[0] != ARRAY_OPEN || !ends_with_marker(c, path_marker.as_slice()) {
        return Err(DecodeError::InvalidPath);
    }
    let n = c.len() - PATH_SUFFIX_LEN;
    let mut lexer = Lexer::new();
    let mut vertices: Vec<Vertex<String>> = Vec::new();
    let mut edges: Vec<Edge<String>> = Vec::new();
    let mut i: usize = 0;
    assert(vertex_models(vertices@) =~= Seq::empty());
    assert(edge_models(edges@) =~= Seq::empty());
    while i < n
        invariant
            is_path_frame(c@),
            n == c@.len() - PATH_SUFFIX_LEN,
            i <= n,
            lexer.wf(),
            lexer@ matches LexState::InDocument(s) ==> s < i,
            assemble(c@, i as nat) == Ok::<(LexState, PathModel<Seq<char>, Seq<char>>), Fault>(
                (
                    lexer@,
                    PathModel { vertices: vertex_models(vertices@), edges: edge_models(edges@) },
                ),
            ),
        decreases n - i,
    {
        match lexer.step(c, i) {
            Err(e) => {
                proof {
                    lemma_failure_persists(c@, (i + 1) as nat, n as nat);
                }
                return Err(e);
            },
            Ok(None) => {},
            Ok(Some(Token::Vertex(start, end))) => {
                let doc = vstd::slice::slice_subrange(c, start, end);
                match decode_vertex_document(doc) {
                    Ok(v) => {
                        let ghost old_vertices = vertices@;
                        vertices.push(v);
                        assert(vertex_models(vertices@) =~= vertex_models(old_vertices).push(v@));
                    },
                    Err(err) => {
                        proof {
                            lemma_failure_persists(c@, (i + 1) as nat, n as nat);
                        }
                        return Err(err);
                    },
                }
            },
            Ok(Some(Token::Edge(start, end))) => {
                let doc = vstd::slice::slice_subrange(c, start, end);
                match decode_edge_document(doc) {
                    Ok(ed) => {
                        let ghost old_edges = edges@;
                        edges.push(ed);
                        assert(edge_models(edges@) =~= edge_models(old_edges).push(ed@));
                    },
                    Err(err) => {
                        proof {
                            lemma_failure_persists(c@, (i + 1) as nat, n as nat);
                        }
                        return Err(err);
                    },
                }
            },
        }
        i = i + 1;
    }
    Ok(Path::new(vertices, edges))
}

} // verus!
