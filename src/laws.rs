use vstd::prelude::*;

use crate::codec::{edge_value, encoded, generic_value, path_value, vertex_value};
use crate::document::{edge_document, vertex_document};
use crate::envelope::{is_agtype, TypeDescriptor, SUPPORTED_VERSION};
use crate::error::Fault;
use crate::markers::{
    edge_suffix, ends_with, occurs_at, path_suffix, vertex_suffix, ARRAY_OPEN, COLON, OBJECT_OPEN,
};
use crate::path::{assemble, empty_path, is_path_frame, lex_step, path_content, LexState, Token};
use crate::types::{EdgeModel, PathModel, VertexModel};

verus! {

/// A vertex document, encoded and followed by the `::vertex` marker, decodes
/// to the vertex that the document itself describes.
pub proof fn lemma_vertex_round_trip(ty: &TypeDescriptor, doc: Seq<u8>)
    requires
        is_agtype(ty.schema@, ty.name@),
    ensures
        vertex_value(ty, encoded(doc) + vertex_suffix()) == vertex_document(doc),
{
    let raw = encoded(doc) + vertex_suffix();
    let c = raw.drop_first();
    assert(c =~= doc + vertex_suffix());
    assert(c.subrange(0, c.len() - 8) =~= doc);
}

/// A buffer whose first byte is not the supported version fails to decode, as
/// a vertex, an edge, a path or a generic value, with `UnsupportedVersion`,
/// whatever follows that byte.
pub proof fn lemma_unsupported_version(ty: &TypeDescriptor, raw: Seq<u8>)
    requires
        is_agtype(ty.schema@, ty.name@),
        raw.len() > 0,
        raw[0] != SUPPORTED_VERSION,
    ensures
        vertex_value(ty, raw) == Err::<VertexModel<Seq<char>>, Fault>(Fault::UnsupportedVersion),
        edge_value(ty, raw) == Err::<EdgeModel<Seq<char>>, Fault>(Fault::UnsupportedVersion),
        path_value(ty, raw) == Err::<PathModel<Seq<char>, Seq<char>>, Fault>(
            Fault::UnsupportedVersion,
        ),
        generic_value(ty, raw) == Err::<Seq<u8>, Fault>(Fault::UnsupportedVersion),
{
}

/// A path buffer whose content does not open with `[`, or does not end with
/// `::path`, fails to decode with `InvalidPath`.
pub proof fn lemma_invalid_path_frame(ty: &TypeDescriptor, raw: Seq<u8>)
    requires
        is_agtype(ty.schema@, ty.name@),
        raw.len() > 0,
        raw[0] == SUPPORTED_VERSION,
        !(raw.len() > 1 && raw[1] == ARRAY_OPEN) || !ends_with(raw.drop_first(), path_suffix()),
    ensures
        path_value(ty, raw) == Err::<PathModel<Seq<char>, Seq<char>>, Fault>(Fault::InvalidPath),
{
    assert(!is_path_frame(raw.drop_first()));
}

/// Encoding a generic document and decoding the result gives the document
/// back.
pub proof fn lemma_generic_round_trip(ty: &TypeDescriptor, doc: Seq<u8>)
    requires
        is_agtype(ty.schema@, ty.name@),
    ensures
        generic_value(ty, encoded(doc)) == Ok::<Seq<u8>, Fault>(doc),
{
    assert(encoded(doc).drop_first() =~= doc);
}

/// The kind of a document in a path.
pub enum DocKind {
    Vertex,
    Edge,
}

/// One document of a path as it stands in the buffer: the bytes before it
/// (a separator such as `, `), the document, and the marker of its kind.
pub struct Piece {
    pub gap: Seq<u8>,
    pub kind: DocKind,
    pub doc: Seq<u8>,
}

/// The marker that ends a document of kind `k`.
pub open spec fn marker_of(k: DocKind) -> Seq<u8> {
    match k {
        DocKind::Vertex => vertex_suffix(),
        DocKind::Edge => edge_suffix(),
    }
}

/// The bytes of one piece.
pub open spec fn piece_bytes(pc: Piece) -> Seq<u8> {
    pc.gap + pc.doc + marker_of(pc.kind)
}

/// The bytes of the pieces `ps`, one after the other.
pub open spec fn frame(ps: Seq<Piece>) -> Seq<u8>
    decreases ps.len(),
{
    if ps.len() == 0 {
        Seq::empty()
    } else {
        frame(ps.drop_last()) + piece_bytes(ps.last())
    }
}

/// Whether `m` occurs anywhere in `b`.
pub open spec fn contains(b: Seq<u8>, m: Seq<u8>) -> bool {
    exists|j: int| occurs_at(b, j, m)
}

/// Whether the bytes `b` hold neither `{` nor `:`.
pub open spec fn is_plain_gap(b: Seq<u8>) -> bool {
    forall|j: int| 0 <= j < b.len() ==> b[j] != OBJECT_OPEN && b[j] != COLON
}

/// Whether a piece stands as the lexer expects it: a gap that holds neither
/// `{` nor `:`, then a document that opens with `{`, holds no marker, and
/// decodes as its kind.
pub open spec fn well_formed_piece(pc: Piece) -> bool {
    &&& is_plain_gap(pc.gap)
    &&& pc.doc.len() > 0
    &&& pc.doc[0] == OBJECT_OPEN
    &&& !contains(pc.doc, vertex_suffix())
    &&& !contains(pc.doc, edge_suffix())
    &&& match pc.kind {
        DocKind::Vertex => vertex_document(pc.doc) is Ok,
        DocKind::Edge => edge_document(pc.doc) is Ok,
    }
}

/// The path `p` with the document of `pc` added at the end of its kind.
pub open spec fn push_piece(p: PathModel<Seq<char>, Seq<char>>, pc: Piece) -> PathModel<
    Seq<char>,
    Seq<char>,
> {
    match pc.kind {
        DocKind::Vertex => PathModel {
            vertices: p.vertices.push(vertex_document(pc.doc)->Ok_0),
            edges: p.edges,
        },
        DocKind::Edge => PathModel {
            vertices: p.vertices,
            edges: p.edges.push(edge_document(pc.doc)->Ok_0),
        },
    }
}

/// The path whose documents are those of `ps`, in order.
pub open spec fn decoded(ps: Seq<Piece>) -> PathModel<Seq<char>, Seq<char>>
    decreases ps.len(),
{
    if ps.len() == 0 {
        empty_path()
    } else {
        push_piece(decoded(ps.drop_last()), ps.last())
    }
}

proof fn lemma_occurs_byte(c: Seq<u8>, j: int, m: Seq<u8>, t: int)
    requires
        occurs_at(c, j, m),
        0 <= t < m.len(),
    ensures
        c[j + t] == m[t],
{
    assert(c.subrange(j, j + m.len())[t] == c[j + t]);
}

proof fn lemma_marker_bytes()
    ensures
        vertex_suffix().len() == 8,
        edge_suffix().len() == 6,
        vertex_suffix()[0] == COLON,
        vertex_suffix()[1] == COLON,
        edge_suffix()[0] == COLON,
        edge_suffix()[1] == COLON,
        vertex_suffix()[2] == 118,
        edge_suffix()[2] == 101,
        forall|t: int| 0 <= t < 8 ==> vertex_suffix()[t] != OBJECT_OPEN,
        forall|t: int| 0 <= t < 6 ==> edge_suffix()[t] != OBJECT_OPEN,
        forall|t: int| 2 <= t < 8 ==> vertex_suffix()[t] != COLON,
        forall|t: int| 2 <= t < 6 ==> edge_suffix()[t] != COLON,
{
    assert(vertex_suffix()[0] == 58);
    assert(vertex_suffix()[7] == 120);
    assert(edge_suffix()[5] == 101);
}

proof fn lemma_bytes_of(c: Seq<u8>, off: int, b: Seq<u8>)
    requires
        0 <= off,
        off + b.len() <= c.len(),
        c.subrange(off, off + b.len()) == b,
    ensures
        forall|x: int| 0 <= x < b.len() ==> #[trigger] c[off + x] == b[x],
{
    assert forall|x: int| 0 <= x < b.len() implies #[trigger] c[off + x] == b[x] by {
        assert(c.subrange(off, off + b.len())[x] == c[off + x]);
    }
}

/// Neither marker occurs at offset `j` of `c`.
pub open spec fn no_marker_at(c: Seq<u8>, j: int) -> bool {
    !occurs_at(c, j, vertex_suffix()) && !occurs_at(c, j, edge_suffix())
}

proof fn lemma_no_marker_at_plain(c: Seq<u8>, j: int)
    requires
        0 <= j < c.len(),
        c[j] != COLON,
    ensures
        no_marker_at(c, j),
{
    lemma_marker_bytes();
    if occurs_at(c, j, vertex_suffix()) {
        lemma_occurs_byte(c, j, vertex_suffix(), 0);
    }
    if occurs_at(c, j, edge_suffix()) {
        lemma_occurs_byte(c, j, edge_suffix(), 0);
    }
}

proof fn lemma_no_marker_before_plain(c: Seq<u8>, j: int)
    requires
        0 <= j,
        j + 1 < c.len(),
        c[j + 1] != COLON,
    ensures
        no_marker_at(c, j),
{
    lemma_marker_bytes();
    if occurs_at(c, j, vertex_suffix()) {
        lemma_occurs_byte(c, j, vertex_suffix(), 1);
    }
    if occurs_at(c, j, edge_suffix()) {
        lemma_occurs_byte(c, j, edge_suffix(), 1);
    }
}

/// No marker starts inside a document that holds none and that a marker
/// follows: one that began inside the document would have to run on into the
/// two colons that open the next marker.
proof fn lemma_no_marker_in_doc(c: Seq<u8>, d0: int, doc: Seq<u8>, k: DocKind, j: int)
    requires
        0 <= d0,
        d0 + doc.len() + marker_of(k).len() <= c.len(),
        c.subrange(d0, d0 + doc.len() + marker_of(k).len()) == doc + marker_of(k),
        !contains(doc, vertex_suffix()),
        !contains(doc, edge_suffix()),
        d0 <= j < d0 + doc.len(),
    ensures
        no_marker_at(c, j),
{
    lemma_marker_bytes();
    let m = marker_of(k);
    let d_end = d0 + doc.len();
    lemma_bytes_of(c, d0, doc + m);
    assert(c[d0 + doc.len()] == (doc + m)[doc.len() as int]);
    assert(c[d0 + doc.len() + 1] == (doc + m)[doc.len() + 1int]);
    assert(c[d_end] == COLON);
    assert(c[d_end + 1] == COLON);
    let ms = seq![vertex_suffix(), edge_suffix()];
    assert forall|q: int| 0 <= q < 2 implies !occurs_at(c, j, #[trigger] ms[q]) by {
        let mm = ms[q];
        if occurs_at(c, j, mm) {
            if j + mm.len() <= d_end {
                assert forall|x: int| 0 <= x < mm.len() implies doc.subrange(
                    j - d0,
                    j - d0 + mm.len(),
                )[x] == mm[x] by {
                    assert(c[d0 + (j - d0 + x)] == (doc + m)[j - d0 + x]);
                    lemma_occurs_byte(c, j, mm, x);
                }
                assert(doc.subrange(j - d0, j - d0 + mm.len()) =~= mm);
                assert(occurs_at(doc, j - d0, mm));
            } else {
                let t = d_end - j;
                lemma_occurs_byte(c, j, mm, t);
                assert(t <= 1);
                lemma_occurs_byte(c, j, mm, 2);
            }
        }
    }
    assert(ms[0] == vertex_suffix());
    assert(ms[1] == edge_suffix());
}

/// Bytes on which the lexer neither moves nor emits leave what was assembled
/// as it was.
proof fn lemma_quiet_run(
    c: Seq<u8>,
    a: nat,
    b: nat,
    st: LexState,
    p: PathModel<Seq<char>, Seq<char>>,
)
    requires
        a <= b,
        assemble(c, a) == Ok::<(LexState, PathModel<Seq<char>, Seq<char>>), Fault>((st, p)),
        forall|j: int| a <= j < b ==> #[trigger] lex_step(c, st, j) == Some((st, None::<Token>)),
    ensures
        assemble(c, b) == Ok::<(LexState, PathModel<Seq<char>, Seq<char>>), Fault>((st, p)),
    decreases b - a,
{
    if a < b {
        lemma_quiet_run(c, a, (b - 1) as nat, st, p);
        assert(lex_step(c, st, b - 1) == Some((st, None::<Token>)));
    }
}

/// Reading one well-formed piece, from between documents, adds its document
/// to the path and ends between documents again.
proof fn lemma_piece(c: Seq<u8>, off: int, pc: Piece, p: PathModel<Seq<char>, Seq<char>>)
    requires
        0 <= off,
        off + piece_bytes(pc).len() <= c.len(),
        c.len() <= usize::MAX,
        c.subrange(off, off + piece_bytes(pc).len()) == piece_bytes(pc),
        well_formed_piece(pc),
        assemble(c, off as nat) == Ok::<(LexState, PathModel<Seq<char>, Seq<char>>), Fault>(
            (LexState::Idle, p),
        ),
    ensures
        assemble(c, (off + piece_bytes(pc).len()) as nat) == Ok::<
            (LexState, PathModel<Seq<char>, Seq<char>>),
            Fault,
        >((LexState::Idle, push_piece(p, pc))),
{
    lemma_marker_bytes();
    let pb = piece_bytes(pc);
    let m = marker_of(pc.kind);
    let g = pc.gap.len() as int;
    let d0 = off + g;
    let d_end = d0 + pc.doc.len();
    let end = d_end + m.len();
    lemma_bytes_of(c, off, pb);
    assert forall|x: int| 0 <= x < g implies #[trigger] c[off + x] == pc.gap[x] by {
        assert(pb[x] == pc.gap[x]);
    }
    assert forall|x: int| 0 <= x < pc.doc.len() implies #[trigger] c[d0 + x] == pc.doc[x] by {
        assert(c[off + (g + x)] == pb[g + x]);
        assert(pb[g + x] == pc.doc[x]);
    }
    assert forall|x: int| 0 <= x < m.len() implies #[trigger] c[d_end + x] == m[x] by {
        assert(c[off + (g + pc.doc.len() + x)] == pb[g + pc.doc.len() + x]);
        assert(pb[g + pc.doc.len() + x] == m[x]);
    }

    // The gap.
    assert forall|j: int| off <= j < d0 implies #[trigger] lex_step(c, LexState::Idle, j) == Some(
        (LexState::Idle, None::<Token>),
    ) by {
        assert(c[off + (j - off)] == pc.gap[j - off]);
        lemma_no_marker_at_plain(c, j);
    }
    lemma_quiet_run(c, off as nat, d0 as nat, LexState::Idle, p);

    // The `{` that opens the document.
    assert(c[d0 + 0] == pc.doc[0]);
    let open = LexState::InDocument(d0 as usize);
    assert(lex_step(c, LexState::Idle, d0) == Some((open, None::<Token>)));
    assert(assemble(c, (d0 + 1) as nat) == Ok::<(LexState, PathModel<Seq<char>, Seq<char>>), Fault>(
        (open, p),
    ));

    // The rest of the document.
    assert(c.subrange(d0, d0 + pc.doc.len() + m.len()) =~= pc.doc + m) by {
        assert forall|x: int| 0 <= x < pc.doc.len() + m.len() implies c.subrange(
            d0,
            d0 + pc.doc.len() + m.len(),
        )[x] == (pc.doc + m)[x] by {
            if x < pc.doc.len() {
                assert(c[d0 + x] == pc.doc[x]);
            } else {
                assert(c[d_end + (x - pc.doc.len())] == m[x - pc.doc.len()]);
            }
        }
    }
    assert forall|j: int| d0 + 1 <= j < d_end implies #[trigger] lex_step(c, open, j) == Some(
        (open, None::<Token>),
    ) by {
        lemma_no_marker_in_doc(c, d0, pc.doc, pc.kind, j);
    }
    lemma_quiet_run(c, (d0 + 1) as nat, d_end as nat, open, p);

    // The marker.
    assert(c[d_end + 0] == m[0]);
    assert(c.subrange(d_end, d_end + m.len()) =~= m) by {
        assert forall|x: int| 0 <= x < m.len() implies c.subrange(d_end, d_end + m.len())[x]
            == m[x] by {
            assert(c[d_end + x] == m[x]);
        }
    }
    assert(c.subrange(d0, d_end) =~= pc.doc) by {
        assert forall|x: int| 0 <= x < pc.doc.len() implies c.subrange(d0, d_end)[x]
            == pc.doc[x] by {
            assert(c[d0 + x] == pc.doc[x]);
        }
    }
    match pc.kind {
        DocKind::Vertex => {
            assert(occurs_at(c, d_end, vertex_suffix()));
            assert(lex_step(c, open, d_end) == Some(
                (LexState::Idle, Some(Token::Vertex(d0 as usize, d_end as usize))),
            ));
        },
        DocKind::Edge => {
            assert(c[d_end + 2] == m[2]);
            if occurs_at(c, d_end, vertex_suffix()) {
                lemma_occurs_byte(c, d_end, vertex_suffix(), 2);
            }
            assert(occurs_at(c, d_end, edge_suffix()));
            assert(lex_step(c, open, d_end) == Some(
                (LexState::Idle, Some(Token::Edge(d0 as usize, d_end as usize))),
            ));
        },
    }
    let q = push_piece(p, pc);
    assert(assemble(c, (d_end + 1) as nat) == Ok::<(LexState, PathModel<Seq<char>, Seq<char>>), Fault>(
        (LexState::Idle, q),
    ));

    // The rest of the marker.
    assert forall|j: int| d_end + 1 <= j < end implies #[trigger] lex_step(c, LexState::Idle, j)
        == Some((LexState::Idle, None::<Token>)) by {
        assert(c[d_end + (j - d_end)] == m[j - d_end]);
        if j == d_end + 1 {
            assert(c[d_end + 2] == m[2]);
            lemma_no_marker_before_plain(c, j);
        } else {
            lemma_no_marker_at_plain(c, j);
        }
    }
    lemma_quiet_run(c, (d_end + 1) as nat, end as nat, LexState::Idle, q);
}

proof fn lemma_frame_prefix(ps: Seq<Piece>, k: int)
    requires
        0 <= k <= ps.len(),
    ensures
        frame(ps.take(k)).len() <= frame(ps).len(),
        frame(ps).subrange(0, frame(ps.take(k)).len() as int) == frame(ps.take(k)),
    decreases ps.len(),
{
    if k == ps.len() {
        assert(ps.take(k) =~= ps);
        assert(frame(ps).subrange(0, frame(ps).len() as int) =~= frame(ps));
    } else {
        let init = ps.drop_last();
        assert(ps.take(k) =~= init.take(k));
        lemma_frame_prefix(init, k);
        assert(frame(ps) == frame(init) + piece_bytes(ps.last()));
        assert(frame(ps).subrange(0, frame(ps.take(k)).len() as int) =~= frame(init).subrange(
            0,
            frame(ps.take(k)).len() as int,
        ));
    }
}

proof fn lemma_pieces(c: Seq<u8>, ps: Seq<Piece>, k: int)
    requires
        0 <= k <= ps.len(),
        1 + frame(ps).len() <= c.len(),
        c.len() <= usize::MAX,
        c.subrange(0, 1 + frame(ps).len() as int) == seq![ARRAY_OPEN] + frame(ps),
        forall|q: int| 0 <= q < ps.len() ==> well_formed_piece(#[trigger] ps[q]),
    ensures
        assemble(c, (1 + frame(ps.take(k)).len()) as nat) == Ok::<
            (LexState, PathModel<Seq<char>, Seq<char>>),
            Fault,
        >((LexState::Idle, decoded(ps.take(k)))),
    decreases k,
{
    let head = seq![ARRAY_OPEN] + frame(ps);
    lemma_bytes_of(c, 0, head);
    if k == 0 {
        assert(ps.take(0) =~= Seq::<Piece>::empty());
        assert(c[0 + 0int] == head[0]);
        assert(head[0] == ARRAY_OPEN);
        lemma_no_marker_at_plain(c, 0);
        assert(lex_step(c, LexState::Idle, 0) == Some((LexState::Idle, None::<Token>)));
        assert(frame(ps.take(0)).len() == 0);
        assert(decoded(ps.take(0)) == empty_path());
        assert(assemble(c, 0) == Ok::<(LexState, PathModel<Seq<char>, Seq<char>>), Fault>(
            (LexState::Idle, empty_path()),
        ));
        assert(assemble(c, 1) == Ok::<(LexState, PathModel<Seq<char>, Seq<char>>), Fault>(
            (LexState::Idle, empty_path()),
        ));
    } else {
        lemma_pieces(c, ps, k - 1);
        let before = ps.take(k - 1);
        let pc = ps[k - 1];
        assert(ps.take(k).drop_last() =~= before);
        assert(ps.take(k).last() == pc);
        let fb = frame(before);
        let pb = piece_bytes(pc);
        assert(frame(ps.take(k)) == fb + pb);
        lemma_frame_prefix(ps, k);
        let off: int = 1 + fb.len() as int;
        assert(c.subrange(off, off + pb.len()) =~= pb) by {
            assert forall|x: int| 0 <= x < pb.len() implies c.subrange(off, off + pb.len())[x]
                == pb[x] by {
                assert(c[0 + (off + x)] == head[off + x]);
                assert(head[off + x] == frame(ps)[fb.len() + x]);
                assert(frame(ps).subrange(0, frame(ps.take(k)).len() as int)[fb.len() + x] == (fb
                    + pb)[fb.len() + x]);
            }
        }
        lemma_piece(c, off, pc, decoded(before));
    }
}

/// The buffer of a path value whose content is `[`, the pieces `ps`, the
/// bytes `tail` (such as `]`), and `::path`.
pub open spec fn path_buffer(ps: Seq<Piece>, tail: Seq<u8>) -> Seq<u8> {
    encoded(seq![ARRAY_OPEN] + frame(ps) + tail + path_suffix())
}

/// A path buffer made of well-formed pieces decodes to the documents of those
/// pieces: its vertices are the vertex documents and its edges the edge
/// documents, each in the order in which they stand in the buffer.
pub proof fn lemma_path_of_pieces(ty: &TypeDescriptor, ps: Seq<Piece>, tail: Seq<u8>)
    requires
        is_agtype(ty.schema@, ty.name@),
        forall|q: int| 0 <= q < ps.len() ==> well_formed_piece(#[trigger] ps[q]),
        is_plain_gap(tail),
        path_buffer(ps, tail).len() <= usize::MAX,
    ensures
        path_value(ty, path_buffer(ps, tail)) == Ok::<PathModel<Seq<char>, Seq<char>>, Fault>(
            decoded(ps),
        ),
{
    lemma_marker_bytes();
    let raw = path_buffer(ps, tail);
    let c = seq![ARRAY_OPEN] + frame(ps) + tail + path_suffix();
    assert(raw.drop_first() =~= c);
    let head = seq![ARRAY_OPEN] + frame(ps);
    assert(c.subrange(0, 1 + frame(ps).len() as int) =~= head);
    lemma_pieces(c, ps, ps.len() as int);
    assert(ps.take(ps.len() as int) =~= ps);
    let t0 = 1 + frame(ps).len();
    let n = c.len() - 6;
    assert(n == t0 + tail.len());
    assert forall|j: int| t0 <= j < n implies #[trigger] lex_step(c, LexState::Idle, j) == Some(
        (LexState::Idle, None::<Token>),
    ) by {
        assert(c[j] == tail[j - t0]);
        lemma_no_marker_at_plain(c, j);
    }
    lemma_quiet_run(c, t0 as nat, n as nat, LexState::Idle, decoded(ps));
    assert(c.subrange(c.len() - 6, c.len() as int) =~= path_suffix());
    assert(c[0] == ARRAY_OPEN);
    assert(is_path_frame(c));
}

/// A path buffer with two vertex documents followed by one edge document, each
/// well formed, decodes to a path of those two vertices, in their order, and
/// that one edge; where the edge document joins the first vertex document to
/// the second, the decoded edge joins the first decoded vertex to the second.
pub proof fn lemma_two_vertices_one_edge(
    ty: &TypeDescriptor,
    first: Piece,
    second: Piece,
    edge: Piece,
    tail: Seq<u8>,
)
    requires
        is_agtype(ty.schema@, ty.name@),
        first.kind is Vertex,
        second.kind is Vertex,
        edge.kind is Edge,
        well_formed_piece(first),
        well_formed_piece(second),
        well_formed_piece(edge),
        is_plain_gap(tail),
        path_buffer(seq![first, second, edge], tail).len() <= usize::MAX,
    ensures
        ({
            let r = path_value(ty, path_buffer(seq![first, second, edge], tail));
            &&& r is Ok
            &&& r->Ok_0.vertices == seq![
                vertex_document(first.doc)->Ok_0,
                vertex_document(second.doc)->Ok_0,
            ]
            &&& r->Ok_0.edges == seq![edge_document(edge.doc)->Ok_0]
            &&& edge_document(edge.doc)->Ok_0.start_id == vertex_document(first.doc)->Ok_0.id
                ==> r->Ok_0.edges[0].start_id == r->Ok_0.vertices[0].id
            &&& edge_document(edge.doc)->Ok_0.end_id == vertex_document(second.doc)->Ok_0.id
                ==> r->Ok_0.edges[0].end_id == r->Ok_0.vertices[1].id
        }),
{
    let ps = seq![first, second, edge];
    assert forall|q: int| 0 <= q < ps.len() implies well_formed_piece(#[trigger] ps[q]) by {
        if q == 0 {
            assert(ps[q] == first);
        } else if q == 1 {
            assert(ps[q] == second);
        } else {
            assert(ps[q] == edge);
        }
    }
    lemma_path_of_pieces(ty, ps, tail);
    let v1 = vertex_document(first.doc)->Ok_0;
    let v2 = vertex_document(second.doc)->Ok_0;
    let e = edge_document(edge.doc)->Ok_0;
    let only_first = seq![first];
    let first_two = seq![first, second];
    assert(only_first.drop_last() =~= Seq::<Piece>::empty());
    assert(first_two.drop_last() =~= only_first);
    assert(ps.drop_last() =~= first_two);
    assert(decoded(Seq::<Piece>::empty()) == empty_path());
    assert(only_first.last() == first);
    assert(first_two.last() == second);
    assert(ps.last() == edge);
    let d1 = decoded(only_first);
    assert(d1 == push_piece(empty_path(), first));
    assert(d1.vertices =~= seq![v1]);
    assert(d1.edges =~= Seq::<EdgeModel<Seq<char>>>::empty());
    let d2 = decoded(first_two);
    assert(d2 == push_piece(d1, second));
    assert(d2.vertices =~= seq![v1, v2]);
    assert(d2.edges =~= Seq::<EdgeModel<Seq<char>>>::empty());
    let d3 = decoded(ps);
    assert(d3 == push_piece(d2, edge));
    assert(d3.vertices =~= seq![v1, v2]);
    assert(d3.edges =~= seq![e]);
}

} // verus!
