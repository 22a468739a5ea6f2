use vstd::prelude::*;

verus! {

// The markers are ASCII text; their bytes are written out as numbers:
// ':' = 58, 'v' = 118, 'e' = 101, 'r' = 114, 't' = 116, 'x' = 120,
// 'd' = 100, 'g' = 103, 'p' = 112, 'a' = 97, 'h' = 104.

/// Length in bytes of the marker `::vertex` that ends a vertex document.
pub const VERTEX_SUFFIX_LEN: usize = 8;

/// Length in bytes of the marker `::edge` that ends an edge document.
pub const EDGE_SUFFIX_LEN: usize = 6;

/// Length in bytes of the marker `::path` that ends a path value.
pub const PATH_SUFFIX_LEN: usize = 6;

/// The byte `[` that opens the content of a path value.
pub const ARRAY_OPEN: u8 = 91;

/// The byte `{` that opens a vertex or edge document.
pub const OBJECT_OPEN: u8 = 123;

/// The byte `:` with which every marker opens.
pub const COLON: u8 = 58;

/// The bytes of `::vertex`.
pub open spec fn vertex_suffix() -> Seq<u8> {
    seq![58u8, 58, 118, 101, 114, 116, 101, 120]
}

/// The bytes of `::edge`.
pub open spec fn edge_suffix() -> Seq<u8> {
    seq![58u8, 58, 101, 100, 103, 101]
}

/// The bytes of `::path`.
pub open spec fn path_suffix() -> Seq<u8> {
    seq![58u8, 58, 112, 97, 116, 104]
}

/// Whether `m` occurs in `b` starting at offset `i`.
pub open spec fn occurs_at(b: Seq<u8>, i: int, m: Seq<u8>) -> bool {
    0 <= i && i + m.len() <= b.len() && b.subrange(i, i + m.len()) == m
}

/// Whether `b` ends with `m`.
pub open spec fn ends_with(b: Seq<u8>, m: Seq<u8>) -> bool {
    m.len() <= b.len() && occurs_at(b, b.len() - m.len(), m)
}

/// The bytes of `::vertex`, to compare against.
pub fn vertex_suffix_bytes() -> (r: Vec<u8>)
    ensures
        r@ == vertex_suffix(),
        r@.len() == VERTEX_SUFFIX_LEN,
{
    let r = vec![58u8, 58, 118, 101, 114, 116, 101, 120];
    assert(r@ == vertex_suffix());
    r
}

/// The bytes of `::edge`, to compare against.
pub fn edge_suffix_bytes() -> (r: Vec<u8>)
    ensures
        r@ == edge_suffix(),
        r@.len() == EDGE_SUFFIX_LEN,
{
    let r = vec![58u8, 58, 101, 100, 103, 101];
    assert(r@ == edge_suffix());
    r
}

/// The bytes of `::path`, to compare against.
pub fn path_suffix_bytes() -> (r: Vec<u8>)
    ensures
        r@ == path_suffix(),
        r@.len() == PATH_SUFFIX_LEN,
{
    let r = vec![58u8, 58, 112, 97, 116, 104];
    assert(r@ == path_suffix());
    r
}

/// Tells whether the marker `m` occurs in `b` at offset `i`, reading no byte
/// outside `b`.
pub fn marker_at(b: &[u8], i: usize, m: &[u8]) -> (r: bool)
    ensures
        r == occurs_at(b@, i as int, m@),
{
    if i > b.len() || m.len() > b.len() - i {
        return false;
    }
    let mut k: usize = 0;
    while k < m.len()
        invariant
            i <= b.len(),
            m.len() <= b.len() - i,
            k <= m@.len(),
            forall|j: int| 0 <= j < k ==> b@[i + j] == m@[j],
        decreases m@.len() - k,
    {
        if b[i + k] != m[k] {
            assert(b@.subrange(i as int, i + m@.len())[k as int] != m@[k as int]);
            return false;
        }
        k = k + 1;
    }
    assert(b@.subrange(i as int, i + m@.len()) =~= m@);
    true
}

/// Tells whether `b` ends with the marker `m`.
pub fn ends_with_marker(b: &[u8], m: &[u8]) -> (r: bool)
    ensures
        r == ends_with(b@, m@),
{
    if m.len() > b.len() {
        false
    } else {
        marker_at(b, b.len() - m.len(), m)
    }
}

} // verus!
