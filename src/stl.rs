use vstd::prelude::*;

verus! {

/// The length of a binary STL file's header.
pub const HEADER_LEN: usize = 80;

/// The length of one 32-bit float, or of the facet count.
pub const PRECISION_LEN: usize = 4;

/// The length of the attribute field at the end of each facet.
pub const ATTR_LEN: usize = 2;

/// The length of one facet record: a normal, three corners and the attribute field.
pub const FACET_LEN: usize = 50;

/// The mesh is in the ASCII STL format, which is not supported; use binary STL.
#[derive(Clone, Copy, Debug, PartialEq, Eq, Structural)]
pub struct UnsupportedError;

/// Three little-endian 32-bit floats, kept as their bit patterns.
#[derive(Clone, Copy, Debug, PartialEq, Eq, Structural)]
pub struct RawPoint {
    /// The bits of the x coordinate.
    pub x: u32,
    /// The bits of the y coordinate.
    pub y: u32,
    /// The bits of the z coordinate.
    pub z: u32,
}

/// One facet of a binary STL mesh: its normal and its three corners.
#[derive(Clone, Copy, Debug, PartialEq, Eq, Structural)]
pub struct RawFacet {
    /// The stored normal.
    pub normal: RawPoint,
    /// The first corner.
    pub p1: RawPoint,
    /// The second corner.
    pub p2: RawPoint,
    /// The third corner.
    pub p3: RawPoint,
}

/// The little-endian `u32` held by the four bytes of `b` that start at `at`.
pub open spec fn u32_le(b: Seq<u8>, at: int) -> int {
    b[at] + 256 * b[at + 1] + 65536 * b[at + 2] + 16777216 * b[at + 3]
}

/// Whether the bytes start with the word `solid`, which marks an ASCII STL file.
pub open spec fn is_ascii_stl(b: Seq<u8>) -> bool {
    b.len() >= 5 && b.subrange(0, 5) == seq![115u8, 111u8, 108u8, 105u8, 100u8]
}

/// The number of facets that a binary STL file declares after its header.
pub open spec fn facet_count(b: Seq<u8>) -> int {
    u32_le(b, HEADER_LEN as int)
}

/// The bytes can be read: an ASCII file is long enough to be recognised, and a binary
/// file holds its header, its count and every facet that the count declares.
pub open spec fn stl_well_sized(b: Seq<u8>) -> bool {
    &&& b.len() >= 5
    &&& !is_ascii_stl(b) ==> b.len() >= HEADER_LEN + PRECISION_LEN && b.len() >= HEADER_LEN
        + PRECISION_LEN + FACET_LEN * facet_count(b)
}

/// The three floats that start at `at`.
pub open spec fn point_at(b: Seq<u8>, at: int) -> RawPoint {
    RawPoint {
        x: u32_le(b, at) as u32,
        y: u32_le(b, at + 4) as u32,
        z: u32_le(b, at + 8) as u32,
    }
}

/// Facet `i` of a binary STL file.
pub open spec fn facet_at(b: Seq<u8>, i: int) -> RawFacet {
    let at = HEADER_LEN + PRECISION_LEN + FACET_LEN * i;
    RawFacet {
        normal: point_at(b, at),
        p1: point_at(b, at + 12),
        p2: point_at(b, at + 24),
        p3: point_at(b, at + 36),
    }
}

/// Reads the little-endian `u32` at `at`.
fn read_u32_le(b: &Vec<u8>, at: usize) -> (r: u32)
    requires
        at + 4 <= b@.len(),
    ensures
        r == u32_le(b@, at as int),
{
    // The length of a `Vec` bounds `at + 3` within `usize`.
    let _ = b.len();
    b[at] as u32 + 256 * (b[at + 1] as u32) + 65536 * (b[at + 2] as u32) + 16777216 * (
    b[at + 3] as u32)
}

/// Reads the three floats at `at`, as bits.
fn read_point(b: &Vec<u8>, at: usize) -> (r: RawPoint)
    requires
        at + 12 <= b@.len(),
    ensures
        r == point_at(b@, at as int),
{
    // The length of a `Vec` bounds `at + 8` within `usize`.
    let _ = b.len();
    RawPoint {
        x: read_u32_le(b, at),
        y: read_u32_le(b, at + 4),
        z: read_u32_le(b, at + 8),
    }
}

/// Whether the bytes can be handed to `parse_stl`.
pub fn is_well_sized(bytes: &Vec<u8>) -> (r: bool)
    ensures
        r == stl_well_sized(bytes@),
{
    if bytes.len() < 5 {
        return false;
    }
    if starts_with_solid(bytes) {
        return true;
    }
    if bytes.len() < HEADER_LEN + PRECISION_LEN {
        return false;
    }
    let count = read_u32_le(bytes, HEADER_LEN) as usize;
    count <= (bytes.len() - HEADER_LEN - PRECISION_LEN) / FACET_LEN
}

/// Whether the bytes start with the word `solid`.
fn starts_with_solid(bytes: &Vec<u8>) -> (r: bool)
    requires
        bytes@.len() >= 5,
    ensures
        r == is_ascii_stl(bytes@),
{
    let r = bytes[0] == 115 && bytes[1] == 111 && bytes[2] == 108 && bytes[3] == 105 && bytes[4]
        == 100;
    if r {
        assert(bytes@.subrange(0, 5) =~= seq![115u8, 111u8, 108u8, 105u8, 100u8]);
    } else {
        let ghost s = bytes@.subrange(0, 5);
        let ghost solid = seq![115u8, 111u8, 108u8, 105u8, 100u8];
        assert(s[0] != solid[0] || s[1] != solid[1] || s[2] != solid[2] || s[3] != solid[3]
            || s[4] != solid[4]);
    }
    r
}

/// Reads the facets of a binary STL mesh.
///
/// Fails on an ASCII STL file, which starts with the word `solid`.
pub fn parse_stl(bytes: &Vec<u8>) -> (r: Result<Vec<RawFacet>, UnsupportedError>)
    requires
        stl_well_sized(bytes@),
    ensures
        r is Err <==> is_ascii_stl(bytes@),
        r is Ok ==> r->Ok_0@.len() == facet_count(bytes@),
        r is Ok ==> forall|i: int|
            0 <= i < facet_count(bytes@) ==> #[trigger] r->Ok_0@[i] == facet_at(bytes@, i),
{
    if starts_with_solid(bytes) {
        return Err(UnsupportedError);
    }
    // The length of a `Vec` bounds every offset below within `usize`.
    let _ = bytes.len();
    let length = read_u32_le(bytes, HEADER_LEN);
    let mut head: usize = HEADER_LEN + PRECISION_LEN;
    let mut out: Vec<RawFacet> = Vec::new();
    let mut i: u32 = 0;
    while i < length
        invariant
            stl_well_sized(bytes@),
            bytes@.len() <= usize::MAX,
            !is_ascii_stl(bytes@),
            length == facet_count(bytes@),
            i <= length,
            head == HEADER_LEN + PRECISION_LEN + FACET_LEN * i,
            out@.len() == i,
            forall|k: int| 0 <= k < i ==> #[trigger] out@[k] == facet_at(bytes@, k),
        decreases length - i,
    {
        assert(head + FACET_LEN <= bytes@.len()) by (nonlinear_arith)
            requires
                head == HEADER_LEN + PRECISION_LEN + FACET_LEN * i,
                i < length,
                bytes@.len() >= HEADER_LEN + PRECISION_LEN + FACET_LEN * length,
        ;
        let normal = read_point(bytes, head);
        head += PRECISION_LEN * 3;
        let p1 = read_point(bytes, head);
        head += PRECISION_LEN * 3;
        let p2 = read_point(bytes, head);
        head += PRECISION_LEN * 3;
        let p3 = read_point(bytes, head);
        head += PRECISION_LEN * 3;
        out.push(RawFacet { normal, p1, p2, p3 });
        head += ATTR_LEN;
        i += 1;
    }
    Ok(out)
}

} // verus!
