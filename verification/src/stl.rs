//! The STL record and file codec.
//!
//! Composes the little-endian primitives into structured decode and
//! encode of a point, a 50-byte triangle record, the 84-byte file
//! prologue (80 opaque header bytes plus the triangle count), and the
//! whole file.  The geometry is never interpreted: a point component is
//! the 32-bit IEEE-754 bit pattern of the stored value, moved between
//! stream and memory unchanged.

use vstd::prelude::*;

use crate::bytes::{
    le_bytes_of_u16, le_bytes_of_u32, read_exact_bytes, read_u16_le, read_u32_le, u16_of_le,
    u32_of_le, write_raw_bytes, write_u16_le, write_u32_le,
};
use crate::error::StlError;

verus! {

/// A 3-component point.  Each component holds the IEEE-754 bit pattern
/// of one 32-bit value, exactly as it stands in the file; the codec
/// copies the bits through without interpreting them.  Equality is exact
/// component equality.
#[derive(Clone, Copy, Debug, PartialEq, Eq, Structural)]
pub struct Point3 {
    pub x: u32,
    pub y: u32,
    pub z: u32,
}

/// One facet of the mesh: a normal, three vertices in file order, and
/// the per-triangle 16-bit attribute field the format defines but leaves
/// opaque.  Equality is structural over all five fields.
#[derive(Clone, Copy, Debug, PartialEq, Eq, Structural)]
pub struct Triangle {
    pub normal: Point3,
    pub v1: Point3,
    pub v2: Point3,
    pub v3: Point3,
    pub attr_byte_count: u16,
}

/// The fixed file header: 80 opaque bytes (never interpreted, only
/// copied through) and the declared 32-bit triangle count.
#[derive(Debug)]
pub struct BinaryStlHeader {
    pub header: Vec<u8>,
    pub num_triangles: u32,
}

/// A whole binary STL file in memory: the header and the triangles in
/// file order.
#[derive(Debug)]
pub struct BinaryStlFile {
    pub header: BinaryStlHeader,
    pub triangles: Vec<Triangle>,
}

/// The mathematical model of a file: the header bytes, the declared
/// count, and the triangle sequence in file order.
#[verifier::ext_equal]
pub ghost struct StlModel {
    pub header: Seq<u8>,
    pub num_triangles: u32,
    pub triangles: Seq<Triangle>,
}

impl StlModel {
    /// A model that encode accepts in full: the header buffer has its
    /// fixed 80 bytes and the declared count matches the triangle list.
    pub open spec fn wf(self) -> bool {
        &&& self.header.len() == 80
        &&& self.num_triangles == self.triangles.len()
    }
}

impl View for BinaryStlFile {
    type V = StlModel;

    open spec fn view(&self) -> StlModel {
        StlModel {
            header: self.header.header@,
            num_triangles: self.header.num_triangles,
            triangles: self.triangles@,
        }
    }
}

/// The 12 bytes of a point on disk: three little-endian 32-bit
/// components.
pub open spec fn point_bytes(p: Point3) -> Seq<u8> {
    le_bytes_of_u32(p.x) + le_bytes_of_u32(p.y) + le_bytes_of_u32(p.z)
}

/// The 50 bytes of a triangle record on disk: normal, the three
/// vertices in order, then the 16-bit attribute field.
pub open spec fn triangle_bytes(t: Triangle) -> Seq<u8> {
    point_bytes(t.normal) + point_bytes(t.v1) + point_bytes(t.v2) + point_bytes(t.v3)
        + le_bytes_of_u16(t.attr_byte_count)
}

/// The triangle records of `ts`, back to back in sequence order.
pub open spec fn triangles_bytes(ts: Seq<Triangle>) -> Seq<u8>
    decreases ts.len(),
{
    if ts.len() == 0 {
        Seq::empty()
    } else {
        triangles_bytes(ts.drop_last()) + triangle_bytes(ts.last())
    }
}

/// The whole file on disk: 80 header bytes, the little-endian count,
/// then the records in order.
pub open spec fn spec_encode(m: StlModel) -> Seq<u8> {
    m.header + le_bytes_of_u32(m.num_triangles) + triangles_bytes(m.triangles)
}

/// The point denoted by 12 record bytes.
pub open spec fn point_of_bytes(b: Seq<u8>) -> Point3 {
    Point3 {
        x: u32_of_le(b[0], b[1], b[2], b[3]),
        y: u32_of_le(b[4], b[5], b[6], b[7]),
        z: u32_of_le(b[8], b[9], b[10], b[11]),
    }
}

/// The triangle denoted by one 50-byte record.
pub open spec fn triangle_of_bytes(b: Seq<u8>) -> Triangle {
    Triangle {
        normal: point_of_bytes(b.subrange(0, 12)),
        v1: point_of_bytes(b.subrange(12, 24)),
        v2: point_of_bytes(b.subrange(24, 36)),
        v3: point_of_bytes(b.subrange(36, 48)),
        attr_byte_count: u16_of_le(b[48], b[49]),
    }
}

/// What decoding a byte stream yields.  The first 80 bytes are the
/// header (else `TruncatedHeader`); the next four are the count (else
/// `ShortRead`); then exactly `count` 50-byte records follow (else
/// `TruncatedRecord`).  Bytes past the declared records are never
/// inspected.
pub open spec fn spec_decode(b: Seq<u8>) -> Result<StlModel, StlError> {
    if b.len() < 80 {
        Err(StlError::TruncatedHeader)
    } else if b.len() < 84 {
        Err(StlError::ShortRead)
    } else {
        let n = u32_of_le(b[80], b[81], b[82], b[83]);
        if b.len() < 84 + 50 * n {
            Err(StlError::TruncatedRecord)
        } else {
            Ok(
                StlModel {
                    header: b.subrange(0, 80),
                    num_triangles: n,
                    triangles: Seq::new(
                        n as nat,
                        |i: int| triangle_of_bytes(b.subrange(84 + 50 * i, 134 + 50 * i)),
                    ),
                },
            )
        }
    }
}

/// Exact equality of two points, component by component, with no
/// epsilon tolerance: bit-identical components and nothing weaker.
pub fn point_eq(lhs: &Point3, rhs: &Point3) -> (r: bool)
    ensures
        r == (lhs == rhs),
{
    lhs.x == rhs.x && lhs.y == rhs.y && lhs.z == rhs.z
}

/// Decode the 12-byte point at offset `off`: three little-endian 32-bit
/// components, consumed in order.  Fails with `ShortRead` if fewer than
/// 12 bytes are available there.
pub fn read_point(input: &Vec<u8>, off: usize) -> (r: Result<Point3, StlError>)
    ensures
        off + 12 <= input@.len() ==> r == Ok::<Point3, StlError>(
            point_of_bytes(input@.subrange(off as int, off + 12)),
        ),
        off + 12 > input@.len() ==> r == Err::<Point3, StlError>(StlError::ShortRead),
{
    if input.len() < 12 || off > input.len() - 12 {
        return Err(StlError::ShortRead);
    }
    let x = read_u32_le(input, off)?;
    let y = read_u32_le(input, off + 4)?;
    let z = read_u32_le(input, off + 8)?;
    proof {
        let b = input@.subrange(off as int, off + 12);
        assert(point_of_bytes(b) == Point3 { x, y, z });
    }
    Ok(Point3 { x, y, z })
}

/// Decode the 50-byte triangle record at offset `off`: normal, the
/// three vertices, then the attribute field.  Fails with
/// `TruncatedRecord` if fewer than 50 bytes are available there; no
/// partially read triangle is ever returned.
pub fn read_triangle(input: &Vec<u8>, off: usize) -> (r: Result<Triangle, StlError>)
    ensures
        off + 50 <= input@.len() ==> r == Ok::<Triangle, StlError>(
            triangle_of_bytes(input@.subrange(off as int, off + 50)),
        ),
        off + 50 > input@.len() ==> r == Err::<Triangle, StlError>(StlError::TruncatedRecord),
{
    if input.len() < 50 || off > input.len() - 50 {
        return Err(StlError::TruncatedRecord);
    }
    let normal = match read_point(input, off) {
        Ok(p) => p,
        Err(_) => { return Err(StlError::TruncatedRecord) },
    };
    let v1 = match read_point(input, off + 12) {
        Ok(p) => p,
        Err(_) => { return Err(StlError::TruncatedRecord) },
    };
    let v2 = match read_point(input, off + 24) {
        Ok(p) => p,
        Err(_) => { return Err(StlError::TruncatedRecord) },
    };
    let v3 = match read_point(input, off + 36) {
        Ok(p) => p,
        Err(_) => { return Err(StlError::TruncatedRecord) },
    };
    let attr = match read_u16_le(input, off + 48) {
        Ok(a) => a,
        Err(_) => { return Err(StlError::TruncatedRecord) },
    };
    proof {
        let b = input@.subrange(off as int, off + 50);
        assert(b.subrange(0, 12) =~= input@.subrange(off as int, off + 12));
        assert(b.subrange(12, 24) =~= input@.subrange(off + 12, off + 24));
        assert(b.subrange(24, 36) =~= input@.subrange(off + 24, off + 36));
        assert(b.subrange(36, 48) =~= input@.subrange(off + 36, off + 48));
        assert(b[48] == input@[off + 48]);
        assert(b[49] == input@[off + 49]);
    }
    Ok(Triangle { normal, v1, v2, v3, attr_byte_count: attr })
}

/// Decode a whole binary STL file from `input`.
///
/// Reads the 80 header bytes, the declared count, and then exactly that
/// many 50-byte records, in stream order; trailing bytes are never
/// inspected.  The result is exactly what `spec_decode` says of the
/// input: a file whose model is the decoded one, or the error the
/// layout forces — decode returns wholly or fails wholly.
pub fn read_stl(input: &Vec<u8>) -> (r: Result<BinaryStlFile, StlError>)
    ensures
        match r {
            Ok(file) => spec_decode(input@) == Ok::<StlModel, StlError>(file@),
            Err(e) => spec_decode(input@) == Err::<StlModel, StlError>(e),
        },
{
    if input.len() < 80 {
        return Err(StlError::TruncatedHeader);
    }
    let header_bytes = match read_exact_bytes(input, 0, 80) {
        Ok(b) => b,
        Err(e) => { return Err(e) },
    };
    let num_triangles = match read_u32_le(input, 80) {
        Ok(n) => n,
        Err(e) => { return Err(e) },
    };
    let ghost n_spec = u32_of_le(input@[80], input@[81], input@[82], input@[83]);
    let mut triangles: Vec<Triangle> = Vec::new();
    let mut off: usize = 84;
    let mut k: u32 = 0;
    while k < num_triangles
        invariant
            input@.len() <= usize::MAX,
            84 <= input@.len(),
            n_spec == u32_of_le(input@[80], input@[81], input@[82], input@[83]),
            num_triangles == n_spec,
            k <= num_triangles,
            off == 84 + 50 * k,
            off <= input@.len() || k == 0,
            triangles@.len() == k,
            forall|j: int|
                0 <= j < k ==> triangles@[j] == triangle_of_bytes(
                    #[trigger] input@.subrange(84 + 50 * j, 134 + 50 * j),
                ),
        decreases num_triangles - k,
    {
        let t = match read_triangle(input, off) {
            Ok(t) => t,
            Err(e) => {
                proof {
                    assert(off + 50 > input@.len());
                    assert(84 + 50 * (k as int) + 50 <= 84 + 50 * (n_spec as int)) by {
                        assert(k < n_spec);
                    };
                    assert(input@.len() < 84 + 50 * n_spec);
                    assert(spec_decode(input@) == Err::<StlModel, StlError>(
                        StlError::TruncatedRecord,
                    ));
                }
                return Err(e);
            },
        };
        triangles.push(t);
        off += 50;
        k += 1;
    }
    let file = BinaryStlFile {
        header: BinaryStlHeader { header: header_bytes, num_triangles },
        triangles,
    };
    proof {
        assert(84 + 50 * (n_spec as int) <= input@.len()) by {
            if n_spec > 0 {
                assert(off == 84 + 50 * n_spec);
                assert(off <= input@.len());
            }
        };
        let m = spec_decode(input@)->Ok_0;
        assert(file@.header =~= m.header);
        assert(file@.triangles =~= m.triangles);
        assert(file@ =~= m);
    }
    Ok(file)
}

/// The records of `ts` with one more appended are the records of `ts`
/// followed by the new record.
pub proof fn lemma_triangles_bytes_snoc(ts: Seq<Triangle>, t: Triangle)
    ensures
        triangles_bytes(ts.push(t)) == triangles_bytes(ts) + triangle_bytes(t),
{
    assert(ts.push(t).drop_last() =~= ts);
    assert(ts.push(t).last() == t);
}

/// One triangle record is exactly 50 bytes.
pub proof fn lemma_triangle_bytes_len(t: Triangle)
    ensures
        triangle_bytes(t).len() == 50,
{
}

/// Every triangle record is 50 bytes, so `ts` serializes to exactly
/// `50 * ts.len()` bytes.
pub proof fn lemma_triangles_bytes_len(ts: Seq<Triangle>)
    ensures
        triangles_bytes(ts).len() == 50 * ts.len(),
    decreases ts.len(),
{
    if ts.len() > 0 {
        lemma_triangles_bytes_len(ts.drop_last());
        lemma_triangle_bytes_len(ts.last());
    }
}

/// Record `i` of the serialized sequence stands at byte offset `50 * i`.
pub proof fn lemma_triangles_bytes_index(ts: Seq<Triangle>, i: int)
    requires
        0 <= i < ts.len(),
    ensures
        triangles_bytes(ts).subrange(50 * i, 50 * i + 50) == triangle_bytes(ts[i]),
    decreases ts.len(),
{
    let a = triangles_bytes(ts.drop_last());
    let b = triangle_bytes(ts.last());
    lemma_triangles_bytes_len(ts.drop_last());
    lemma_triangle_bytes_len(ts.last());
    if i == ts.len() - 1 {
        assert((a + b).subrange(50 * i, 50 * i + 50) =~= b);
    } else {
        lemma_triangles_bytes_index(ts.drop_last(), i);
        assert((a + b).subrange(50 * i, 50 * i + 50) =~= a.subrange(50 * i, 50 * i + 50));
    }
}

/// Append the 12 bytes of `p`: the three components, each little-endian.
pub fn write_point(out: &mut Vec<u8>, p: &Point3)
    ensures
        final(out)@ == old(out)@ + point_bytes(*p),
{
    write_u32_le(out, p.x);
    write_u32_le(out, p.y);
    write_u32_le(out, p.z);
    proof {
        assert(out@ =~= old(out)@ + point_bytes(*p));
    }
}

/// Encode a whole binary STL file, appending its bytes to `out`.
///
/// Fails fast with `CountMismatch` — appending nothing — when the
/// declared `num_triangles` differs from the length of the triangle
/// list; the count is never silently adjusted and the list never
/// truncated.  Otherwise appends exactly `spec_encode(stl@)`: the 80
/// header bytes verbatim, the count, then every record in list order.
pub fn write_stl(out: &mut Vec<u8>, stl: &BinaryStlFile) -> (r: Result<(), StlError>)
    requires
        stl.header.header@.len() == 80,
    ensures
        stl.header.num_triangles == stl.triangles@.len() ==> r == Ok::<(), StlError>(())
            && final(out)@ == old(out)@ + spec_encode(stl@),
        stl.header.num_triangles != stl.triangles@.len() ==> r == Err::<(), StlError>(
            StlError::CountMismatch,
        ) && final(out)@ == old(out)@,
{
    if stl.triangles.len() != stl.header.num_triangles as usize {
        return Err(StlError::CountMismatch);
    }
    write_raw_bytes(out, &stl.header.header);
    write_u32_le(out, stl.header.num_triangles);
    let n = stl.triangles.len();
    let mut i: usize = 0;
    while i < n
        invariant
            i <= n,
            n == stl.triangles@.len(),
            out@ =~= old(out)@ + stl.header.header@ + le_bytes_of_u32(stl.header.num_triangles)
                + triangles_bytes(stl.triangles@.take(i as int)),
        decreases n - i,
    {
        let t = stl.triangles[i];
        write_point(out, &t.normal);
        write_point(out, &t.v1);
        write_point(out, &t.v2);
        write_point(out, &t.v3);
        write_u16_le(out, t.attr_byte_count);
        proof {
            let ts = stl.triangles@;
            assert(ts.take(i + 1) =~= ts.take(i as int).push(ts[i as int]));
            lemma_triangles_bytes_snoc(ts.take(i as int), ts[i as int]);
            assert(out@ =~= old(out)@ + stl.header.header@ + le_bytes_of_u32(
                stl.header.num_triangles,
            ) + triangles_bytes(ts.take(i + 1)));
        }
        i += 1;
    }
    proof {
        assert(stl.triangles@.take(n as int) =~= stl.triangles@);
        assert(out@ =~= old(out)@ + spec_encode(stl@));
    }
    Ok(())
}

} // verus!
