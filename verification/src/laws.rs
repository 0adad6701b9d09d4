//! The laws the codec obeys, proved over the spec-level encoder and
//! decoder that the contracts of `read_stl` and `write_stl` speak of.

use vstd::prelude::*;

use crate::bytes::{
    le_bytes_of_u32, lemma_u16_le_reverse, lemma_u16_le_roundtrip, lemma_u32_le_reverse,
    lemma_u32_le_roundtrip, u32_of_le,
};
use crate::error::StlError;
use crate::stl::{
    lemma_triangles_bytes_index, lemma_triangles_bytes_len, point_bytes, point_of_bytes,
    spec_decode, spec_encode, triangle_bytes, triangle_of_bytes, triangles_bytes, Point3,
    StlModel, Triangle,
};

verus! {

/// Decoding the 12 bytes a point encodes to gives the point back.
pub proof fn lemma_point_roundtrip(p: Point3)
    ensures
        point_of_bytes(point_bytes(p)) == p,
{
    lemma_u32_le_roundtrip(p.x);
    lemma_u32_le_roundtrip(p.y);
    lemma_u32_le_roundtrip(p.z);
}

/// Decoding the 50 bytes a triangle encodes to gives the triangle back,
/// every field preserved exactly.
pub proof fn lemma_triangle_roundtrip(t: Triangle)
    ensures
        triangle_of_bytes(triangle_bytes(t)) == t,
{
    let b = triangle_bytes(t);
    assert(b.subrange(0, 12) =~= point_bytes(t.normal));
    assert(b.subrange(12, 24) =~= point_bytes(t.v1));
    assert(b.subrange(24, 36) =~= point_bytes(t.v2));
    assert(b.subrange(36, 48) =~= point_bytes(t.v3));
    lemma_point_roundtrip(t.normal);
    lemma_point_roundtrip(t.v1);
    lemma_point_roundtrip(t.v2);
    lemma_point_roundtrip(t.v3);
    lemma_u16_le_roundtrip(t.attr_byte_count);
}

/// A file with its fixed 80 header bytes occupies exactly
/// `84 + 50 * n` bytes on disk, `n` its triangle count.
pub proof fn lemma_encode_size(m: StlModel)
    requires
        m.header.len() == 80,
    ensures
        spec_encode(m).len() == 84 + 50 * m.triangles.len(),
{
    lemma_triangles_bytes_len(m.triangles);
}

/// Round-trip: any file whose declared count matches its triangle list
/// decodes, from its own encoding, back to itself — header bytes,
/// count, and every triangle field preserved exactly.
pub proof fn lemma_round_trip(m: StlModel)
    requires
        m.wf(),
    ensures
        spec_decode(spec_encode(m)) == Ok::<StlModel, StlError>(m),
{
    let b = spec_encode(m);
    let n = m.triangles.len() as int;
    let c = le_bytes_of_u32(m.num_triangles);
    let tb = triangles_bytes(m.triangles);
    lemma_encode_size(m);
    lemma_triangles_bytes_len(m.triangles);
    assert(b[80] == c[0] && b[81] == c[1] && b[82] == c[2] && b[83] == c[3]) by {
        assert(b[80] == (m.header + c)[80]);
        assert(b[81] == (m.header + c)[81]);
        assert(b[82] == (m.header + c)[82]);
        assert(b[83] == (m.header + c)[83]);
    };
    lemma_u32_le_roundtrip(m.num_triangles);
    assert(u32_of_le(b[80], b[81], b[82], b[83]) == m.num_triangles);
    let dm = spec_decode(b)->Ok_0;
    assert(dm.header =~= m.header);
    assert forall|i: int| 0 <= i < n implies dm.triangles[i] == m.triangles[i] by {
        assert(b.subrange(84 + 50 * i, 134 + 50 * i) =~= tb.subrange(50 * i, 50 * i + 50));
        lemma_triangles_bytes_index(m.triangles, i);
        lemma_triangle_roundtrip(m.triangles[i]);
    };
    assert(dm.triangles =~= m.triangles);
    assert(dm =~= m);
}

/// Size law: a successfully decoded stream was consumed for exactly
/// `84 + 50 * n` bytes — the decoded value is already determined by
/// that prefix, and the declared count agrees with the list decoded.
pub proof fn lemma_decode_size(b: Seq<u8>, m: StlModel)
    requires
        spec_decode(b) == Ok::<StlModel, StlError>(m),
    ensures
        84 + 50 * m.triangles.len() <= b.len(),
        m.num_triangles == m.triangles.len(),
        m.header.len() == 80,
        spec_decode(b.subrange(0, 84 + 50 * m.triangles.len() as int)) == Ok::<
            StlModel,
            StlError,
        >(m),
{
    let n = m.triangles.len() as int;
    let p = b.subrange(0, 84 + 50 * n);
    assert(p[80] == b[80] && p[81] == b[81] && p[82] == b[82] && p[83] == b[83]);
    let dm = spec_decode(p)->Ok_0;
    assert(dm.header =~= m.header);
    assert forall|i: int| 0 <= i < n implies dm.triangles[i] == m.triangles[i] by {
        assert(p.subrange(84 + 50 * i, 134 + 50 * i) =~= b.subrange(84 + 50 * i, 134 + 50 * i));
    };
    assert(dm.triangles =~= m.triangles);
    assert(dm =~= m);
}

/// Encoding the point 12 bytes denote gives the bytes back.
pub proof fn lemma_point_bytes_reverse(b: Seq<u8>)
    requires
        b.len() == 12,
    ensures
        point_bytes(point_of_bytes(b)) == b,
{
    lemma_u32_le_reverse(b[0], b[1], b[2], b[3]);
    lemma_u32_le_reverse(b[4], b[5], b[6], b[7]);
    lemma_u32_le_reverse(b[8], b[9], b[10], b[11]);
    assert(point_bytes(point_of_bytes(b)) =~= b);
}

/// Encoding the triangle one 50-byte record denotes gives the record
/// back.
pub proof fn lemma_triangle_bytes_reverse(b: Seq<u8>)
    requires
        b.len() == 50,
    ensures
        triangle_bytes(triangle_of_bytes(b)) == b,
{
    lemma_point_bytes_reverse(b.subrange(0, 12));
    lemma_point_bytes_reverse(b.subrange(12, 24));
    lemma_point_bytes_reverse(b.subrange(24, 36));
    lemma_point_bytes_reverse(b.subrange(36, 48));
    lemma_u16_le_reverse(b[48], b[49]);
    assert(triangle_bytes(triangle_of_bytes(b)) =~= b);
}

/// The inverse round-trip: re-encoding a decoded file reproduces,
/// byte for byte, exactly the prefix of the stream that decode
/// consumed — decode loses nothing and invents nothing.
#[verifier::rlimit(50)]
pub proof fn lemma_decode_then_encode(b: Seq<u8>, m: StlModel)
    requires
        spec_decode(b) == Ok::<StlModel, StlError>(m),
    ensures
        m.wf(),
        spec_encode(m) == b.subrange(0, 84 + 50 * m.triangles.len() as int),
{
    let n = m.triangles.len() as int;
    let tb = triangles_bytes(m.triangles);
    lemma_u32_le_reverse(b[80], b[81], b[82], b[83]);
    lemma_triangles_bytes_len(m.triangles);
    assert(m.header == b.subrange(0, 80));
    assert(le_bytes_of_u32(m.num_triangles) == seq![b[80], b[81], b[82], b[83]]);
    assert forall|j: int| 0 <= j < 50 * n implies tb[j] == b[84 + j] by {
        let i = j / 50;
        let r = j % 50;
        assert(j == 50 * i + r && 0 <= r < 50) by {
            vstd::arithmetic::div_mod::lemma_fundamental_div_mod(j, 50);
        };
        assert(0 <= i < n) by (nonlinear_arith)
            requires
                j == 50 * i + r,
                0 <= r < 50,
                0 <= j < 50 * n,
        ;
        lemma_triangles_bytes_index(m.triangles, i);
        lemma_triangle_bytes_reverse(b.subrange(84 + 50 * i, 134 + 50 * i));
        assert(tb[j] == tb.subrange(50 * i, 50 * i + 50)[r]);
        assert(triangle_bytes(m.triangles[i])[r] == b.subrange(84 + 50 * i, 134 + 50 * i)[r]);
    };
    assert(spec_encode(m) =~= b.subrange(0, 84 + 50 * n));
}

/// Order preservation: the `i`-th triangle of a decoded file is exactly
/// the `i`-th 50-byte record of the stream, the one at byte offset
/// `84 + 50 * i` — decode keeps the on-disk record order.
pub proof fn lemma_decode_order(b: Seq<u8>, m: StlModel, i: int)
    requires
        spec_decode(b) == Ok::<StlModel, StlError>(m),
        0 <= i < m.triangles.len(),
    ensures
        m.triangles[i] == triangle_of_bytes(b.subrange(84 + 50 * i, 134 + 50 * i)),
{
}

} // verus!
