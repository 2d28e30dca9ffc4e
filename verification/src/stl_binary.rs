//! Decoder for the fixed-layout binary STL record stream.
//!
//! Layout: an 80-byte free-text header, a 4-byte little-endian unsigned
//! triangle count `N`, then `N` fixed 50-byte records (12 bytes normal,
//! 36 bytes vertices, 2 attribute bytes that are read and discarded).
//! Every 32-bit component is kept as its exact little-endian payload, so
//! decoding performs no rounding and re-encoding reproduces the component
//! bytes exactly.

use vstd::arithmetic::div_mod::{lemma_fundamental_div_mod, lemma_fundamental_div_mod_converse};
use vstd::prelude::*;

use crate::model::StlError;

verus! {

/// One three-component vector, each component the exact 32-bit
/// little-endian payload found in the stream.
#[derive(Clone, Copy, PartialEq, Eq, Structural, Debug)]
pub struct Vec3Bits {
    pub x: u32,
    pub y: u32,
    pub z: u32,
}

/// One binary STL record: a normal and three vertices, in file order.
#[derive(Clone, Copy, PartialEq, Eq, Structural, Debug)]
pub struct Triangle {
    pub normal: Vec3Bits,
    pub v0: Vec3Bits,
    pub v1: Vec3Bits,
    pub v2: Vec3Bits,
}

/// The unsigned value of four bytes read little-endian.
pub open spec fn le_u32(b0: u8, b1: u8, b2: u8, b3: u8) -> u32 {
    (b0 + b1 * 0x100 + b2 * 0x10000 + b3 * 0x1000000) as u32
}

/// The vector whose components start at byte offset `off`.
pub open spec fn vec3_at(b: Seq<u8>, off: int) -> Vec3Bits {
    Vec3Bits {
        x: le_u32(b[off], b[off + 1], b[off + 2], b[off + 3]),
        y: le_u32(b[off + 4], b[off + 5], b[off + 6], b[off + 7]),
        z: le_u32(b[off + 8], b[off + 9], b[off + 10], b[off + 11]),
    }
}

/// The declared triangle count of a binary STL stream.
pub open spec fn stl_count(b: Seq<u8>) -> int
    recommends
        b.len() >= 84,
{
    le_u32(b[80], b[81], b[82], b[83]) as int
}

/// The `i`-th 50-byte record of the stream.
pub open spec fn record_at(b: Seq<u8>, i: int) -> Triangle {
    let off = 84 + 50 * i;
    Triangle {
        normal: vec3_at(b, off),
        v0: vec3_at(b, off + 12),
        v1: vec3_at(b, off + 24),
        v2: vec3_at(b, off + 36),
    }
}

/// A binary STL stream is complete when it holds the header, the count,
/// and all of the records the count declares.
pub open spec fn binary_ok(b: Seq<u8>) -> bool {
    b.len() >= 84 && b.len() >= 84 + 50 * stl_count(b)
}

/// The triangles of a complete binary STL stream, in file order.
pub open spec fn binary_triangles(b: Seq<u8>) -> Seq<Triangle> {
    Seq::new(stl_count(b) as nat, |i: int| record_at(b, i))
}

/// Reads the little-endian 32-bit payload at `off`.
fn read_u32_at(bytes: &Vec<u8>, off: usize) -> (r: u32)
    requires
        off + 4 <= bytes@.len(),
    ensures
        r == le_u32(bytes@[off as int], bytes@[off + 1], bytes@[off + 2], bytes@[off + 3]),
{
    let n = bytes.len();
    assert(off + 4 <= n);
    let b0 = bytes[off];
    let b1 = bytes[off + 1];
    let b2 = bytes[off + 2];
    let b3 = bytes[off + 3];
    (b0 as u32) + (b1 as u32) * 0x100 + (b2 as u32) * 0x10000 + (b3 as u32) * 0x1000000
}

/// Reads the three-component vector at `off`.
fn read_vec3_at(bytes: &Vec<u8>, off: usize) -> (r: Vec3Bits)
    requires
        off + 12 <= bytes@.len(),
    ensures
        r == vec3_at(bytes@, off as int),
{
    let n = bytes.len();
    assert(off + 12 <= n);
    Vec3Bits {
        x: read_u32_at(bytes, off),
        y: read_u32_at(bytes, off + 4),
        z: read_u32_at(bytes, off + 8),
    }
}

/// Decodes a binary STL stream into its triangles.
///
/// Succeeds exactly when the stream holds the 84 fixed bytes and all the
/// records its count declares; trailing bytes after the last record are
/// ignored. On a short stream the decode fails with
/// `TruncatedBinaryRecord` and returns no partial list.
pub fn decode_binary_stl(bytes: &Vec<u8>) -> (r: Result<Vec<Triangle>, StlError>)
    ensures
        binary_ok(bytes@) ==> (r matches Ok(ts) && ts@ == binary_triangles(bytes@) && ts@.len()
            == stl_count(bytes@)),
        !binary_ok(bytes@) ==> r == Err::<Vec<Triangle>, StlError>(StlError::TruncatedBinaryRecord),
{
    if bytes.len() < 84 {
        return Err(StlError::TruncatedBinaryRecord);
    }
    let count = read_u32_at(bytes, 80);
    let need: u64 = 84u64 + 50u64 * (count as u64);
    if (bytes.len() as u64) < need {
        return Err(StlError::TruncatedBinaryRecord);
    }
    let n = count as usize;
    let len = bytes.len();
    let mut triangles: Vec<Triangle> = Vec::new();
    let mut i: usize = 0;
    while i < n
        invariant
            n == stl_count(bytes@),
            binary_ok(bytes@),
            84 + 50 * n <= len,
            len == bytes@.len(),
            i <= n,
            triangles@ =~= binary_triangles(bytes@).take(i as int),
        decreases n - i,
    {
        let off: usize = 84 + 50 * i;
        let t = Triangle {
            normal: read_vec3_at(bytes, off),
            v0: read_vec3_at(bytes, off + 12),
            v1: read_vec3_at(bytes, off + 24),
            v2: read_vec3_at(bytes, off + 36),
        };
        triangles.push(t);
        i = i + 1;
    }
    assert(triangles@ =~= binary_triangles(bytes@));
    Ok(triangles)
}

/// The four little-endian bytes of a 32-bit value.
pub open spec fn le_bytes(n: u32) -> Seq<u8> {
    seq![
        (n % 0x100) as u8,
        ((n / 0x100) % 0x100) as u8,
        ((n / 0x100 / 0x100) % 0x100) as u8,
        ((n / 0x100 / 0x100 / 0x100) % 0x100) as u8,
    ]
}

/// Reading back the four little-endian bytes of a value yields the value.
pub proof fn lemma_le_bytes_roundtrip(n: u32)
    ensures
        le_u32(le_bytes(n)[0], le_bytes(n)[1], le_bytes(n)[2], le_bytes(n)[3]) == n,
{
    let q1 = n as int / 0x100;
    let q2 = q1 / 0x100;
    let q3 = q2 / 0x100;
    lemma_fundamental_div_mod(n as int, 0x100);
    lemma_fundamental_div_mod(q1, 0x100);
    lemma_fundamental_div_mod(q2, 0x100);
    assert(0 <= q1 < 0x1000000) by (nonlinear_arith)
        requires q1 == n as int / 0x100 && n < 0x100000000int && n >= 0;
    assert(0 <= q2 < 0x10000) by (nonlinear_arith)
        requires q2 == q1 / 0x100 && 0 <= q1 < 0x1000000;
    assert(0 <= q3 < 0x100) by (nonlinear_arith)
        requires q3 == q2 / 0x100 && 0 <= q2 < 0x10000;
    lemma_fundamental_div_mod(q3, 0x100);
}

/// The twelve bytes of one encoded vector.
pub open spec fn vec3_bytes(v: Vec3Bits) -> Seq<u8> {
    le_bytes(v.x) + le_bytes(v.y) + le_bytes(v.z)
}

/// The 50 bytes of one encoded record; the attribute bytes are zero.
pub open spec fn record_bytes(t: Triangle) -> Seq<u8> {
    vec3_bytes(t.normal) + vec3_bytes(t.v0) + vec3_bytes(t.v1) + vec3_bytes(t.v2) + seq![0u8, 0u8]
}

/// The concatenation of the encoded records, in order.
pub open spec fn records_bytes(ts: Seq<Triangle>) -> Seq<u8>
    decreases ts.len(),
{
    if ts.len() == 0 {
        Seq::empty()
    } else {
        records_bytes(ts.drop_last()) + record_bytes(ts.last())
    }
}

/// A full encoded binary STL stream: a zeroed header, the count, the records.
pub open spec fn encode_spec(ts: Seq<Triangle>) -> Seq<u8>
    recommends
        ts.len() <= u32::MAX,
{
    Seq::new(80, |i: int| 0u8) + le_bytes(ts.len() as u32) + records_bytes(ts)
}

proof fn lemma_records_bytes_snoc(ts: Seq<Triangle>, i: int)
    requires
        0 <= i < ts.len(),
    ensures
        records_bytes(ts.take(i + 1)) == records_bytes(ts.take(i)) + record_bytes(ts[i]),
{
    assert(ts.take(i + 1).drop_last() =~= ts.take(i));
    assert(ts.take(i + 1).last() == ts[i]);
}

proof fn lemma_records_bytes_len(ts: Seq<Triangle>)
    ensures
        records_bytes(ts).len() == 50 * ts.len(),
    decreases ts.len(),
{
    if ts.len() > 0 {
        lemma_records_bytes_len(ts.drop_last());
    }
}

#[verifier::rlimit(60)]
proof fn lemma_records_bytes_index(ts: Seq<Triangle>, i: int, j: int)
    requires
        0 <= i < ts.len(),
        0 <= j < 50,
    ensures
        records_bytes(ts)[50 * i + j] == record_bytes(ts[i])[j],
    decreases ts.len(),
{
    lemma_records_bytes_len(ts.drop_last());
    if i == ts.len() - 1 {
        assert(ts.last() == ts[i]);
    } else {
        lemma_records_bytes_index(ts.drop_last(), i, j);
        assert(ts.drop_last()[i] == ts[i]);
    }
}

proof fn lemma_vec3_roundtrip(b: Seq<u8>, v: Vec3Bits, off: int)
    requires
        0 <= off,
        b.len() >= off + 12,
        forall|j: int| 0 <= j < 12 ==> b[off + j] == vec3_bytes(v)[j],
    ensures
        vec3_at(b, off) == v,
{
    lemma_le_bytes_roundtrip(v.x);
    lemma_le_bytes_roundtrip(v.y);
    lemma_le_bytes_roundtrip(v.z);
    assert forall|j: int| 0 <= j < 4 implies vec3_bytes(v)[j] == le_bytes(v.x)[j]
        && vec3_bytes(v)[j + 4] == le_bytes(v.y)[j] && vec3_bytes(v)[j + 8] == le_bytes(
        v.z,
    )[j] by {}
}

#[verifier::rlimit(60)]
proof fn lemma_record_roundtrip(b: Seq<u8>, t: Triangle, off: int)
    requires
        0 <= off,
        b.len() >= off + 50,
        forall|j: int| 0 <= j < 50 ==> b[off + j] == record_bytes(t)[j],
    ensures
        vec3_at(b, off) == t.normal,
        vec3_at(b, off + 12) == t.v0,
        vec3_at(b, off + 24) == t.v1,
        vec3_at(b, off + 36) == t.v2,
{
    assert forall|j: int| 0 <= j < 12 implies record_bytes(t)[j] == vec3_bytes(t.normal)[j]
        && record_bytes(t)[j + 12] == vec3_bytes(t.v0)[j] && record_bytes(t)[j + 24] == vec3_bytes(
        t.v1,
    )[j] && record_bytes(t)[j + 36] == vec3_bytes(t.v2)[j] by {}
    lemma_vec3_roundtrip(b, t.normal, off);
    lemma_vec3_roundtrip(b, t.v0, off + 12);
    lemma_vec3_roundtrip(b, t.v1, off + 24);
    lemma_vec3_roundtrip(b, t.v2, off + 36);
}

/// Round trip: a stream encoded from any triangle list is complete, and
/// decoding it yields the identical triangles — the decoder performs no
/// rounding and no reordering of the 32-bit component payloads.
pub proof fn lemma_binary_round_trip(ts: Seq<Triangle>)
    requires
        ts.len() <= u32::MAX,
    ensures
        binary_ok(encode_spec(ts)),
        binary_triangles(encode_spec(ts)) =~= ts,
{
    let b = encode_spec(ts);
    lemma_records_bytes_len(ts);
    lemma_le_bytes_roundtrip(ts.len() as u32);
    assert(b[80] == le_bytes(ts.len() as u32)[0]);
    assert(b[81] == le_bytes(ts.len() as u32)[1]);
    assert(b[82] == le_bytes(ts.len() as u32)[2]);
    assert(b[83] == le_bytes(ts.len() as u32)[3]);
    assert(stl_count(b) == ts.len());
    assert forall|i: int| 0 <= i < ts.len() implies record_at(b, i) == ts[i] by {
        assert forall|j: int| 0 <= j < 50 implies b[84 + 50 * i + j] == record_bytes(ts[i])[j] by {
            lemma_records_bytes_index(ts, i, j);
            assert(b[84 + 50 * i + j] == records_bytes(ts)[50 * i + j]);
        }
        lemma_record_roundtrip(b, ts[i], 84 + 50 * i);
    }
}

proof fn lemma_le_bytes_of_le_u32(b0: u8, b1: u8, b2: u8, b3: u8)
    ensures
        le_bytes(le_u32(b0, b1, b2, b3)) =~= seq![b0, b1, b2, b3],
{
    let n = le_u32(b0, b1, b2, b3) as int;
    let q1 = b1 + 0x100 * b2 + 0x10000 * b3;
    let q2 = b2 + 0x100 * b3;
    lemma_fundamental_div_mod_converse(n, 0x100, q1, b0 as int);
    lemma_fundamental_div_mod_converse(q1, 0x100, q2, b1 as int);
    lemma_fundamental_div_mod_converse(q2, 0x100, b3 as int, b2 as int);
    lemma_fundamental_div_mod_converse(b3 as int, 0x100, 0, b3 as int);
}

#[verifier::rlimit(60)]
proof fn lemma_vec3_bytes_match(b: Seq<u8>, off: int)
    requires
        0 <= off,
        off + 12 <= b.len(),
    ensures
        vec3_bytes(vec3_at(b, off)).len() == 12,
        forall|m: int| 0 <= m < 12 ==> vec3_bytes(vec3_at(b, off))[m] == b[off + m],
{
    lemma_le_bytes_of_le_u32(b[off], b[off + 1], b[off + 2], b[off + 3]);
    lemma_le_bytes_of_le_u32(b[off + 4], b[off + 5], b[off + 6], b[off + 7]);
    lemma_le_bytes_of_le_u32(b[off + 8], b[off + 9], b[off + 10], b[off + 11]);
    assert(vec3_bytes(vec3_at(b, off)) =~= b.subrange(off, off + 12));
}

#[verifier::rlimit(100)]
#[verifier::spinoff_prover]
proof fn lemma_record_bytes_index_from_parts(t: Triangle, b: Seq<u8>, off: int, j: int)
    requires
        0 <= j < 48,
        vec3_bytes(t.normal).len() == 12,
        vec3_bytes(t.v0).len() == 12,
        vec3_bytes(t.v1).len() == 12,
        vec3_bytes(t.v2).len() == 12,
        forall|m: int| 0 <= m < 12 ==> vec3_bytes(t.normal)[m] == b[off + m],
        forall|m: int| 0 <= m < 12 ==> vec3_bytes(t.v0)[m] == b[off + 12 + m],
        forall|m: int| 0 <= m < 12 ==> vec3_bytes(t.v1)[m] == b[off + 24 + m],
        forall|m: int| 0 <= m < 12 ==> vec3_bytes(t.v2)[m] == b[off + 36 + m],
    ensures
        record_bytes(t)[j] == b[off + j],
{
    if j < 12 {
        assert(record_bytes(t)[j] == vec3_bytes(t.normal)[j]);
    } else if j < 24 {
        assert(record_bytes(t)[j] == vec3_bytes(t.v0)[j - 12]);
    } else if j < 36 {
        assert(record_bytes(t)[j] == vec3_bytes(t.v1)[j - 24]);
    } else {
        assert(record_bytes(t)[j] == vec3_bytes(t.v2)[j - 36]);
    }
}

#[verifier::rlimit(100)]
#[verifier::spinoff_prover]
proof fn lemma_record_bytes_match(b: Seq<u8>, i: int, j: int)
    requires
        binary_ok(b),
        0 <= i < stl_count(b),
        0 <= j < 48,
    ensures
        record_bytes(binary_triangles(b)[i])[j] == b[84 + 50 * i + j],
{
    let off = 84 + 50 * i;
    let t = record_at(b, i);
    assert(binary_triangles(b)[i] == t);
    lemma_vec3_bytes_match(b, off);
    lemma_vec3_bytes_match(b, off + 12);
    lemma_vec3_bytes_match(b, off + 24);
    lemma_vec3_bytes_match(b, off + 36);
    lemma_record_bytes_index_from_parts(t, b, off, j);
}

proof fn lemma_encode_spec_index(ts: Seq<Triangle>, k: int)
    requires
        0 <= k < 50 * ts.len(),
    ensures
        encode_spec(ts)[84 + k] == records_bytes(ts)[k],
{
    lemma_records_bytes_len(ts);
}

/// The 48 bytes holding the `i`-th record's twelve 32-bit components.
pub open spec fn payload_at(s: Seq<u8>, i: int) -> Seq<u8> {
    s.subrange(84 + 50 * i, 84 + 50 * i + 48)
}

/// Decoding a complete binary stream and re-encoding the result
/// reproduces the declared count and every record's 32-bit component
/// payloads byte for byte; only the free-text header and the discarded
/// per-record attribute bytes are zeroed.
#[verifier::rlimit(100)]
#[verifier::spinoff_prover]
pub proof fn lemma_reencode_preserves_payloads(b: Seq<u8>)
    requires
        binary_ok(b),
    ensures
        binary_triangles(encode_spec(binary_triangles(b))) =~= binary_triangles(b),
        stl_count(encode_spec(binary_triangles(b))) == stl_count(b),
        forall|i: int|
            0 <= i < stl_count(b) ==> payload_at(encode_spec(binary_triangles(b)), i) == payload_at(
                b,
                i,
            ),
{
    let ts = binary_triangles(b);
    lemma_binary_round_trip(ts);
    let enc = encode_spec(ts);
    lemma_records_bytes_len(ts);
    assert forall|i: int| 0 <= i < stl_count(b) implies payload_at(enc, i) == payload_at(b, i) by {
        assert forall|j: int| 0 <= j < 48 implies payload_at(enc, i)[j] == payload_at(b, i)[j] by {
            lemma_records_bytes_index(ts, i, j);
            lemma_encode_spec_index(ts, 50 * i + j);
            assert(enc[84 + 50 * i + j] == records_bytes(ts)[50 * i + j]);
            lemma_record_bytes_match(b, i, j);
        }
        assert(payload_at(enc, i) =~= payload_at(b, i));
    }
}

/// Appends the four little-endian bytes of `n`.
fn push_u32_le(out: &mut Vec<u8>, n: u32)
    ensures
        final(out)@ == old(out)@ + le_bytes(n),
{
    out.push((n % 0x100) as u8);
    out.push(((n / 0x100) % 0x100) as u8);
    out.push(((n / 0x100) / 0x100 % 0x100) as u8);
    out.push((((n / 0x100) / 0x100) / 0x100 % 0x100) as u8);
    assert(final(out)@ =~= old(out)@ + le_bytes(n));
}

/// Appends the twelve little-endian bytes of a vector.
fn push_vec3_le(out: &mut Vec<u8>, v: Vec3Bits)
    ensures
        final(out)@ == old(out)@ + vec3_bytes(v),
{
    push_u32_le(out, v.x);
    push_u32_le(out, v.y);
    push_u32_le(out, v.z);
    assert(final(out)@ =~= old(out)@ + vec3_bytes(v));
}

/// Encodes a triangle list as a binary STL stream with a zeroed header
/// and zeroed per-record attribute bytes.
#[verifier::rlimit(100)]
pub fn encode_binary_stl(triangles: &Vec<Triangle>) -> (r: Vec<u8>)
    requires
        triangles@.len() <= u32::MAX,
    ensures
        r@ == encode_spec(triangles@),
        binary_ok(r@),
        binary_triangles(r@) =~= triangles@,
{
    let mut out: Vec<u8> = Vec::new();
    let mut k: usize = 0;
    while k < 80
        invariant
            k <= 80,
            out@ =~= Seq::new(k as nat, |i: int| 0u8),
        decreases 80 - k,
    {
        out.push(0u8);
        k = k + 1;
    }
    assert(out@ =~= Seq::new(80, |i: int| 0u8));
    push_u32_le(&mut out, triangles.len() as u32);
    let mut i: usize = 0;
    while i < triangles.len()
        invariant
            triangles@.len() <= u32::MAX,
            i <= triangles@.len(),
            out@ =~= Seq::new(80, |j: int| 0u8) + le_bytes(triangles@.len() as u32)
                + records_bytes(triangles@.take(i as int)),
        decreases triangles@.len() - i,
    {
        let ghost prefix = out@;
        let t = triangles[i];
        push_vec3_le(&mut out, t.normal);
        push_vec3_le(&mut out, t.v0);
        push_vec3_le(&mut out, t.v1);
        push_vec3_le(&mut out, t.v2);
        out.push(0u8);
        out.push(0u8);
        proof {
            assert(out@ =~= prefix + record_bytes(triangles@[i as int]));
            lemma_records_bytes_snoc(triangles@, i as int);
        }
        i = i + 1;
    }
    proof {
        assert(triangles@.take(triangles@.len() as int) =~= triangles@);
        lemma_binary_round_trip(triangles@);
    }
    out
}

} // verus!
