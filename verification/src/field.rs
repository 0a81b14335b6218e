//! Fixed-width compressed codec for field elements and evaluation points.
//!
//! A field element lives in the quadratic extension of the 64-bit prime
//! field with modulus `2^64 - 2^32 + 1`. Its canonical compressed encoding
//! is the two base-field limbs, each written as eight little-endian bytes,
//! low limb first. An encoding is valid only when both limbs are canonical
//! representatives, i.e. strictly below the modulus.

use vstd::prelude::*;

verus! {

/// Modulus of the 64-bit base prime field: `2^64 - 2^32 + 1`.
pub const MODULUS: u64 = 18446744069414584321;

/// Number of little-endian bytes in one base-field limb.
pub const LIMB_BYTES: usize = 8;

/// Number of bytes in the canonical compressed encoding of one field
/// element: two base-field limbs of eight little-endian bytes each.
pub const FIELD_SIZE_BYTES: usize = 16;

/// Returns the serialized size of a field element in bytes.
pub fn field_size_bytes() -> (r: usize)
    ensures
        r == FIELD_SIZE_BYTES,
{
    FIELD_SIZE_BYTES
}

/// One element of the extension field, as its two base-field limbs.
/// Canonical when both limbs are below [`MODULUS`].
#[derive(Clone, Copy, PartialEq, Eq, Structural, Debug)]
pub struct FieldElement {
    /// Constant coefficient of the extension element.
    pub c0: u64,
    /// Linear coefficient of the extension element.
    pub c1: u64,
}

impl FieldElement {
    /// Both limbs are canonical representatives of the base field.
    pub open spec fn is_canonical(self) -> bool {
        self.c0 < MODULUS && self.c1 < MODULUS
    }
}

/// Errors of the field-element codec.
#[derive(Clone, Copy, PartialEq, Eq, Structural, Debug)]
pub enum CodecError {
    /// The bytes are not the canonical encoding of one field element:
    /// wrong length, or a limb at or above the modulus.
    MalformedFieldElement,
    /// The byte length of an evaluation point is not a multiple of the
    /// field-element size.
    MalformedEvaluationPoint,
}

/// The `n` little-endian bytes of `v`.
pub open spec fn le_bytes(v: nat, n: nat) -> Seq<u8>
    decreases n,
{
    if n == 0 {
        Seq::empty()
    } else {
        seq![(v % 256) as u8] + le_bytes(v / 256, (n - 1) as nat)
    }
}

/// The value read from a little-endian byte sequence.
pub open spec fn le_value(s: Seq<u8>) -> nat
    decreases s.len(),
{
    if s.len() == 0 {
        0
    } else {
        s[0] as nat + 256 * le_value(s.skip(1))
    }
}

/// `256 ^ n`.
pub open spec fn pow256(n: nat) -> nat
    decreases n,
{
    if n == 0 {
        1
    } else {
        256 * pow256((n - 1) as nat)
    }
}

/// Canonical compressed encoding of one field element: the two limbs,
/// each as eight little-endian bytes, low limb first.
pub open spec fn elem_bytes(e: FieldElement) -> Seq<u8> {
    le_bytes(e.c0 as nat, 8) + le_bytes(e.c1 as nat, 8)
}

/// What the element decoder returns on the given bytes: `Some` exactly on
/// canonical encodings, `None` otherwise.
pub open spec fn decode_elem_spec(s: Seq<u8>) -> Option<FieldElement> {
    if s.len() == 16 {
        let c0 = le_value(s.subrange(0, 8));
        let c1 = le_value(s.subrange(8, 16));
        if c0 < MODULUS && c1 < MODULUS {
            Some(FieldElement { c0: c0 as u64, c1: c1 as u64 })
        } else {
            None
        }
    } else {
        None
    }
}

/// A little-endian encoding has exactly the requested length.
pub proof fn lemma_le_bytes_len(v: nat, n: nat)
    ensures
        le_bytes(v, n).len() == n,
    decreases n,
{
    if n > 0 {
        lemma_le_bytes_len(v / 256, (n - 1) as nat);
    }
}

/// A value below `256^n` is recovered from its `n` little-endian bytes.
pub proof fn lemma_le_round_trip(v: nat, n: nat)
    requires
        v < pow256(n),
    ensures
        le_value(le_bytes(v, n)) == v,
    decreases n,
{
    if n > 0 {
        let s = le_bytes(v, n);
        assert(s.skip(1) =~= le_bytes(v / 256, (n - 1) as nat));
        assert(v / 256 < pow256((n - 1) as nat)) by {
            assert(v < 256 * pow256((n - 1) as nat));
        };
        lemma_le_round_trip(v / 256, (n - 1) as nat);
    }
}

/// A value read from `n` bytes is below `256^n`.
pub proof fn lemma_le_value_bound(s: Seq<u8>)
    ensures
        le_value(s) < pow256(s.len()),
    decreases s.len(),
{
    if s.len() > 0 {
        lemma_le_value_bound(s.skip(1));
    }
}

/// Encoding the value read from `n` bytes gives those bytes back.
pub proof fn lemma_le_bytes_of_value(s: Seq<u8>)
    ensures
        le_bytes(le_value(s), s.len()) == s,
    decreases s.len(),
{
    if s.len() > 0 {
        let v = le_value(s);
        assert(v == s[0] as nat + 256 * le_value(s.skip(1)));
        assert(v % 256 == s[0] as nat);
        assert(v / 256 == le_value(s.skip(1)));
        lemma_le_bytes_of_value(s.skip(1));
        assert(le_bytes(v, s.len()) =~= s);
    }
}

/// Appends the eight little-endian bytes of `v` to `out`.
pub(crate) fn push_u64_le(out: &mut Vec<u8>, v: u64)
    ensures
        final(out)@ == old(out)@ + le_bytes(v as nat, 8),
{
    proof {
        reveal_with_fuel(le_bytes, 9);
    }
    let b0: u8 = (v % 256) as u8;
    let v1: u64 = v / 256;
    let b1: u8 = (v1 % 256) as u8;
    let v2: u64 = v1 / 256;
    let b2: u8 = (v2 % 256) as u8;
    let v3: u64 = v2 / 256;
    let b3: u8 = (v3 % 256) as u8;
    let v4: u64 = v3 / 256;
    let b4: u8 = (v4 % 256) as u8;
    let v5: u64 = v4 / 256;
    let b5: u8 = (v5 % 256) as u8;
    let v6: u64 = v5 / 256;
    let b6: u8 = (v6 % 256) as u8;
    let v7: u64 = v6 / 256;
    let b7: u8 = (v7 % 256) as u8;
    out.push(b0);
    out.push(b1);
    out.push(b2);
    out.push(b3);
    out.push(b4);
    out.push(b5);
    out.push(b6);
    out.push(b7);
    proof {
        assert(out@ =~= old(out)@ + le_bytes(v as nat, 8));
    }
}

/// Reads a limb from the eight little-endian bytes at `off`.
fn read_u64_le(bytes: &Vec<u8>, off: usize) -> (r: u64)
    requires
        off + 8 <= bytes@.len(),
    ensures
        r as nat == le_value(bytes@.subrange(off as int, off as int + 8)),
{
    proof {
        reveal_with_fuel(le_value, 9);
        lemma_le_value_bound(bytes@.subrange(off as int, off as int + 8));
        reveal_with_fuel(pow256, 9);
    }
    let n: usize = bytes.len();
    let b0: u64 = bytes[off] as u64;
    let b1: u64 = bytes[off + 1] as u64;
    let b2: u64 = bytes[off + 2] as u64;
    let b3: u64 = bytes[off + 3] as u64;
    let b4: u64 = bytes[off + 4] as u64;
    let b5: u64 = bytes[off + 5] as u64;
    let b6: u64 = bytes[off + 6] as u64;
    let b7: u64 = bytes[off + 7] as u64;
    let r: u64 = b0 + 256 * (b1 + 256 * (b2 + 256 * (b3 + 256 * (b4 + 256 * (b5 + 256 * (b6
        + 256 * b7))))));
    proof {
        let s = bytes@.subrange(off as int, off as int + 8);
        assert(s[0] == b0 && s[1] == b1 && s[2] == b2 && s[3] == b3 && s[4] == b4 && s[5] == b5
            && s[6] == b6 && s[7] == b7);
    }
    r
}

/// Encodes one field element as its sixteen canonical bytes.
pub fn encode_element(e: &FieldElement) -> (r: Vec<u8>)
    ensures
        r@ == elem_bytes(*e),
        r@.len() == FIELD_SIZE_BYTES,
{
    let mut out: Vec<u8> = Vec::new();
    push_u64_le(&mut out, e.c0);
    push_u64_le(&mut out, e.c1);
    proof {
        lemma_le_bytes_len(e.c0 as nat, 8);
        lemma_le_bytes_len(e.c1 as nat, 8);
        assert(out@ =~= elem_bytes(*e));
    }
    out
}

/// Decodes one field element from its canonical sixteen-byte encoding.
/// Rejects any other length and any limb at or above the modulus.
pub fn decode_element(bytes: &Vec<u8>) -> (r: Result<FieldElement, CodecError>)
    ensures
        r is Ok <==> decode_elem_spec(bytes@) is Some,
        r is Ok ==> decode_elem_spec(bytes@) == Some(r->Ok_0) && r->Ok_0.is_canonical(),
        r is Err ==> r->Err_0 == CodecError::MalformedFieldElement,
{
    if bytes.len() != FIELD_SIZE_BYTES {
        return Err(CodecError::MalformedFieldElement);
    }
    let c0 = read_u64_le(bytes, 0);
    let c1 = read_u64_le(bytes, 8);
    if c0 >= MODULUS || c1 >= MODULUS {
        return Err(CodecError::MalformedFieldElement);
    }
    Ok(FieldElement { c0, c1 })
}

/// Round trip: decoding the encoding of a canonical field element gives
/// the element back.
pub proof fn lemma_element_round_trip(e: FieldElement)
    requires
        e.is_canonical(),
    ensures
        decode_elem_spec(elem_bytes(e)) == Some(e),
{
    let s = elem_bytes(e);
    lemma_le_bytes_len(e.c0 as nat, 8);
    lemma_le_bytes_len(e.c1 as nat, 8);
    assert(s.subrange(0, 8) =~= le_bytes(e.c0 as nat, 8));
    assert(s.subrange(8, 16) =~= le_bytes(e.c1 as nat, 8));
    assert(e.c0 < pow256(8) && e.c1 < pow256(8)) by {
        reveal_with_fuel(pow256, 9);
    };
    lemma_le_round_trip(e.c0 as nat, 8);
    lemma_le_round_trip(e.c1 as nat, 8);
}

/// Round trip the other way: encoding the element decoded from a valid
/// sixteen-byte encoding gives the bytes back.
pub proof fn lemma_element_bytes_round_trip(s: Seq<u8>)
    requires
        decode_elem_spec(s) is Some,
    ensures
        elem_bytes(decode_elem_spec(s)->Some_0) == s,
{
    let e = decode_elem_spec(s)->Some_0;
    lemma_le_bytes_of_value(s.subrange(0, 8));
    lemma_le_bytes_of_value(s.subrange(8, 16));
    assert(elem_bytes(e) =~= s);
}

/// Canonical encoding of an ordered coordinate sequence: the
/// concatenation of the per-element encodings, order preserved.
pub open spec fn point_bytes(p: Seq<FieldElement>) -> Seq<u8>
    decreases p.len(),
{
    if p.len() == 0 {
        Seq::empty()
    } else {
        elem_bytes(p[0]) + point_bytes(p.skip(1))
    }
}

/// Every coordinate of the point is canonical.
pub open spec fn point_is_canonical(p: Seq<FieldElement>) -> bool {
    forall|i: int| 0 <= i < p.len() ==> p[i].is_canonical()
}

/// The bytes are chunked into sixteen-byte slices, left to right, and the
/// `i`-th slice decodes to the `i`-th coordinate of `p`.
pub open spec fn point_decodes_to(s: Seq<u8>, p: Seq<FieldElement>) -> bool {
    &&& s.len() == 16 * p.len()
    &&& forall|i: int|
        0 <= i < p.len() ==> decode_elem_spec(s.subrange(16 * i, 16 * i + 16)) == Some(p[i])
}

/// A point encoding is as long as sixteen bytes per coordinate.
pub proof fn lemma_point_bytes_len(p: Seq<FieldElement>)
    ensures
        point_bytes(p).len() == 16 * p.len(),
    decreases p.len(),
{
    lemma_le_bytes_len(0, 8);
    if p.len() > 0 {
        lemma_le_bytes_len(p[0].c0 as nat, 8);
        lemma_le_bytes_len(p[0].c1 as nat, 8);
        lemma_point_bytes_len(p.skip(1));
    }
}

/// Appending one coordinate appends its sixteen bytes.
pub proof fn lemma_point_bytes_push(p: Seq<FieldElement>, e: FieldElement)
    ensures
        point_bytes(p.push(e)) == point_bytes(p) + elem_bytes(e),
    decreases p.len(),
{
    if p.len() == 0 {
        let single = p.push(e);
        assert(single[0] == e);
        assert(single.skip(1).len() == 0);
        assert(point_bytes(single) == elem_bytes(e) + point_bytes(single.skip(1)));
        assert(point_bytes(single.skip(1)) == Seq::<u8>::empty());
        assert(point_bytes(p) == Seq::<u8>::empty());
        assert(point_bytes(single) =~= point_bytes(p) + elem_bytes(e));
    } else {
        assert(p.push(e)[0] == p[0]);
        assert(p.push(e).skip(1) =~= p.skip(1).push(e));
        lemma_point_bytes_push(p.skip(1), e);
        assert(point_bytes(p.push(e)) == elem_bytes(p[0]) + (point_bytes(p.skip(1))
            + elem_bytes(e)));
        assert(elem_bytes(p[0]) + (point_bytes(p.skip(1)) + elem_bytes(e)) =~= (elem_bytes(p[0])
            + point_bytes(p.skip(1))) + elem_bytes(e));
    }
}

/// The sixteen-byte chunk of a point encoding at coordinate `i` is the
/// encoding of that coordinate.
pub proof fn lemma_point_bytes_chunk(p: Seq<FieldElement>, i: int)
    requires
        0 <= i < p.len(),
    ensures
        point_bytes(p).subrange(16 * i, 16 * i + 16) == elem_bytes(p[i]),
    decreases i,
{
    lemma_point_bytes_len(p);
    lemma_point_bytes_len(p.skip(1));
    lemma_le_bytes_len(p[0].c0 as nat, 8);
    lemma_le_bytes_len(p[0].c1 as nat, 8);
    if i == 0 {
        assert(point_bytes(p).subrange(0, 16) =~= elem_bytes(p[0]));
    } else {
        lemma_point_bytes_chunk(p.skip(1), i - 1);
        assert(point_bytes(p).subrange(16 * i, 16 * i + 16) =~= point_bytes(p.skip(1)).subrange(
            16 * (i - 1),
            16 * (i - 1) + 16,
        ));
    }
}

/// Round trip: the encoding of a canonical point decodes, chunk by chunk,
/// back to the same ordered coordinates.
pub proof fn lemma_point_round_trip(p: Seq<FieldElement>)
    requires
        point_is_canonical(p),
    ensures
        point_decodes_to(point_bytes(p), p),
{
    lemma_point_bytes_len(p);
    assert forall|i: int| 0 <= i < p.len() implies decode_elem_spec(
        point_bytes(p).subrange(16 * i, 16 * i + 16),
    ) == Some(p[i]) by {
        lemma_point_bytes_chunk(p, i);
        lemma_element_round_trip(p[i]);
    };
}

/// Encodes an ordered coordinate sequence, one fixed-width element
/// encoding after the other.
pub fn encode_point(coords: &Vec<FieldElement>) -> (r: Vec<u8>)
    ensures
        r@ == point_bytes(coords@),
        r@.len() == 16 * coords@.len(),
{
    let mut out: Vec<u8> = Vec::new();
    let mut i: usize = 0;
    proof {
        assert(coords@.subrange(0, 0) =~= Seq::<FieldElement>::empty());
    }
    while i < coords.len()
        invariant
            i <= coords@.len(),
            out@ == point_bytes(coords@.subrange(0, i as int)),
        decreases coords@.len() - i,
    {
        let mut eb = encode_element(&coords[i]);
        let mut k: usize = 0;
        while k < eb.len()
            invariant
                k <= eb@.len(),
                out@ == point_bytes(coords@.subrange(0, i as int)) + eb@.subrange(0, k as int),
            decreases eb@.len() - k,
        {
            out.push(eb[k]);
            proof {
                assert(eb@.subrange(0, k as int + 1) =~= eb@.subrange(0, k as int).push(
                    eb@[k as int],
                ));
                assert(out@ =~= point_bytes(coords@.subrange(0, i as int)) + eb@.subrange(
                    0,
                    k as int + 1,
                ));
            }
            k += 1;
        }
        proof {
            assert(eb@.subrange(0, eb@.len() as int) =~= eb@);
            assert(coords@.subrange(0, i as int + 1) =~= coords@.subrange(0, i as int).push(
                coords@[i as int],
            ));
            lemma_point_bytes_push(coords@.subrange(0, i as int), coords@[i as int]);
        }
        i += 1;
    }
    proof {
        assert(coords@.subrange(0, coords@.len() as int) =~= coords@);
        lemma_point_bytes_len(coords@);
    }
    out
}

/// Decodes an evaluation point: rejects a byte length that is not a
/// multiple of the element size, then decodes each sixteen-byte slice
/// left to right.
pub fn decode_point(bytes: &Vec<u8>) -> (r: Result<Vec<FieldElement>, CodecError>)
    ensures
        r is Err && r->Err_0 == CodecError::MalformedEvaluationPoint <==> bytes@.len() % 16 != 0,
        r is Err && r->Err_0 == CodecError::MalformedFieldElement <==> bytes@.len() % 16 == 0
            && (exists|i: int|
            0 <= i < bytes@.len() / 16 && #[trigger] decode_elem_spec(
                bytes@.subrange(16 * i, 16 * i + 16),
            ) is None),
        r is Ok ==> point_decodes_to(bytes@, r->Ok_0@) && point_is_canonical(r->Ok_0@)
            && r->Ok_0@.len() == bytes@.len() / 16,
{
    let n: usize = bytes.len();
    if n % 16 != 0 {
        return Err(CodecError::MalformedEvaluationPoint);
    }
    let count: usize = n / 16;
    let mut out: Vec<FieldElement> = Vec::new();
    let mut i: usize = 0;
    while i < count
        invariant
            i <= count,
            count == bytes@.len() / 16,
            bytes@.len() % 16 == 0,
            bytes@.len() == n,
            out@.len() == i,
            forall|j: int|
                0 <= j < i ==> decode_elem_spec(bytes@.subrange(16 * j, 16 * j + 16)) == Some(
                    out@[j],
                ) && out@[j].is_canonical(),
        decreases count - i,
    {
        let off: usize = 16 * i;
        let c0 = read_u64_le(bytes, off);
        let c1 = read_u64_le(bytes, off + 8);
        if c0 >= MODULUS || c1 >= MODULUS {
            proof {
                let s = bytes@.subrange(16 * i as int, 16 * i as int + 16);
                assert(s.subrange(0, 8) =~= bytes@.subrange(off as int, off as int + 8));
                assert(s.subrange(8, 16) =~= bytes@.subrange(off as int + 8, off as int + 16));
                assert(0 <= (i as int) < bytes@.len() / 16 && decode_elem_spec(
                    bytes@.subrange(16 * (i as int), 16 * (i as int) + 16),
                ) is None);
            }
            return Err(CodecError::MalformedFieldElement);
        }
        let e = FieldElement { c0, c1 };
        proof {
            let s = bytes@.subrange(16 * i as int, 16 * i as int + 16);
            assert(s.subrange(0, 8) =~= bytes@.subrange(off as int, off as int + 8));
            assert(s.subrange(8, 16) =~= bytes@.subrange(off as int + 8, off as int + 16));
            assert(decode_elem_spec(s) == Some(e));
        }
        out.push(e);
        i += 1;
    }
    proof {
        assert forall|j: int| 0 <= j < bytes@.len() / 16 implies !(#[trigger] decode_elem_spec(
            bytes@.subrange(16 * j, 16 * j + 16),
        ) is None) by {
            assert(decode_elem_spec(bytes@.subrange(16 * j, 16 * j + 16)) == Some(out@[j]));
        };
    }
    Ok(out)
}

} // verus!
