use vstd::prelude::*;

verus! {

/// The bytes `from..to` of a slice, copied into a vector.
pub fn copy_range(src: &[u8], from: usize, to: usize) -> (v: Vec<u8>)
    requires
        from <= to <= src@.len(),
    ensures
        v@ == src@.subrange(from as int, to as int),
{
    let mut v: Vec<u8> = Vec::new();
    let mut i = from;
    while i < to
        invariant
            from <= i <= to,
            to <= src@.len(),
            v@ == src@.subrange(from as int, i as int),
        decreases to - i,
    {
        v.push(src[i]);
        proof {
            assert(src@.subrange(from as int, i + 1) =~= src@.subrange(from as int, i as int).push(
                src@[i as int],
            ));
        }
        i = i + 1;
    }
    v
}

/// Appends all bytes of `src` to `dst`.
pub fn append_bytes(dst: &mut Vec<u8>, src: &[u8])
    ensures
        final(dst)@ == old(dst)@ + src@,
{
    let mut i: usize = 0;
    while i < src.len()
        invariant
            i <= src@.len(),
            dst@ == old(dst)@ + src@.take(i as int),
        decreases src@.len() - i,
    {
        dst.push(src[i]);
        proof {
            assert(src@.take(i + 1) =~= src@.take(i as int).push(src@[i as int]));
        }
        i = i + 1;
    }
    proof {
        assert(src@.take(src@.len() as int) =~= src@);
    }
}

/// The fixed-size array holding the bytes of `v`.
#[verifier::external_body]
pub(crate) fn array_from_vec<const N: usize>(v: Vec<u8>) -> (a: [u8; N])
    requires
        v@.len() == N,
    ensures
        a@ == v@,
{
    v.try_into().unwrap()
}

/// Little-endian bytes of a 64-bit number.
pub open spec fn le_bytes_u64(x: u64) -> Seq<u8> {
    seq![
        (x & 0xffu64) as u8,
        ((x >> 8u64) & 0xffu64) as u8,
        ((x >> 16u64) & 0xffu64) as u8,
        ((x >> 24u64) & 0xffu64) as u8,
        ((x >> 32u64) & 0xffu64) as u8,
        ((x >> 40u64) & 0xffu64) as u8,
        ((x >> 48u64) & 0xffu64) as u8,
        ((x >> 56u64) & 0xffu64) as u8,
    ]
}

/// Little-endian bytes of a 128-bit number.
pub open spec fn le_bytes_u128(x: u128) -> Seq<u8> {
    seq![
        ((x >> 0u128) & 0xffu128) as u8,
        ((x >> 8u128) & 0xffu128) as u8,
        ((x >> 16u128) & 0xffu128) as u8,
        ((x >> 24u128) & 0xffu128) as u8,
        ((x >> 32u128) & 0xffu128) as u8,
        ((x >> 40u128) & 0xffu128) as u8,
        ((x >> 48u128) & 0xffu128) as u8,
        ((x >> 56u128) & 0xffu128) as u8,
        ((x >> 64u128) & 0xffu128) as u8,
        ((x >> 72u128) & 0xffu128) as u8,
        ((x >> 80u128) & 0xffu128) as u8,
        ((x >> 88u128) & 0xffu128) as u8,
        ((x >> 96u128) & 0xffu128) as u8,
        ((x >> 104u128) & 0xffu128) as u8,
        ((x >> 112u128) & 0xffu128) as u8,
        ((x >> 120u128) & 0xffu128) as u8,
    ]
}

/// Little-endian bytes of a 16-bit number.
pub open spec fn le_bytes_u16(x: u16) -> Seq<u8> {
    seq![(x & 0xffu16) as u8, (x >> 8u16) as u8]
}

pub fn u64_to_le(x: u64) -> (b: [u8; 8])
    ensures
        b@ == le_bytes_u64(x),
{
    let b = [
        (x & 0xff) as u8,
        ((x >> 8) & 0xff) as u8,
        ((x >> 16) & 0xff) as u8,
        ((x >> 24) & 0xff) as u8,
        ((x >> 32) & 0xff) as u8,
        ((x >> 40) & 0xff) as u8,
        ((x >> 48) & 0xff) as u8,
        ((x >> 56) & 0xff) as u8,
    ];
    assert(b@ =~= le_bytes_u64(x));
    b
}

pub fn u128_to_le(x: u128) -> (b: [u8; 16])
    ensures
        b@ == le_bytes_u128(x),
{
    let b = [
        ((x >> 0) & 0xff) as u8,
        ((x >> 8) & 0xff) as u8,
        ((x >> 16) & 0xff) as u8,
        ((x >> 24) & 0xff) as u8,
        ((x >> 32) & 0xff) as u8,
        ((x >> 40) & 0xff) as u8,
        ((x >> 48) & 0xff) as u8,
        ((x >> 56) & 0xff) as u8,
        ((x >> 64) & 0xff) as u8,
        ((x >> 72) & 0xff) as u8,
        ((x >> 80) & 0xff) as u8,
        ((x >> 88) & 0xff) as u8,
        ((x >> 96) & 0xff) as u8,
        ((x >> 104) & 0xff) as u8,
        ((x >> 112) & 0xff) as u8,
        ((x >> 120) & 0xff) as u8,
    ];
    assert(b@ =~= le_bytes_u128(x));
    b
}

pub fn u16_to_le(x: u16) -> (b: [u8; 2])
    ensures
        b@ == le_bytes_u16(x),
        x as int == b@[0] as int + 256 * b@[1] as int,
{
    assert(x == (x & 0xffu16) as u8 as u16 + 256 * ((x >> 8u16) as u8 as u16)) by (bit_vector);
    let b = [(x & 0xff) as u8, (x >> 8) as u8];
    assert(b@ =~= le_bytes_u16(x));
    b
}

pub fn u16_from_le(lo: u8, hi: u8) -> (x: u16)
    ensures
        le_bytes_u16(x) == seq![lo, hi],
        x as int == lo as int + 256 * hi as int,
{
    let x = (lo as u16) | ((hi as u16) << 8);
    assert(x == lo as u16 + 256 * (hi as u16)) by (bit_vector)
        requires
            x == (lo as u16) | ((hi as u16) << 8u16),
    ;
    assert((x & 0xffu16) as u8 == lo && (x >> 8u16) as u8 == hi) by (bit_vector)
        requires
            x == (lo as u16) | ((hi as u16) << 8u16),
    ;
    assert(le_bytes_u16(x) =~= seq![lo, hi]);
    x
}

pub fn u128_from_le(b: [u8; 16]) -> (x: u128)
    ensures
        le_bytes_u128(x) == b@,
{
    let x = (b[0] as u128) | ((b[1] as u128) << 8) | ((b[2] as u128) << 16) | ((b[3] as u128)
        << 24) | ((b[4] as u128) << 32) | ((b[5] as u128) << 40) | ((b[6] as u128) << 48) | ((
    b[7] as u128) << 56) | ((b[8] as u128) << 64) | ((b[9] as u128) << 72) | ((b[10] as u128)
        << 80) | ((b[11] as u128) << 88) | ((b[12] as u128) << 96) | ((b[13] as u128) << 104) | ((
    b[14] as u128) << 112) | ((b[15] as u128) << 120);
    let b0 = b[0];
    let b1 = b[1];
    let b2 = b[2];
    let b3 = b[3];
    let b4 = b[4];
    let b5 = b[5];
    let b6 = b[6];
    let b7 = b[7];
    let b8 = b[8];
    let b9 = b[9];
    let b10 = b[10];
    let b11 = b[11];
    let b12 = b[12];
    let b13 = b[13];
    let b14 = b[14];
    let b15 = b[15];
    assert(((x >> 0u128) & 0xffu128) as u8 == b0 && ((x >> 8u128) & 0xffu128) as u8 == b1 && ((x
        >> 16u128) & 0xffu128) as u8 == b2 && ((x >> 24u128) & 0xffu128) as u8 == b3 && ((x
        >> 32u128) & 0xffu128) as u8 == b4 && ((x >> 40u128) & 0xffu128) as u8 == b5 && ((x
        >> 48u128) & 0xffu128) as u8 == b6 && ((x >> 56u128) & 0xffu128) as u8 == b7 && ((x
        >> 64u128) & 0xffu128) as u8 == b8 && ((x >> 72u128) & 0xffu128) as u8 == b9 && ((x
        >> 80u128) & 0xffu128) as u8 == b10 && ((x >> 88u128) & 0xffu128) as u8 == b11 && ((x
        >> 96u128) & 0xffu128) as u8 == b12 && ((x >> 104u128) & 0xffu128) as u8 == b13 && ((x
        >> 112u128) & 0xffu128) as u8 == b14 && ((x >> 120u128) & 0xffu128) as u8 == b15)
        by (bit_vector)
        requires
            x == (b0 as u128) | ((b1 as u128) << 8u128) | ((b2 as u128) << 16u128) | ((
            b3 as u128) << 24u128) | ((b4 as u128) << 32u128) | ((b5 as u128) << 40u128) | ((
            b6 as u128) << 48u128) | ((b7 as u128) << 56u128) | ((b8 as u128) << 64u128) | ((
            b9 as u128) << 72u128) | ((b10 as u128) << 80u128) | ((b11 as u128) << 88u128) | ((
            b12 as u128) << 96u128) | ((b13 as u128) << 104u128) | ((b14 as u128) << 112u128)
                | ((b15 as u128) << 120u128),
    ;
    assert(le_bytes_u128(x) =~= b@);
    x
}

pub proof fn lemma_le_bytes_u64_injective(x: u64, y: u64)
    requires
        le_bytes_u64(x) == le_bytes_u64(y),
    ensures
        x == y,
{
    let bx = le_bytes_u64(x);
    let by = le_bytes_u64(y);
    assert(bx[0] == by[0] && bx[1] == by[1] && bx[2] == by[2] && bx[3] == by[3] && bx[4]
        == by[4] && bx[5] == by[5] && bx[6] == by[6] && bx[7] == by[7]);
    assert(((x & 0xffu64) as u8 == (y & 0xffu64) as u8 && ((x >> 8u64) & 0xffu64) as u8 == ((y
        >> 8u64) & 0xffu64) as u8 && ((x >> 16u64) & 0xffu64) as u8 == ((y >> 16u64) & 0xffu64) as u8
        && ((x >> 24u64) & 0xffu64) as u8 == ((y >> 24u64) & 0xffu64) as u8 && ((x >> 32u64)
        & 0xffu64) as u8 == ((y >> 32u64) & 0xffu64) as u8 && ((x >> 40u64) & 0xffu64) as u8 == ((y
        >> 40u64) & 0xffu64) as u8 && ((x >> 48u64) & 0xffu64) as u8 == ((y >> 48u64) & 0xffu64) as u8
        && ((x >> 56u64) & 0xffu64) as u8 == ((y >> 56u64) & 0xffu64) as u8) ==> x == y) by (bit_vector);
}

/// Two numbers with the same little-endian bytes are equal.
pub proof fn lemma_le_bytes_u128_injective(x: u128, y: u128)
    requires
        le_bytes_u128(x) == le_bytes_u128(y),
    ensures
        x == y,
{
    let bx = le_bytes_u128(x);
    let by = le_bytes_u128(y);
    assert(bx[0] == by[0] && bx[1] == by[1] && bx[2] == by[2] && bx[3] == by[3] && bx[4]
        == by[4] && bx[5] == by[5] && bx[6] == by[6] && bx[7] == by[7] && bx[8] == by[8] && bx[9]
        == by[9] && bx[10] == by[10] && bx[11] == by[11] && bx[12] == by[12] && bx[13] == by[13]
        && bx[14] == by[14] && bx[15] == by[15]);
    assert((((x >> 0u128) & 0xffu128) as u8 == ((y >> 0u128) & 0xffu128) as u8 && ((x >> 8u128)
        & 0xffu128) as u8 == ((y >> 8u128) & 0xffu128) as u8 && ((x >> 16u128) & 0xffu128) as u8
        == ((y >> 16u128) & 0xffu128) as u8 && ((x >> 24u128) & 0xffu128) as u8 == ((y >> 24u128)
        & 0xffu128) as u8 && ((x >> 32u128) & 0xffu128) as u8 == ((y >> 32u128) & 0xffu128) as u8
        && ((x >> 40u128) & 0xffu128) as u8 == ((y >> 40u128) & 0xffu128) as u8 && ((x >> 48u128)
        & 0xffu128) as u8 == ((y >> 48u128) & 0xffu128) as u8 && ((x >> 56u128) & 0xffu128) as u8
        == ((y >> 56u128) & 0xffu128) as u8 && ((x >> 64u128) & 0xffu128) as u8 == ((y >> 64u128)
        & 0xffu128) as u8 && ((x >> 72u128) & 0xffu128) as u8 == ((y >> 72u128) & 0xffu128) as u8
        && ((x >> 80u128) & 0xffu128) as u8 == ((y >> 80u128) & 0xffu128) as u8 && ((x >> 88u128)
        & 0xffu128) as u8 == ((y >> 88u128) & 0xffu128) as u8 && ((x >> 96u128) & 0xffu128) as u8
        == ((y >> 96u128) & 0xffu128) as u8 && ((x >> 104u128) & 0xffu128) as u8 == ((y
        >> 104u128) & 0xffu128) as u8 && ((x >> 112u128) & 0xffu128) as u8 == ((y >> 112u128)
        & 0xffu128) as u8 && ((x >> 120u128) & 0xffu128) as u8 == ((y >> 120u128) & 0xffu128) as u8)
        ==> x == y) by (bit_vector);
}

} // verus!
