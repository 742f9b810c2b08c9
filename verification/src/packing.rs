//! Integer packing of quantized vertex data into 32-bit words, and the matching
//! unpacking. The float quantization around it stays with the caller.

use vstd::prelude::*;

verus! {

/// Packs the low bytes of four 16-bit values into one word, first value in the high byte.
pub open spec fn spec_u16x4_to_u32(arr: [u16; 4]) -> u32 {
    (((arr[0] & 0xFF) as u32) << 24u32) | (((arr[1] & 0xFF) as u32) << 16u32) | (((arr[2] & 0xFF) as u32)
        << 8u32) | ((arr[3] & 0xFF) as u32)
}

/// Joint indices of a skinned vertex, each kept to its low byte, in one word.
pub fn u16x4_to_u32(arr: &[u16; 4]) -> (r: u32)
    ensures
        r == spec_u16x4_to_u32(*arr),
{
    let byte1 = (arr[0] & 0xFF) as u32;
    let byte2 = (arr[1] & 0xFF) as u32;
    let byte3 = (arr[2] & 0xFF) as u32;
    let byte4 = (arr[3] & 0xFF) as u32;

    (byte1 << 24u32) | (byte2 << 16u32) | (byte3 << 8u32) | byte4
}

/// Four 8-bit unorm values in one word, `x` in the high byte.
pub fn pack_unorm8x4(x: u32, y: u32, z: u32, w: u32) -> (r: u32)
    requires
        x < 256,
        y < 256,
        z < 256,
        w < 256,
    ensures
        r == (x << 24u32) | (y << 16u32) | (z << 8u32) | w,
        (r >> 24u32) & 0xFF == x,
        (r >> 16u32) & 0xFF == y,
        (r >> 8u32) & 0xFF == z,
        r & 0xFF == w,
{
    let r = (x << 24u32) | (y << 16u32) | (z << 8u32) | w;
    assert((r >> 24u32) & 0xFF == x && (r >> 16u32) & 0xFF == y && (r >> 8u32) & 0xFF == z && r
        & 0xFF == w) by (bit_vector)
        requires
            x < 256,
            y < 256,
            z < 256,
            w < 256,
            r == (x << 24u32) | (y << 16u32) | (z << 8u32) | w,
    ;
    r
}

/// The four 8-bit unorm values of a word, high byte first.
pub fn unpack_unorm8x4(encoded: u32) -> (r: (u32, u32, u32, u32))
    ensures
        r == ((encoded >> 24u32) & 0xFF, (encoded >> 16u32) & 0xFF, (encoded >> 8u32) & 0xFF,
        encoded & 0xFF),
{
    ((encoded >> 24u32) & 0xFF, (encoded >> 16u32) & 0xFF, (encoded >> 8u32) & 0xFF, encoded & 0xFF)
}

/// Two 16-bit unorm values in one word, `x` in the high half.
pub fn pack_unorm16x2(x: u32, y: u32) -> (r: u32)
    requires
        x < 65536,
        y < 65536,
    ensures
        r == (x << 16u32) | y,
        (r >> 16u32) & 0xFFFF == x,
        r & 0xFFFF == y,
{
    let r = (x << 16u32) | y;
    assert((r >> 16u32) & 0xFFFF == x && r & 0xFFFF == y) by (bit_vector)
        requires
            x < 65536,
            y < 65536,
            r == (x << 16u32) | y,
    ;
    r
}

/// The two 16-bit unorm values of a word, high half first.
pub fn unpack_unorm16x2(encoded: u32) -> (r: (u32, u32))
    ensures
        r == ((encoded >> 16u32) & 0xFFFF, encoded & 0xFFFF),
{
    ((encoded >> 16u32) & 0xFFFF, encoded & 0xFFFF)
}

/// Two 15-bit and one 2-bit unorm values in one word: `x` in bits 17..32, `y` in
/// bits 2..17, `z` in bits 0..2.
pub fn pack_bits_15_15_2(x: u32, y: u32, z: u32) -> (r: u32)
    requires
        x < 32768,
        y < 32768,
        z < 4,
    ensures
        r == (x << 17u32) | (y << 2u32) | z,
        (r >> 17u32) & 0x7FFF == x,
        (r >> 2u32) & 0x7FFF == y,
        r & 3 == z,
{
    let r = (x << 17u32) | (y << 2u32) | z;
    assert((r >> 17u32) & 0x7FFF == x && (r >> 2u32) & 0x7FFF == y && r & 3 == z) by (bit_vector)
        requires
            x < 32768,
            y < 32768,
            z < 4,
            r == (x << 17u32) | (y << 2u32) | z,
    ;
    r
}

/// The 15-, 15- and 2-bit unorm values of a word.
pub fn unpack_bits_15_15_2(encoded: u32) -> (r: (u32, u32, u32))
    ensures
        r == ((encoded >> 17u32) & 0x7FFF, (encoded >> 2u32) & 0x7FFF, encoded & 3),
{
    ((encoded >> 17u32) & 0x7FFF, (encoded >> 2u32) & 0x7FFF, encoded & 3)
}

/// Unpacking a packed word gives back the values that were packed.
pub proof fn lemma_unpack_pack_unorm8x4(x: u32, y: u32, z: u32, w: u32)
    requires
        x < 256,
        y < 256,
        z < 256,
        w < 256,
    ensures
        ({
            let r = (x << 24u32) | (y << 16u32) | (z << 8u32) | w;
            (r >> 24u32) & 0xFF == x && (r >> 16u32) & 0xFF == y && (r >> 8u32) & 0xFF == z && r
                & 0xFF == w
        }),
{
    assert(((x << 24u32) | (y << 16u32) | (z << 8u32) | w) >> 24u32 & 0xFF == x && (((x << 24u32)
        | (y << 16u32) | (z << 8u32) | w) >> 16u32) & 0xFF == y && (((x << 24u32) | (y << 16u32)
        | (z << 8u32) | w) >> 8u32) & 0xFF == z && ((x << 24u32) | (y << 16u32) | (z << 8u32) | w)
        & 0xFF == w) by (bit_vector)
        requires
            x < 256,
            y < 256,
            z < 256,
            w < 256,
    ;
}

/// Every word is the packing of its unpacked values: packing loses nothing.
pub proof fn lemma_pack_unpack_unorm8x4(encoded: u32)
    ensures
        (((encoded >> 24u32) & 0xFF) << 24u32) | (((encoded >> 16u32) & 0xFF) << 16u32) | (((encoded
            >> 8u32) & 0xFF) << 8u32) | (encoded & 0xFF) == encoded,
{
    assert((((encoded >> 24u32) & 0xFF) << 24u32) | (((encoded >> 16u32) & 0xFF) << 16u32) | (((
    encoded >> 8u32) & 0xFF) << 8u32) | (encoded & 0xFF) == encoded) by (bit_vector);
}

} // verus!
