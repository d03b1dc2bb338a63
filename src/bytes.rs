use vstd::prelude::*;

verus! {

/// Unsigned little-endian value of the two bytes at `i`.
pub open spec fn le_u16(b: Seq<u8>, i: int) -> int {
    b[i] as int + 256 * b[i + 1] as int
}

/// Unsigned little-endian value of the three bytes at `i`.
pub open spec fn le_u24(b: Seq<u8>, i: int) -> int {
    le_u16(b, i) + 65536 * b[i + 2] as int
}

/// Unsigned little-endian value of the four bytes at `i`.
pub open spec fn le_u32(b: Seq<u8>, i: int) -> int {
    le_u24(b, i) + 16777216 * b[i + 3] as int
}

/// Unsigned little-endian value of the eight bytes at `i`.
pub open spec fn le_u64(b: Seq<u8>, i: int) -> int {
    le_u32(b, i) + 4294967296 * le_u32(b, i + 4)
}

/// Unsigned little-endian value of the sixteen bytes at `i`.
pub open spec fn le_u128(b: Seq<u8>, i: int) -> int {
    le_u64(b, i) + 18446744073709551616 * le_u64(b, i + 8)
}

/// Two's-complement value of the two bytes at `i`.
pub open spec fn le_i16(b: Seq<u8>, i: int) -> int {
    if b[i + 1] >= 128 { le_u16(b, i) - 65536 } else { le_u16(b, i) }
}

/// Value of the three bytes at `i`, sign-extended from the top bit of the last one.
pub open spec fn le_i24(b: Seq<u8>, i: int) -> int {
    if b[i + 2] >= 128 { le_u24(b, i) - 16777216 } else { le_u24(b, i) }
}

/// Two's-complement value of the four bytes at `i`.
pub open spec fn le_i32(b: Seq<u8>, i: int) -> int {
    if b[i + 3] >= 128 { le_u32(b, i) - 4294967296 } else { le_u32(b, i) }
}

/// Two's-complement value of the eight bytes at `i`.
pub open spec fn le_i64(b: Seq<u8>, i: int) -> int {
    if b[i + 7] >= 128 { le_u64(b, i) - 18446744073709551616 } else { le_u64(b, i) }
}

/// Whether `n` bytes can be read at `pos`.
pub open spec fn fits(b: Seq<u8>, pos: int, n: int) -> bool {
    0 <= pos && pos + n <= b.len()
}

pub proof fn lemma_le_u32_range(b: Seq<u8>, i: int)
    requires
        fits(b, i, 4),
    ensures
        0 <= le_u32(b, i) <= u32::MAX,
{
}

pub fn read_u8(b: &Vec<u8>, pos: u64) -> (r: Option<u8>)
    ensures
        r == (if fits(b@, pos as int, 1) { Some(b@[pos as int]) } else { None::<u8> }),
{
    if pos < b.len() as u64 {
        Some(b[pos as usize])
    } else {
        None
    }
}

pub fn read_u16(b: &Vec<u8>, pos: u64) -> (r: Option<u16>)
    ensures
        r == (if fits(b@, pos as int, 2) { Some(le_u16(b@, pos as int) as u16) } else { None::<u16> }),
        r is Some ==> r->0 as int == le_u16(b@, pos as int),
{
    if pos < b.len() as u64 && b.len() as u64 - pos >= 2 {
        let i = pos as usize;
        Some(b[i] as u16 + 256 * (b[i + 1] as u16))
    } else {
        None
    }
}

pub fn read_u24(b: &Vec<u8>, pos: u64) -> (r: Option<u32>)
    ensures
        r == (if fits(b@, pos as int, 3) { Some(le_u24(b@, pos as int) as u32) } else { None::<u32> }),
        r is Some ==> r->0 as int == le_u24(b@, pos as int),
{
    if pos < b.len() as u64 && b.len() as u64 - pos >= 3 {
        let i = pos as usize;
        Some(b[i] as u32 + 256 * (b[i + 1] as u32) + 65536 * (b[i + 2] as u32))
    } else {
        None
    }
}

pub fn read_u32(b: &Vec<u8>, pos: u64) -> (r: Option<u32>)
    ensures
        r == (if fits(b@, pos as int, 4) { Some(le_u32(b@, pos as int) as u32) } else { None::<u32> }),
        r is Some ==> r->0 as int == le_u32(b@, pos as int),
{
    if pos < b.len() as u64 && b.len() as u64 - pos >= 4 {
        let i = pos as usize;
        Some(b[i] as u32 + 256 * (b[i + 1] as u32) + 65536 * (b[i + 2] as u32) + 16777216 * (b[i + 3] as u32))
    } else {
        None
    }
}

pub fn read_u64(b: &Vec<u8>, pos: u64) -> (r: Option<u64>)
    ensures
        r == (if fits(b@, pos as int, 8) { Some(le_u64(b@, pos as int) as u64) } else { None::<u64> }),
        r is Some ==> r->0 as int == le_u64(b@, pos as int),
{
    if pos < b.len() as u64 && b.len() as u64 - pos >= 8 {
        let lo = read_u32(b, pos).unwrap();
        let hi = read_u32(b, pos + 4).unwrap();
        Some(lo as u64 + 4294967296 * (hi as u64))
    } else {
        None
    }
}

pub fn read_u128(b: &Vec<u8>, pos: u64) -> (r: Option<u128>)
    ensures
        r == (if fits(b@, pos as int, 16) { Some(le_u128(b@, pos as int) as u128) } else { None::<u128> }),
        r is Some ==> r->0 as int == le_u128(b@, pos as int),
{
    if pos < b.len() as u64 && b.len() as u64 - pos >= 16 {
        let lo = read_u64(b, pos).unwrap();
        let hi = read_u64(b, pos + 8).unwrap();
        Some(lo as u128 + 18446744073709551616 * (hi as u128))
    } else {
        None
    }
}

pub fn read_i16(b: &Vec<u8>, pos: u64) -> (r: Option<i16>)
    ensures
        r is Some <==> fits(b@, pos as int, 2),
        r is Some ==> r->0 as int == le_i16(b@, pos as int),
{
    match read_u16(b, pos) {
        Some(u) => {
            if u >= 32768 {
                Some((u as i32 - 65536) as i16)
            } else {
                Some(u as i16)
            }
        },
        None => None,
    }
}

/// Reads three bytes and sign-extends them to 32 bits.
pub fn read_i24(b: &Vec<u8>, pos: u64) -> (r: Option<i32>)
    ensures
        r is Some <==> fits(b@, pos as int, 3),
        r is Some ==> r->0 as int == le_i24(b@, pos as int),
{
    match read_u24(b, pos) {
        Some(u) => {
            if u >= 8388608 {
                Some(u as i32 - 16777216)
            } else {
                Some(u as i32)
            }
        },
        None => None,
    }
}

pub fn read_i32(b: &Vec<u8>, pos: u64) -> (r: Option<i32>)
    ensures
        r is Some <==> fits(b@, pos as int, 4),
        r is Some ==> r->0 as int == le_i32(b@, pos as int),
{
    match read_u32(b, pos) {
        Some(u) => {
            if u >= 2147483648 {
                Some((u as i64 - 4294967296) as i32)
            } else {
                Some(u as i32)
            }
        },
        None => None,
    }
}

pub fn read_i64(b: &Vec<u8>, pos: u64) -> (r: Option<i64>)
    ensures
        r is Some <==> fits(b@, pos as int, 8),
        r is Some ==> r->0 as int == le_i64(b@, pos as int),
{
    match read_u64(b, pos) {
        Some(u) => {
            if u >= 9223372036854775808 {
                Some((u as i128 - 18446744073709551616) as i64)
            } else {
                Some(u as i64)
            }
        },
        None => None,
    }
}

/// Unsigned big-endian value of the two bytes at `i`.
pub open spec fn be_u16(b: Seq<u8>, i: int) -> int {
    256 * b[i] as int + b[i + 1] as int
}

/// Unsigned big-endian value of the three bytes at `i`.
pub open spec fn be_u24(b: Seq<u8>, i: int) -> int {
    65536 * b[i] as int + be_u16(b, i + 1)
}

/// Unsigned big-endian value of the four bytes at `i`.
pub open spec fn be_u32(b: Seq<u8>, i: int) -> int {
    16777216 * b[i] as int + be_u24(b, i + 1)
}

/// Unsigned big-endian value of the eight bytes at `i`.
pub open spec fn be_u64(b: Seq<u8>, i: int) -> int {
    4294967296 * be_u32(b, i) + be_u32(b, i + 4)
}

/// Two's-complement big-endian value of the two bytes at `i`.
pub open spec fn be_i16(b: Seq<u8>, i: int) -> int {
    if b[i] >= 128 { be_u16(b, i) - 65536 } else { be_u16(b, i) }
}

/// Big-endian value of the three bytes at `i`, sign-extended from the top bit of the first one.
pub open spec fn be_i24(b: Seq<u8>, i: int) -> int {
    if b[i] >= 128 { be_u24(b, i) - 16777216 } else { be_u24(b, i) }
}

/// Two's-complement big-endian value of the four bytes at `i`.
pub open spec fn be_i32(b: Seq<u8>, i: int) -> int {
    if b[i] >= 128 { be_u32(b, i) - 4294967296 } else { be_u32(b, i) }
}

/// Two's-complement big-endian value of the eight bytes at `i`.
pub open spec fn be_i64(b: Seq<u8>, i: int) -> int {
    if b[i] >= 128 { be_u64(b, i) - 18446744073709551616 } else { be_u64(b, i) }
}

pub fn read_u16_be(b: &Vec<u8>, pos: u64) -> (r: Option<u16>)
    ensures
        r is Some <==> fits(b@, pos as int, 2),
        r is Some ==> r->0 as int == be_u16(b@, pos as int),
{
    if pos < b.len() as u64 && b.len() as u64 - pos >= 2 {
        let i = pos as usize;
        Some(256 * (b[i] as u16) + b[i + 1] as u16)
    } else {
        None
    }
}

pub fn read_u24_be(b: &Vec<u8>, pos: u64) -> (r: Option<u32>)
    ensures
        r is Some <==> fits(b@, pos as int, 3),
        r is Some ==> r->0 as int == be_u24(b@, pos as int),
{
    if pos < b.len() as u64 && b.len() as u64 - pos >= 3 {
        let i = pos as usize;
        Some(65536 * (b[i] as u32) + 256 * (b[i + 1] as u32) + b[i + 2] as u32)
    } else {
        None
    }
}

pub fn read_u32_be(b: &Vec<u8>, pos: u64) -> (r: Option<u32>)
    ensures
        r is Some <==> fits(b@, pos as int, 4),
        r is Some ==> r->0 as int == be_u32(b@, pos as int),
{
    if pos < b.len() as u64 && b.len() as u64 - pos >= 4 {
        let i = pos as usize;
        Some(16777216 * (b[i] as u32) + 65536 * (b[i + 1] as u32) + 256 * (b[i + 2] as u32) + b[i + 3] as u32)
    } else {
        None
    }
}

pub fn read_u64_be(b: &Vec<u8>, pos: u64) -> (r: Option<u64>)
    ensures
        r is Some <==> fits(b@, pos as int, 8),
        r is Some ==> r->0 as int == be_u64(b@, pos as int),
{
    if pos < b.len() as u64 && b.len() as u64 - pos >= 8 {
        let hi = read_u32_be(b, pos).unwrap();
        let lo = read_u32_be(b, pos + 4).unwrap();
        Some(4294967296 * (hi as u64) + lo as u64)
    } else {
        None
    }
}

pub fn read_i16_be(b: &Vec<u8>, pos: u64) -> (r: Option<i16>)
    ensures
        r is Some <==> fits(b@, pos as int, 2),
        r is Some ==> r->0 as int == be_i16(b@, pos as int),
{
    match read_u16_be(b, pos) {
        Some(u) => {
            if u >= 32768 {
                Some((u as i32 - 65536) as i16)
            } else {
                Some(u as i16)
            }
        },
        None => None,
    }
}

/// Reads three big-endian bytes and sign-extends them to 32 bits.
pub fn read_i24_be(b: &Vec<u8>, pos: u64) -> (r: Option<i32>)
    ensures
        r is Some <==> fits(b@, pos as int, 3),
        r is Some ==> r->0 as int == be_i24(b@, pos as int),
{
    match read_u24_be(b, pos) {
        Some(u) => {
            if u >= 8388608 {
                Some(u as i32 - 16777216)
            } else {
                Some(u as i32)
            }
        },
        None => None,
    }
}

pub fn read_i32_be(b: &Vec<u8>, pos: u64) -> (r: Option<i32>)
    ensures
        r is Some <==> fits(b@, pos as int, 4),
        r is Some ==> r->0 as int == be_i32(b@, pos as int),
{
    match read_u32_be(b, pos) {
        Some(u) => {
            if u >= 2147483648 {
                Some((u as i64 - 4294967296) as i32)
            } else {
                Some(u as i32)
            }
        },
        None => None,
    }
}

pub fn read_i64_be(b: &Vec<u8>, pos: u64) -> (r: Option<i64>)
    ensures
        r is Some <==> fits(b@, pos as int, 8),
        r is Some ==> r->0 as int == be_i64(b@, pos as int),
{
    match read_u64_be(b, pos) {
        Some(u) => {
            if u >= 9223372036854775808 {
                Some((u as i128 - 18446744073709551616) as i64)
            } else {
                Some(u as i64)
            }
        },
        None => None,
    }
}

} // verus!
