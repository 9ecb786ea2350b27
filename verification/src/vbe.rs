//! The variable-byte integers of the map format.
//!
//! An integer is spelled in groups of seven bits, least significant group
//! first, one group per byte. The top bit of a byte says that another byte
//! follows. In the signed form the last byte holds six bits of the
//! magnitude, and its bit 6 is the sign. No integer is longer than five
//! bytes, and its value has to fit in 32 bits.

use vstd::prelude::*;

use crate::bytes::{in_range, lift, read_u8};
use crate::error::MapforgeError;
use crate::types::MapHeader;

verus! {

/// The most bytes one variable-byte integer may take.
pub const MAX_VBE_BYTES: usize = 5;

/// 128 to the power `k`.
pub open spec fn pow128(k: nat) -> nat
    decreases k,
{
    if k == 0 {
        1
    } else {
        128 * pow128((k - 1) as nat)
    }
}

/// Whether the byte says that another byte follows.
pub open spec fn continues(b: u8) -> bool {
    b >= 128
}

/// How many bytes from `pos` on, `limit` at most, say that another follows.
pub open spec fn continuation_run(data: Seq<u8>, pos: int, limit: nat) -> nat
    decreases limit,
{
    if limit == 0 || !in_range(data, pos, 1) || !continues(data[pos]) {
        0
    } else {
        1 + continuation_run(data, pos + 1, (limit - 1) as nat)
    }
}

/// The number that the low seven bits of the `n` bytes from `pos` on spell,
/// least significant group first.
pub open spec fn groups_value(data: Seq<u8>, pos: int, n: nat) -> int
    decreases n,
{
    if n == 0 {
        0
    } else {
        groups_value(data, pos, (n - 1) as nat) + (data[pos + n - 1] % 128) * pow128((n - 1) as nat)
    }
}

/// The unsigned integer spelled at `pos`, and the position behind it.
///
/// Five bytes that all announce another byte are malformed, and so is a
/// value above `u32::MAX`. Bytes that end before the last byte of the
/// integer are a short read.
pub open spec fn spec_read_vbe_u_int(data: Seq<u8>, pos: int) -> Result<(u32, int), MapforgeError> {
    let run = continuation_run(data, pos, MAX_VBE_BYTES as nat);
    if run >= MAX_VBE_BYTES {
        Err(MapforgeError::InvalidVBEInteger)
    } else if !in_range(data, pos + run, 1) {
        Err(MapforgeError::short_read())
    } else {
        let value = groups_value(data, pos, run + 1);
        if value > u32::MAX {
            Err(MapforgeError::InvalidVBEInteger)
        } else {
            Ok((value as u32, pos + run + 1))
        }
    }
}

/// The signed integer spelled at `pos`, and the position behind it.
///
/// Its magnitude is spelled by the seven-bit groups of the leading bytes and
/// the low six bits of the last byte; bit 6 of the last byte makes it
/// negative. A value outside the range of `i32` is malformed.
pub open spec fn spec_read_vbe_s_int(data: Seq<u8>, pos: int) -> Result<(i32, int), MapforgeError> {
    let run = continuation_run(data, pos, MAX_VBE_BYTES as nat);
    if run >= MAX_VBE_BYTES {
        Err(MapforgeError::InvalidVBEInteger)
    } else if !in_range(data, pos + run, 1) {
        Err(MapforgeError::short_read())
    } else {
        let last = data[pos + run];
        let magnitude = groups_value(data, pos, run) + (last % 64) * pow128(run);
        let value = if last >= 64 {
            -magnitude
        } else {
            magnitude
        };
        if value < i32::MIN || value > i32::MAX {
            Err(MapforgeError::InvalidVBEInteger)
        } else {
            Ok((value as i32, pos + run + 1))
        }
    }
}

/// The bytes of one integer, split into what its leading bytes spell, the
/// weight of its last byte, the last byte itself and the position behind it.
struct Groups {
    low: u64,
    scale: u64,
    last: u8,
    end: usize,
}

/// The first six powers of 128.
proof fn lemma_pow128_values()
    ensures
        pow128(0) == 1,
        pow128(1) == 128,
        pow128(2) == 16384,
        pow128(3) == 2097152,
        pow128(4) == 268435456,
        pow128(5) == 34359738368,
{
    reveal_with_fuel(pow128, 6);
}

/// Walks over the bytes of the integer at `pos` up to its last byte.
fn read_groups(data: &[u8], pos: usize) -> (r: Result<Groups, MapforgeError>)
    ensures
        match r {
            Ok(g) => {
                let run = continuation_run(data@, pos as int, MAX_VBE_BYTES as nat);
                &&& run < MAX_VBE_BYTES
                &&& in_range(data@, pos + run, 1)
                &&& g.low == groups_value(data@, pos as int, run)
                &&& g.scale == pow128(run)
                &&& g.last == data@[pos + run]
                &&& g.last < 128
                &&& g.low < g.scale <= 268435456
                &&& g.end == pos + run + 1
            },
            Err(e) => {
                let run = continuation_run(data@, pos as int, MAX_VBE_BYTES as nat);
                if run >= MAX_VBE_BYTES {
                    e == MapforgeError::InvalidVBEInteger
                } else {
                    !in_range(data@, pos + run, 1) && e == MapforgeError::short_read()
                }
            },
        },
{
    let mut k: usize = 0;
    let mut low: u64 = 0;
    let mut scale: u64 = 1;
    let mut at: usize = pos;
    proof {
        lemma_pow128_values();
    }
    while k < MAX_VBE_BYTES
        invariant
            k <= MAX_VBE_BYTES,
            at == pos + k,
            continuation_run(data@, pos as int, MAX_VBE_BYTES as nat) == k + continuation_run(
                data@,
                pos + k,
                (MAX_VBE_BYTES - k) as nat,
            ),
            low == groups_value(data@, pos as int, k as nat),
            scale == pow128(k as nat),
            low < scale,
        decreases MAX_VBE_BYTES - k,
    {
        proof {
            lemma_pow128_values();
        }
        let (b, next) = match read_u8(data, at) {
            Ok(read) => read,
            Err(e) => {
                return Err(e);
            },
        };
        if b < 128 {
            assert(scale <= 268435456) by {
                assert(k == 0 || k == 1 || k == 2 || k == 3 || k == 4);
            }
            return Ok(Groups { low, scale, last: b, end: next });
        }
        let group: u64 = (b % 128) as u64;
        assert(group * scale <= 127 * scale) by (nonlinear_arith)
            requires
                group <= 127,
                scale >= 0,
        ;
        low = low + group * scale;
        scale = scale * 128;
        k = k + 1;
        at = next;
    }
    Err(MapforgeError::InvalidVBEInteger)
}

impl MapHeader {
    /// Reads the unsigned variable-byte integer at `pos`.
    pub fn read_vbe_u_int(data: &[u8], pos: usize) -> (r: Result<(u32, usize), MapforgeError>)
        ensures
            lift(r) == spec_read_vbe_u_int(data@, pos as int),
    {
        let g = match read_groups(data, pos) {
            Ok(g) => g,
            Err(e) => {
                return Err(e);
            },
        };
        proof {
            lemma_pow128_values();
        }
        let last: u64 = g.last as u64;
        assert(last * g.scale <= 127 * g.scale) by (nonlinear_arith)
            requires
                last <= 127,
                g.scale >= 0,
        ;
        let value: u64 = g.low + last * g.scale;
        if value > u32::MAX as u64 {
            return Err(MapforgeError::InvalidVBEInteger);
        }
        Ok((value as u32, g.end))
    }

    /// Reads the signed variable-byte integer at `pos`.
    pub fn read_vbe_s_int(data: &[u8], pos: usize) -> (r: Result<(i32, usize), MapforgeError>)
        ensures
            lift(r) == spec_read_vbe_s_int(data@, pos as int),
    {
        let g = match read_groups(data, pos) {
            Ok(g) => g,
            Err(e) => {
                return Err(e);
            },
        };
        proof {
            lemma_pow128_values();
        }
        let bits: u64 = (g.last % 64) as u64;
        assert(bits * g.scale <= 63 * g.scale) by (nonlinear_arith)
            requires
                bits <= 63,
                g.scale >= 0,
        ;
        let magnitude: i64 = (g.low + bits * g.scale) as i64;
        let value: i64 = if g.last >= 64 {
            -magnitude
        } else {
            magnitude
        };
        if value < i32::MIN as i64 || value > i32::MAX as i64 {
            return Err(MapforgeError::InvalidVBEInteger);
        }
        Ok((value as i32, g.end))
    }
}

} // verus!
