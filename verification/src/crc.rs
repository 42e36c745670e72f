//! CRC-32 checksums.
//!
//! A reflected CRC-32 with polynomial 0xEDB88320, a configurable initial
//! value and a final complement. The standard checksum starts from
//! 0xFFFFFFFF; the DSLWP variant used by Longjiang-2 starts from 0x4EE4FDE1.

use vstd::prelude::*;

verus! {

/// Initial value of the DSLWP CRC-32 variant.
pub const CRC32_DSLWP_MAGIC_VALUE: u32 = 0x4EE4FDE1;

/// One bit of the reflected polynomial division: shift right and fold the
/// polynomial back in when a one bit falls out.
pub open spec fn crc32_round(x: u32) -> u32 {
    if x & 1 != 0 {
        (x >> 1) ^ 0xEDB88320u32
    } else {
        x >> 1
    }
}

/// Folding one byte into the running CRC-32 state: eight rounds on the low
/// byte, then combined with the shifted state.
pub open spec fn crc32_push_byte(crc: u32, d: u8) -> u32 {
    let x0: u32 = (crc ^ (d as u32)) & 0xff;
    let x8: u32 = crc32_round(
        crc32_round(
            crc32_round(
                crc32_round(crc32_round(crc32_round(crc32_round(crc32_round(x0))))),
            ),
        ),
    );
    (crc >> 8) ^ x8
}

/// The CRC-32 state after folding a whole byte sequence, starting from the
/// given initial value.
pub open spec fn crc32_state(data: Seq<u8>, init: u32) -> u32
    decreases data.len(),
{
    if data.len() == 0 {
        init
    } else {
        crc32_push_byte(crc32_state(data.drop_last(), init), data.last())
    }
}

/// The CRC-32 of a byte sequence: the folded state, complemented.
pub open spec fn crc32_spec(data: Seq<u8>, init: u32) -> u32 {
    crc32_state(data, init) ^ 0xFFFFFFFFu32
}

/// CRC-32 with a caller-chosen initial value.
pub fn crc32_with_init_value(data: &[u8], init_value: u32) -> (r: u32)
    ensures
        r == crc32_spec(data@, init_value),
{
    let mut crc: u32 = init_value;
    let mut i: usize = 0;
    while i < data.len()
        invariant
            i <= data@.len(),
            crc == crc32_state(data@.subrange(0, i as int), init_value),
        decreases data@.len() - i,
    {
        let d: u8 = data[i];
        let mut x: u32 = (crc ^ (d as u32)) & 0xff;
        x = if x & 1 != 0 {
            (x >> 1) ^ 0xEDB88320
        } else {
            x >> 1
        };
        x = if x & 1 != 0 {
            (x >> 1) ^ 0xEDB88320
        } else {
            x >> 1
        };
        x = if x & 1 != 0 {
            (x >> 1) ^ 0xEDB88320
        } else {
            x >> 1
        };
        x = if x & 1 != 0 {
            (x >> 1) ^ 0xEDB88320
        } else {
            x >> 1
        };
        x = if x & 1 != 0 {
            (x >> 1) ^ 0xEDB88320
        } else {
            x >> 1
        };
        x = if x & 1 != 0 {
            (x >> 1) ^ 0xEDB88320
        } else {
            x >> 1
        };
        x = if x & 1 != 0 {
            (x >> 1) ^ 0xEDB88320
        } else {
            x >> 1
        };
        x = if x & 1 != 0 {
            (x >> 1) ^ 0xEDB88320
        } else {
            x >> 1
        };
        crc = (crc >> 8) ^ x;
        proof {
            let prefix = data@.subrange(0, (i + 1) as int);
            assert(prefix.drop_last() =~= data@.subrange(0, i as int));
            assert(prefix.last() == data@[i as int]);
        }
        i = i + 1;
    }
    proof {
        assert(data@.subrange(0, data@.len() as int) =~= data@);
    }
    crc ^ 0xFFFFFFFF
}

/// The standard CRC-32 of a byte slice.
pub fn crc32(data: &[u8]) -> (r: u32)
    ensures
        r == crc32_spec(data@, 0xFFFFFFFFu32),
{
    crc32_with_init_value(data, 0xFFFFFFFF)
}

/// The DSLWP-variant CRC-32 of a byte slice.
pub fn crc32_dslwp(data: &[u8]) -> (r: u32)
    ensures
        r == crc32_spec(data@, CRC32_DSLWP_MAGIC_VALUE),
{
    crc32_with_init_value(data, CRC32_DSLWP_MAGIC_VALUE)
}

/// CRC-32 over the byte range [start, end) of a buffer, with a caller-chosen
/// initial value.
pub fn crc32_range(data: &Vec<u8>, start: usize, end: usize, init_value: u32) -> (r: u32)
    requires
        start <= end <= data@.len(),
    ensures
        r == crc32_spec(data@.subrange(start as int, end as int), init_value),
{
    let mut crc: u32 = init_value;
    let mut i: usize = start;
    while i < end
        invariant
            start <= i <= end <= data@.len(),
            crc == crc32_state(data@.subrange(start as int, i as int), init_value),
        decreases end - i,
    {
        let d: u8 = data[i];
        let mut x: u32 = (crc ^ (d as u32)) & 0xff;
        x = if x & 1 != 0 {
            (x >> 1) ^ 0xEDB88320
        } else {
            x >> 1
        };
        x = if x & 1 != 0 {
            (x >> 1) ^ 0xEDB88320
        } else {
            x >> 1
        };
        x = if x & 1 != 0 {
            (x >> 1) ^ 0xEDB88320
        } else {
            x >> 1
        };
        x = if x & 1 != 0 {
            (x >> 1) ^ 0xEDB88320
        } else {
            x >> 1
        };
        x = if x & 1 != 0 {
            (x >> 1) ^ 0xEDB88320
        } else {
            x >> 1
        };
        x = if x & 1 != 0 {
            (x >> 1) ^ 0xEDB88320
        } else {
            x >> 1
        };
        x = if x & 1 != 0 {
            (x >> 1) ^ 0xEDB88320
        } else {
            x >> 1
        };
        x = if x & 1 != 0 {
            (x >> 1) ^ 0xEDB88320
        } else {
            x >> 1
        };
        crc = (crc >> 8) ^ x;
        proof {
            let prefix = data@.subrange(start as int, (i + 1) as int);
            assert(prefix.drop_last() =~= data@.subrange(start as int, i as int));
            assert(prefix.last() == data@[i as int]);
        }
        i = i + 1;
    }
    crc ^ 0xFFFFFFFF
}

} // verus!
