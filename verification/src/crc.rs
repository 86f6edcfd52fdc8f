//! Standard CRC-32 (IEEE 802.3, reflected polynomial `0xEDB88320`), used by
//! GPT headers.
use vstd::prelude::*;

verus! {

/// One bit of the reflected CRC-32 shift register.
pub open spec fn crc_bit(c: u32) -> u32 {
    if c & 1 == 1 {
        (c >> 1) ^ 0xEDB8_8320u32
    } else {
        c >> 1
    }
}

/// `n` register steps.
pub open spec fn crc_bits(c: u32, n: nat) -> u32
    decreases n,
{
    if n == 0 {
        c
    } else {
        crc_bits(crc_bit(c), (n - 1) as nat)
    }
}

/// The register after feeding one byte.
pub open spec fn crc_byte(c: u32, b: u8) -> u32 {
    crc_bits(c ^ (b as u32), 8)
}

/// The register after feeding `s`, starting from all ones.
pub open spec fn crc_register(s: Seq<u8>) -> u32
    decreases s.len(),
{
    if s.len() == 0 {
        0xFFFF_FFFFu32
    } else {
        crc_byte(crc_register(s.drop_last()), s.last())
    }
}

/// The CRC-32 of `s`: the final register, inverted.
pub open spec fn crc32_spec(s: Seq<u8>) -> u32 {
    !crc_register(s)
}

/// CRC-32 of `data`.
pub fn crc32(data: &[u8]) -> (r: u32)
    ensures
        r == crc32_spec(data@),
{
    let mut crc: u32 = 0xFFFF_FFFF;
    let mut i: usize = 0;
    while i < data.len()
        invariant
            0 <= i <= data@.len(),
            crc == crc_register(data@.take(i as int)),
        decreases data@.len() - i,
    {
        let b = data[i];
        let ghost start = crc ^ (b as u32);
        crc = crc ^ (b as u32);
        let mut k: usize = 0;
        while k < 8
            invariant
                0 <= k <= 8,
                crc_bits(start, 8) == crc_bits(crc, (8 - k) as nat),
            decreases 8 - k,
        {
            crc = if crc & 1 == 1 {
                (crc >> 1) ^ 0xEDB8_8320
            } else {
                crc >> 1
            };
            k += 1;
        }
        proof {
            let t = data@.take(i + 1);
            assert(t.drop_last() =~= data@.take(i as int));
            assert(t.last() == b);
        }
        i += 1;
    }
    assert(data@.take(data@.len() as int) =~= data@);
    !crc
}

} // verus!
