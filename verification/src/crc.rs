//! CRC-8/DVB-S2: polynomial 0xD5, initial value 0, no reflection, no final xor.

use vstd::prelude::*;

verus! {

/// One shift step of the CRC register: shift left, xor the polynomial in
/// when the bit shifted out was set.
pub open spec fn crc8_shift(c: u8) -> u8 {
    if c & 0x80u8 != 0 {
        (c << 1u8) ^ 0xD5u8
    } else {
        c << 1u8
    }
}

/// `n` shift steps of the CRC register.
pub open spec fn crc8_shift_n(c: u8, n: nat) -> u8
    decreases n,
{
    if n == 0 {
        c
    } else {
        crc8_shift(crc8_shift_n(c, (n - 1) as nat))
    }
}

/// The register after feeding one byte.
pub open spec fn crc8_update(crc: u8, b: u8) -> u8 {
    crc8_shift_n(crc ^ b, 8)
}

/// The register after feeding `data`, starting from `init`.
pub open spec fn crc8_fold(init: u8, data: Seq<u8>) -> u8
    decreases data.len(),
{
    if data.len() == 0 {
        init
    } else {
        crc8_update(crc8_fold(init, data.drop_last()), data.last())
    }
}

/// CRC-8/DVB-S2 of a byte sequence.
pub open spec fn crc8_spec(data: Seq<u8>) -> u8 {
    crc8_fold(0, data)
}

/// Computes the CRC-8/DVB-S2 checksum of `data`.
pub fn crc8_dvb_s2(data: &[u8]) -> (crc: u8)
    ensures
        crc == crc8_spec(data@),
{
    let mut crc: u8 = 0;
    let mut i: usize = 0;
    while i < data.len()
        invariant
            i <= data.len(),
            crc == crc8_fold(0, data@.take(i as int)),
        decreases data.len() - i,
    {
        let b = data[i];
        proof {
            assert(data@.take(i + 1).drop_last() =~= data@.take(i as int));
        }
        let c0: u8 = crc ^ b;
        crc = c0;
        let mut k: u32 = 0;
        while k < 8
            invariant
                k <= 8,
                crc == crc8_shift_n(c0, k as nat),
            decreases 8 - k,
        {
            if crc & 0x80 != 0 {
                crc = (crc << 1) ^ 0xD5;
            } else {
                crc = crc << 1;
            }
            k = k + 1;
        }
        i = i + 1;
    }
    proof {
        assert(data@.take(data.len() as int) =~= data@);
    }
    crc
}

/// Appending its own checksum to a message gives a message whose checksum
/// is zero: feeding a byte equal to the register clears it.
pub proof fn lemma_crc8_residue_zero(data: Seq<u8>)
    ensures
        crc8_spec(data.push(crc8_spec(data))) == 0,
{
    let c = crc8_spec(data);
    assert(data.push(c).drop_last() =~= data);
    assert(c ^ c == 0u8) by (bit_vector);
    assert(crc8_shift(0) == 0u8) by (bit_vector);
    reveal_with_fuel(crc8_shift_n, 9);
}

/// One shift step of the register, in arithmetic: double it, and when the
/// top bit was set drop it and xor in the polynomial 0xD5.
proof fn lemma_crc8_shift_arith(c: u8)
    ensures
        crc8_shift(c) == if c >= 128u8 {
            ((2 * c - 256) as u8) ^ 0xD5u8
        } else {
            (2 * c) as u8
        },
{
    assert(crc8_shift(c) == if c >= 128u8 {
        ((2 * c - 256) as u8) ^ 0xD5u8
    } else {
        (2 * c) as u8
    }) by (bit_vector);
}

/// CRC-8/DVB-S2 byte by byte: the empty message has checksum 0, and
/// appending any byte `b`, zero included, xors `b` into the checksum so far
/// and then runs eight steps that double the register, dropping its top bit
/// and xoring in 0xD5 whenever that bit was set.
pub proof fn lemma_crc8_appended_byte(d: Seq<u8>, b: u8)
    ensures
        crc8_spec(Seq::empty()) == 0,
        crc8_spec(d.push(b)) == {
            let c0 = crc8_spec(d) ^ b;
            let c1 = if c0 >= 128u8 {
                ((2 * c0 - 256) as u8) ^ 0xD5u8
            } else {
                (2 * c0) as u8
            };
            let c2 = if c1 >= 128u8 {
                ((2 * c1 - 256) as u8) ^ 0xD5u8
            } else {
                (2 * c1) as u8
            };
            let c3 = if c2 >= 128u8 {
                ((2 * c2 - 256) as u8) ^ 0xD5u8
            } else {
                (2 * c2) as u8
            };
            let c4 = if c3 >= 128u8 {
                ((2 * c3 - 256) as u8) ^ 0xD5u8
            } else {
                (2 * c3) as u8
            };
            let c5 = if c4 >= 128u8 {
                ((2 * c4 - 256) as u8) ^ 0xD5u8
            } else {
                (2 * c4) as u8
            };
            let c6 = if c5 >= 128u8 {
                ((2 * c5 - 256) as u8) ^ 0xD5u8
            } else {
                (2 * c5) as u8
            };
            let c7 = if c6 >= 128u8 {
                ((2 * c6 - 256) as u8) ^ 0xD5u8
            } else {
                (2 * c6) as u8
            };
            if c7 >= 128u8 {
                ((2 * c7 - 256) as u8) ^ 0xD5u8
            } else {
                (2 * c7) as u8
            }
        },
{
    assert(d.push(b).drop_last() =~= d);
    let c0 = crc8_spec(d) ^ b;
    reveal_with_fuel(crc8_shift_n, 9);
    lemma_crc8_shift_arith(c0);
    lemma_crc8_shift_arith(crc8_shift_n(c0, 1));
    lemma_crc8_shift_arith(crc8_shift_n(c0, 2));
    lemma_crc8_shift_arith(crc8_shift_n(c0, 3));
    lemma_crc8_shift_arith(crc8_shift_n(c0, 4));
    lemma_crc8_shift_arith(crc8_shift_n(c0, 5));
    lemma_crc8_shift_arith(crc8_shift_n(c0, 6));
    lemma_crc8_shift_arith(crc8_shift_n(c0, 7));
}

} // verus!
