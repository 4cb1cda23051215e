//! Big-endian bit sequences over bytes and over 11-bit word groups.
//!
//! The mnemonic codec concatenates entropy bits with checksum bits and
//! slices the result into 11-bit groups; everything here is phrased over a
//! single model, `Seq<bool>` in big-endian order, so that the encode and
//! decode directions can be related bit by bit.

use vstd::prelude::*;

verus! {

/// Bit `i` of a byte, big-endian: bit 0 is the most significant.
pub open spec fn u8_bit(b: u8, i: int) -> bool {
    (b >> ((7 - i) as u8)) & 1u8 == 1u8
}

/// Bit `i` of an 11-bit group value, big-endian: bit 0 is the most
/// significant of the 11 bits in use.
pub open spec fn u16_bit(x: u16, i: int) -> bool {
    (x >> ((10 - i) as u16)) & 1u16 == 1u16
}

/// The bits of a byte sequence, big-endian within each byte.
pub open spec fn bytes_to_bits(s: Seq<u8>) -> Seq<bool> {
    Seq::new(s.len() * 8, |i: int| u8_bit(s[i / 8], i % 8))
}

/// The bits of a sequence of 11-bit groups.
pub open spec fn groups_to_bits(s: Seq<u16>) -> Seq<bool> {
    Seq::new(s.len() * 11, |i: int| u16_bit(s[i / 11], i % 11))
}

/// The byte whose bits stand at positions `8*j .. 8*j + 8` of `bits`.
pub open spec fn byte_at(bits: Seq<bool>, j: int) -> u8 {
    (if bits[8 * j] { 128u8 } else { 0u8 }) | (if bits[8 * j + 1] { 64u8 } else { 0u8 })
        | (if bits[8 * j + 2] { 32u8 } else { 0u8 }) | (if bits[8 * j + 3] { 16u8 } else { 0u8 })
        | (if bits[8 * j + 4] { 8u8 } else { 0u8 }) | (if bits[8 * j + 5] { 4u8 } else { 0u8 })
        | (if bits[8 * j + 6] { 2u8 } else { 0u8 }) | (if bits[8 * j + 7] { 1u8 } else { 0u8 })
}

/// The 11-bit group whose bits stand at positions `11*j .. 11*j + 11` of
/// `bits`.
pub open spec fn group_at(bits: Seq<bool>, j: int) -> u16 {
    (if bits[11 * j] { 1024u16 } else { 0u16 }) | (if bits[11 * j + 1] { 512u16 } else { 0u16 })
        | (if bits[11 * j + 2] { 256u16 } else { 0u16 }) | (if bits[11 * j + 3] {
        128u16
    } else {
        0u16
    }) | (if bits[11 * j + 4] { 64u16 } else { 0u16 }) | (if bits[11 * j + 5] {
        32u16
    } else {
        0u16
    }) | (if bits[11 * j + 6] { 16u16 } else { 0u16 }) | (if bits[11 * j + 7] {
        8u16
    } else {
        0u16
    }) | (if bits[11 * j + 8] { 4u16 } else { 0u16 }) | (if bits[11 * j + 9] {
        2u16
    } else {
        0u16
    }) | (if bits[11 * j + 10] { 1u16 } else { 0u16 })
}

/// The byte sequence packing a bit sequence, 8 bits to a byte.
pub open spec fn bits_to_bytes(bits: Seq<bool>) -> Seq<u8> {
    Seq::new(bits.len() / 8, |j: int| byte_at(bits, j))
}

/// The group sequence packing a bit sequence, 11 bits to a group.
pub open spec fn bits_to_groups(bits: Seq<bool>) -> Seq<u16> {
    Seq::new(bits.len() / 11, |j: int| group_at(bits, j))
}

/// Packing 8 bits into a byte puts each bit where `u8_bit` reads it.
proof fn lemma_u8_pack_unpack(b0: bool, b1: bool, b2: bool, b3: bool, b4: bool, b5: bool, b6: bool, b7: bool)
    by (bit_vector)
    ensures
        ({
            let x = (if b0 { 128u8 } else { 0u8 }) | (if b1 { 64u8 } else { 0u8 }) | (if b2 {
                32u8
            } else {
                0u8
            }) | (if b3 { 16u8 } else { 0u8 }) | (if b4 { 8u8 } else { 0u8 }) | (if b5 {
                4u8
            } else {
                0u8
            }) | (if b6 { 2u8 } else { 0u8 }) | (if b7 { 1u8 } else { 0u8 });
            u8_bit(x, 0) == b0 && u8_bit(x, 1) == b1 && u8_bit(x, 2) == b2 && u8_bit(x, 3) == b3
                && u8_bit(x, 4) == b4 && u8_bit(x, 5) == b5 && u8_bit(x, 6) == b6 && u8_bit(x, 7)
                == b7
        }),
{
}

/// A byte is the packing of its own 8 bits.
proof fn lemma_u8_unpack_pack(x: u8)
    by (bit_vector)
    ensures
        x == (if u8_bit(x, 0) { 128u8 } else { 0u8 }) | (if u8_bit(x, 1) { 64u8 } else { 0u8 }) | (
        if u8_bit(x, 2) {
            32u8
        } else {
            0u8
        }) | (if u8_bit(x, 3) { 16u8 } else { 0u8 }) | (if u8_bit(x, 4) { 8u8 } else { 0u8 }) | (
        if u8_bit(x, 5) {
            4u8
        } else {
            0u8
        }) | (if u8_bit(x, 6) { 2u8 } else { 0u8 }) | (if u8_bit(x, 7) { 1u8 } else { 0u8 }),
{
}

/// Packing 11 bits into a group value puts each bit where `u16_bit` reads
/// it, and the group value stays below 2048.
proof fn lemma_u16_pack_unpack(
    b0: bool,
    b1: bool,
    b2: bool,
    b3: bool,
    b4: bool,
    b5: bool,
    b6: bool,
    b7: bool,
    b8: bool,
    b9: bool,
    b10: bool,
)
    by (bit_vector)
    ensures
        ({
            let x = (if b0 { 1024u16 } else { 0u16 }) | (if b1 { 512u16 } else { 0u16 }) | (if b2 {
                256u16
            } else {
                0u16
            }) | (if b3 { 128u16 } else { 0u16 }) | (if b4 { 64u16 } else { 0u16 }) | (if b5 {
                32u16
            } else {
                0u16
            }) | (if b6 { 16u16 } else { 0u16 }) | (if b7 { 8u16 } else { 0u16 }) | (if b8 {
                4u16
            } else {
                0u16
            }) | (if b9 { 2u16 } else { 0u16 }) | (if b10 { 1u16 } else { 0u16 });
            x < 2048 && u16_bit(x, 0) == b0 && u16_bit(x, 1) == b1 && u16_bit(x, 2) == b2
                && u16_bit(x, 3) == b3 && u16_bit(x, 4) == b4 && u16_bit(x, 5) == b5 && u16_bit(
                x,
                6,
            ) == b6 && u16_bit(x, 7) == b7 && u16_bit(x, 8) == b8 && u16_bit(x, 9) == b9
                && u16_bit(x, 10) == b10
        }),
{
}

/// Two group values below 2048 with the same 11 bits are equal.
pub proof fn lemma_u16_bits_inject(x: u16, y: u16)
    by (bit_vector)
    requires
        x < 2048,
        y < 2048,
        u16_bit(x, 0) == u16_bit(y, 0),
        u16_bit(x, 1) == u16_bit(y, 1),
        u16_bit(x, 2) == u16_bit(y, 2),
        u16_bit(x, 3) == u16_bit(y, 3),
        u16_bit(x, 4) == u16_bit(y, 4),
        u16_bit(x, 5) == u16_bit(y, 5),
        u16_bit(x, 6) == u16_bit(y, 6),
        u16_bit(x, 7) == u16_bit(y, 7),
        u16_bit(x, 8) == u16_bit(y, 8),
        u16_bit(x, 9) == u16_bit(y, 9),
        u16_bit(x, 10) == u16_bit(y, 10),
    ensures
        x == y,
{
}

/// Positions inside group `j` of width `g` divide back to `j`.
pub proof fn lemma_grouped_index(j: int, i: int, g: int)
    requires
        0 <= j,
        0 <= i < g,
    ensures
        (g * j + i) / g == j,
        (g * j + i) % g == i,
{
    vstd::arithmetic::mul::lemma_mul_is_commutative(g, j);
    vstd::arithmetic::div_mod::lemma_fundamental_div_mod_converse(g * j + i, g, j, i);
}

/// The bits of the byte packed from positions `8*j .. 8*j + 8` are those
/// very bits.
pub proof fn lemma_byte_at_bits(bits: Seq<bool>, j: int)
    requires
        0 <= j,
        8 * j + 8 <= bits.len(),
    ensures
        forall|i: int| 0 <= i < 8 ==> u8_bit(byte_at(bits, j), i) == bits[8 * j + i],
{
    lemma_u8_pack_unpack(
        bits[8 * j],
        bits[8 * j + 1],
        bits[8 * j + 2],
        bits[8 * j + 3],
        bits[8 * j + 4],
        bits[8 * j + 5],
        bits[8 * j + 6],
        bits[8 * j + 7],
    );
}

/// The bits of the group packed from positions `11*j .. 11*j + 11` are
/// those very bits, and the group value is below 2048.
pub proof fn lemma_group_at_bits(bits: Seq<bool>, j: int)
    requires
        0 <= j,
        11 * j + 11 <= bits.len(),
    ensures
        group_at(bits, j) < 2048,
        forall|i: int| 0 <= i < 11 ==> u16_bit(group_at(bits, j), i) == bits[11 * j + i],
{
    lemma_u16_pack_unpack(
        bits[11 * j],
        bits[11 * j + 1],
        bits[11 * j + 2],
        bits[11 * j + 3],
        bits[11 * j + 4],
        bits[11 * j + 5],
        bits[11 * j + 6],
        bits[11 * j + 7],
        bits[11 * j + 8],
        bits[11 * j + 9],
        bits[11 * j + 10],
    );
}

/// Unpacking the packed bytes of a bit sequence gives the bit sequence
/// back.
pub proof fn lemma_bytes_bits_roundtrip(bits: Seq<bool>)
    requires
        bits.len() % 8 == 0,
    ensures
        bytes_to_bits(bits_to_bytes(bits)) == bits,
{
    vstd::arithmetic::div_mod::lemma_fundamental_div_mod(bits.len() as int, 8);
    let packed = bits_to_bytes(bits);
    assert(packed.len() * 8 == bits.len());
    assert forall|i: int| 0 <= i < bits.len() implies bytes_to_bits(packed)[i] == bits[i] by {
        let j = i / 8;
        let k = i % 8;
        vstd::arithmetic::div_mod::lemma_fundamental_div_mod(i, 8);
        lemma_byte_at_bits(bits, j);
        assert(bytes_to_bits(packed)[i] == u8_bit(packed[j], k));
        assert(packed[j] == byte_at(bits, j));
    };
    assert(bytes_to_bits(bits_to_bytes(bits)) =~= bits);
}

/// Packing the bits of a byte sequence gives the byte sequence back.
pub proof fn lemma_bits_bytes_roundtrip(s: Seq<u8>)
    ensures
        bits_to_bytes(bytes_to_bits(s)) == s,
{
    let bits = bytes_to_bits(s);
    vstd::arithmetic::div_mod::lemma_fundamental_div_mod_converse(
        bits.len() as int,
        8,
        s.len() as int,
        0,
    );
    assert forall|j: int| 0 <= j < s.len() implies bits_to_bytes(bits)[j] == s[j] by {
        assert forall|i: int| 0 <= i < 8 implies bits[8 * j + i] == u8_bit(s[j], i) by {
            lemma_grouped_index(j, i, 8);
        };
        lemma_u8_unpack_pack(s[j]);
        assert(byte_at(bits, j) == s[j]);
    };
    assert(bits_to_bytes(bytes_to_bits(s)) =~= s);
}

/// Unpacking the packed 11-bit groups of a bit sequence gives the bit
/// sequence back.
pub proof fn lemma_groups_bits_roundtrip(bits: Seq<bool>)
    requires
        bits.len() % 11 == 0,
    ensures
        groups_to_bits(bits_to_groups(bits)) == bits,
{
    vstd::arithmetic::div_mod::lemma_fundamental_div_mod(bits.len() as int, 11);
    let packed = bits_to_groups(bits);
    assert(packed.len() * 11 == bits.len());
    assert forall|i: int| 0 <= i < bits.len() implies groups_to_bits(packed)[i] == bits[i] by {
        let j = i / 11;
        let k = i % 11;
        vstd::arithmetic::div_mod::lemma_fundamental_div_mod(i, 11);
        lemma_group_at_bits(bits, j);
        assert(groups_to_bits(packed)[i] == u16_bit(packed[j], k));
        assert(packed[j] == group_at(bits, j));
    };
    assert(groups_to_bits(bits_to_groups(bits)) =~= bits);
}

/// Unpack a byte vector into its bits, big-endian within each byte.
pub fn unpack_bytes(bytes: &Vec<u8>) -> (r: Vec<bool>)
    requires
        bytes@.len() <= 1000,
    ensures
        r@ == bytes_to_bits(bytes@),
{
    let mut r: Vec<bool> = Vec::new();
    let mut j: usize = 0;
    while j < bytes.len()
        invariant
            bytes@.len() <= 1000,
            j <= bytes@.len(),
            r@.len() == 8 * j,
            forall|i: int| 0 <= i < r@.len() ==> r@[i] == u8_bit(bytes@[i / 8], i % 8),
        decreases bytes@.len() - j,
    {
        let b = bytes[j];
        let mut k: usize = 0;
        while k < 8
            invariant
                bytes@.len() <= 1000,
                j < bytes@.len(),
                b == bytes@[j as int],
                k <= 8,
                r@.len() == 8 * j + k,
                forall|i: int| 0 <= i < r@.len() ==> r@[i] == u8_bit(bytes@[i / 8], i % 8),
            decreases 8 - k,
        {
            let sh: u8 = 7 - (k as u8);
            let bit = ((b >> sh) & 1) == 1;
            proof {
                lemma_grouped_index(j as int, k as int, 8);
                assert(bit == u8_bit(b, k as int));
            }
            r.push(bit);
            k += 1;
        }
        j += 1;
    }
    proof {
        assert(r@ =~= bytes_to_bits(bytes@));
    }
    r
}

/// Unpack a group vector into its bits, 11 big-endian bits per group.
pub fn unpack_groups(groups: &Vec<u16>) -> (r: Vec<bool>)
    requires
        groups@.len() <= 1000,
    ensures
        r@ == groups_to_bits(groups@),
{
    let mut r: Vec<bool> = Vec::new();
    let mut j: usize = 0;
    while j < groups.len()
        invariant
            groups@.len() <= 1000,
            j <= groups@.len(),
            r@.len() == 11 * j,
            forall|i: int| 0 <= i < r@.len() ==> r@[i] == u16_bit(groups@[i / 11], i % 11),
        decreases groups@.len() - j,
    {
        let x = groups[j];
        let mut k: usize = 0;
        while k < 11
            invariant
                groups@.len() <= 1000,
                j < groups@.len(),
                x == groups@[j as int],
                k <= 11,
                r@.len() == 11 * j + k,
                forall|i: int| 0 <= i < r@.len() ==> r@[i] == u16_bit(groups@[i / 11], i % 11),
            decreases 11 - k,
        {
            let sh: u16 = 10 - (k as u16);
            let bit = ((x >> sh) & 1) == 1;
            proof {
                lemma_grouped_index(j as int, k as int, 11);
                assert(bit == u16_bit(x, k as int));
            }
            r.push(bit);
            k += 1;
        }
        j += 1;
    }
    proof {
        assert(r@ =~= groups_to_bits(groups@));
    }
    r
}

/// Pack a bit vector into bytes, 8 bits to a byte.
pub fn pack_bytes(bits: &Vec<bool>) -> (r: Vec<u8>)
    requires
        bits@.len() % 8 == 0,
        bits@.len() <= 8000,
    ensures
        r@ == bits_to_bytes(bits@),
        bytes_to_bits(r@) == bits@,
{
    proof {
        vstd::arithmetic::div_mod::lemma_fundamental_div_mod(bits@.len() as int, 8);
    }
    let n = bits.len() / 8;
    let mut r: Vec<u8> = Vec::new();
    let mut j: usize = 0;
    while j < n
        invariant
            bits@.len() == 8 * n,
            n <= 1000,
            j <= n,
            r@.len() == j,
            forall|jj: int| 0 <= jj < j ==> r@[jj] == byte_at(bits@, jj),
        decreases n - j,
    {
        let base = 8 * j;
        let acc = (if bits[base] { 128u8 } else { 0u8 }) | (if bits[base + 1] {
            64u8
        } else {
            0u8
        }) | (if bits[base + 2] { 32u8 } else { 0u8 }) | (if bits[base + 3] {
            16u8
        } else {
            0u8
        }) | (if bits[base + 4] { 8u8 } else { 0u8 }) | (if bits[base + 5] { 4u8 } else { 0u8 }) | (
        if bits[base + 6] {
            2u8
        } else {
            0u8
        }) | (if bits[base + 7] { 1u8 } else { 0u8 });
        proof {
            assert(acc == byte_at(bits@, j as int));
        }
        r.push(acc);
        j += 1;
    }
    proof {
        assert(r@ =~= bits_to_bytes(bits@));
        lemma_bytes_bits_roundtrip(bits@);
    }
    r
}

/// Pack a bit vector into 11-bit groups.
#[verifier::rlimit(50)]
pub fn pack_groups(bits: &Vec<bool>) -> (r: Vec<u16>)
    requires
        bits@.len() % 11 == 0,
        bits@.len() <= 11000,
    ensures
        r@ == bits_to_groups(bits@),
        groups_to_bits(r@) == bits@,
        forall|j: int| 0 <= j < r@.len() ==> r@[j] < 2048,
{
    proof {
        vstd::arithmetic::div_mod::lemma_fundamental_div_mod(bits@.len() as int, 11);
    }
    let n = bits.len() / 11;
    let mut r: Vec<u16> = Vec::new();
    let mut j: usize = 0;
    while j < n
        invariant
            bits@.len() == 11 * n,
            n <= 1000,
            j <= n,
            r@.len() == j,
            forall|jj: int| 0 <= jj < j ==> r@[jj] == group_at(bits@, jj),
        decreases n - j,
    {
        let base = 11 * j;
        let acc = (if bits[base] { 1024u16 } else { 0u16 }) | (if bits[base + 1] {
            512u16
        } else {
            0u16
        }) | (if bits[base + 2] { 256u16 } else { 0u16 }) | (if bits[base + 3] {
            128u16
        } else {
            0u16
        }) | (if bits[base + 4] { 64u16 } else { 0u16 }) | (if bits[base + 5] {
            32u16
        } else {
            0u16
        }) | (if bits[base + 6] { 16u16 } else { 0u16 }) | (if bits[base + 7] {
            8u16
        } else {
            0u16
        }) | (if bits[base + 8] { 4u16 } else { 0u16 }) | (if bits[base + 9] {
            2u16
        } else {
            0u16
        }) | (if bits[base + 10] { 1u16 } else { 0u16 });
        proof {
            assert(acc == group_at(bits@, j as int));
        }
        r.push(acc);
        j += 1;
    }
    proof {
        assert(r@ =~= bits_to_groups(bits@));
        lemma_groups_bits_roundtrip(bits@);
        assert forall|j2: int| 0 <= j2 < r@.len() implies r@[j2] < 2048 by {
            lemma_group_at_bits(bits@, j2);
        };
    }
    r
}

} // verus!
