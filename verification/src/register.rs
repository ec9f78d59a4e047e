use vstd::prelude::*;

verus! {

/// The 256-bit payload behind every vector type: 32 bytes, byte 0 at the lowest address.
/// Every bit pattern is a valid payload.
#[derive(Clone, Copy, Debug)]
pub struct Register256 {
    pub bytes: [u8; 32],
}

/// Whether bit `k` (0 is the least significant) of a 32-bit mask is set.
pub open spec fn bit32(m: u32, k: int) -> bool {
    (m >> (k as u32)) & 1 == 1
}

/// Whether bit `k` (0 is the least significant) of an 8-bit selector is set.
pub open spec fn bit8(m: u8, k: int) -> bool {
    (m >> (k as u8)) & 1 == 1
}

/// Reads bit `k` of an 8-bit selector.
pub fn test_bit8(m: u8, k: u8) -> (r: bool)
    requires
        k < 8,
    ensures
        r == bit8(m, k as int),
{
    (m >> k) & 1 == 1
}

/// A 32-bit mask is decided by its bits.
pub proof fn lemma_bits_decide(a: u32, b: u32)
    requires
        forall|i: int| 0 <= i < 32 ==> bit32(a, i) == bit32(b, i),
    ensures
        a == b,
{
    assert(bit32(a, 0) == bit32(b, 0));
    assert(bit32(a, 1) == bit32(b, 1));
    assert(bit32(a, 2) == bit32(b, 2));
    assert(bit32(a, 3) == bit32(b, 3));
    assert(bit32(a, 4) == bit32(b, 4));
    assert(bit32(a, 5) == bit32(b, 5));
    assert(bit32(a, 6) == bit32(b, 6));
    assert(bit32(a, 7) == bit32(b, 7));
    assert(bit32(a, 8) == bit32(b, 8));
    assert(bit32(a, 9) == bit32(b, 9));
    assert(bit32(a, 10) == bit32(b, 10));
    assert(bit32(a, 11) == bit32(b, 11));
    assert(bit32(a, 12) == bit32(b, 12));
    assert(bit32(a, 13) == bit32(b, 13));
    assert(bit32(a, 14) == bit32(b, 14));
    assert(bit32(a, 15) == bit32(b, 15));
    assert(bit32(a, 16) == bit32(b, 16));
    assert(bit32(a, 17) == bit32(b, 17));
    assert(bit32(a, 18) == bit32(b, 18));
    assert(bit32(a, 19) == bit32(b, 19));
    assert(bit32(a, 20) == bit32(b, 20));
    assert(bit32(a, 21) == bit32(b, 21));
    assert(bit32(a, 22) == bit32(b, 22));
    assert(bit32(a, 23) == bit32(b, 23));
    assert(bit32(a, 24) == bit32(b, 24));
    assert(bit32(a, 25) == bit32(b, 25));
    assert(bit32(a, 26) == bit32(b, 26));
    assert(bit32(a, 27) == bit32(b, 27));
    assert(bit32(a, 28) == bit32(b, 28));
    assert(bit32(a, 29) == bit32(b, 29));
    assert(bit32(a, 30) == bit32(b, 30));
    assert(bit32(a, 31) == bit32(b, 31));
    assert(a == b) by (bit_vector)
        requires
            ((a >> 0u32) & 1 == 1) == ((b >> 0u32) & 1 == 1),
            ((a >> 1u32) & 1 == 1) == ((b >> 1u32) & 1 == 1),
            ((a >> 2u32) & 1 == 1) == ((b >> 2u32) & 1 == 1),
            ((a >> 3u32) & 1 == 1) == ((b >> 3u32) & 1 == 1),
            ((a >> 4u32) & 1 == 1) == ((b >> 4u32) & 1 == 1),
            ((a >> 5u32) & 1 == 1) == ((b >> 5u32) & 1 == 1),
            ((a >> 6u32) & 1 == 1) == ((b >> 6u32) & 1 == 1),
            ((a >> 7u32) & 1 == 1) == ((b >> 7u32) & 1 == 1),
            ((a >> 8u32) & 1 == 1) == ((b >> 8u32) & 1 == 1),
            ((a >> 9u32) & 1 == 1) == ((b >> 9u32) & 1 == 1),
            ((a >> 10u32) & 1 == 1) == ((b >> 10u32) & 1 == 1),
            ((a >> 11u32) & 1 == 1) == ((b >> 11u32) & 1 == 1),
            ((a >> 12u32) & 1 == 1) == ((b >> 12u32) & 1 == 1),
            ((a >> 13u32) & 1 == 1) == ((b >> 13u32) & 1 == 1),
            ((a >> 14u32) & 1 == 1) == ((b >> 14u32) & 1 == 1),
            ((a >> 15u32) & 1 == 1) == ((b >> 15u32) & 1 == 1),
            ((a >> 16u32) & 1 == 1) == ((b >> 16u32) & 1 == 1),
            ((a >> 17u32) & 1 == 1) == ((b >> 17u32) & 1 == 1),
            ((a >> 18u32) & 1 == 1) == ((b >> 18u32) & 1 == 1),
            ((a >> 19u32) & 1 == 1) == ((b >> 19u32) & 1 == 1),
            ((a >> 20u32) & 1 == 1) == ((b >> 20u32) & 1 == 1),
            ((a >> 21u32) & 1 == 1) == ((b >> 21u32) & 1 == 1),
            ((a >> 22u32) & 1 == 1) == ((b >> 22u32) & 1 == 1),
            ((a >> 23u32) & 1 == 1) == ((b >> 23u32) & 1 == 1),
            ((a >> 24u32) & 1 == 1) == ((b >> 24u32) & 1 == 1),
            ((a >> 25u32) & 1 == 1) == ((b >> 25u32) & 1 == 1),
            ((a >> 26u32) & 1 == 1) == ((b >> 26u32) & 1 == 1),
            ((a >> 27u32) & 1 == 1) == ((b >> 27u32) & 1 == 1),
            ((a >> 28u32) & 1 == 1) == ((b >> 28u32) & 1 == 1),
            ((a >> 29u32) & 1 == 1) == ((b >> 29u32) & 1 == 1),
            ((a >> 30u32) & 1 == 1) == ((b >> 30u32) & 1 == 1),
            ((a >> 31u32) & 1 == 1) == ((b >> 31u32) & 1 == 1),
    ;
}

proof fn lemma_bit32_of_zero(j: u32)
    requires
        j < 32,
    ensures
        !bit32(0, j as int),
{
    assert((0u32 >> j) & 1 == 0) by (bit_vector);
}

proof fn lemma_bit32_after_set(acc: u32, i: u32, j: u32)
    requires
        i < 32,
        j < 32,
    ensures
        bit32(acc | (1u32 << i), j as int) == (j == i || bit32(acc, j as int)),
{
    assert((((acc | (1u32 << i)) >> j) & 1 == 1) == (j == i || (acc >> j) & 1 == 1)) by (bit_vector)
        requires
            i < 32,
            j < 32,
    ;
}

/// The signed reading of a 8-bit pattern (two's complement).
pub open spec fn signed8(v: u8) -> i8 {
    if v < 0x80 {
        v as i8
    } else {
        (v - 0x100) as i8
    }
}

/// The 8-bit pattern of a signed value (two's complement).
pub open spec fn unsigned8(v: i8) -> u8 {
    if v >= 0 {
        v as u8
    } else {
        (v + 0x100) as u8
    }
}

pub fn to_signed8(v: u8) -> (r: i8)
    ensures
        r == signed8(v),
        unsigned8(r) == v,
{
    if v < 0x80 {
        v as i8
    } else {
        (v as i16 - 0x100) as i8
    }
}

pub fn to_unsigned8(v: i8) -> (r: u8)
    ensures
        r == unsigned8(v),
        signed8(r) == v,
{
    if v >= 0 {
        v as u8
    } else {
        (v as i16 + 0x100) as u8
    }
}

/// The 16-bit value whose little-endian bytes are `b0` (least significant) to `b1`.
pub open spec fn join16(b0: u8, b1: u8) -> u16 {
    (b0 + 0x100 * b1) as u16
}

/// Little-endian bytes are decided by the 16-bit value they spell.
pub proof fn lemma_join16_decides(a0: u8, a1: u8, b0: u8, b1: u8)
    requires
        join16(a0, a1) == join16(b0, b1),
    ensures
        a0 == b0,
        a1 == b1,
{
    assert(a0 + 0x100 * a1 == b0 + 0x100 * b1);
    assert(a1 == b1);
}

/// The signed reading of a 16-bit pattern (two's complement).
pub open spec fn signed16(v: u16) -> i16 {
    if v < 0x8000 {
        v as i16
    } else {
        (v - 0x1_0000) as i16
    }
}

/// The 16-bit pattern of a signed value (two's complement).
pub open spec fn unsigned16(v: i16) -> u16 {
    if v >= 0 {
        v as u16
    } else {
        (v + 0x1_0000) as u16
    }
}

pub fn to_signed16(v: u16) -> (r: i16)
    ensures
        r == signed16(v),
        unsigned16(r) == v,
{
    if v < 0x8000 {
        v as i16
    } else {
        (v as i32 - 0x1_0000) as i16
    }
}

pub fn to_unsigned16(v: i16) -> (r: u16)
    ensures
        r == unsigned16(v),
        signed16(r) == v,
{
    if v >= 0 {
        v as u16
    } else {
        (v as i32 + 0x1_0000) as u16
    }
}

/// The 32-bit value whose little-endian bytes are `b0` (least significant) to `b3`.
pub open spec fn join32(b0: u8, b1: u8, b2: u8, b3: u8) -> u32 {
    (b0 + 0x100 * b1 + 0x1_0000 * b2 + 0x100_0000 * b3) as u32
}

/// Little-endian bytes are decided by the 32-bit value they spell.
pub proof fn lemma_join32_decides(a0: u8, a1: u8, a2: u8, a3: u8, b0: u8, b1: u8, b2: u8, b3: u8)
    requires
        join32(a0, a1, a2, a3) == join32(b0, b1, b2, b3),
    ensures
        a0 == b0,
        a1 == b1,
        a2 == b2,
        a3 == b3,
{
    assert(a0 + 0x100 * (a1 + 0x100 * (a2 + 0x100 * a3))
        == b0 + 0x100 * (b1 + 0x100 * (b2 + 0x100 * b3)));
    assert(a1 + 0x100 * (a2 + 0x100 * a3) == b1 + 0x100 * (b2 + 0x100 * b3));
    assert(a2 + 0x100 * a3 == b2 + 0x100 * b3);
    assert(a3 == b3);
}

/// The signed reading of a 32-bit pattern (two's complement).
pub open spec fn signed32(v: u32) -> i32 {
    if v < 0x8000_0000 {
        v as i32
    } else {
        (v - 0x1_0000_0000) as i32
    }
}

/// The 32-bit pattern of a signed value (two's complement).
pub open spec fn unsigned32(v: i32) -> u32 {
    if v >= 0 {
        v as u32
    } else {
        (v + 0x1_0000_0000) as u32
    }
}

pub fn to_signed32(v: u32) -> (r: i32)
    ensures
        r == signed32(v),
        unsigned32(r) == v,
{
    if v < 0x8000_0000 {
        v as i32
    } else {
        (v as i64 - 0x1_0000_0000) as i32
    }
}

pub fn to_unsigned32(v: i32) -> (r: u32)
    ensures
        r == unsigned32(v),
        signed32(r) == v,
{
    if v >= 0 {
        v as u32
    } else {
        (v as i64 + 0x1_0000_0000) as u32
    }
}

/// The 64-bit value whose little-endian bytes are `b0` (least significant) to `b7`.
pub open spec fn join64(b0: u8, b1: u8, b2: u8, b3: u8, b4: u8, b5: u8, b6: u8, b7: u8) -> u64 {
    (b0 + 0x100 * b1 + 0x1_0000 * b2 + 0x100_0000 * b3 + 0x1_0000_0000 * b4 + 0x100_0000_0000 * b5
        + 0x1_0000_0000_0000 * b6 + 0x100_0000_0000_0000 * b7) as u64
}

/// Little-endian bytes are decided by the 64-bit value they spell.
pub proof fn lemma_join64_decides(a0: u8, a1: u8, a2: u8, a3: u8, a4: u8, a5: u8, a6: u8, a7: u8,
    b0: u8, b1: u8, b2: u8, b3: u8, b4: u8, b5: u8, b6: u8, b7: u8)
    requires
        join64(a0, a1, a2, a3, a4, a5, a6, a7) == join64(b0, b1, b2, b3, b4, b5, b6, b7),
    ensures
        a0 == b0,
        a1 == b1,
        a2 == b2,
        a3 == b3,
        a4 == b4,
        a5 == b5,
        a6 == b6,
        a7 == b7,
{
    assert(a0 + 0x100 * (a1 + 0x100 * (a2 + 0x100 * (a3 + 0x100 * (a4 + 0x100 * (a5 + 0x100 * (a6
        + 0x100 * a7))))))
        == b0 + 0x100 * (b1 + 0x100 * (b2 + 0x100 * (b3 + 0x100 * (b4 + 0x100 * (b5 + 0x100 * (b6
            + 0x100 * b7)))))));
    assert(a1 + 0x100 * (a2 + 0x100 * (a3 + 0x100 * (a4 + 0x100 * (a5 + 0x100 * (a6
        + 0x100 * a7)))))
        == b1 + 0x100 * (b2 + 0x100 * (b3 + 0x100 * (b4 + 0x100 * (b5 + 0x100 * (b6
            + 0x100 * b7))))));
    assert(a2 + 0x100 * (a3 + 0x100 * (a4 + 0x100 * (a5 + 0x100 * (a6 + 0x100 * a7))))
        == b2 + 0x100 * (b3 + 0x100 * (b4 + 0x100 * (b5 + 0x100 * (b6 + 0x100 * b7)))));
    assert(a3 + 0x100 * (a4 + 0x100 * (a5 + 0x100 * (a6 + 0x100 * a7)))
        == b3 + 0x100 * (b4 + 0x100 * (b5 + 0x100 * (b6 + 0x100 * b7))));
    assert(a4 + 0x100 * (a5 + 0x100 * (a6 + 0x100 * a7))
        == b4 + 0x100 * (b5 + 0x100 * (b6 + 0x100 * b7)));
    assert(a5 + 0x100 * (a6 + 0x100 * a7) == b5 + 0x100 * (b6 + 0x100 * b7));
    assert(a6 + 0x100 * a7 == b6 + 0x100 * b7);
    assert(a7 == b7);
}

/// The signed reading of a 64-bit pattern (two's complement).
pub open spec fn signed64(v: u64) -> i64 {
    if v < 0x8000_0000_0000_0000 {
        v as i64
    } else {
        (v - 0x1_0000_0000_0000_0000) as i64
    }
}

/// The 64-bit pattern of a signed value (two's complement).
pub open spec fn unsigned64(v: i64) -> u64 {
    if v >= 0 {
        v as u64
    } else {
        (v + 0x1_0000_0000_0000_0000) as u64
    }
}

pub fn to_signed64(v: u64) -> (r: i64)
    ensures
        r == signed64(v),
        unsigned64(r) == v,
{
    if v < 0x8000_0000_0000_0000 {
        v as i64
    } else {
        (v as i128 - 0x1_0000_0000_0000_0000) as i64
    }
}

pub fn to_unsigned64(v: i64) -> (r: u64)
    ensures
        r == unsigned64(v),
        signed64(r) == v,
{
    if v >= 0 {
        v as u64
    } else {
        (v as i128 + 0x1_0000_0000_0000_0000) as u64
    }
}

impl Register256 {
    /// The payload with every bit clear.
    pub fn zero() -> (r: Self)
        ensures
            forall|i: int| 0 <= i < 32 ==> r.bytes[i] == 0,
    {
        Register256 { bytes: [0u8; 32] }
    }

    /// Bitwise AND of two payloads.
    pub fn bitand(self, rhs: Self) -> (r: Self)
        ensures
            forall|i: int| 0 <= i < 32 ==> r.bytes[i] == (self.bytes[i] & rhs.bytes[i]),
    {
        let mut bytes = [0u8; 32];
        let mut i: usize = 0;
        while i < 32
            invariant
                i <= 32,
                forall|j: int| 0 <= j < i ==> bytes[j] == (self.bytes[j] & rhs.bytes[j]),
            decreases 32 - i,
        {
            bytes[i] = self.bytes[i] & rhs.bytes[i];
            i += 1;
        }
        Register256 { bytes }
    }

    /// Bitwise OR of two payloads.
    pub fn bitor(self, rhs: Self) -> (r: Self)
        ensures
            forall|i: int| 0 <= i < 32 ==> r.bytes[i] == (self.bytes[i] | rhs.bytes[i]),
    {
        let mut bytes = [0u8; 32];
        let mut i: usize = 0;
        while i < 32
            invariant
                i <= 32,
                forall|j: int| 0 <= j < i ==> bytes[j] == (self.bytes[j] | rhs.bytes[j]),
            decreases 32 - i,
        {
            bytes[i] = self.bytes[i] | rhs.bytes[i];
            i += 1;
        }
        Register256 { bytes }
    }

    /// Bitwise XOR of two payloads.
    pub fn bitxor(self, rhs: Self) -> (r: Self)
        ensures
            forall|i: int| 0 <= i < 32 ==> r.bytes[i] == (self.bytes[i] ^ rhs.bytes[i]),
    {
        let mut bytes = [0u8; 32];
        let mut i: usize = 0;
        while i < 32
            invariant
                i <= 32,
                forall|j: int| 0 <= j < i ==> bytes[j] == (self.bytes[j] ^ rhs.bytes[j]),
            decreases 32 - i,
        {
            bytes[i] = self.bytes[i] ^ rhs.bytes[i];
            i += 1;
        }
        Register256 { bytes }
    }

    /// Bitwise `(!self) & rhs`.
    pub fn andnot(self, rhs: Self) -> (r: Self)
        ensures
            forall|i: int| 0 <= i < 32 ==> r.bytes[i] == (!self.bytes[i] & rhs.bytes[i]),
    {
        let mut bytes = [0u8; 32];
        let mut i: usize = 0;
        while i < 32
            invariant
                i <= 32,
                forall|j: int| 0 <= j < i ==> bytes[j] == (!self.bytes[j] & rhs.bytes[j]),
            decreases 32 - i,
        {
            bytes[i] = !self.bytes[i] & rhs.bytes[i];
            i += 1;
        }
        Register256 { bytes }
    }

    /// Gathers the top bit of the last byte of each `stride`-byte lane: bit `i` of the result
    /// is the sign bit of lane `i`, and the bits past the last lane are clear.
    pub fn sign_mask(self, stride: usize) -> (r: u32)
        requires
            stride == 1 || stride == 4 || stride == 8,
        ensures
            forall|i: int|
                0 <= i < 32 ==> bit32(r, i) == (i * stride < 32 && self.bytes[i * stride + stride
                    - 1] >= 0x80),
    {
        let lanes: usize = 32 / stride;
        let mut acc: u32 = 0;
        let mut i: usize = 0;
        proof {
            assert forall|j: int| 0 <= j < 32 implies !bit32(acc, j) by {
                lemma_bit32_of_zero(j as u32);
            }
        }
        while i < lanes
            invariant
                stride == 1 || stride == 4 || stride == 8,
                lanes * stride == 32,
                i <= lanes,
                forall|j: int|
                    0 <= j < 32 ==> bit32(acc, j) == (j < i && self.bytes[j * stride + stride - 1]
                        >= 0x80),
            decreases lanes - i,
        {
            if self.bytes[i * stride + stride - 1] >= 0x80 {
                let ghost before = acc;
                acc = acc | (1u32 << (i as u32));
                proof {
                    assert forall|j: int| 0 <= j < 32 implies bit32(acc, j) == (j == i || bit32(
                        before,
                        j,
                    )) by {
                        lemma_bit32_after_set(before, i as u32, j as u32);
                    }
                }
            }
            i += 1;
        }
        acc
    }

    /// The payload read as thirty-two unsigned 8-bit lanes, lane 0 first.
    pub open spec fn lanes_u8(self) -> Seq<u8> {
        self.bytes@
    }

    pub fn to_u8(self) -> (r: [u8; 32])
        ensures
            r@ == self.lanes_u8(),
    {
        self.bytes
    }

    pub fn from_u8(a: [u8; 32]) -> (r: Self)
        ensures
            r.lanes_u8() == a@,
    {
        Register256 { bytes: a }
    }

    /// The payload read as signed 8-bit lanes: the two's-complement reading of `lanes_u8`.
    pub open spec fn lanes_i8(self) -> Seq<i8> {
        Seq::new(32, |i: int| signed8(self.lanes_u8()[i]))
    }

    pub fn to_i8(self) -> (r: [i8; 32])
        ensures
            r@ == self.lanes_i8(),
    {
        let a = self.to_u8();
        let mut out = [0i8; 32];
        let mut i: usize = 0;
        while i < 32
            invariant
                i <= 32,
                a@ == self.lanes_u8(),
                forall|j: int| 0 <= j < i ==> out[j] == signed8(a[j]),
            decreases 32 - i,
        {
            out[i] = to_signed8(a[i]);
            i += 1;
        }
        assert(out@ =~= self.lanes_i8());
        out
    }

    pub fn from_i8(a: [i8; 32]) -> (r: Self)
        ensures
            r.lanes_i8() == a@,
    {
        let mut out = [0u8; 32];
        let mut i: usize = 0;
        while i < 32
            invariant
                i <= 32,
                forall|j: int| 0 <= j < i ==> signed8(out[j]) == a[j],
            decreases 32 - i,
        {
            out[i] = to_unsigned8(a[i]);
            i += 1;
        }
        let r = Self::from_u8(out);
        assert(r.lanes_i8() =~= a@);
        r
    }


    /// Two payloads with the same 8-bit lanes are the same payload.
    pub proof fn lemma_lanes_u8_decide(self, other: Self)
        requires
            self.lanes_u8() == other.lanes_u8(),
        ensures
            self == other,
    {
        assert(self.bytes == other.bytes);
    }

    /// The payload read as sixteen unsigned 16-bit lanes, lane 0 first, each little-endian.
    pub open spec fn lanes_u16(self) -> Seq<u16> {
        Seq::new(16, |i: int| join16(self.bytes[2 * i], self.bytes[2 * i + 1]))
    }

    pub fn to_u16(self) -> (r: [u16; 16])
        ensures
            r@ == self.lanes_u16(),
    {
        let mut out = [0u16; 16];
        let mut i: usize = 0;
        while i < 16
            invariant
                i <= 16,
                forall|j: int| 0 <= j < i ==> out[j] == self.lanes_u16()[j],
            decreases 16 - i,
        {
            out[i] = self.bytes[2 * i] as u16 + 0x100 * (self.bytes[2 * i + 1] as u16);
            i += 1;
        }
        assert(out@ =~= self.lanes_u16());
        out
    }

    pub fn from_u16(a: [u16; 16]) -> (r: Self)
        ensures
            r.lanes_u16() == a@,
    {
        let mut bytes = [0u8; 32];
        let mut i: usize = 0;
        while i < 16
            invariant
                i <= 16,
                forall|j: int| 0 <= j < i ==> join16(bytes[2 * j], bytes[2 * j + 1]) == a[j],
            decreases 16 - i,
        {
            let mut rest: u16 = a[i];
            bytes[2 * i] = (rest % 0x100) as u8;
            rest = rest / 0x100;
            bytes[2 * i + 1] = (rest % 0x100) as u8;
            i += 1;
        }
        let r = Register256 { bytes };
        assert(r.lanes_u16() =~= a@);
        r
    }

    /// The payload read as signed 16-bit lanes: the two's-complement reading of `lanes_u16`.
    pub open spec fn lanes_i16(self) -> Seq<i16> {
        Seq::new(16, |i: int| signed16(self.lanes_u16()[i]))
    }

    pub fn to_i16(self) -> (r: [i16; 16])
        ensures
            r@ == self.lanes_i16(),
    {
        let a = self.to_u16();
        let mut out = [0i16; 16];
        let mut i: usize = 0;
        while i < 16
            invariant
                i <= 16,
                a@ == self.lanes_u16(),
                forall|j: int| 0 <= j < i ==> out[j] == signed16(a[j]),
            decreases 16 - i,
        {
            out[i] = to_signed16(a[i]);
            i += 1;
        }
        assert(out@ =~= self.lanes_i16());
        out
    }

    pub fn from_i16(a: [i16; 16]) -> (r: Self)
        ensures
            r.lanes_i16() == a@,
    {
        let mut out = [0u16; 16];
        let mut i: usize = 0;
        while i < 16
            invariant
                i <= 16,
                forall|j: int| 0 <= j < i ==> signed16(out[j]) == a[j],
            decreases 16 - i,
        {
            out[i] = to_unsigned16(a[i]);
            i += 1;
        }
        let r = Self::from_u16(out);
        assert(r.lanes_i16() =~= a@);
        r
    }


    /// Two payloads with the same 16-bit lanes are the same payload.
    pub proof fn lemma_lanes_u16_decide(self, other: Self)
        requires
            self.lanes_u16() == other.lanes_u16(),
        ensures
            self == other,
    {
        assert forall|k: int| 0 <= k < 32 implies self.bytes[k] == other.bytes[k] by {
            let i = k / 2;
            assert(2 * i <= k < 2 * i + 2);
            assert(0 <= i < 16);
            assert(self.lanes_u16()[i] == join16(self.bytes[2 * i], self.bytes[2 * i + 1]));
            assert(other.lanes_u16()[i] == join16(other.bytes[2 * i], other.bytes[2 * i + 1]));
            lemma_join16_decides(self.bytes[2 * i], self.bytes[2 * i + 1], other.bytes[2 * i],
                other.bytes[2 * i + 1]);
        }
        assert(self.bytes@ =~= other.bytes@);
        assert(self.bytes == other.bytes);
    }

    /// The payload read as eight unsigned 32-bit lanes, lane 0 first, each little-endian.
    pub open spec fn lanes_u32(self) -> Seq<u32> {
        Seq::new(8, |i: int| join32(self.bytes[4 * i], self.bytes[4 * i + 1],
            self.bytes[4 * i + 2], self.bytes[4 * i + 3]))
    }

    pub fn to_u32(self) -> (r: [u32; 8])
        ensures
            r@ == self.lanes_u32(),
    {
        let mut out = [0u32; 8];
        let mut i: usize = 0;
        while i < 8
            invariant
                i <= 8,
                forall|j: int| 0 <= j < i ==> out[j] == self.lanes_u32()[j],
            decreases 8 - i,
        {
            out[i] = self.bytes[4 * i] as u32 + 0x100 * (self.bytes[4 * i + 1] as u32)
                + 0x1_0000 * (self.bytes[4 * i + 2] as u32) + 0x100_0000 * (self.bytes[4 * i
                + 3] as u32);
            i += 1;
        }
        assert(out@ =~= self.lanes_u32());
        out
    }

    pub fn from_u32(a: [u32; 8]) -> (r: Self)
        ensures
            r.lanes_u32() == a@,
    {
        let mut bytes = [0u8; 32];
        let mut i: usize = 0;
        while i < 8
            invariant
                i <= 8,
                forall|j: int|
                    0 <= j < i ==> join32(bytes[4 * j], bytes[4 * j + 1], bytes[4 * j + 2],
                        bytes[4 * j + 3])
                        == a[j],
            decreases 8 - i,
        {
            let mut rest: u32 = a[i];
            bytes[4 * i] = (rest % 0x100) as u8;
            rest = rest / 0x100;
            bytes[4 * i + 1] = (rest % 0x100) as u8;
            rest = rest / 0x100;
            bytes[4 * i + 2] = (rest % 0x100) as u8;
            rest = rest / 0x100;
            bytes[4 * i + 3] = (rest % 0x100) as u8;
            i += 1;
        }
        let r = Register256 { bytes };
        assert(r.lanes_u32() =~= a@);
        r
    }

    /// The payload read as signed 32-bit lanes: the two's-complement reading of `lanes_u32`.
    pub open spec fn lanes_i32(self) -> Seq<i32> {
        Seq::new(8, |i: int| signed32(self.lanes_u32()[i]))
    }

    pub fn to_i32(self) -> (r: [i32; 8])
        ensures
            r@ == self.lanes_i32(),
    {
        let a = self.to_u32();
        let mut out = [0i32; 8];
        let mut i: usize = 0;
        while i < 8
            invariant
                i <= 8,
                a@ == self.lanes_u32(),
                forall|j: int| 0 <= j < i ==> out[j] == signed32(a[j]),
            decreases 8 - i,
        {
            out[i] = to_signed32(a[i]);
            i += 1;
        }
        assert(out@ =~= self.lanes_i32());
        out
    }

    pub fn from_i32(a: [i32; 8]) -> (r: Self)
        ensures
            r.lanes_i32() == a@,
    {
        let mut out = [0u32; 8];
        let mut i: usize = 0;
        while i < 8
            invariant
                i <= 8,
                forall|j: int| 0 <= j < i ==> signed32(out[j]) == a[j],
            decreases 8 - i,
        {
            out[i] = to_unsigned32(a[i]);
            i += 1;
        }
        let r = Self::from_u32(out);
        assert(r.lanes_i32() =~= a@);
        r
    }


    /// Two payloads with the same 32-bit lanes are the same payload.
    pub proof fn lemma_lanes_u32_decide(self, other: Self)
        requires
            self.lanes_u32() == other.lanes_u32(),
        ensures
            self == other,
    {
        assert forall|k: int| 0 <= k < 32 implies self.bytes[k] == other.bytes[k] by {
            let i = k / 4;
            assert(4 * i <= k < 4 * i + 4);
            assert(0 <= i < 8);
            assert(self.lanes_u32()[i]
                == join32(self.bytes[4 * i], self.bytes[4 * i + 1], self.bytes[4 * i + 2],
                    self.bytes[4 * i + 3]));
            assert(other.lanes_u32()[i]
                == join32(other.bytes[4 * i], other.bytes[4 * i + 1], other.bytes[4 * i + 2],
                    other.bytes[4 * i + 3]));
            lemma_join32_decides(self.bytes[4 * i], self.bytes[4 * i + 1], self.bytes[4 * i + 2],
                self.bytes[4 * i + 3], other.bytes[4 * i], other.bytes[4 * i + 1],
                other.bytes[4 * i + 2], other.bytes[4 * i + 3]);
        }
        assert(self.bytes@ =~= other.bytes@);
        assert(self.bytes == other.bytes);
    }

    /// The payload read as four unsigned 64-bit lanes, lane 0 first, each little-endian.
    pub open spec fn lanes_u64(self) -> Seq<u64> {
        Seq::new(4, |i: int| join64(self.bytes[8 * i], self.bytes[8 * i + 1],
            self.bytes[8 * i + 2], self.bytes[8 * i + 3], self.bytes[8 * i + 4],
            self.bytes[8 * i + 5], self.bytes[8 * i + 6], self.bytes[8 * i + 7]))
    }

    pub fn to_u64(self) -> (r: [u64; 4])
        ensures
            r@ == self.lanes_u64(),
    {
        let mut out = [0u64; 4];
        let mut i: usize = 0;
        while i < 4
            invariant
                i <= 4,
                forall|j: int| 0 <= j < i ==> out[j] == self.lanes_u64()[j],
            decreases 4 - i,
        {
            out[i] = self.bytes[8 * i] as u64 + 0x100 * (self.bytes[8 * i + 1] as u64)
                + 0x1_0000 * (self.bytes[8 * i + 2] as u64) + 0x100_0000 * (self.bytes[8 * i
                + 3] as u64) + 0x1_0000_0000 * (self.bytes[8 * i + 4] as u64)
                + 0x100_0000_0000 * (self.bytes[8 * i + 5] as u64)
                + 0x1_0000_0000_0000 * (self.bytes[8 * i + 6] as u64)
                + 0x100_0000_0000_0000 * (self.bytes[8 * i + 7] as u64);
            i += 1;
        }
        assert(out@ =~= self.lanes_u64());
        out
    }

    pub fn from_u64(a: [u64; 4]) -> (r: Self)
        ensures
            r.lanes_u64() == a@,
    {
        let mut bytes = [0u8; 32];
        let mut i: usize = 0;
        while i < 4
            invariant
                i <= 4,
                forall|j: int|
                    0 <= j < i ==> join64(bytes[8 * j], bytes[8 * j + 1], bytes[8 * j + 2],
                        bytes[8 * j + 3], bytes[8 * j + 4], bytes[8 * j + 5], bytes[8 * j + 6],
                        bytes[8 * j + 7])
                        == a[j],
            decreases 4 - i,
        {
            let mut rest: u64 = a[i];
            bytes[8 * i] = (rest % 0x100) as u8;
            rest = rest / 0x100;
            bytes[8 * i + 1] = (rest % 0x100) as u8;
            rest = rest / 0x100;
            bytes[8 * i + 2] = (rest % 0x100) as u8;
            rest = rest / 0x100;
            bytes[8 * i + 3] = (rest % 0x100) as u8;
            rest = rest / 0x100;
            bytes[8 * i + 4] = (rest % 0x100) as u8;
            rest = rest / 0x100;
            bytes[8 * i + 5] = (rest % 0x100) as u8;
            rest = rest / 0x100;
            bytes[8 * i + 6] = (rest % 0x100) as u8;
            rest = rest / 0x100;
            bytes[8 * i + 7] = (rest % 0x100) as u8;
            i += 1;
        }
        let r = Register256 { bytes };
        assert(r.lanes_u64() =~= a@);
        r
    }

    /// The payload read as signed 64-bit lanes: the two's-complement reading of `lanes_u64`.
    pub open spec fn lanes_i64(self) -> Seq<i64> {
        Seq::new(4, |i: int| signed64(self.lanes_u64()[i]))
    }

    pub fn to_i64(self) -> (r: [i64; 4])
        ensures
            r@ == self.lanes_i64(),
    {
        let a = self.to_u64();
        let mut out = [0i64; 4];
        let mut i: usize = 0;
        while i < 4
            invariant
                i <= 4,
                a@ == self.lanes_u64(),
                forall|j: int| 0 <= j < i ==> out[j] == signed64(a[j]),
            decreases 4 - i,
        {
            out[i] = to_signed64(a[i]);
            i += 1;
        }
        assert(out@ =~= self.lanes_i64());
        out
    }

    pub fn from_i64(a: [i64; 4]) -> (r: Self)
        ensures
            r.lanes_i64() == a@,
    {
        let mut out = [0u64; 4];
        let mut i: usize = 0;
        while i < 4
            invariant
                i <= 4,
                forall|j: int| 0 <= j < i ==> signed64(out[j]) == a[j],
            decreases 4 - i,
        {
            out[i] = to_unsigned64(a[i]);
            i += 1;
        }
        let r = Self::from_u64(out);
        assert(r.lanes_i64() =~= a@);
        r
    }


    /// Two payloads with the same 64-bit lanes are the same payload.
    pub proof fn lemma_lanes_u64_decide(self, other: Self)
        requires
            self.lanes_u64() == other.lanes_u64(),
        ensures
            self == other,
    {
        assert forall|k: int| 0 <= k < 32 implies self.bytes[k] == other.bytes[k] by {
            let i = k / 8;
            assert(8 * i <= k < 8 * i + 8);
            assert(0 <= i < 4);
            assert(self.lanes_u64()[i]
                == join64(self.bytes[8 * i], self.bytes[8 * i + 1], self.bytes[8 * i + 2],
                    self.bytes[8 * i + 3], self.bytes[8 * i + 4], self.bytes[8 * i + 5],
                    self.bytes[8 * i + 6], self.bytes[8 * i + 7]));
            assert(other.lanes_u64()[i]
                == join64(other.bytes[8 * i], other.bytes[8 * i + 1], other.bytes[8 * i + 2],
                    other.bytes[8 * i + 3], other.bytes[8 * i + 4], other.bytes[8 * i + 5],
                    other.bytes[8 * i + 6], other.bytes[8 * i + 7]));
            lemma_join64_decides(self.bytes[8 * i], self.bytes[8 * i + 1], self.bytes[8 * i + 2],
                self.bytes[8 * i + 3], self.bytes[8 * i + 4], self.bytes[8 * i + 5],
                self.bytes[8 * i + 6], self.bytes[8 * i + 7], other.bytes[8 * i],
                other.bytes[8 * i + 1], other.bytes[8 * i + 2], other.bytes[8 * i + 3],
                other.bytes[8 * i + 4], other.bytes[8 * i + 5], other.bytes[8 * i + 6],
                other.bytes[8 * i + 7]);
        }
        assert(self.bytes@ =~= other.bytes@);
        assert(self.bytes == other.bytes);
    }
}

} // verus!
