use crate::conversion::{From256i, To256i, Vector256, VectorConvertInto, VectorTransmuteInto};
use crate::lane::{abs_i8, eq_i8, eq_u8, gt_i8, max_i8, max_u8, min_i8, min_u8};
use crate::register::{bit32, Register256, signed8, unsigned8};
use vstd::prelude::*;

verus! {

/// Thirty-two signed 8-bit lanes in one 256-bit payload. The view is the lanes, lane 0 first.
#[derive(Clone, Copy, Debug)]
pub struct Int8x32(pub Register256);

impl View for Int8x32 {
    type V = Seq<i8>;

    open spec fn view(&self) -> Seq<i8> {
        self.0.lanes_i8()
    }
}

impl To256i for Int8x32 {
    open spec fn payload(self) -> Register256 {
        self.0
    }

    fn to_256i(self) -> (r: Register256) {
        self.0
    }
}

impl From256i for Int8x32 {
    open spec fn with_payload(x: Register256) -> Self {
        Int8x32(x)
    }

    fn from_256i(x: Register256) -> (r: Self) {
        Int8x32(x)
    }
}

impl Vector256 for Int8x32 {
    proof fn lemma_payload_kept(x: Register256) {
    }

    proof fn lemma_value_kept(self) {
    }
}

/// The signed lanes read as their two's-complement counterparts: the payload is untouched.
impl VectorConvertInto<Uint8x32> for Int8x32 {
    open spec fn converted(self) -> Uint8x32 {
        Uint8x32(self.0)
    }

    fn convert_vector(self) -> (r: Uint8x32) {
        Uint8x32(self.0)
    }
}

impl From<Uint8x32> for Int8x32 {
    fn from(x: Uint8x32) -> (r: Self) {
        Int8x32(x.0)
    }
}

impl vstd::std_specs::convert::FromSpecImpl<Uint8x32> for Int8x32 {
    open spec fn obeys_from_spec() -> bool {
        true
    }

    open spec fn from_spec(x: Uint8x32) -> Self {
        Int8x32(x.0)
    }
}

impl Int8x32 {
    /// Every lane zero.
    pub fn zero() -> (r: Self)
        ensures
            forall|i: int| 0 <= i < 32 ==> r@[i] == 0,
            forall|i: int| 0 <= i < 32 ==> r.0.bytes[i] == 0,
    {
        Self(Register256::zero())
    }

    /// The vector whose lanes are the elements of `array`, in order.
    pub fn from_array(array: [i8; 32]) -> (r: Self)
        ensures
            r@ == array@,
    {
        Self(Register256::from_i8(array))
    }

    /// The lanes, in order.
    pub fn to_array(self) -> (r: [i8; 32])
        ensures
            r@ == self@,
    {
        self.0.to_i8()
    }

    /// Every lane equal to `v`.
    pub fn splat(v: i8) -> (r: Self)
        ensures
            forall|i: int| 0 <= i < 32 ==> r@[i] == v,
    {
        let mut out = [0i8; 32];
        let mut i: usize = 0;
        while i < 32
            invariant
                i <= 32,
                forall|j: int| 0 <= j < i ==> out[j] == v,
            decreases 32 - i,
        {
            out[i] = v;
            i += 1;
        }
        Self::from_array(out)
    }

    /// The top bit of each of the 32 bytes: bit `i` of the result is the top bit of byte `i`,
    /// whatever the lane width.
    pub fn mask(self) -> (r: u32)
        ensures
            forall|i: int| 0 <= i < 32 ==> bit32(r, i) == (self.0.bytes[i] >= 0x80),
    {
        self.0.sign_mask(1)
    }

    /// The vector with lane `I` replaced by `value`.
    pub fn insert<const I: u8>(self, value: i8) -> (r: Self)
        requires
            I < 32,
        ensures
            r@ == self@.update(I as int, value),
    {
        let mut a = self.to_array();
        a[I as usize] = value;
        let r = Self::from_array(a);
        assert(r@ =~= self@.update(I as int, value));
        r
    }

    /// Bitwise `(!self) & rhs`.
    pub fn andnot(self, rhs: Self) -> (r: Self)
        ensures
            forall|i: int| 0 <= i < 32 ==> r.0.bytes[i] == (!self.0.bytes[i] & rhs.0.bytes[i]),
    {
        Self(self.0.andnot(rhs.0))
    }

    /// Bitwise AND.
    pub fn bitand(self, rhs: Self) -> (r: Self)
        ensures
            forall|i: int| 0 <= i < 32 ==> r.0.bytes[i] == (self.0.bytes[i] & rhs.0.bytes[i]),
    {
        Self(self.0.bitand(rhs.0))
    }

    /// Bitwise AND, in place.
    pub fn bitand_assign(&mut self, rhs: Self)
        ensures
            forall|i: int|
                0 <= i < 32 ==> final(self).0.bytes[i] == (old(self).0.bytes[i] & rhs.0.bytes[i]),
    {
        *self = self.bitand(rhs);
    }

    /// Bitwise OR.
    pub fn bitor(self, rhs: Self) -> (r: Self)
        ensures
            forall|i: int| 0 <= i < 32 ==> r.0.bytes[i] == (self.0.bytes[i] | rhs.0.bytes[i]),
    {
        Self(self.0.bitor(rhs.0))
    }

    /// Bitwise OR, in place.
    pub fn bitor_assign(&mut self, rhs: Self)
        ensures
            forall|i: int|
                0 <= i < 32 ==> final(self).0.bytes[i] == (old(self).0.bytes[i] | rhs.0.bytes[i]),
    {
        *self = self.bitor(rhs);
    }

    /// Bitwise XOR.
    pub fn bitxor(self, rhs: Self) -> (r: Self)
        ensures
            forall|i: int| 0 <= i < 32 ==> r.0.bytes[i] == (self.0.bytes[i] ^ rhs.0.bytes[i]),
    {
        Self(self.0.bitxor(rhs.0))
    }

    /// Bitwise XOR, in place.
    pub fn bitxor_assign(&mut self, rhs: Self)
        ensures
            forall|i: int|
                0 <= i < 32 ==> final(self).0.bytes[i] == (old(self).0.bytes[i] ^ rhs.0.bytes[i]),
    {
        *self = self.bitxor(rhs);
    }

    /// Lane-wise equality: a lane of the result has every bit set where the two lanes are equal,
    /// and is zero elsewhere.
    pub fn eq(self, rhs: Self) -> (r: Self)
        ensures
            forall|i: int| 0 <= i < 32 ==> r@[i] == eq_i8(self@[i], rhs@[i]),
    {
        let a = self.to_array();
        let b = rhs.to_array();
        let mut out = [0i8; 32];
        let mut i: usize = 0;
        while i < 32
            invariant
                i <= 32,
                a@ == self@,
                b@ == rhs@,
                forall|j: int| 0 <= j < i ==> out[j] == eq_i8(a[j], b[j]),
            decreases 32 - i,
        {
            out[i] = if a[i] == b[i] { -1 } else { 0 };
            i += 1;
        }
        Self::from_array(out)
    }

    /// Lane-wise signed `self > rhs`: a lane of the result has every bit set where it holds, and is
    /// zero elsewhere.
    pub fn gt(self, rhs: Self) -> (r: Self)
        ensures
            forall|i: int| 0 <= i < 32 ==> r@[i] == gt_i8(self@[i], rhs@[i]),
    {
        let a = self.to_array();
        let b = rhs.to_array();
        let mut out = [0i8; 32];
        let mut i: usize = 0;
        while i < 32
            invariant
                i <= 32,
                a@ == self@,
                b@ == rhs@,
                forall|j: int| 0 <= j < i ==> out[j] == gt_i8(a[j], b[j]),
            decreases 32 - i,
        {
            out[i] = if a[i] > b[i] { -1 } else { 0 };
            i += 1;
        }
        Self::from_array(out)
    }

    /// Lane-wise sum, wrapping modulo 2^8.
    pub fn add(self, rhs: Self) -> (r: Self)
        ensures
            forall|i: int| 0 <= i < 32 ==> r@[i] == self@[i].wrapping_add(rhs@[i]),
    {
        let a = self.to_array();
        let b = rhs.to_array();
        let mut out = [0i8; 32];
        let mut i: usize = 0;
        while i < 32
            invariant
                i <= 32,
                a@ == self@,
                b@ == rhs@,
                forall|j: int| 0 <= j < i ==> out[j] == a[j].wrapping_add(b[j]),
            decreases 32 - i,
        {
            out[i] = a[i].wrapping_add(b[i]);
            i += 1;
        }
        Self::from_array(out)
    }

    /// Lane-wise wrapping sum, in place.
    pub fn add_assign(&mut self, rhs: Self)
        ensures
            forall|i: int| 0 <= i < 32 ==> final(self)@[i] == old(self)@[i].wrapping_add(rhs@[i]),
    {
        *self = self.add(rhs);
    }

    /// Lane-wise difference, wrapping modulo 2^8.
    pub fn sub(self, rhs: Self) -> (r: Self)
        ensures
            forall|i: int| 0 <= i < 32 ==> r@[i] == self@[i].wrapping_sub(rhs@[i]),
    {
        let a = self.to_array();
        let b = rhs.to_array();
        let mut out = [0i8; 32];
        let mut i: usize = 0;
        while i < 32
            invariant
                i <= 32,
                a@ == self@,
                b@ == rhs@,
                forall|j: int| 0 <= j < i ==> out[j] == a[j].wrapping_sub(b[j]),
            decreases 32 - i,
        {
            out[i] = a[i].wrapping_sub(b[i]);
            i += 1;
        }
        Self::from_array(out)
    }

    /// Lane-wise wrapping difference, in place.
    pub fn sub_assign(&mut self, rhs: Self)
        ensures
            forall|i: int| 0 <= i < 32 ==> final(self)@[i] == old(self)@[i].wrapping_sub(rhs@[i]),
    {
        *self = self.sub(rhs);
    }

    /// Lane-wise signed minimum.
    pub fn min(self, rhs: Self) -> (r: Self)
        ensures
            forall|i: int| 0 <= i < 32 ==> r@[i] == min_i8(self@[i], rhs@[i]),
    {
        let a = self.to_array();
        let b = rhs.to_array();
        let mut out = [0i8; 32];
        let mut i: usize = 0;
        while i < 32
            invariant
                i <= 32,
                a@ == self@,
                b@ == rhs@,
                forall|j: int| 0 <= j < i ==> out[j] == min_i8(a[j], b[j]),
            decreases 32 - i,
        {
            out[i] = if a[i] <= b[i] { a[i] } else { b[i] };
            i += 1;
        }
        Self::from_array(out)
    }

    /// Lane-wise signed maximum.
    pub fn max(self, rhs: Self) -> (r: Self)
        ensures
            forall|i: int| 0 <= i < 32 ==> r@[i] == max_i8(self@[i], rhs@[i]),
    {
        let a = self.to_array();
        let b = rhs.to_array();
        let mut out = [0i8; 32];
        let mut i: usize = 0;
        while i < 32
            invariant
                i <= 32,
                a@ == self@,
                b@ == rhs@,
                forall|j: int| 0 <= j < i ==> out[j] == max_i8(a[j], b[j]),
            decreases 32 - i,
        {
            out[i] = if a[i] <= b[i] { b[i] } else { a[i] };
            i += 1;
        }
        Self::from_array(out)
    }

    /// Lane-wise absolute value; a lane holding the most negative value keeps it.
    pub fn abs(self) -> (r: Self)
        ensures
            forall|i: int| 0 <= i < 32 ==> r@[i] == abs_i8(self@[i]),
    {
        let a = self.to_array();
        let mut out = [0i8; 32];
        let mut i: usize = 0;
        while i < 32
            invariant
                i <= 32,
                a@ == self@,
                forall|j: int| 0 <= j < i ==> out[j] == abs_i8(a[j]),
            decreases 32 - i,
        {
            out[i] = if a[i] >= 0 || a[i] == i8::MIN { a[i] } else { -a[i] };
            i += 1;
        }
        Self::from_array(out)
    }

    /// An array made into a vector and read back is the same array: whatever array is read
    /// from a vector that holds the lanes of `array` equals `array`.
    pub proof fn lemma_array_round_trip(self, array: [i8; 32], back: [i8; 32])
        requires
            self@ == array@,
            back@ == self@,
        ensures
            back == array,
    {
        assert(back@ =~= array@);
    }

    /// The lanes decide the vector: two vectors with the same lanes have the same payload,
    /// so a vector read into an array and made from it again is the same vector.
    pub proof fn lemma_lanes_decide(self, other: Self)
        requires
            self@ == other@,
        ensures
            self == other,
    {
        assert forall|i: int| 0 <= i < 32 implies self.0.lanes_u8()[i] == other.0.lanes_u8()[i] by {
            assert(self.0.lanes_i8()[i] == signed8(self.0.lanes_u8()[i]));
            assert(other.0.lanes_i8()[i] == signed8(other.0.lanes_u8()[i]));
            assert(self@[i] == other@[i]);
        }
        assert(self.0.lanes_u8() =~= other.0.lanes_u8());
        self.0.lemma_lanes_u8_decide(other.0);
    }

    /// Converts into `T` wherever a value conversion into `T` is defined.
    pub fn convert<T>(self) -> (r: T) where Self: VectorConvertInto<T>
        ensures
            r == VectorConvertInto::<T>::converted(self),
    {
        self.convert_vector()
    }

    /// Reinterprets the payload as a `T`; no bit changes.
    pub fn transmute<T>(self) -> (r: T) where Self: VectorTransmuteInto<T>
        ensures
            r == VectorTransmuteInto::<T>::transmuted(self),
    {
        self.transmute_vector()
    }
}

/// Converting to the other signedness and back gives the same value back, and neither step
/// changes a bit of the payload.
pub proof fn lemma_signedness_round_trip_8(x: Int8x32, y: Uint8x32)
    ensures
        VectorConvertInto::<Uint8x32>::converted(x).payload() == x.payload(),
        VectorConvertInto::<Int8x32>::converted(y).payload() == y.payload(),
        VectorConvertInto::<Int8x32>::converted(VectorConvertInto::<Uint8x32>::converted(x)) == x,
        VectorConvertInto::<Uint8x32>::converted(VectorConvertInto::<Int8x32>::converted(y)) == y,
        forall|i: int|
            0 <= i < 32 ==> VectorConvertInto::<Uint8x32>::converted(x)@[i] == unsigned8(
                x@[i],
            ),
        forall|i: int|
            0 <= i < 32 ==> VectorConvertInto::<Int8x32>::converted(y)@[i] == signed8(y@[i]),
{
}

/// Thirty-two unsigned 8-bit lanes in one 256-bit payload. The view is the lanes, lane 0 first.
#[derive(Clone, Copy, Debug)]
pub struct Uint8x32(pub Register256);

impl View for Uint8x32 {
    type V = Seq<u8>;

    open spec fn view(&self) -> Seq<u8> {
        self.0.lanes_u8()
    }
}

impl To256i for Uint8x32 {
    open spec fn payload(self) -> Register256 {
        self.0
    }

    fn to_256i(self) -> (r: Register256) {
        self.0
    }
}

impl From256i for Uint8x32 {
    open spec fn with_payload(x: Register256) -> Self {
        Uint8x32(x)
    }

    fn from_256i(x: Register256) -> (r: Self) {
        Uint8x32(x)
    }
}

impl Vector256 for Uint8x32 {
    proof fn lemma_payload_kept(x: Register256) {
    }

    proof fn lemma_value_kept(self) {
    }
}

/// The unsigned lanes read as their two's-complement counterparts: the payload is untouched.
impl VectorConvertInto<Int8x32> for Uint8x32 {
    open spec fn converted(self) -> Int8x32 {
        Int8x32(self.0)
    }

    fn convert_vector(self) -> (r: Int8x32) {
        Int8x32(self.0)
    }
}

impl From<Int8x32> for Uint8x32 {
    fn from(x: Int8x32) -> (r: Self) {
        Uint8x32(x.0)
    }
}

impl vstd::std_specs::convert::FromSpecImpl<Int8x32> for Uint8x32 {
    open spec fn obeys_from_spec() -> bool {
        true
    }

    open spec fn from_spec(x: Int8x32) -> Self {
        Uint8x32(x.0)
    }
}

impl Uint8x32 {
    /// Every lane zero.
    pub fn zero() -> (r: Self)
        ensures
            forall|i: int| 0 <= i < 32 ==> r@[i] == 0,
            forall|i: int| 0 <= i < 32 ==> r.0.bytes[i] == 0,
    {
        Self(Register256::zero())
    }

    /// The vector whose lanes are the elements of `array`, in order.
    pub fn from_array(array: [u8; 32]) -> (r: Self)
        ensures
            r@ == array@,
    {
        Self(Register256::from_u8(array))
    }

    /// The lanes, in order.
    pub fn to_array(self) -> (r: [u8; 32])
        ensures
            r@ == self@,
    {
        self.0.to_u8()
    }

    /// Every lane equal to `v`.
    pub fn splat(v: u8) -> (r: Self)
        ensures
            forall|i: int| 0 <= i < 32 ==> r@[i] == v,
    {
        let mut out = [0u8; 32];
        let mut i: usize = 0;
        while i < 32
            invariant
                i <= 32,
                forall|j: int| 0 <= j < i ==> out[j] == v,
            decreases 32 - i,
        {
            out[i] = v;
            i += 1;
        }
        Self::from_array(out)
    }

    /// The top bit of each of the 32 bytes: bit `i` of the result is the top bit of byte `i`,
    /// whatever the lane width.
    pub fn mask(self) -> (r: u32)
        ensures
            forall|i: int| 0 <= i < 32 ==> bit32(r, i) == (self.0.bytes[i] >= 0x80),
    {
        self.0.sign_mask(1)
    }

    /// The vector with lane `I` replaced by `value`.
    pub fn insert<const I: u8>(self, value: u8) -> (r: Self)
        requires
            I < 32,
        ensures
            r@ == self@.update(I as int, value),
    {
        let mut a = self.to_array();
        a[I as usize] = value;
        let r = Self::from_array(a);
        assert(r@ =~= self@.update(I as int, value));
        r
    }

    /// Bitwise `(!self) & rhs`.
    pub fn andnot(self, rhs: Self) -> (r: Self)
        ensures
            forall|i: int| 0 <= i < 32 ==> r.0.bytes[i] == (!self.0.bytes[i] & rhs.0.bytes[i]),
    {
        Self(self.0.andnot(rhs.0))
    }

    /// Bitwise AND.
    pub fn bitand(self, rhs: Self) -> (r: Self)
        ensures
            forall|i: int| 0 <= i < 32 ==> r.0.bytes[i] == (self.0.bytes[i] & rhs.0.bytes[i]),
    {
        Self(self.0.bitand(rhs.0))
    }

    /// Bitwise AND, in place.
    pub fn bitand_assign(&mut self, rhs: Self)
        ensures
            forall|i: int|
                0 <= i < 32 ==> final(self).0.bytes[i] == (old(self).0.bytes[i] & rhs.0.bytes[i]),
    {
        *self = self.bitand(rhs);
    }

    /// Bitwise OR.
    pub fn bitor(self, rhs: Self) -> (r: Self)
        ensures
            forall|i: int| 0 <= i < 32 ==> r.0.bytes[i] == (self.0.bytes[i] | rhs.0.bytes[i]),
    {
        Self(self.0.bitor(rhs.0))
    }

    /// Bitwise OR, in place.
    pub fn bitor_assign(&mut self, rhs: Self)
        ensures
            forall|i: int|
                0 <= i < 32 ==> final(self).0.bytes[i] == (old(self).0.bytes[i] | rhs.0.bytes[i]),
    {
        *self = self.bitor(rhs);
    }

    /// Bitwise XOR.
    pub fn bitxor(self, rhs: Self) -> (r: Self)
        ensures
            forall|i: int| 0 <= i < 32 ==> r.0.bytes[i] == (self.0.bytes[i] ^ rhs.0.bytes[i]),
    {
        Self(self.0.bitxor(rhs.0))
    }

    /// Bitwise XOR, in place.
    pub fn bitxor_assign(&mut self, rhs: Self)
        ensures
            forall|i: int|
                0 <= i < 32 ==> final(self).0.bytes[i] == (old(self).0.bytes[i] ^ rhs.0.bytes[i]),
    {
        *self = self.bitxor(rhs);
    }

    /// Lane-wise equality: a lane of the result has every bit set where the two lanes are equal,
    /// and is zero elsewhere.
    pub fn eq(self, rhs: Self) -> (r: Self)
        ensures
            forall|i: int| 0 <= i < 32 ==> r@[i] == eq_u8(self@[i], rhs@[i]),
    {
        let a = self.to_array();
        let b = rhs.to_array();
        let mut out = [0u8; 32];
        let mut i: usize = 0;
        while i < 32
            invariant
                i <= 32,
                a@ == self@,
                b@ == rhs@,
                forall|j: int| 0 <= j < i ==> out[j] == eq_u8(a[j], b[j]),
            decreases 32 - i,
        {
            out[i] = if a[i] == b[i] { 0xFF } else { 0 };
            i += 1;
        }
        Self::from_array(out)
    }

    /// Lane-wise sum, wrapping modulo 2^8.
    pub fn add(self, rhs: Self) -> (r: Self)
        ensures
            forall|i: int| 0 <= i < 32 ==> r@[i] == self@[i].wrapping_add(rhs@[i]),
    {
        let a = self.to_array();
        let b = rhs.to_array();
        let mut out = [0u8; 32];
        let mut i: usize = 0;
        while i < 32
            invariant
                i <= 32,
                a@ == self@,
                b@ == rhs@,
                forall|j: int| 0 <= j < i ==> out[j] == a[j].wrapping_add(b[j]),
            decreases 32 - i,
        {
            out[i] = a[i].wrapping_add(b[i]);
            i += 1;
        }
        Self::from_array(out)
    }

    /// Lane-wise wrapping sum, in place.
    pub fn add_assign(&mut self, rhs: Self)
        ensures
            forall|i: int| 0 <= i < 32 ==> final(self)@[i] == old(self)@[i].wrapping_add(rhs@[i]),
    {
        *self = self.add(rhs);
    }

    /// Lane-wise difference, wrapping modulo 2^8.
    pub fn sub(self, rhs: Self) -> (r: Self)
        ensures
            forall|i: int| 0 <= i < 32 ==> r@[i] == self@[i].wrapping_sub(rhs@[i]),
    {
        let a = self.to_array();
        let b = rhs.to_array();
        let mut out = [0u8; 32];
        let mut i: usize = 0;
        while i < 32
            invariant
                i <= 32,
                a@ == self@,
                b@ == rhs@,
                forall|j: int| 0 <= j < i ==> out[j] == a[j].wrapping_sub(b[j]),
            decreases 32 - i,
        {
            out[i] = a[i].wrapping_sub(b[i]);
            i += 1;
        }
        Self::from_array(out)
    }

    /// Lane-wise wrapping difference, in place.
    pub fn sub_assign(&mut self, rhs: Self)
        ensures
            forall|i: int| 0 <= i < 32 ==> final(self)@[i] == old(self)@[i].wrapping_sub(rhs@[i]),
    {
        *self = self.sub(rhs);
    }

    /// Lane-wise unsigned minimum.
    pub fn min(self, rhs: Self) -> (r: Self)
        ensures
            forall|i: int| 0 <= i < 32 ==> r@[i] == min_u8(self@[i], rhs@[i]),
    {
        let a = self.to_array();
        let b = rhs.to_array();
        let mut out = [0u8; 32];
        let mut i: usize = 0;
        while i < 32
            invariant
                i <= 32,
                a@ == self@,
                b@ == rhs@,
                forall|j: int| 0 <= j < i ==> out[j] == min_u8(a[j], b[j]),
            decreases 32 - i,
        {
            out[i] = if a[i] <= b[i] { a[i] } else { b[i] };
            i += 1;
        }
        Self::from_array(out)
    }

    /// Lane-wise unsigned maximum.
    pub fn max(self, rhs: Self) -> (r: Self)
        ensures
            forall|i: int| 0 <= i < 32 ==> r@[i] == max_u8(self@[i], rhs@[i]),
    {
        let a = self.to_array();
        let b = rhs.to_array();
        let mut out = [0u8; 32];
        let mut i: usize = 0;
        while i < 32
            invariant
                i <= 32,
                a@ == self@,
                b@ == rhs@,
                forall|j: int| 0 <= j < i ==> out[j] == max_u8(a[j], b[j]),
            decreases 32 - i,
        {
            out[i] = if a[i] <= b[i] { b[i] } else { a[i] };
            i += 1;
        }
        Self::from_array(out)
    }

    /// An array made into a vector and read back is the same array: whatever array is read
    /// from a vector that holds the lanes of `array` equals `array`.
    pub proof fn lemma_array_round_trip(self, array: [u8; 32], back: [u8; 32])
        requires
            self@ == array@,
            back@ == self@,
        ensures
            back == array,
    {
        assert(back@ =~= array@);
    }

    /// The lanes decide the vector: two vectors with the same lanes have the same payload,
    /// so a vector read into an array and made from it again is the same vector.
    pub proof fn lemma_lanes_decide(self, other: Self)
        requires
            self@ == other@,
        ensures
            self == other,
    {
        self.0.lemma_lanes_u8_decide(other.0);
    }

    /// Converts into `T` wherever a value conversion into `T` is defined.
    pub fn convert<T>(self) -> (r: T) where Self: VectorConvertInto<T>
        ensures
            r == VectorConvertInto::<T>::converted(self),
    {
        self.convert_vector()
    }

    /// Reinterprets the payload as a `T`; no bit changes.
    pub fn transmute<T>(self) -> (r: T) where Self: VectorTransmuteInto<T>
        ensures
            r == VectorTransmuteInto::<T>::transmuted(self),
    {
        self.transmute_vector()
    }
}

} // verus!
