use crate::register::Register256;
use vstd::prelude::*;

verus! {

/// A vector type that exposes its raw 256-bit payload.
pub trait To256i: Sized {
    /// The payload of a value.
    spec fn payload(self) -> Register256;

    fn to_256i(self) -> (r: Register256)
        ensures
            r == self.payload(),
    ;
}

/// A vector type that can be built from a raw 256-bit payload.
pub trait From256i: Sized {
    /// The value built around a payload.
    spec fn with_payload(x: Register256) -> Self;

    fn from_256i(x: Register256) -> (r: Self)
        ensures
            r == Self::with_payload(x),
    ;
}

/// A vector type that is its payload and nothing more: building a value around a payload and
/// reading the payload back are inverse to each other.
pub trait Vector256: To256i + From256i {
    proof fn lemma_payload_kept(x: Register256)
        ensures
            Self::with_payload(x).payload() == x,
    ;

    proof fn lemma_value_kept(self)
        ensures
            Self::with_payload(self.payload()) == self,
    ;
}

/// Conversion that changes how the lanes' numeric values are represented.
pub trait VectorConvertInto<T>: Sized {
    /// The converted value.
    spec fn converted(self) -> T;

    fn convert_vector(self) -> (r: T)
        ensures
            r == self.converted(),
    ;
}

/// Reinterpretation of the 256-bit payload under another vector type.
pub trait VectorTransmuteInto<T>: Sized {
    /// The reinterpreted value.
    spec fn transmuted(self) -> T;

    fn transmute_vector(self) -> (r: T)
        ensures
            r == self.transmuted(),
    ;
}

/// Any type that exposes its payload transmutes into any type that can be built from one:
/// the target is built around the source's payload, unchanged.
impl<ToV: From256i, FromV: To256i> VectorTransmuteInto<ToV> for FromV {
    open spec fn transmuted(self) -> ToV {
        ToV::with_payload(self.payload())
    }

    fn transmute_vector(self) -> (r: ToV) {
        ToV::from_256i(self.to_256i())
    }
}

/// Transmuting never changes a bit: the result has the payload of the source.
pub proof fn lemma_transmute_keeps_payload<X: To256i, Y: Vector256>(x: X)
    ensures
        VectorTransmuteInto::<Y>::transmuted(x).payload() == x.payload(),
{
    Y::lemma_payload_kept(x.payload());
}

/// Transmuting to another type and back gives the same value back.
pub proof fn lemma_transmute_round_trip<X: Vector256, Y: Vector256>(x: X)
    ensures
        VectorTransmuteInto::<X>::transmuted(VectorTransmuteInto::<Y>::transmuted(x)) == x,
{
    Y::lemma_payload_kept(x.payload());
    x.lemma_value_kept();
}

/// Transmuting there, back and there again still carries the payload it started with.
pub proof fn lemma_transmute_thrice<X: Vector256, Y: Vector256>(x: X)
    ensures
        VectorTransmuteInto::<Y>::transmuted(
            VectorTransmuteInto::<X>::transmuted(VectorTransmuteInto::<Y>::transmuted(x)),
        ).payload() == x.payload(),
        VectorTransmuteInto::<Y>::transmuted(
            VectorTransmuteInto::<X>::transmuted(VectorTransmuteInto::<Y>::transmuted(x)),
        ) == VectorTransmuteInto::<Y>::transmuted(x),
{
    lemma_transmute_round_trip::<X, Y>(x);
    lemma_transmute_keeps_payload::<X, Y>(x);
}

} // verus!
