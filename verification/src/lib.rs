//! Lane-exact 256-bit vector values.
//!
//! Every vector type is one 256-bit payload read as lanes of one numeric type: signed and
//! unsigned integers of 8, 16, 32 and 64 bits, and single- and double-precision floats,
//! which are held and handled as IEEE 754 bit patterns. Operations take their operands by
//! value and give a new value.
//!
//! - `register`: the payload, its little-endian reading as lanes, byte-wise logic, masks.
//! - `lane`, `ieee`: what one integer or float lane of a result is, and the laws of
//!   comparison, minimum and maximum.
//! - `int8`, `int16`, `int32`, `int64`, `float_256`: the vector types.
//! - `rounding`: rounding of float lanes to whole numbers.
//! - `conversion`, `bridge`: bit transmutation between any two vector types, and value
//!   conversion between signednesses and between `Float32x8` and `Int32x8`.
//! - `scaling`: powers of two and rounding of fractions, shared by the float modules.

pub mod bridge;
pub mod conversion;
pub mod float_256;
pub mod ieee;
pub mod int16;
pub mod int32;
pub mod int64;
pub mod int8;
pub mod lane;
pub mod register;
pub mod rounding;
pub mod scaling;

pub use conversion::{From256i, To256i, Vector256, VectorConvertInto, VectorTransmuteInto};
pub use float_256::{Float32x8, Float64x4};
pub use int16::{Int16x16, Uint16x16};
pub use int32::{Int32x8, Uint32x8};
pub use int64::{Int64x4, Uint64x4};
pub use int8::{Int8x32, Uint8x32};
pub use register::Register256;
