//! Fixed-width, null-terminated string types for exchanging text with
//! firmware interfaces that speak 8-bit Latin-1 or 16-bit UCS-2.
//!
//! The core types are borrowed, validated views over caller-owned code-unit
//! storage: a view never owns memory and guarantees exactly one trailing
//! null unit with no null or invalid unit before it.

pub mod chars;
pub mod cstr16;
pub mod cstr8;
pub mod errors;
pub mod eqstr;
pub mod latin1;
mod native;
pub mod ucs2;
pub mod unaligned;

pub use chars::Char16;
pub use cstr16::CStr16;
pub use cstr16::CStr16Iter;
pub use cstr8::CStr8;
pub use eqstr::EqStrUntilNul;
pub use errors::FromSliceUntilNulError;
pub use errors::FromSliceWithNulError;
pub use errors::FromStrWithBufError;
pub use errors::UnalignedCStr16Error;
pub use unaligned::UnalignedSlice;
