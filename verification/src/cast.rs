//! The reinterpretation verdicts. Whether a byte range may be read as a
//! slice of fixed-width elements is decided by `bytemuck::try_cast_slice`:
//! the cast is refused whenever the byte length is not a whole multiple of
//! the element width, and may also be refused when the bytes are not suitably
//! addressed for that width — a fact of the machine, not of the values, so
//! no contract here promises acceptance for widths above one.

use vstd::prelude::*;
use crate::schema::PrimWidth;

verus! {

/// Relies on bytemuck::try_cast_slice::<u8, u8>: same element size and
/// alignment on both sides, so the cast is always accepted.
#[verifier::external_body]
fn cast_ok_1(bytes: &[u8]) -> (r: bool)
    ensures
        r,
{
    bytemuck::try_cast_slice::<u8, u8>(bytes).is_ok()
}

/// Relies on bytemuck::try_cast_slice::<u8, u16>: the cast is refused
/// whenever the byte length is not a whole multiple of 2.
#[verifier::external_body]
fn cast_ok_2(bytes: &[u8]) -> (r: bool)
    ensures
        bytes@.len() % 2 != 0 ==> !r,
{
    bytemuck::try_cast_slice::<u8, u16>(bytes).is_ok()
}

/// Relies on bytemuck::try_cast_slice::<u8, u32>: the cast is refused
/// whenever the byte length is not a whole multiple of 4.
#[verifier::external_body]
fn cast_ok_4(bytes: &[u8]) -> (r: bool)
    ensures
        bytes@.len() % 4 != 0 ==> !r,
{
    bytemuck::try_cast_slice::<u8, u32>(bytes).is_ok()
}

/// Relies on bytemuck::try_cast_slice::<u8, u64>: the cast is refused
/// whenever the byte length is not a whole multiple of 8.
#[verifier::external_body]
fn cast_ok_8(bytes: &[u8]) -> (r: bool)
    ensures
        bytes@.len() % 8 != 0 ==> !r,
{
    bytemuck::try_cast_slice::<u8, u64>(bytes).is_ok()
}

/// Relies on bytemuck::try_cast_slice::<u8, u128>: the cast is refused
/// whenever the byte length is not a whole multiple of 16.
#[verifier::external_body]
fn cast_ok_16(bytes: &[u8]) -> (r: bool)
    ensures
        bytes@.len() % 16 != 0 ==> !r,
{
    bytemuck::try_cast_slice::<u8, u128>(bytes).is_ok()
}

/// Whether the bytes may be reinterpreted as elements of the given width.
pub fn cast_accepted(bytes: &[u8], width: PrimWidth) -> (r: bool)
    ensures
        (bytes@.len() as int) % width.bytes() != 0 ==> !r,
        width == PrimWidth::W1 ==> r,
{
    match width {
        PrimWidth::W1 => cast_ok_1(bytes),
        PrimWidth::W2 => cast_ok_2(bytes),
        PrimWidth::W4 => cast_ok_4(bytes),
        PrimWidth::W8 => cast_ok_8(bytes),
        PrimWidth::W16 => cast_ok_16(bytes),
    }
}

} // verus!
