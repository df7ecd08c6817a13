//! The buffer bounds resolver: pops descriptors, turns signed wire values
//! into indices, resolves ranges against the source extent, and runs the
//! typed-reinterpretation checks.

use vstd::prelude::*;
use std::collections::VecDeque;
use crate::error::Error;
use crate::handle::{range_view, BufferRange};
use crate::schema::{IpcBuffer, PrimWidth};

verus! {

broadcast use vstd::slice::group_slice_axioms;

/// Whether a signed wire value is a valid index on this machine.
pub open spec fn fits_usize(x: i64) -> bool {
    0 <= x && x <= usize::MAX
}

/// Converts a signed wire value to an index; a negative (or unaddressable)
/// value is a format error.
pub fn wire_index(x: i64) -> (r: Result<usize, Error>)
    ensures
        r == if fits_usize(x) {
            Ok::<usize, Error>(x as usize)
        } else {
            Err::<usize, Error>(Error::NegativeFooterLength)
        },
{
    if x < 0 {
        Err(Error::NegativeFooterLength)
    } else if x as u64 <= usize::MAX as u64 {
        Ok(x as usize)
    } else {
        Err(Error::NegativeFooterLength)
    }
}

/// What popping one descriptor yields: nothing, a bad wire value, or a
/// relative (offset, length).
pub enum BoundsSpec {
    NoBuffer,
    Neg,
    Range(int, int),
}

/// The outcome of popping the front descriptor, decided by the queue alone.
pub open spec fn spec_bounds(q: Seq<IpcBuffer>) -> BoundsSpec {
    if q.len() == 0 {
        BoundsSpec::NoBuffer
    } else if !fits_usize(q[0].offset) || !fits_usize(q[0].length) {
        BoundsSpec::Neg
    } else {
        BoundsSpec::Range(q[0].offset as int, q[0].length as int)
    }
}

/// Pops one descriptor and returns its (offset, length) relative to the block
/// offset. Fails with `ExpectedBuffer` on an empty queue and with
/// `NegativeFooterLength` on a negative wire value; a popped descriptor stays
/// consumed either way.
pub fn get_buffer_bounds(buffers: &mut VecDeque<IpcBuffer>) -> (r: Result<(usize, usize), Error>)
    ensures
        match spec_bounds(old(buffers)@) {
            BoundsSpec::NoBuffer => r == Err::<(usize, usize), Error>(Error::ExpectedBuffer)
                && final(buffers)@ == old(buffers)@,
            BoundsSpec::Neg => r == Err::<(usize, usize), Error>(Error::NegativeFooterLength)
                && final(buffers)@ == old(buffers)@.skip(1),
            BoundsSpec::Range(o, l) => r == Ok::<(usize, usize), Error>(
                (o as usize, l as usize),
            ) && final(buffers)@ == old(buffers)@.skip(1),
        },
{
    match buffers.pop_front() {
        None => Err(Error::ExpectedBuffer),
        Some(b) => {
            let offset = match wire_index(b.offset) {
                Ok(v) => v,
                Err(e) => {
                    return Err(e);
                },
            };
            let length = match wire_index(b.length) {
                Ok(v) => v,
                Err(e) => {
                    return Err(e);
                },
            };
            Ok((offset, length))
        },
    }
}

/// Whether the absolute range `[block + off, block + off + len)` lies inside
/// a source extent of `dlen` bytes.
pub open spec fn range_in_extent(dlen: int, block: int, off: int, len: int) -> bool {
    block + off + len <= dlen
}

/// Resolves a relative (offset, length) to an absolute range, failing with
/// `OutOfBounds` when it reaches past the source extent.
pub fn resolve_range(data_len: usize, block_offset: usize, off: usize, len: usize) -> (r: Result<
    BufferRange,
    Error,
>)
    ensures
        r == if range_in_extent(data_len as int, block_offset as int, off as int, len as int) {
            Ok::<BufferRange, Error>(
                BufferRange { offset: (block_offset + off) as usize, length: len },
            )
        } else {
            Err::<BufferRange, Error>(Error::OutOfBounds)
        },
{
    match block_offset.checked_add(off) {
        None => Err(Error::OutOfBounds),
        Some(start) => match start.checked_add(len) {
            None => Err(Error::OutOfBounds),
            Some(end) => if end <= data_len {
                Ok(BufferRange { offset: start, length: len })
            } else {
                Err(Error::OutOfBounds)
            },
        },
    }
}

/// What resolving a validity slot yields. The slot is always consumed, but
/// its bytes are bounds-checked and exposed only when the node has nulls.
pub enum ValiditySpec {
    NoBuffer,
    Neg,
    Oob,
    Validity(Option<(int, int)>),
}

/// The outcome of resolving the validity slot at the front of the queue.
pub open spec fn spec_validity(dlen: int, block: int, q: Seq<IpcBuffer>, null_count: int) -> ValiditySpec {
    match spec_bounds(q) {
        BoundsSpec::NoBuffer => ValiditySpec::NoBuffer,
        BoundsSpec::Neg => ValiditySpec::Neg,
        BoundsSpec::Range(o, l) => if null_count > 0 {
            if range_in_extent(dlen, block, o, l) {
                ValiditySpec::Validity(Some((block + o, l)))
            } else {
                ValiditySpec::Oob
            }
        } else {
            ValiditySpec::Validity(None)
        },
    }
}

/// Consumes the validity descriptor slot. Returns the absolute range of the
/// bitmap when `null_count > 0`, and `None` (without a bounds check, matching
/// the wire contract) when the node has no nulls.
pub fn get_validity(
    data: &[u8],
    block_offset: usize,
    buffers: &mut VecDeque<IpcBuffer>,
    null_count: usize,
) -> (r: Result<Option<BufferRange>, Error>)
    ensures
        final(buffers)@ == if old(buffers)@.len() == 0 {
            old(buffers)@
        } else {
            old(buffers)@.skip(1)
        },
        match spec_validity(
            data@.len() as int,
            block_offset as int,
            old(buffers)@,
            null_count as int,
        ) {
            ValiditySpec::NoBuffer => r == Err::<Option<BufferRange>, Error>(Error::ExpectedBuffer),
            ValiditySpec::Neg => r == Err::<Option<BufferRange>, Error>(
                Error::NegativeFooterLength,
            ),
            ValiditySpec::Oob => r == Err::<Option<BufferRange>, Error>(Error::OutOfBounds),
            ValiditySpec::Validity(v) => r matches Ok(rr) && range_view(rr) == v,
        },
{
    let (off, len) = match get_buffer_bounds(buffers) {
        Ok(v) => v,
        Err(e) => {
            return Err(e);
        },
    };
    if null_count > 0 {
        match resolve_range(data.len(), block_offset, off, len) {
            Ok(range) => Ok(Some(range)),
            Err(e) => Err(e),
        }
    } else {
        Ok(None)
    }
}

/// What resolving a typed value buffer yields.
pub enum BufferSpec {
    NoBuffer,
    Neg,
    Oob,
    NotMultiple,
    TooSmall,
    Buffer(int, int),
}

/// The outcome of resolving the typed value buffer at the front of the
/// queue: its range must lie in the extent, its byte length must be a whole
/// multiple of the element width, and it must hold at least `num_rows`
/// elements. The machine-side alignment verdict is not part of this outcome.
pub open spec fn spec_typed_buffer(
    dlen: int,
    block: int,
    q: Seq<IpcBuffer>,
    num_rows: int,
    width: int,
) -> BufferSpec
    recommends
        width >= 1,
{
    match spec_bounds(q) {
        BoundsSpec::NoBuffer => BufferSpec::NoBuffer,
        BoundsSpec::Neg => BufferSpec::Neg,
        BoundsSpec::Range(o, l) => if !range_in_extent(dlen, block, o, l) {
            BufferSpec::Oob
        } else if l % width != 0 {
            BufferSpec::NotMultiple
        } else if l / width < num_rows {
            BufferSpec::TooSmall
        } else {
            BufferSpec::Buffer(block + o, l)
        },
    }
}

/// The demanded element count: `num_rows`, or one more for layouts that
/// store one trailing element (offset buffers).
pub open spec fn demanded(num_rows: int, one_extra: bool) -> int {
    num_rows + if one_extra {
        1int
    } else {
        0int
    }
}

/// What the typed-buffer checks decide once the reinterpretation verdict is
/// in: a refused cast is `Misaligned`; otherwise the element count must cover
/// the demanded row count, and the element count is returned.
pub fn typed_element_count(
    length: usize,
    cast_accepted: bool,
    num_rows: usize,
    one_extra: bool,
    width: usize,
) -> (r: Result<usize, Error>)
    requires
        width >= 1,
    ensures
        r == if !cast_accepted {
            Err::<usize, Error>(Error::Misaligned)
        } else if (length as int) / (width as int) < demanded(num_rows as int, one_extra) {
            Err::<usize, Error>(Error::TooSmall)
        } else {
            Ok::<usize, Error>(((length as int) / (width as int)) as usize)
        },
{
    if !cast_accepted {
        Err(Error::Misaligned)
    } else {
        let n = length / width;
        if n < num_rows || (one_extra && n == num_rows) {
            Err(Error::TooSmall)
        } else {
            Ok(n)
        }
    }
}

/// Resolves one typed value buffer: pops its descriptor, checks bounds,
/// checks reinterpretation as `width`-byte elements, and checks that at least
/// `num_rows` elements (one more with `one_extra`) are present. On success
/// the absolute range is returned; `Misaligned` may also arise for a
/// well-sized range whose bytes are unsuitably addressed on this machine.
pub fn get_buffer(
    data: &[u8],
    block_offset: usize,
    buffers: &mut VecDeque<IpcBuffer>,
    num_rows: usize,
    one_extra: bool,
    width: PrimWidth,
) -> (r: Result<BufferRange, Error>)
    ensures
        final(buffers)@ == if old(buffers)@.len() == 0 {
            old(buffers)@
        } else {
            old(buffers)@.skip(1)
        },
        match spec_typed_buffer(
            data@.len() as int,
            block_offset as int,
            old(buffers)@,
            demanded(num_rows as int, one_extra),
            width.bytes(),
        ) {
            BufferSpec::NoBuffer => r == Err::<BufferRange, Error>(Error::ExpectedBuffer),
            BufferSpec::Neg => r == Err::<BufferRange, Error>(Error::NegativeFooterLength),
            BufferSpec::Oob => r == Err::<BufferRange, Error>(Error::OutOfBounds),
            BufferSpec::NotMultiple => r == Err::<BufferRange, Error>(Error::Misaligned),
            BufferSpec::TooSmall => r == Err::<BufferRange, Error>(Error::TooSmall) || r == Err::<
                BufferRange,
                Error,
            >(Error::Misaligned),
            BufferSpec::Buffer(o, l) => (r matches Ok(rr) && rr.offset == o && rr.length == l) || r
                == Err::<BufferRange, Error>(Error::Misaligned),
        },
        width == PrimWidth::W1 ==> match spec_typed_buffer(
            data@.len() as int,
            block_offset as int,
            old(buffers)@,
            demanded(num_rows as int, one_extra),
            width.bytes(),
        ) {
            BufferSpec::TooSmall => r == Err::<BufferRange, Error>(Error::TooSmall),
            BufferSpec::Buffer(o, l) => r matches Ok(rr) && rr.offset == o && rr.length == l,
            _ => true,
        },
{
    let (off, len) = match get_buffer_bounds(buffers) {
        Ok(v) => v,
        Err(e) => {
            return Err(e);
        },
    };
    let range = match resolve_range(data.len(), block_offset, off, len) {
        Ok(v) => v,
        Err(e) => {
            return Err(e);
        },
    };
    let bytes = vstd::slice::slice_subrange(data, range.offset, range.offset + range.length);
    let accepted = crate::cast::cast_accepted(bytes, width);
    match typed_element_count(range.length, accepted, num_rows, one_extra, width.byte_width()) {
        Ok(_) => Ok(range),
        Err(e) => Err(e),
    }
}

} // verus!
