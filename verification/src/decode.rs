//! Readers over a built handle: enough of the conversion boundary to observe
//! what a handle exposes — validity bits, 32-bit little-endian values, and
//! 32-bit-offset text rows — directly from the source bytes.

use vstd::prelude::*;
use crate::handle::ArrowArray;

verus! {

broadcast use vstd::slice::group_slice_axioms;

/// LSB-first bit `i` of a packed bitmap.
pub open spec fn spec_bit(bytes: Seq<u8>, i: int) -> bool {
    (bytes[i / 8] >> ((i % 8) as u8)) & 1u8 == 1u8
}

/// Whether row `i` is valid under the validity slot of `buffers`: an absent
/// slot means every row is valid, a present one points at a bitmap in the
/// source bytes.
pub open spec fn spec_row_valid(data: Seq<u8>, buffers: Seq<Option<(int, int)>>, i: int) -> bool {
    match buffers[0] {
        None => true,
        Some(r) => spec_bit(data.subrange(r.0, r.0 + r.1), i),
    }
}

/// The little-endian 32-bit value of four bytes.
pub open spec fn spec_le_u32(b0: u8, b1: u8, b2: u8, b3: u8) -> u32 {
    (b0 as u32) | ((b1 as u32) << 8u32) | ((b2 as u32) << 16u32) | ((b3 as u32) << 24u32)
}

/// Element `i` of a buffer of four-byte little-endian values based at `base`,
/// read as a signed 32-bit integer.
pub open spec fn spec_i32_at(data: Seq<u8>, base: int, i: int) -> i32 {
    spec_le_u32(
        data[base + 4 * i],
        data[base + 4 * i + 1],
        data[base + 4 * i + 2],
        data[base + 4 * i + 3],
    ) as i32
}

/// Reads the little-endian 32-bit value at `idx`.
pub fn read_u32_le(data: &[u8], idx: usize) -> (r: u32)
    requires
        idx + 4 <= data@.len(),
    ensures
        r == spec_le_u32(data@[idx as int], data@[idx + 1], data@[idx + 2], data@[idx + 3]),
{
    let b0 = data[idx];
    let b1 = data[idx + 1];
    let b2 = data[idx + 2];
    let b3 = data[idx + 3];
    (b0 as u32) | ((b1 as u32) << 8u32) | ((b2 as u32) << 16u32) | ((b3 as u32) << 24u32)
}

/// Whether the handle's validity slot and row count let row `i` be read
/// safely from the source bytes.
pub open spec fn validity_readable(data: Seq<u8>, a: ArrowArray) -> bool {
    &&& a.buffers@.len() >= 1
    &&& match a.buffers@[0] {
        None => true,
        Some(r) => r.offset + r.length <= data.len() && 8 * r.length >= a.length,
    }
}

/// Whether row `i` of the handle is valid. Exact against `spec_row_valid`.
pub fn row_is_valid(data: &[u8], a: &ArrowArray, i: usize) -> (r: bool)
    requires
        validity_readable(data@, *a),
        i < a.length,
    ensures
        r == spec_row_valid(data@, a@.buffers, i as int),
{
    let data_len: usize = data.len();
    proof {
        assert(data_len == data@.len());
    }
    match &a.buffers[0] {
        None => true,
        Some(vr) => {
            proof {
                assert(i as int / 8 < vr.length as int) by (nonlinear_arith)
                    requires
                        0 <= i as int,
                        (i as int) < 8 * (vr.length as int),
                ;
            }
            let byte = data[vr.offset + i / 8];
            proof {
                assert(data@.subrange(vr.offset as int, vr.offset + vr.length)[i as int / 8]
                    == data@[vr.offset + i as int / 8]);
            }
            (byte >> ((i % 8) as u8)) & 1u8 == 1u8
        },
    }
}

/// Whether the handle exposes a four-byte-wide value buffer in slot 1 that
/// covers its row count within the source bytes.
pub open spec fn values_w4_readable(data: Seq<u8>, a: ArrowArray) -> bool {
    &&& a.buffers@.len() >= 2
    &&& match a.buffers@[1] {
        Some(r) => r.offset + 4 * (a.length as int) <= data.len() && r.offset + r.length <= data.len(),
        None => false,
    }
}

/// Reads a 32-bit primitive column through its handle: one `Some` per valid
/// row holding the little-endian value, one `None` per null row.
pub fn decode_i32_column(data: &[u8], a: &ArrowArray) -> (r: Vec<Option<i32>>)
    requires
        validity_readable(data@, *a),
        values_w4_readable(data@, *a),
    ensures
        r@.len() == a.length,
        forall|i: int|
            0 <= i < a.length ==> r@[i] == (if spec_row_valid(data@, a@.buffers, i) {
                Some(spec_i32_at(data@, a.buffers@[1]->Some_0.offset as int, i))
            } else {
                None::<i32>
            }),
{
    let data_len: usize = data.len();
    proof {
        assert(data_len == data@.len());
    }
    let vr = match &a.buffers[1] {
        Some(v) => *v,
        None => {
            proof {
                assert(false);
            }
            return Vec::new();
        },
    };
    let mut out: Vec<Option<i32>> = Vec::new();
    let mut i: usize = 0;
    while i < a.length
        invariant
            i <= a.length,
            out@.len() == i,
            data@.len() <= usize::MAX,
            validity_readable(data@, *a),
            values_w4_readable(data@, *a),
            a.buffers@[1] == Some(vr),
            forall|k: int|
                0 <= k < i ==> out@[k] == (if spec_row_valid(data@, a@.buffers, k) {
                    Some(spec_i32_at(data@, vr.offset as int, k))
                } else {
                    None::<i32>
                }),
        decreases a.length - i,
    {
        proof {
            assert(vr.offset + 4 * (a.length as int) <= data@.len());
        }
        if row_is_valid(data, a, i) {
            let v = read_u32_le(data, vr.offset + 4 * i);
            out.push(Some(v as i32));
        } else {
            out.push(None);
        }
        i = i + 1;
    }
    out
}

/// Whether the handle exposes a 32-bit-offset text layout whose offsets are
/// in range and nondecreasing over the value buffer — the producer-side
/// properties this layer trusts, spelled out so a reader can demand them.
pub open spec fn utf8_readable(data: Seq<u8>, a: ArrowArray) -> bool {
    &&& a.buffers@.len() >= 3
    &&& match a.buffers@[1] {
        Some(r) => r.offset + 4 * (a.length as int) + 4 <= data.len(),
        None => false,
    }
    &&& match a.buffers@[2] {
        Some(r) => r.offset + r.length <= data.len(),
        None => false,
    }
    &&& (forall|i: int|
        0 <= i <= a.length ==> 0 <= (#[trigger] spec_i32_at(
            data,
            a.buffers@[1]->Some_0.offset as int,
            i,
        )) as int <= a.buffers@[2]->Some_0.length)
    &&& (forall|i: int|
        0 <= i < a.length ==> (#[trigger] spec_i32_at(
            data,
            a.buffers@[1]->Some_0.offset as int,
            i,
        )) as int <= spec_i32_at(data, a.buffers@[1]->Some_0.offset as int, i + 1) as int)
}

/// Reads a 32-bit-offset binary or text column through its handle: one
/// `Some` per valid row holding that row's bytes, one `None` per null row.
pub fn decode_utf8_column(data: &[u8], a: &ArrowArray) -> (r: Vec<Option<Vec<u8>>>)
    requires
        validity_readable(data@, *a),
        utf8_readable(data@, *a),
    ensures
        r@.len() == a.length,
        forall|i: int|
            0 <= i < a.length ==> ((#[trigger] r@[i]) is Some <==> spec_row_valid(
                data@,
                a@.buffers,
                i,
            )),
        forall|i: int|
            0 <= i < a.length && spec_row_valid(data@, a@.buffers, i) ==> ((#[trigger] r@[i])
                matches Some(row) && row@ == ({
                let ob = a.buffers@[1]->Some_0.offset as int;
                let vb = a.buffers@[2]->Some_0.offset as int;
                data@.subrange(
                    vb + spec_i32_at(data@, ob, i) as int,
                    vb + spec_i32_at(data@, ob, i + 1) as int,
                )
            })),
{
    let data_len: usize = data.len();
    proof {
        assert(data_len == data@.len());
    }
    let ovr = match &a.buffers[1] {
        Some(v) => *v,
        None => {
            proof {
                assert(false);
            }
            return Vec::new();
        },
    };
    let vvr = match &a.buffers[2] {
        Some(v) => *v,
        None => {
            proof {
                assert(false);
            }
            return Vec::new();
        },
    };
    let mut out: Vec<Option<Vec<u8>>> = Vec::new();
    let mut i: usize = 0;
    while i < a.length
        invariant
            i <= a.length,
            out@.len() == i,
            data@.len() <= usize::MAX,
            validity_readable(data@, *a),
            utf8_readable(data@, *a),
            a.buffers@[1] == Some(ovr),
            a.buffers@[2] == Some(vvr),
            forall|k: int|
                0 <= k < i ==> ((#[trigger] out@[k]) is Some <==> spec_row_valid(
                    data@,
                    a@.buffers,
                    k,
                )),
            forall|k: int|
                0 <= k < i && spec_row_valid(data@, a@.buffers, k) ==> ((#[trigger] out@[k])
                    matches Some(row) && row@ == data@.subrange(
                    vvr.offset + spec_i32_at(data@, ovr.offset as int, k) as int,
                    vvr.offset + spec_i32_at(data@, ovr.offset as int, k + 1) as int,
                )),
        decreases a.length - i,
    {
        proof {
            assert(ovr.offset + 4 * (a.length as int) + 4 <= data@.len());
        }
        if row_is_valid(data, a, i) {
            let start = read_u32_le(data, ovr.offset + 4 * i) as i32;
            let end = read_u32_le(data, ovr.offset + 4 * i + 4) as i32;
            proof {
                assert(spec_i32_at(data@, ovr.offset as int, i as int) == start as i32);
                assert(spec_i32_at(data@, ovr.offset as int, i as int + 1) == end as i32);
            }
            let s = vvr.offset + (start as usize);
            let e = vvr.offset + (end as usize);
            let row = vstd::slice::slice_to_vec(vstd::slice::slice_subrange(data, s, e));
            out.push(Some(row));
        } else {
            out.push(None);
        }
        i = i + 1;
    }
    out
}

} // verus!
