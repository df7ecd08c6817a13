//! Global guarantees of the builders, stated over the intended outcome
//! `spec_build`: a successful construction consumes buffers and children
//! exactly per the layout table, and every range it exposes lies within the
//! source extent.

use vstd::prelude::*;
use crate::bounds::fits_usize;
use crate::builders::{spec_build, spec_build_children, BuildSpec, ChildrenSpec};
use crate::decode::{spec_bit, spec_i32_at, spec_row_valid};
use crate::handle::ArrowArrayV;
use crate::schema::{DataType, IpcBuffer, IpcField, Node, PrimWidth};

verus! {

/// How many buffer slots each physical layout owns.
pub open spec fn buffer_count(dt: DataType) -> int {
    match dt {
        DataType::Null => 0,
        DataType::Boolean => 2,
        DataType::Primitive(_) => 2,
        DataType::Binary => 3,
        DataType::Utf8 => 3,
        DataType::LargeBinary => 3,
        DataType::LargeUtf8 => 3,
        DataType::FixedSizeBinary => 2,
        DataType::List(_) => 2,
        DataType::LargeList(_) => 2,
        DataType::FixedSizeList(_) => 1,
        DataType::Struct(_) => 1,
        DataType::Dictionary(_) => 2,
        DataType::Unsupported => 0,
    }
}

/// How many children each physical layout owns.
pub open spec fn child_count(dt: DataType) -> int {
    match dt {
        DataType::List(_) => 1,
        DataType::LargeList(_) => 1,
        DataType::FixedSizeList(_) => 1,
        DataType::Struct(c) => c@.len() as int,
        _ => 0,
    }
}

/// Whether a handle value matches the layout table for its type, at every
/// node of the tree: buffer and child counts, a zero offset, and a
/// dictionary exactly on dictionary nodes.
pub open spec fn counts_match(dt: DataType, a: ArrowArrayV) -> bool
    decreases dt,
{
    &&& a.buffers.len() == buffer_count(dt)
    &&& a.children.len() == child_count(dt)
    &&& a.offset == 0
    &&& (a.dictionary is Some <==> dt is Dictionary)
    &&& match dt {
        DataType::List(c) => counts_match(*c, a.children[0]),
        DataType::LargeList(c) => counts_match(*c, a.children[0]),
        DataType::FixedSizeList(c) => counts_match(*c, a.children[0]),
        DataType::Struct(cs) => forall|k: int|
            0 <= k < cs@.len() ==> counts_match(#[trigger] cs@[k], a.children[k]),
        _ => true,
    }
}

/// Every construction that succeeds matches the layout table at every node,
/// and — provided every supplied dictionary array lies within the source
/// extent — exposes only ranges within the source extent.
pub proof fn lemma_build_shape(
    dt: DataType,
    f: IpcField,
    dicts: Map<i64, ArrowArrayV>,
    nodes: Seq<Node>,
    bufs: Seq<IpcBuffer>,
    dlen: int,
    block: int,
)
    requires
        forall|id: i64| dicts.contains_key(id) ==> (#[trigger] dicts[id]).in_extent(dlen),
    ensures
        spec_build(dt, f, dicts, nodes, bufs, dlen, block) matches BuildSpec::Done(a, nt, bt)
            ==> counts_match(dt, a) && a.in_extent(dlen),
    decreases dt, 3int, 0int,
{
    if nodes.len() == 0 {
        return;
    }
    match dt {
        DataType::List(child) => {
            assert(decreases_to!(dt => child));
            lemma_build_shape(*child, f.fields[0], dicts, nodes.skip(1), bufs.skip(2), dlen, block);
        },
        DataType::LargeList(child) => {
            assert(decreases_to!(dt => child));
            lemma_build_shape(*child, f.fields[0], dicts, nodes.skip(1), bufs.skip(2), dlen, block);
        },
        DataType::FixedSizeList(child) => {
            assert(decreases_to!(dt => child));
            lemma_build_shape(*child, f.fields[0], dicts, nodes.skip(1), bufs.skip(1), dlen, block);
        },
        DataType::Struct(children) => {
            assert(decreases_to!(dt => children));
            assert(decreases_to!(children => children@));
            lemma_shape_children(
                children@,
                f.fields@,
                dicts,
                nodes.skip(1),
                bufs.skip(1),
                dlen,
                block,
                0,
            );
        },
        _ => {},
    }
}

/// The run of struct children built from index `i` on yields one value per
/// remaining child, each matching the table and lying within the extent.
pub proof fn lemma_shape_children(
    children: Seq<DataType>,
    fields: Seq<IpcField>,
    dicts: Map<i64, ArrowArrayV>,
    nodes: Seq<Node>,
    bufs: Seq<IpcBuffer>,
    dlen: int,
    block: int,
    i: int,
)
    requires
        forall|id: i64| dicts.contains_key(id) ==> (#[trigger] dicts[id]).in_extent(dlen),
    ensures
        spec_build_children(children, fields, dicts, nodes, bufs, dlen, block, i) matches
            ChildrenSpec::Done(cs, nt, bt) ==> cs.len() == (if 0 <= i <= children.len() {
            children.len() - i
        } else {
            0
        }) && (forall|k: int|
            0 <= k < cs.len() ==> counts_match(children[i + k], #[trigger] cs[k]) && cs[k].in_extent(
                dlen,
            )),
    decreases children, 2int, children.len() - i,
{
    if i < 0 || i >= children.len() {
        return;
    }
    assert(decreases_to!(children => children[i]));
    lemma_build_shape(children[i], fields[i], dicts, nodes, bufs, dlen, block);
    match spec_build(children[i], fields[i], dicts, nodes, bufs, dlen, block) {
        BuildSpec::Fail(_) => {},
        BuildSpec::Done(a, nt, bt) => {
            lemma_shape_children(
                children,
                fields,
                dicts,
                nodes.skip(nt),
                bufs.skip(bt),
                dlen,
                block,
                i + 1,
            );
        },
    }
}

/// Whether the bitmap of `blen` bytes at `base` exposes exactly the given
/// validity, bit by bit, LSB-first.
pub open spec fn validity_ok(data: Seq<u8>, base: int, blen: int, valid: Seq<bool>) -> bool {
    forall|i: int|
        0 <= i < valid.len() ==> spec_bit(data.subrange(base, base + blen), i) == valid[i]
}

/// Whether the little-endian four-byte values at `base` are exactly the
/// given values, element by element.
pub open spec fn le_bytes_ok(data: Seq<u8>, base: int, values: Seq<i32>) -> bool {
    forall|i: int| 0 <= i < values.len() ==> spec_i32_at(data, base, i) == values[i]
}

/// Round trip for a 32-bit primitive column with nulls: a source region that
/// holds an exported validity bitmap and the exported little-endian values,
/// described by one field node and two descriptors, builds successfully, and
/// what the produced handle exposes reads back as the same values at the
/// same null positions.
pub proof fn lemma_round_trip_i32(
    data: Seq<u8>,
    block: int,
    f: IpcField,
    dicts: Map<i64, ArrowArrayV>,
    values: Seq<i32>,
    valid: Seq<bool>,
    n: Node,
    vb: IpcBuffer,
    wb: IpcBuffer,
)
    requires
        0 <= block,
        n.length == values.len(),
        fits_usize(n.length),
        0 < n.null_count,
        fits_usize(n.null_count),
        valid.len() == values.len(),
        fits_usize(vb.offset) && fits_usize(vb.length),
        fits_usize(wb.offset) && fits_usize(wb.length),
        block + vb.offset + vb.length <= data.len(),
        block + wb.offset + wb.length <= data.len(),
        wb.length == 4 * values.len(),
        validity_ok(data, block + vb.offset, vb.length as int, valid),
        le_bytes_ok(data, block + wb.offset, values),
    ensures
        spec_build(
            DataType::Primitive(PrimWidth::W4),
            f,
            dicts,
            seq![n],
            seq![vb, wb],
            data.len() as int,
            block,
        ) matches BuildSpec::Done(a, nt, bt) && nt == 1 && bt == 2 && a.buffers == seq![
            Some((block + vb.offset, vb.length as int)),
            Some((block + wb.offset, wb.length as int)),
        ] && (forall|i: int|
            0 <= i < values.len() ==> spec_row_valid(data, a.buffers, i) == valid[i]) && (forall|
            i: int,
        |
            0 <= i < values.len() ==> spec_i32_at(data, block + wb.offset, i) == values[i]),
{
    let bufs = seq![vb, wb];
    assert(bufs.skip(1) =~= seq![wb]);
    assert((wb.length as int) % 4 == 0) by (nonlinear_arith)
        requires
            wb.length == 4 * values.len(),
    ;
    assert((wb.length as int) / 4 >= values.len()) by (nonlinear_arith)
        requires
            wb.length == 4 * values.len(),
    ;
    match spec_build(
        DataType::Primitive(PrimWidth::W4),
        f,
        dicts,
        seq![n],
        bufs,
        data.len() as int,
        block,
    ) {
        BuildSpec::Fail(_) => {
            assert(false);
        },
        BuildSpec::Done(a, nt, bt) => {
            assert(a.buffers == seq![
                Some((block + vb.offset, vb.length as int)),
                Some((block + wb.offset, wb.length as int)),
            ]);
            assert forall|i: int| 0 <= i < values.len() implies spec_row_valid(data, a.buffers, i)
                == valid[i] by {
                assert(spec_bit(
                    data.subrange(block + vb.offset, block + vb.offset + vb.length),
                    i,
                ) == valid[i]);
            };
        },
    }
}

} // verus!
