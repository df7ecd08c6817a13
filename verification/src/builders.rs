//! Per-physical-type builders and the dispatcher. Each builder reads one
//! field node's counts, resolves its validity slot, consumes exactly the
//! buffer descriptors its layout owns, recurses into its children, and
//! assembles one handle. The dispatcher pops one node per invocation and
//! routes on the physical layout; an unmapped layout is an unconditional
//! failure.
//!
//! The intended outcome of a dispatch is `spec_build`: it decides every
//! check this layer makes from the queues, the extent and the lookup alone.
//! The one verdict it cannot decide is the machine-side addressing of a
//! typed buffer, so every executable contract below allows `Misaligned`
//! wherever a typed buffer is consumed; all other outcomes are exact.

use vstd::prelude::*;
use std::collections::VecDeque;
use crate::bounds::{
    fits_usize, get_buffer, get_buffer_bounds, get_validity, range_in_extent,
    resolve_range, spec_bounds, spec_typed_buffer, spec_validity, wire_index, BoundsSpec,
    BufferSpec, ValiditySpec,
};
use crate::dict::Dictionaries;
use crate::error::Error;
use crate::handle::{
    arr_view, clone_array, create_array, range_view, ArrowArray, ArrowArrayV, BufferRange,
};
use crate::schema::{ipc_consistent, DataType, IpcBuffer, IpcField, Node, PrimWidth};

verus! {

broadcast use vstd::slice::group_slice_axioms;

/// Whether a node's signed row and null counts are valid indices here.
pub open spec fn node_ok(n: Node) -> bool {
    fits_usize(n.length) && fits_usize(n.null_count)
}

/// What one dispatch yields: an error, or the handle's value together with
/// how many field nodes and buffer descriptors the subtree consumed.
pub enum BuildSpec {
    Fail(Error),
    Done(ArrowArrayV, int, int),
}

/// What building a run of struct children yields.
pub enum ChildrenSpec {
    Fail(Error),
    Done(Seq<ArrowArrayV>, int, int),
}

/// The handle value a builder assembles for node `n`.
pub open spec fn node_value(
    n: Node,
    buffers: Seq<Option<(int, int)>>,
    children: Seq<ArrowArrayV>,
    dictionary: Option<ArrowArrayV>,
) -> ArrowArrayV {
    ArrowArrayV {
        length: n.length as int,
        null_count: n.null_count as int,
        offset: 0,
        buffers,
        children,
        dictionary: match dictionary {
            Some(d) => Some(Box::new(d)),
            None => None,
        },
    }
}

/// The error a failed validity resolution reports, if any.
pub open spec fn validity_error(v: ValiditySpec) -> Option<Error> {
    match v {
        ValiditySpec::NoBuffer => Some(Error::ExpectedBuffer),
        ValiditySpec::Neg => Some(Error::NegativeFooterLength),
        ValiditySpec::Oob => Some(Error::OutOfBounds),
        ValiditySpec::Validity(_) => None,
    }
}

/// The error a failed typed-buffer resolution reports, if any.
pub open spec fn buffer_error(b: BufferSpec) -> Option<Error> {
    match b {
        BufferSpec::NoBuffer => Some(Error::ExpectedBuffer),
        BufferSpec::Neg => Some(Error::NegativeFooterLength),
        BufferSpec::Oob => Some(Error::OutOfBounds),
        BufferSpec::NotMultiple => Some(Error::Misaligned),
        BufferSpec::TooSmall => Some(Error::TooSmall),
        BufferSpec::Buffer(_, _) => None,
    }
}

/// The intended outcome for a Null node: no buffers, no children.
pub open spec fn spec_mmap_null(n: Node) -> BuildSpec {
    if !node_ok(n) {
        BuildSpec::Fail(Error::NegativeFooterLength)
    } else {
        BuildSpec::Done(node_value(n, seq![], seq![], None), 0, 0)
    }
}

/// The intended outcome for a Boolean node: validity plus a packed-bit value
/// buffer that is bounds-checked but never reinterpreted.
pub open spec fn spec_mmap_boolean(n: Node, dlen: int, block: int, bufs: Seq<IpcBuffer>) -> BuildSpec {
    if !node_ok(n) {
        BuildSpec::Fail(Error::NegativeFooterLength)
    } else {
        let vres = spec_validity(dlen, block, bufs, n.null_count as int);
        match validity_error(vres) {
            Some(e) => BuildSpec::Fail(e),
            None => match spec_bounds(bufs.skip(1)) {
                BoundsSpec::NoBuffer => BuildSpec::Fail(Error::ExpectedBuffer),
                BoundsSpec::Neg => BuildSpec::Fail(Error::NegativeFooterLength),
                BoundsSpec::Range(o, l) => if !range_in_extent(dlen, block, o, l) {
                    BuildSpec::Fail(Error::OutOfBounds)
                } else {
                    BuildSpec::Done(
                        node_value(
                            n,
                            seq![vres->Validity_0, Some((block + o, l))],
                            seq![],
                            None,
                        ),
                        0,
                        2,
                    )
                },
            },
        }
    }
}

/// The intended outcome for a fixed-width primitive node: validity plus a
/// typed value buffer holding at least one element per row.
pub open spec fn spec_mmap_primitive(
    n: Node,
    width: PrimWidth,
    dlen: int,
    block: int,
    bufs: Seq<IpcBuffer>,
) -> BuildSpec {
    if !node_ok(n) {
        BuildSpec::Fail(Error::NegativeFooterLength)
    } else {
        let vres = spec_validity(dlen, block, bufs, n.null_count as int);
        match validity_error(vres) {
            Some(e) => BuildSpec::Fail(e),
            None => {
                let bres = spec_typed_buffer(dlen, block, bufs.skip(1), n.length as int, width.bytes());
                match buffer_error(bres) {
                    Some(e) => BuildSpec::Fail(e),
                    None => BuildSpec::Done(
                        node_value(
                            n,
                            seq![vres->Validity_0, Some((bres->Buffer_0, bres->Buffer_1))],
                            seq![],
                            None,
                        ),
                        0,
                        2,
                    ),
                }
            },
        }
    }
}

/// The intended outcome for a variable-length binary node: validity, one
/// offset per row plus one, and a raw value buffer. Offset monotonicity and
/// value containment are the producer's responsibility, by design.
pub open spec fn spec_mmap_binary(
    n: Node,
    offset_width: PrimWidth,
    dlen: int,
    block: int,
    bufs: Seq<IpcBuffer>,
) -> BuildSpec {
    if !node_ok(n) {
        BuildSpec::Fail(Error::NegativeFooterLength)
    } else {
        let vres = spec_validity(dlen, block, bufs, n.null_count as int);
        match validity_error(vres) {
            Some(e) => BuildSpec::Fail(e),
            None => {
                let ores = spec_typed_buffer(
                    dlen,
                    block,
                    bufs.skip(1),
                    n.length as int + 1,
                    offset_width.bytes(),
                );
                match buffer_error(ores) {
                    Some(e) => BuildSpec::Fail(e),
                    None => {
                        let wres = spec_typed_buffer(dlen, block, bufs.skip(2), 0, 1);
                        match buffer_error(wres) {
                            Some(e) => BuildSpec::Fail(e),
                            None => BuildSpec::Done(
                                node_value(
                                    n,
                                    seq![
                                        vres->Validity_0,
                                        Some((ores->Buffer_0, ores->Buffer_1)),
                                        Some((wres->Buffer_0, wres->Buffer_1)),
                                    ],
                                    seq![],
                                    None,
                                ),
                                0,
                                3,
                            ),
                        }
                    },
                }
            },
        }
    }
}

/// The intended outcome for a fixed-size binary node: validity plus a raw
/// value buffer of at least `rows + 1` bytes — a deliberately permissive
/// demand; an exact per-row size is not enforced at this layer.
pub open spec fn spec_mmap_fixed_size_binary(n: Node, dlen: int, block: int, bufs: Seq<IpcBuffer>) -> BuildSpec {
    if !node_ok(n) {
        BuildSpec::Fail(Error::NegativeFooterLength)
    } else {
        let vres = spec_validity(dlen, block, bufs, n.null_count as int);
        match validity_error(vres) {
            Some(e) => BuildSpec::Fail(e),
            None => {
                let bres = spec_typed_buffer(dlen, block, bufs.skip(1), n.length as int + 1, 1);
                match buffer_error(bres) {
                    Some(e) => BuildSpec::Fail(e),
                    None => BuildSpec::Done(
                        node_value(
                            n,
                            seq![vres->Validity_0, Some((bres->Buffer_0, bres->Buffer_1))],
                            seq![],
                            None,
                        ),
                        0,
                        2,
                    ),
                }
            },
        }
    }
}

/// The intended outcome for a dictionary node: the id is resolved first, then
/// validity and a typed key buffer; the looked-up array is re-owned by the
/// new handle.
pub open spec fn spec_mmap_dict(
    n: Node,
    key_width: PrimWidth,
    f: IpcField,
    dicts: Map<i64, ArrowArrayV>,
    dlen: int,
    block: int,
    bufs: Seq<IpcBuffer>,
) -> BuildSpec {
    if !node_ok(n) {
        BuildSpec::Fail(Error::NegativeFooterLength)
    } else {
        match f.dictionary_id {
            None => BuildSpec::Fail(Error::MissingDictionary),
            Some(id) => if !dicts.contains_key(id) {
                BuildSpec::Fail(Error::MissingDictionary)
            } else {
                let vres = spec_validity(dlen, block, bufs, n.null_count as int);
                match validity_error(vres) {
                    Some(e) => BuildSpec::Fail(e),
                    None => {
                        let bres = spec_typed_buffer(
                            dlen,
                            block,
                            bufs.skip(1),
                            n.length as int,
                            key_width.bytes(),
                        );
                        match buffer_error(bres) {
                            Some(e) => BuildSpec::Fail(e),
                            None => BuildSpec::Done(
                                node_value(
                                    n,
                                    seq![vres->Validity_0, Some((bres->Buffer_0, bres->Buffer_1))],
                                    seq![],
                                    Some(dicts[id]),
                                ),
                                0,
                                2,
                            ),
                        }
                    },
                }
            },
        }
    }
}

/// The intended outcome for a list node: validity, one offset per row plus
/// one, then one recursively built child.
pub open spec fn spec_mmap_list(
    n: Node,
    child: DataType,
    offset_width: PrimWidth,
    child_field: IpcField,
    dicts: Map<i64, ArrowArrayV>,
    nodes: Seq<Node>,
    bufs: Seq<IpcBuffer>,
    dlen: int,
    block: int,
) -> BuildSpec
    decreases child, 1int, 0int,
{
    if !node_ok(n) {
        BuildSpec::Fail(Error::NegativeFooterLength)
    } else {
        let vres = spec_validity(dlen, block, bufs, n.null_count as int);
        match validity_error(vres) {
            Some(e) => BuildSpec::Fail(e),
            None => {
                let ores = spec_typed_buffer(
                    dlen,
                    block,
                    bufs.skip(1),
                    n.length as int + 1,
                    offset_width.bytes(),
                );
                match buffer_error(ores) {
                    Some(e) => BuildSpec::Fail(e),
                    None => match spec_build(child, child_field, dicts, nodes, bufs.skip(2), dlen, block) {
                        BuildSpec::Fail(e) => BuildSpec::Fail(e),
                        BuildSpec::Done(ca, nt, bt) => BuildSpec::Done(
                            node_value(
                                n,
                                seq![vres->Validity_0, Some((ores->Buffer_0, ores->Buffer_1))],
                                seq![ca],
                                None,
                            ),
                            nt,
                            2 + bt,
                        ),
                    },
                }
            },
        }
    }
}

/// The intended outcome for a fixed-size-list node: validity only, then one
/// recursively built child.
pub open spec fn spec_mmap_fixed_size_list(
    n: Node,
    child: DataType,
    child_field: IpcField,
    dicts: Map<i64, ArrowArrayV>,
    nodes: Seq<Node>,
    bufs: Seq<IpcBuffer>,
    dlen: int,
    block: int,
) -> BuildSpec
    decreases child, 1int, 0int,
{
    if !node_ok(n) {
        BuildSpec::Fail(Error::NegativeFooterLength)
    } else {
        let vres = spec_validity(dlen, block, bufs, n.null_count as int);
        match validity_error(vres) {
            Some(e) => BuildSpec::Fail(e),
            None => match spec_build(child, child_field, dicts, nodes, bufs.skip(1), dlen, block) {
                BuildSpec::Fail(e) => BuildSpec::Fail(e),
                BuildSpec::Done(ca, nt, bt) => BuildSpec::Done(
                    node_value(n, seq![vres->Validity_0], seq![ca], None),
                    nt,
                    1 + bt,
                ),
            },
        }
    }
}

/// The intended outcome for the children of a struct node, built in declared
/// order from index `i` on, each consuming its own nodes and buffers.
pub open spec fn spec_build_children(
    children: Seq<DataType>,
    fields: Seq<IpcField>,
    dicts: Map<i64, ArrowArrayV>,
    nodes: Seq<Node>,
    bufs: Seq<IpcBuffer>,
    dlen: int,
    block: int,
    i: int,
) -> ChildrenSpec
    decreases children, 1int, children.len() - i,
{
    if i < 0 || i >= children.len() {
        ChildrenSpec::Done(seq![], 0, 0)
    } else {
        match spec_build(children[i], fields[i], dicts, nodes, bufs, dlen, block) {
            BuildSpec::Fail(e) => ChildrenSpec::Fail(e),
            BuildSpec::Done(a, nt, bt) => match spec_build_children(
                children,
                fields,
                dicts,
                nodes.skip(nt),
                bufs.skip(bt),
                dlen,
                block,
                i + 1,
            ) {
                ChildrenSpec::Fail(e) => ChildrenSpec::Fail(e),
                ChildrenSpec::Done(rest, nt2, bt2) => ChildrenSpec::Done(
                    seq![a] + rest,
                    nt + nt2,
                    bt + bt2,
                ),
            },
        }
    }
}

/// The intended outcome for a struct node: validity only, then one child per
/// declared field, in order.
pub open spec fn spec_mmap_struct(
    n: Node,
    children: Seq<DataType>,
    fields: Seq<IpcField>,
    dicts: Map<i64, ArrowArrayV>,
    nodes: Seq<Node>,
    bufs: Seq<IpcBuffer>,
    dlen: int,
    block: int,
) -> BuildSpec
    decreases children, 2int, 0int,
{
    if !node_ok(n) {
        BuildSpec::Fail(Error::NegativeFooterLength)
    } else {
        let vres = spec_validity(dlen, block, bufs, n.null_count as int);
        match validity_error(vres) {
            Some(e) => BuildSpec::Fail(e),
            None => match spec_build_children(children, fields, dicts, nodes, bufs.skip(1), dlen, block, 0) {
                ChildrenSpec::Fail(e) => BuildSpec::Fail(e),
                ChildrenSpec::Done(cs, nt, bt) => BuildSpec::Done(
                    node_value(n, seq![vres->Validity_0], cs, None),
                    nt,
                    1 + bt,
                ),
            },
        }
    }
}

/// The intended outcome of one dispatch: pop one node, route on the layout.
/// Everything but the machine-side addressing verdict is decided here.
pub open spec fn spec_build(
    dt: DataType,
    f: IpcField,
    dicts: Map<i64, ArrowArrayV>,
    nodes: Seq<Node>,
    bufs: Seq<IpcBuffer>,
    dlen: int,
    block: int,
) -> BuildSpec
    decreases dt, 0int, 0int,
{
    if nodes.len() == 0 {
        BuildSpec::Fail(Error::ExpectedNode)
    } else {
        let n = nodes[0];
        let rest = nodes.skip(1);
        let res = match dt {
            DataType::Null => spec_mmap_null(n),
            DataType::Boolean => spec_mmap_boolean(n, dlen, block, bufs),
            DataType::Primitive(w) => spec_mmap_primitive(n, w, dlen, block, bufs),
            DataType::Binary => spec_mmap_binary(n, PrimWidth::W4, dlen, block, bufs),
            DataType::Utf8 => spec_mmap_binary(n, PrimWidth::W4, dlen, block, bufs),
            DataType::LargeBinary => spec_mmap_binary(n, PrimWidth::W8, dlen, block, bufs),
            DataType::LargeUtf8 => spec_mmap_binary(n, PrimWidth::W8, dlen, block, bufs),
            DataType::FixedSizeBinary => spec_mmap_fixed_size_binary(n, dlen, block, bufs),
            DataType::List(child) => spec_mmap_list(
                n,
                *child,
                PrimWidth::W4,
                f.fields[0],
                dicts,
                rest,
                bufs,
                dlen,
                block,
            ),
            DataType::LargeList(child) => spec_mmap_list(
                n,
                *child,
                PrimWidth::W8,
                f.fields[0],
                dicts,
                rest,
                bufs,
                dlen,
                block,
            ),
            DataType::FixedSizeList(child) => spec_mmap_fixed_size_list(
                n,
                *child,
                f.fields[0],
                dicts,
                rest,
                bufs,
                dlen,
                block,
            ),
            DataType::Struct(children) => spec_mmap_struct(
                n,
                children@,
                f.fields@,
                dicts,
                rest,
                bufs,
                dlen,
                block,
            ),
            DataType::Dictionary(kw) => spec_mmap_dict(n, kw, f, dicts, dlen, block, bufs),
            DataType::Unsupported => BuildSpec::Fail(Error::UnsupportedType),
        };
        match res {
            BuildSpec::Fail(e) => BuildSpec::Fail(e),
            BuildSpec::Done(a, nt, bt) => BuildSpec::Done(a, nt + 1, bt),
        }
    }
}

/// Two handle values with equal fields are equal; the sequence fields may be
/// shown extensionally.
proof fn lemma_arr_eq(x: ArrowArrayV, y: ArrowArrayV)
    requires
        x.length == y.length,
        x.null_count == y.null_count,
        x.offset == y.offset,
        x.buffers =~= y.buffers,
        x.children =~= y.children,
        x.dictionary == y.dictionary,
    ensures
        x == y,
{
    assert(x.buffers == y.buffers);
    assert(x.children == y.children);
}

/// Whatever a dispatch consumed lies within the queues it was handed: a
/// successful build takes at least its own node and never more nodes or
/// descriptors than exist.
pub proof fn lemma_build_counts(
    dt: DataType,
    f: IpcField,
    dicts: Map<i64, ArrowArrayV>,
    nodes: Seq<Node>,
    bufs: Seq<IpcBuffer>,
    dlen: int,
    block: int,
)
    ensures
        spec_build(dt, f, dicts, nodes, bufs, dlen, block) matches BuildSpec::Done(a, nt, bt)
            ==> 1 <= nt <= nodes.len() && 0 <= bt <= bufs.len(),
    decreases dt, 3int, 0int,
{
    if nodes.len() == 0 {
        return;
    }
    match dt {
        DataType::List(child) => {
            assert(decreases_to!(dt => child));
            if bufs.len() >= 2 {
                lemma_build_counts(
                    *child,
                    f.fields[0],
                    dicts,
                    nodes.skip(1),
                    bufs.skip(2),
                    dlen,
                    block,
                );
            }
        },
        DataType::LargeList(child) => {
            assert(decreases_to!(dt => child));
            if bufs.len() >= 2 {
                lemma_build_counts(
                    *child,
                    f.fields[0],
                    dicts,
                    nodes.skip(1),
                    bufs.skip(2),
                    dlen,
                    block,
                );
            }
        },
        DataType::FixedSizeList(child) => {
            assert(decreases_to!(dt => child));
            if bufs.len() >= 1 {
                lemma_build_counts(
                    *child,
                    f.fields[0],
                    dicts,
                    nodes.skip(1),
                    bufs.skip(1),
                    dlen,
                    block,
                );
            }
        },
        DataType::Struct(children) => {
            assert(decreases_to!(dt => children));
            assert(decreases_to!(children => children@));
            if bufs.len() >= 1 {
                lemma_children_counts(
                    children@,
                    f.fields@,
                    dicts,
                    nodes.skip(1),
                    bufs.skip(1),
                    dlen,
                    block,
                    0,
                );
            }
        },
        _ => {},
    }
}

/// The run of struct children from index `i` consumes no more nodes or
/// descriptors than exist, and yields one value per remaining child.
pub proof fn lemma_children_counts(
    children: Seq<DataType>,
    fields: Seq<IpcField>,
    dicts: Map<i64, ArrowArrayV>,
    nodes: Seq<Node>,
    bufs: Seq<IpcBuffer>,
    dlen: int,
    block: int,
    i: int,
)
    ensures
        spec_build_children(children, fields, dicts, nodes, bufs, dlen, block, i) matches
            ChildrenSpec::Done(cs, nt, bt) ==> 0 <= nt <= nodes.len() && 0 <= bt <= bufs.len()
            && cs.len() == if 0 <= i <= children.len() {
            children.len() - i
        } else {
            0
        },
    decreases children, 2int, children.len() - i,
{
    if i < 0 || i >= children.len() {
        return;
    }
    assert(decreases_to!(children => children[i]));
    lemma_build_counts(children[i], fields[i], dicts, nodes, bufs, dlen, block);
    match spec_build(children[i], fields[i], dicts, nodes, bufs, dlen, block) {
        BuildSpec::Fail(_) => {},
        BuildSpec::Done(a, nt, bt) => {
            lemma_children_counts(
                children,
                fields,
                dicts,
                nodes.skip(nt),
                bufs.skip(bt),
                dlen,
                block,
                i + 1,
            );
        },
    }
}

/// Whether an element width is above one byte, so that its reinterpretation
/// verdict depends on the machine's addressing.
pub open spec fn wide(w: PrimWidth) -> bool {
    w.bytes() > 1
}

/// Whether resolving one typed buffer leaves the machine's addressing verdict
/// unconsulted: always at width one; at a wider width, when the resolution is
/// decided before the reinterpretation (a bounds failure), or forced at it (a
/// byte length that is no whole multiple of the width).
pub open spec fn buffer_machine_free(b: BufferSpec, w: PrimWidth) -> bool {
    !wide(w) || match b {
        BufferSpec::NoBuffer => true,
        BufferSpec::Neg => true,
        BufferSpec::Oob => true,
        BufferSpec::NotMultiple => true,
        BufferSpec::TooSmall => false,
        BufferSpec::Buffer(_, _) => false,
    }
}

/// Whether a primitive build's outcome is decided without consulting the
/// machine's addressing. When it is, the executable outcome below equals the
/// intended one exactly.
pub open spec fn machine_free_primitive(
    n: Node,
    width: PrimWidth,
    dlen: int,
    block: int,
    bufs: Seq<IpcBuffer>,
) -> bool {
    if !node_ok(n) {
        true
    } else {
        match validity_error(spec_validity(dlen, block, bufs, n.null_count as int)) {
            Some(_) => true,
            None => buffer_machine_free(
                spec_typed_buffer(dlen, block, bufs.skip(1), n.length as int, width.bytes()),
                width,
            ),
        }
    }
}

/// Whether a binary build's outcome is decided without consulting the
/// machine's addressing; its raw value buffer has width one, so only the
/// offsets buffer can consult it.
pub open spec fn machine_free_binary(
    n: Node,
    offset_width: PrimWidth,
    dlen: int,
    block: int,
    bufs: Seq<IpcBuffer>,
) -> bool {
    if !node_ok(n) {
        true
    } else {
        match validity_error(spec_validity(dlen, block, bufs, n.null_count as int)) {
            Some(_) => true,
            None => buffer_machine_free(
                spec_typed_buffer(
                    dlen,
                    block,
                    bufs.skip(1),
                    n.length as int + 1,
                    offset_width.bytes(),
                ),
                offset_width,
            ),
        }
    }
}

/// Whether a dictionary build's outcome is decided without consulting the
/// machine's addressing: the id lookup and every bounds check precede the key
/// buffer's reinterpretation.
pub open spec fn machine_free_dict(
    n: Node,
    key_width: PrimWidth,
    f: IpcField,
    dicts: Map<i64, ArrowArrayV>,
    dlen: int,
    block: int,
    bufs: Seq<IpcBuffer>,
) -> bool {
    if !node_ok(n) {
        true
    } else {
        match f.dictionary_id {
            None => true,
            Some(id) => if !dicts.contains_key(id) {
                true
            } else {
                match validity_error(spec_validity(dlen, block, bufs, n.null_count as int)) {
                    Some(_) => true,
                    None => buffer_machine_free(
                        spec_typed_buffer(
                            dlen,
                            block,
                            bufs.skip(1),
                            n.length as int,
                            key_width.bytes(),
                        ),
                        key_width,
                    ),
                }
            },
        }
    }
}

/// Whether a list build's outcome is decided without consulting the machine's
/// addressing, in the offsets buffer or anywhere in the child subtree.
pub open spec fn machine_free_list(
    n: Node,
    child: DataType,
    offset_width: PrimWidth,
    child_field: IpcField,
    dicts: Map<i64, ArrowArrayV>,
    nodes: Seq<Node>,
    bufs: Seq<IpcBuffer>,
    dlen: int,
    block: int,
) -> bool
    decreases child, 1int, 0int,
{
    if !node_ok(n) {
        true
    } else {
        match validity_error(spec_validity(dlen, block, bufs, n.null_count as int)) {
            Some(_) => true,
            None => {
                let ores = spec_typed_buffer(
                    dlen,
                    block,
                    bufs.skip(1),
                    n.length as int + 1,
                    offset_width.bytes(),
                );
                if !buffer_machine_free(ores, offset_width) {
                    false
                } else {
                    match buffer_error(ores) {
                        Some(_) => true,
                        None => machine_free_build(
                            child,
                            child_field,
                            dicts,
                            nodes,
                            bufs.skip(2),
                            dlen,
                            block,
                        ),
                    }
                }
            },
        }
    }
}

/// Whether a fixed-size-list build's outcome is decided without consulting
/// the machine's addressing anywhere in the child subtree.
pub open spec fn machine_free_fixed_size_list(
    n: Node,
    child: DataType,
    child_field: IpcField,
    dicts: Map<i64, ArrowArrayV>,
    nodes: Seq<Node>,
    bufs: Seq<IpcBuffer>,
    dlen: int,
    block: int,
) -> bool
    decreases child, 1int, 0int,
{
    if !node_ok(n) {
        true
    } else {
        match validity_error(spec_validity(dlen, block, bufs, n.null_count as int)) {
            Some(_) => true,
            None => machine_free_build(child, child_field, dicts, nodes, bufs.skip(1), dlen, block),
        }
    }
}

/// Whether building the struct children from index `i` on is decided without
/// consulting the machine's addressing.
pub open spec fn machine_free_children(
    children: Seq<DataType>,
    fields: Seq<IpcField>,
    dicts: Map<i64, ArrowArrayV>,
    nodes: Seq<Node>,
    bufs: Seq<IpcBuffer>,
    dlen: int,
    block: int,
    i: int,
) -> bool
    decreases children, 1int, children.len() - i,
{
    if i < 0 || i >= children.len() {
        true
    } else if !machine_free_build(children[i], fields[i], dicts, nodes, bufs, dlen, block) {
        false
    } else {
        match spec_build(children[i], fields[i], dicts, nodes, bufs, dlen, block) {
            BuildSpec::Fail(_) => true,
            BuildSpec::Done(a, nt, bt) => machine_free_children(
                children,
                fields,
                dicts,
                nodes.skip(nt),
                bufs.skip(bt),
                dlen,
                block,
                i + 1,
            ),
        }
    }
}

/// Whether a struct build's outcome is decided without consulting the
/// machine's addressing anywhere among its children.
pub open spec fn machine_free_struct(
    n: Node,
    children: Seq<DataType>,
    fields: Seq<IpcField>,
    dicts: Map<i64, ArrowArrayV>,
    nodes: Seq<Node>,
    bufs: Seq<IpcBuffer>,
    dlen: int,
    block: int,
) -> bool
    decreases children, 2int, 0int,
{
    if !node_ok(n) {
        true
    } else {
        match validity_error(spec_validity(dlen, block, bufs, n.null_count as int)) {
            Some(_) => true,
            None => machine_free_children(children, fields, dicts, nodes, bufs.skip(1), dlen, block, 0),
        }
    }
}

/// Whether one dispatch's outcome is decided without consulting the machine's
/// addressing. Where this holds — an exhausted queue, an unmapped layout, and
/// every subtree that reinterprets no buffer wider than one byte — the
/// executable dispatch below returns exactly the intended outcome.
pub open spec fn machine_free_build(
    dt: DataType,
    f: IpcField,
    dicts: Map<i64, ArrowArrayV>,
    nodes: Seq<Node>,
    bufs: Seq<IpcBuffer>,
    dlen: int,
    block: int,
) -> bool
    decreases dt, 0int, 0int,
{
    if nodes.len() == 0 {
        true
    } else {
        let n = nodes[0];
        let rest = nodes.skip(1);
        match dt {
            DataType::Null => true,
            DataType::Boolean => true,
            DataType::Primitive(w) => machine_free_primitive(n, w, dlen, block, bufs),
            DataType::Binary => machine_free_binary(n, PrimWidth::W4, dlen, block, bufs),
            DataType::Utf8 => machine_free_binary(n, PrimWidth::W4, dlen, block, bufs),
            DataType::LargeBinary => machine_free_binary(n, PrimWidth::W8, dlen, block, bufs),
            DataType::LargeUtf8 => machine_free_binary(n, PrimWidth::W8, dlen, block, bufs),
            DataType::FixedSizeBinary => true,
            DataType::List(child) => machine_free_list(
                n,
                *child,
                PrimWidth::W4,
                f.fields[0],
                dicts,
                rest,
                bufs,
                dlen,
                block,
            ),
            DataType::LargeList(child) => machine_free_list(
                n,
                *child,
                PrimWidth::W8,
                f.fields[0],
                dicts,
                rest,
                bufs,
                dlen,
                block,
            ),
            DataType::FixedSizeList(child) => machine_free_fixed_size_list(
                n,
                *child,
                f.fields[0],
                dicts,
                rest,
                bufs,
                dlen,
                block,
            ),
            DataType::Struct(children) => machine_free_struct(
                n,
                children@,
                f.fields@,
                dicts,
                rest,
                bufs,
                dlen,
                block,
            ),
            DataType::Dictionary(kw) => machine_free_dict(n, kw, f, dicts, dlen, block, bufs),
            DataType::Unsupported => true,
        }
    }
}

/// The child layout of a nested variant.


pub open spec fn list_child(dt: DataType) -> DataType {
    match dt {
        DataType::List(c) => *c,
        DataType::LargeList(c) => *c,
        DataType::FixedSizeList(c) => *c,
        _ => dt,
    }
}

/// Builds a Null node: counts only, no buffers, no children.
pub fn mmap_null(
    _data: &[u8],
    node: &Node,
    _block_offset: usize,
    _buffers: &mut VecDeque<IpcBuffer>,
) -> (r: Result<ArrowArray, Error>)
    ensures
        final(_buffers)@ == old(_buffers)@,
        final(_buffers)@.is_suffix_of(old(_buffers)@),
        match spec_mmap_null(*node) {
            BuildSpec::Fail(e) => r matches Err(ee) && ee == e,
            BuildSpec::Done(a, nt, bt) => r matches Ok(arr) && arr@ == a,
        },
{
    let num_rows = match wire_index(node.length) {
        Ok(v) => v,
        Err(e) => {
            return Err(e);
        },
    };
    let null_count = match wire_index(node.null_count) {
        Ok(v) => v,
        Err(e) => {
            return Err(e);
        },
    };
    let arr = create_array(num_rows, null_count, Vec::new(), Vec::new(), None);
    proof {
        let nv = node_value(*node, seq![], seq![], None);
        assert(arr@.buffers =~= nv.buffers);
        assert(arr@.children =~= nv.children);
        lemma_arr_eq(arr@, nv);
    }
    Ok(arr)
}

/// Builds a Boolean node: validity plus a bounds-checked packed-bit value
/// buffer.
pub fn mmap_boolean(
    data: &[u8],
    node: &Node,
    block_offset: usize,
    buffers: &mut VecDeque<IpcBuffer>,
) -> (r: Result<ArrowArray, Error>)
    ensures
        final(buffers)@.is_suffix_of(old(buffers)@),
        !node_ok(*node) ==> final(buffers)@ == old(buffers)@,
        match spec_mmap_boolean(*node, data@.len() as int, block_offset as int, old(buffers)@) {
            BuildSpec::Fail(e) => r matches Err(ee) && ee == e,
            BuildSpec::Done(a, nt, bt) => r matches Ok(arr) && arr@ == a && final(buffers)@ == old(
                buffers,
            )@.skip(bt),
        },
{
    let num_rows = match wire_index(node.length) {
        Ok(v) => v,
        Err(e) => {
            return Err(e);
        },
    };
    let null_count = match wire_index(node.null_count) {
        Ok(v) => v,
        Err(e) => {
            return Err(e);
        },
    };
    let validity = match get_validity(data, block_offset, buffers, null_count) {
        Ok(v) => v,
        Err(e) => {
            return Err(e);
        },
    };
    let (off, len) = match get_buffer_bounds(buffers) {
        Ok(v) => v,
        Err(e) => {
            return Err(e);
        },
    };
    let values = match resolve_range(data.len(), block_offset, off, len) {
        Ok(v) => v,
        Err(e) => {
            return Err(e);
        },
    };
    let mut bufs: Vec<Option<BufferRange>> = Vec::new();
    bufs.push(validity);
    bufs.push(Some(values));
    let arr = create_array(num_rows, null_count, bufs, Vec::new(), None);
    proof {
        assert(old(buffers)@.skip(1).skip(1) =~= old(buffers)@.skip(2));
        let nv = node_value(
            *node,
            seq![range_view(validity), range_view(Some(values))],
            seq![],
            None,
        );
        assert(arr@.buffers =~= nv.buffers);
        assert(arr@.children =~= nv.children);
        lemma_arr_eq(arr@, nv);
    }
    Ok(arr)
}

/// Builds a fixed-width primitive node: validity plus a typed value buffer
/// holding one element per row.
pub fn mmap_primitive(
    data: &[u8],
    node: &Node,
    block_offset: usize,
    buffers: &mut VecDeque<IpcBuffer>,
    width: PrimWidth,
) -> (r: Result<ArrowArray, Error>)
    ensures
        final(buffers)@.is_suffix_of(old(buffers)@),
        !node_ok(*node) ==> final(buffers)@ == old(buffers)@,
        match spec_mmap_primitive(
            *node,
            width,
            data@.len() as int,
            block_offset as int,
            old(buffers)@,
        ) {
            BuildSpec::Fail(e) => r matches Err(ee) && (ee == e || (ee == Error::Misaligned
                && !machine_free_primitive(
                    *node,
                    width,
                    data@.len() as int,
                    block_offset as int,
                    old(buffers)@,
                ))),
            BuildSpec::Done(a, nt, bt) => (r matches Ok(arr) && arr@ == a && final(buffers)@ == old(
                buffers,
            )@.skip(bt)) || (r matches Err(ee) && ee == Error::Misaligned
                && !machine_free_primitive(
                *node,
                width,
                data@.len() as int,
                block_offset as int,
                old(buffers)@,
            )),
        },
{
    let num_rows = match wire_index(node.length) {
        Ok(v) => v,
        Err(e) => {
            return Err(e);
        },
    };
    let null_count = match wire_index(node.null_count) {
        Ok(v) => v,
        Err(e) => {
            return Err(e);
        },
    };
    let validity = match get_validity(data, block_offset, buffers, null_count) {
        Ok(v) => v,
        Err(e) => {
            return Err(e);
        },
    };
    let values = match get_buffer(data, block_offset, buffers, num_rows, false, width) {
        Ok(v) => v,
        Err(e) => {
            return Err(e);
        },
    };
    let mut bufs: Vec<Option<BufferRange>> = Vec::new();
    bufs.push(validity);
    bufs.push(Some(values));
    let arr = create_array(num_rows, null_count, bufs, Vec::new(), None);
    proof {
        assert(old(buffers)@.skip(1).skip(1) =~= old(buffers)@.skip(2));
        let nv = node_value(
            *node,
            seq![range_view(validity), range_view(Some(values))],
            seq![],
            None,
        );
        assert(arr@.buffers =~= nv.buffers);
        assert(arr@.children =~= nv.children);
        lemma_arr_eq(arr@, nv);
    }
    Ok(arr)
}

/// Builds a variable-length binary or text node: validity, `rows + 1` typed
/// offsets, and a raw value buffer whose internal layout is the producer's
/// responsibility.
pub fn mmap_binary(
    data: &[u8],
    node: &Node,
    block_offset: usize,
    buffers: &mut VecDeque<IpcBuffer>,
    offset_width: PrimWidth,
) -> (r: Result<ArrowArray, Error>)
    ensures
        final(buffers)@.is_suffix_of(old(buffers)@),
        !node_ok(*node) ==> final(buffers)@ == old(buffers)@,
        spec_mmap_binary(
            *node,
            offset_width,
            data@.len() as int,
            block_offset as int,
            old(buffers)@,
        ) == BuildSpec::Fail(Error::TooSmall) ==> final(buffers)@ == old(buffers)@.skip(2),
        match spec_mmap_binary(
            *node,
            offset_width,
            data@.len() as int,
            block_offset as int,
            old(buffers)@,
        ) {
            BuildSpec::Fail(e) => r matches Err(ee) && (ee == e || (ee == Error::Misaligned
                && !machine_free_binary(
                    *node,
                    offset_width,
                    data@.len() as int,
                    block_offset as int,
                    old(buffers)@,
                ))),
            BuildSpec::Done(a, nt, bt) => (r matches Ok(arr) && arr@ == a && final(buffers)@ == old(
                buffers,
            )@.skip(bt)) || (r matches Err(ee) && ee == Error::Misaligned
                && !machine_free_binary(
                *node,
                offset_width,
                data@.len() as int,
                block_offset as int,
                old(buffers)@,
            )),
        },
{
    let num_rows = match wire_index(node.length) {
        Ok(v) => v,
        Err(e) => {
            return Err(e);
        },
    };
    let null_count = match wire_index(node.null_count) {
        Ok(v) => v,
        Err(e) => {
            return Err(e);
        },
    };
    let validity = match get_validity(data, block_offset, buffers, null_count) {
        Ok(v) => v,
        Err(e) => {
            return Err(e);
        },
    };
    let offsets = match get_buffer(data, block_offset, buffers, num_rows, true, offset_width) {
        Ok(v) => v,
        Err(e) => {
            proof {
                if old(buffers)@.len() >= 2 {
                    assert(old(buffers)@.skip(1).skip(1) =~= old(buffers)@.skip(2));
                }
            }
            return Err(e);
        },
    };
    let values = match get_buffer(data, block_offset, buffers, 0, false, PrimWidth::W1) {
        Ok(v) => v,
        Err(e) => {
            return Err(e);
        },
    };
    let mut bufs: Vec<Option<BufferRange>> = Vec::new();
    bufs.push(validity);
    bufs.push(Some(offsets));
    bufs.push(Some(values));
    let arr = create_array(num_rows, null_count, bufs, Vec::new(), None);
    proof {
        assert(old(buffers)@.skip(1).skip(1) =~= old(buffers)@.skip(2));
        assert(old(buffers)@.skip(2).skip(1) =~= old(buffers)@.skip(3));
        let nv = node_value(
            *node,
            seq![range_view(validity), range_view(Some(offsets)), range_view(Some(values))],
            seq![],
            None,
        );
        assert(arr@.buffers =~= nv.buffers);
        assert(arr@.children =~= nv.children);
        lemma_arr_eq(arr@, nv);
    }
    Ok(arr)
}

/// Builds a fixed-size binary node: validity plus a raw value buffer of at
/// least `rows + 1` bytes, the deliberately permissive wire demand.
pub fn mmap_fixed_size_binary(
    data: &[u8],
    node: &Node,
    block_offset: usize,
    buffers: &mut VecDeque<IpcBuffer>,
) -> (r: Result<ArrowArray, Error>)
    ensures
        final(buffers)@.is_suffix_of(old(buffers)@),
        !node_ok(*node) ==> final(buffers)@ == old(buffers)@,
        match spec_mmap_fixed_size_binary(
            *node,
            data@.len() as int,
            block_offset as int,
            old(buffers)@,
        ) {
            BuildSpec::Fail(e) => r matches Err(ee) && ee == e,
            BuildSpec::Done(a, nt, bt) => r matches Ok(arr) && arr@ == a && final(buffers)@ == old(
                buffers,
            )@.skip(bt),
        },
{
    let num_rows = match wire_index(node.length) {
        Ok(v) => v,
        Err(e) => {
            return Err(e);
        },
    };
    let null_count = match wire_index(node.null_count) {
        Ok(v) => v,
        Err(e) => {
            return Err(e);
        },
    };
    let validity = match get_validity(data, block_offset, buffers, null_count) {
        Ok(v) => v,
        Err(e) => {
            return Err(e);
        },
    };
    let values = match get_buffer(data, block_offset, buffers, num_rows, true, PrimWidth::W1) {
        Ok(v) => v,
        Err(e) => {
            return Err(e);
        },
    };
    let mut bufs: Vec<Option<BufferRange>> = Vec::new();
    bufs.push(validity);
    bufs.push(Some(values));
    let arr = create_array(num_rows, null_count, bufs, Vec::new(), None);
    proof {
        assert(old(buffers)@.skip(1).skip(1) =~= old(buffers)@.skip(2));
        let nv = node_value(
            *node,
            seq![range_view(validity), range_view(Some(values))],
            seq![],
            None,
        );
        assert(arr@.buffers =~= nv.buffers);
        assert(arr@.children =~= nv.children);
        lemma_arr_eq(arr@, nv);
    }
    Ok(arr)
}

/// Builds a dictionary node: the id is resolved against the lookup first,
/// then validity and the typed key buffer; the looked-up array is deep-copied
/// so the new handle owns its own dictionary subtree.
pub fn mmap_dict(
    data: &[u8],
    node: &Node,
    block_offset: usize,
    _data_type: &DataType,
    ipc_field: &IpcField,
    dictionaries: &Dictionaries,
    _field_nodes: &mut VecDeque<Node>,
    buffers: &mut VecDeque<IpcBuffer>,
    key_width: PrimWidth,
) -> (r: Result<ArrowArray, Error>)
    ensures
        final(_field_nodes)@ == old(_field_nodes)@,
        final(buffers)@.is_suffix_of(old(buffers)@),
        !node_ok(*node) ==> final(buffers)@ == old(buffers)@,
        match spec_mmap_dict(
            *node,
            key_width,
            *ipc_field,
            dictionaries@,
            data@.len() as int,
            block_offset as int,
            old(buffers)@,
        ) {
            BuildSpec::Fail(e) => r matches Err(ee) && (ee == e || (ee == Error::Misaligned
                && !machine_free_dict(
                    *node,
                    key_width,
                    *ipc_field,
                    dictionaries@,
                    data@.len() as int,
                    block_offset as int,
                    old(buffers)@,
                ))),
            BuildSpec::Done(a, nt, bt) => (r matches Ok(arr) && arr@ == a && final(buffers)@ == old(
                buffers,
            )@.skip(bt)) || (r matches Err(ee) && ee == Error::Misaligned
                && !machine_free_dict(
                *node,
                key_width,
                *ipc_field,
                dictionaries@,
                data@.len() as int,
                block_offset as int,
                old(buffers)@,
            )),
        },
{
    let num_rows = match wire_index(node.length) {
        Ok(v) => v,
        Err(e) => {
            return Err(e);
        },
    };
    let null_count = match wire_index(node.null_count) {
        Ok(v) => v,
        Err(e) => {
            return Err(e);
        },
    };
    let id = match ipc_field.dictionary_id {
        Some(id) => id,
        None => {
            return Err(Error::MissingDictionary);
        },
    };
    let looked_up = match dictionaries.get(id) {
        Some(a) => a,
        None => {
            return Err(Error::MissingDictionary);
        },
    };
    let dictionary = clone_array(looked_up);
    let validity = match get_validity(data, block_offset, buffers, null_count) {
        Ok(v) => v,
        Err(e) => {
            return Err(e);
        },
    };
    let keys = match get_buffer(data, block_offset, buffers, num_rows, false, key_width) {
        Ok(v) => v,
        Err(e) => {
            return Err(e);
        },
    };
    let mut bufs: Vec<Option<BufferRange>> = Vec::new();
    bufs.push(validity);
    bufs.push(Some(keys));
    let arr = create_array(num_rows, null_count, bufs, Vec::new(), Some(dictionary));
    proof {
        assert(old(buffers)@.skip(1).skip(1) =~= old(buffers)@.skip(2));
        let nv = node_value(
            *node,
            seq![range_view(validity), range_view(Some(keys))],
            seq![],
            Some(dictionaries@[id]),
        );
        assert(arr@.buffers =~= nv.buffers);
        assert(arr@.children =~= nv.children);
        lemma_arr_eq(arr@, nv);
    }
    Ok(arr)
}

/// Builds a list node: validity, `rows + 1` typed offsets, then one
/// recursively built child.
pub fn mmap_list(
    data: &[u8],
    node: &Node,
    block_offset: usize,
    data_type: &DataType,
    ipc_field: &IpcField,
    dictionaries: &Dictionaries,
    field_nodes: &mut VecDeque<Node>,
    buffers: &mut VecDeque<IpcBuffer>,
    offset_width: PrimWidth,
) -> (r: Result<ArrowArray, Error>)
    requires
        *data_type matches DataType::List(_) || *data_type matches DataType::LargeList(_),
        ipc_consistent(*data_type, *ipc_field),
    ensures
        final(field_nodes)@.is_suffix_of(old(field_nodes)@),
        final(buffers)@.is_suffix_of(old(buffers)@),
        !node_ok(*node) ==> final(field_nodes)@ == old(field_nodes)@ && final(buffers)@ == old(
            buffers,
        )@,
        match spec_mmap_list(
            *node,
            list_child(*data_type),
            offset_width,
            ipc_field.fields@[0],
            dictionaries@,
            old(field_nodes)@,
            old(buffers)@,
            data@.len() as int,
            block_offset as int,
        ) {
            BuildSpec::Fail(e) => r matches Err(ee) && (ee == e || (ee == Error::Misaligned
                && !machine_free_list(
                *node,
                list_child(*data_type),
                offset_width,
                ipc_field.fields@[0],
                dictionaries@,
                old(field_nodes)@,
                old(buffers)@,
                data@.len() as int,
                block_offset as int,
            ))),
            BuildSpec::Done(a, nt, bt) => (r matches Ok(arr) && arr@ == a && final(field_nodes)@
                == old(field_nodes)@.skip(nt) && final(buffers)@ == old(buffers)@.skip(bt)) || (r
                matches Err(ee) && ee == Error::Misaligned && !machine_free_list(
                *node,
                list_child(*data_type),
                offset_width,
                ipc_field.fields@[0],
                dictionaries@,
                old(field_nodes)@,
                old(buffers)@,
                data@.len() as int,
                block_offset as int,
            )),
        },
    decreases *data_type, 1int, 0int,
{
    let child: &DataType = match data_type {
        DataType::List(c) => c,
        DataType::LargeList(c) => c,
        _ => {
            proof {
                assert(false);
            }
            data_type
        },
    };
    let num_rows = match wire_index(node.length) {
        Ok(v) => v,
        Err(e) => {
            return Err(e);
        },
    };
    let null_count = match wire_index(node.null_count) {
        Ok(v) => v,
        Err(e) => {
            return Err(e);
        },
    };
    let validity = match get_validity(data, block_offset, buffers, null_count) {
        Ok(v) => v,
        Err(e) => {
            return Err(e);
        },
    };
    let offsets = match get_buffer(data, block_offset, buffers, num_rows, true, offset_width) {
        Ok(v) => v,
        Err(e) => {
            proof {
                if old(buffers)@.len() >= 2 {
                    assert(old(buffers)@.skip(1).skip(1) =~= old(buffers)@.skip(2));
                }
            }
            return Err(e);
        },
    };
    proof {
        assert(old(buffers)@.skip(1).skip(1) =~= old(buffers)@.skip(2));
    }
    let values = match get_array(
        data,
        block_offset,
        child,
        &ipc_field.fields[0],
        dictionaries,
        field_nodes,
        buffers,
    ) {
        Ok(v) => v,
        Err(e) => {
            return Err(e);
        },
    };
    let mut bufs: Vec<Option<BufferRange>> = Vec::new();
    bufs.push(validity);
    bufs.push(Some(offsets));
    let mut kids: Vec<ArrowArray> = Vec::new();
    kids.push(values);
    let arr = create_array(num_rows, null_count, bufs, kids, None);
    proof {
        let dlen = data@.len() as int;
        let block = block_offset as int;
        lemma_build_counts(
            list_child(*data_type),
            ipc_field.fields@[0],
            dictionaries@,
            old(field_nodes)@,
            old(buffers)@.skip(2),
            dlen,
            block,
        );
        if let BuildSpec::Done(ca, nt0, bt0) = spec_build(
            list_child(*data_type),
            ipc_field.fields@[0],
            dictionaries@,
            old(field_nodes)@,
            old(buffers)@.skip(2),
            dlen,
            block,
        ) {
            assert(old(buffers)@.skip(2).skip(bt0) =~= old(buffers)@.skip(2 + bt0));
            let nv = node_value(
                *node,
                seq![range_view(validity), range_view(Some(offsets))],
                seq![ca],
                None,
            );
            assert(arr@.buffers =~= nv.buffers);
            assert(arr@.children =~= nv.children);
            lemma_arr_eq(arr@, nv);
        }
    }
    Ok(arr)
}

/// Builds a fixed-size-list node: validity only, then one recursively built
/// child.
pub fn mmap_fixed_size_list(
    data: &[u8],
    node: &Node,
    block_offset: usize,
    data_type: &DataType,
    ipc_field: &IpcField,
    dictionaries: &Dictionaries,
    field_nodes: &mut VecDeque<Node>,
    buffers: &mut VecDeque<IpcBuffer>,
) -> (r: Result<ArrowArray, Error>)
    requires
        *data_type matches DataType::FixedSizeList(_),
        ipc_consistent(*data_type, *ipc_field),
    ensures
        final(field_nodes)@.is_suffix_of(old(field_nodes)@),
        final(buffers)@.is_suffix_of(old(buffers)@),
        !node_ok(*node) ==> final(field_nodes)@ == old(field_nodes)@ && final(buffers)@ == old(
            buffers,
        )@,
        match spec_mmap_fixed_size_list(
            *node,
            list_child(*data_type),
            ipc_field.fields@[0],
            dictionaries@,
            old(field_nodes)@,
            old(buffers)@,
            data@.len() as int,
            block_offset as int,
        ) {
            BuildSpec::Fail(e) => r matches Err(ee) && (ee == e || (ee == Error::Misaligned
                && !machine_free_fixed_size_list(
                *node,
                list_child(*data_type),
                ipc_field.fields@[0],
                dictionaries@,
                old(field_nodes)@,
                old(buffers)@,
                data@.len() as int,
                block_offset as int,
            ))),
            BuildSpec::Done(a, nt, bt) => (r matches Ok(arr) && arr@ == a && final(field_nodes)@
                == old(field_nodes)@.skip(nt) && final(buffers)@ == old(buffers)@.skip(bt)) || (r
                matches Err(ee) && ee == Error::Misaligned && !machine_free_fixed_size_list(
                *node,
                list_child(*data_type),
                ipc_field.fields@[0],
                dictionaries@,
                old(field_nodes)@,
                old(buffers)@,
                data@.len() as int,
                block_offset as int,
            )),
        },
    decreases *data_type, 1int, 0int,
{
    let child: &DataType = match data_type {
        DataType::FixedSizeList(c) => c,
        _ => {
            proof {
                assert(false);
            }
            data_type
        },
    };
    let num_rows = match wire_index(node.length) {
        Ok(v) => v,
        Err(e) => {
            return Err(e);
        },
    };
    let null_count = match wire_index(node.null_count) {
        Ok(v) => v,
        Err(e) => {
            return Err(e);
        },
    };
    let validity = match get_validity(data, block_offset, buffers, null_count) {
        Ok(v) => v,
        Err(e) => {
            return Err(e);
        },
    };
    let values = match get_array(
        data,
        block_offset,
        child,
        &ipc_field.fields[0],
        dictionaries,
        field_nodes,
        buffers,
    ) {
        Ok(v) => v,
        Err(e) => {
            return Err(e);
        },
    };
    let mut bufs: Vec<Option<BufferRange>> = Vec::new();
    bufs.push(validity);
    let mut kids: Vec<ArrowArray> = Vec::new();
    kids.push(values);
    let arr = create_array(num_rows, null_count, bufs, kids, None);
    proof {
        let dlen = data@.len() as int;
        let block = block_offset as int;
        lemma_build_counts(
            list_child(*data_type),
            ipc_field.fields@[0],
            dictionaries@,
            old(field_nodes)@,
            old(buffers)@.skip(1),
            dlen,
            block,
        );
        if let BuildSpec::Done(ca, nt0, bt0) = spec_build(
            list_child(*data_type),
            ipc_field.fields@[0],
            dictionaries@,
            old(field_nodes)@,
            old(buffers)@.skip(1),
            dlen,
            block,
        ) {
            assert(old(buffers)@.skip(1).skip(bt0) =~= old(buffers)@.skip(1 + bt0));
            let nv = node_value(*node, seq![range_view(validity)], seq![ca], None);
            assert(arr@.buffers =~= nv.buffers);
            assert(arr@.children =~= nv.children);
            lemma_arr_eq(arr@, nv);
        }
    }
    Ok(arr)
}

/// Builds the children of a struct node from index `i` on, appending each
/// built child to `out` in declared order.
fn build_children(
    data: &[u8],
    block_offset: usize,
    children_types: &Vec<DataType>,
    fields: &Vec<IpcField>,
    dictionaries: &Dictionaries,
    field_nodes: &mut VecDeque<Node>,
    buffers: &mut VecDeque<IpcBuffer>,
    i: usize,
    out: &mut Vec<ArrowArray>,
) -> (r: Result<(), Error>)
    requires
        i <= children_types@.len(),
        fields@.len() == children_types@.len(),
        forall|k: int|
            0 <= k < children_types@.len() ==> ipc_consistent(
                #[trigger] children_types@[k],
                fields@[k],
            ),
    ensures
        final(field_nodes)@.is_suffix_of(old(field_nodes)@),
        final(buffers)@.is_suffix_of(old(buffers)@),
        match spec_build_children(
            children_types@,
            fields@,
            dictionaries@,
            old(field_nodes)@,
            old(buffers)@,
            data@.len() as int,
            block_offset as int,
            i as int,
        ) {
            ChildrenSpec::Fail(e) => r matches Err(ee) && (ee == e || (ee == Error::Misaligned
                && !machine_free_children(
                children_types@,
                fields@,
                dictionaries@,
                old(field_nodes)@,
                old(buffers)@,
                data@.len() as int,
                block_offset as int,
                i as int,
            ))),
            ChildrenSpec::Done(cs, nt, bt) => (r matches Ok(u) && final(out)@.len() == old(out)@.len()
                + cs.len() && (forall|k: int|
                0 <= k < old(out)@.len() ==> final(out)@[k] == old(out)@[k]) && (forall|k: int|
                0 <= k < cs.len() ==> arr_view(final(out)@[old(out)@.len() + k]) == cs[k])
                && final(field_nodes)@ == old(field_nodes)@.skip(nt)
                && final(buffers)@ == old(buffers)@.skip(bt)) || (r matches Err(ee) && ee
                == Error::Misaligned && !machine_free_children(
                children_types@,
                fields@,
                dictionaries@,
                old(field_nodes)@,
                old(buffers)@,
                data@.len() as int,
                block_offset as int,
                i as int,
            )),
        },
    decreases children_types@, 1int, children_types@.len() - i,
{
    if i >= children_types.len() {
        return Ok(());
    }
    let built = match get_array(
        data,
        block_offset,
        &children_types[i],
        &fields[i],
        dictionaries,
        field_nodes,
        buffers,
    ) {
        Ok(v) => v,
        Err(e) => {
            return Err(e);
        },
    };
    out.push(built);
    let ghost mid_nodes = field_nodes@;
    let ghost mid_bufs = buffers@;
    match build_children(
        data,
        block_offset,
        children_types,
        fields,
        dictionaries,
        field_nodes,
        buffers,
        i + 1,
        out,
    ) {
        Ok(u) => {
            proof {
                let dlen = data@.len() as int;
                let block = block_offset as int;
                let s0 = spec_build(
                    children_types@[i as int],
                    fields@[i as int],
                    dictionaries@,
                    old(field_nodes)@,
                    old(buffers)@,
                    dlen,
                    block,
                );
                lemma_build_counts(
                    children_types@[i as int],
                    fields@[i as int],
                    dictionaries@,
                    old(field_nodes)@,
                    old(buffers)@,
                    dlen,
                    block,
                );
                if let BuildSpec::Done(a, nt, bt) = s0 {
                    lemma_children_counts(
                        children_types@,
                        fields@,
                        dictionaries@,
                        mid_nodes,
                        mid_bufs,
                        dlen,
                        block,
                        i + 1 as int,
                    );
                    let s1 = spec_build_children(
                        children_types@,
                        fields@,
                        dictionaries@,
                        mid_nodes,
                        mid_bufs,
                        dlen,
                        block,
                        i + 1 as int,
                    );
                    if let ChildrenSpec::Done(rest, nt2, bt2) = s1 {
                        assert(old(field_nodes)@.skip(nt).skip(nt2) =~= old(field_nodes)@.skip(
                            nt + nt2,
                        ));
                        assert(old(buffers)@.skip(bt).skip(bt2) =~= old(buffers)@.skip(bt + bt2));
                        assert(seq![a] + rest =~= spec_build_children(
                            children_types@,
                            fields@,
                            dictionaries@,
                            old(field_nodes)@,
                            old(buffers)@,
                            dlen,
                            block,
                            i as int,
                        )->Done_0);
                    }
                }
            }
            Ok(())
        },
        Err(e) => Err(e),
    }
}

/// Builds a struct node: validity only, then one child per declared field,
/// in declared order.
pub fn mmap_struct(
    data: &[u8],
    node: &Node,
    block_offset: usize,
    data_type: &DataType,
    ipc_field: &IpcField,
    dictionaries: &Dictionaries,
    field_nodes: &mut VecDeque<Node>,
    buffers: &mut VecDeque<IpcBuffer>,
) -> (r: Result<ArrowArray, Error>)
    requires
        *data_type matches DataType::Struct(_),
        ipc_consistent(*data_type, *ipc_field),
    ensures
        final(field_nodes)@.is_suffix_of(old(field_nodes)@),
        final(buffers)@.is_suffix_of(old(buffers)@),
        !node_ok(*node) ==> final(field_nodes)@ == old(field_nodes)@ && final(buffers)@ == old(
            buffers,
        )@,
        match spec_mmap_struct(
            *node,
            (match *data_type {
                DataType::Struct(c) => c@,
                _ => Seq::empty(),
            }),
            ipc_field.fields@,
            dictionaries@,
            old(field_nodes)@,
            old(buffers)@,
            data@.len() as int,
            block_offset as int,
        ) {
            BuildSpec::Fail(e) => r matches Err(ee) && (ee == e || (ee == Error::Misaligned
                && !machine_free_struct(
                *node,
                (match *data_type {
                    DataType::Struct(c) => c@,
                    _ => Seq::empty(),
                }),
                ipc_field.fields@,
                dictionaries@,
                old(field_nodes)@,
                old(buffers)@,
                data@.len() as int,
                block_offset as int,
            ))),
            BuildSpec::Done(a, nt, bt) => (r matches Ok(arr) && arr@ == a && final(field_nodes)@
                == old(field_nodes)@.skip(nt) && final(buffers)@ == old(buffers)@.skip(bt)) || (r
                matches Err(ee) && ee == Error::Misaligned && !machine_free_struct(
                *node,
                (match *data_type {
                    DataType::Struct(c) => c@,
                    _ => Seq::empty(),
                }),
                ipc_field.fields@,
                dictionaries@,
                old(field_nodes)@,
                old(buffers)@,
                data@.len() as int,
                block_offset as int,
            )),
        },
    decreases *data_type, 1int, 0int,
{
    let children_types: &Vec<DataType> = match data_type {
        DataType::Struct(c) => c,
        _ => {
            proof {
                assert(false);
            }
            return Err(Error::UnsupportedType);
        },
    };
    let num_rows = match wire_index(node.length) {
        Ok(v) => v,
        Err(e) => {
            return Err(e);
        },
    };
    let null_count = match wire_index(node.null_count) {
        Ok(v) => v,
        Err(e) => {
            return Err(e);
        },
    };
    let validity = match get_validity(data, block_offset, buffers, null_count) {
        Ok(v) => v,
        Err(e) => {
            return Err(e);
        },
    };
    let ghost mid_bufs = buffers@;
    let mut kids: Vec<ArrowArray> = Vec::new();
    match build_children(
        data,
        block_offset,
        children_types,
        &ipc_field.fields,
        dictionaries,
        field_nodes,
        buffers,
        0,
        &mut kids,
    ) {
        Ok(u) => u,
        Err(e) => {
            return Err(e);
        },
    };
    let mut bufs: Vec<Option<BufferRange>> = Vec::new();
    bufs.push(validity);
    let arr = create_array(num_rows, null_count, bufs, kids, None);
    proof {
        let dlen = data@.len() as int;
        let block = block_offset as int;
        lemma_children_counts(
            children_types@,
            ipc_field.fields@,
            dictionaries@,
            old(field_nodes)@,
            mid_bufs,
            dlen,
            block,
            0,
        );
        let s1 = spec_build_children(
            children_types@,
            ipc_field.fields@,
            dictionaries@,
            old(field_nodes)@,
            mid_bufs,
            dlen,
            block,
            0,
        );
        if let ChildrenSpec::Done(cs, nt, bt) = s1 {
            assert(old(buffers)@.skip(1).skip(bt) =~= old(buffers)@.skip(1 + bt));
            let nv = node_value(*node, seq![range_view(validity)], cs, None);
            assert(arr@.buffers =~= nv.buffers);
            assert(arr@.children =~= nv.children);
            lemma_arr_eq(arr@, nv);
        }
    }
    Ok(arr)
}

/// Pops one field node and dispatches on the physical layout, threading the
/// queues and nested field metadata into recursive child builds. An unmapped
/// layout fails unconditionally with `UnsupportedType`.
pub fn get_array(
    data: &[u8],
    block_offset: usize,
    data_type: &DataType,
    ipc_field: &IpcField,
    dictionaries: &Dictionaries,
    field_nodes: &mut VecDeque<Node>,
    buffers: &mut VecDeque<IpcBuffer>,
) -> (r: Result<ArrowArray, Error>)
    requires
        ipc_consistent(*data_type, *ipc_field),
    ensures
        final(field_nodes)@.is_suffix_of(old(field_nodes)@),
        final(buffers)@.is_suffix_of(old(buffers)@),
        old(field_nodes)@.len() == 0 ==> final(field_nodes)@ == old(field_nodes)@
            && final(buffers)@ == old(buffers)@,
        old(field_nodes)@.len() > 0 && *data_type is Unsupported ==> final(field_nodes)@ == old(
            field_nodes,
        )@.skip(1) && final(buffers)@ == old(buffers)@,
        match spec_build(
            *data_type,
            *ipc_field,
            dictionaries@,
            old(field_nodes)@,
            old(buffers)@,
            data@.len() as int,
            block_offset as int,
        ) {
            BuildSpec::Fail(e) => r matches Err(ee) && (ee == e || (ee == Error::Misaligned
                && !machine_free_build(
                *data_type,
                *ipc_field,
                dictionaries@,
                old(field_nodes)@,
                old(buffers)@,
                data@.len() as int,
                block_offset as int,
            ))),
            BuildSpec::Done(a, nt, bt) => (r matches Ok(arr) && arr@ == a && final(field_nodes)@
                == old(field_nodes)@.skip(nt) && final(buffers)@ == old(buffers)@.skip(bt)) || (r
                matches Err(ee) && ee == Error::Misaligned && !machine_free_build(
                *data_type,
                *ipc_field,
                dictionaries@,
                old(field_nodes)@,
                old(buffers)@,
                data@.len() as int,
                block_offset as int,
            )),
        },
    decreases *data_type, 2int, 0int,
{
    let node = match field_nodes.pop_front() {
        Some(n) => n,
        None => {
            return Err(Error::ExpectedNode);
        },
    };
    let ghost rest_nodes = field_nodes@;
    let res = match data_type {
        DataType::Null => mmap_null(data, &node, block_offset, buffers),
        DataType::Boolean => mmap_boolean(data, &node, block_offset, buffers),
        DataType::Primitive(w) => mmap_primitive(data, &node, block_offset, buffers, *w),
        DataType::Binary => mmap_binary(data, &node, block_offset, buffers, PrimWidth::W4),
        DataType::Utf8 => mmap_binary(data, &node, block_offset, buffers, PrimWidth::W4),
        DataType::LargeBinary => mmap_binary(data, &node, block_offset, buffers, PrimWidth::W8),
        DataType::LargeUtf8 => mmap_binary(data, &node, block_offset, buffers, PrimWidth::W8),
        DataType::FixedSizeBinary => mmap_fixed_size_binary(data, &node, block_offset, buffers),
        DataType::List(_) => mmap_list(
            data,
            &node,
            block_offset,
            data_type,
            ipc_field,
            dictionaries,
            field_nodes,
            buffers,
            PrimWidth::W4,
        ),
        DataType::LargeList(_) => mmap_list(
            data,
            &node,
            block_offset,
            data_type,
            ipc_field,
            dictionaries,
            field_nodes,
            buffers,
            PrimWidth::W8,
        ),
        DataType::FixedSizeList(_) => mmap_fixed_size_list(
            data,
            &node,
            block_offset,
            data_type,
            ipc_field,
            dictionaries,
            field_nodes,
            buffers,
        ),
        DataType::Struct(_) => mmap_struct(
            data,
            &node,
            block_offset,
            data_type,
            ipc_field,
            dictionaries,
            field_nodes,
            buffers,
        ),
        DataType::Dictionary(kw) => mmap_dict(
            data,
            &node,
            block_offset,
            data_type,
            ipc_field,
            dictionaries,
            field_nodes,
            buffers,
            *kw,
        ),
        DataType::Unsupported => Err(Error::UnsupportedType),
    };
    proof {
        lemma_build_counts(
            *data_type,
            *ipc_field,
            dictionaries@,
            old(field_nodes)@,
            old(buffers)@,
            data@.len() as int,
            block_offset as int,
        );
        let s = spec_build(
            *data_type,
            *ipc_field,
            dictionaries@,
            old(field_nodes)@,
            old(buffers)@,
            data@.len() as int,
            block_offset as int,
        );
        if let BuildSpec::Done(a, nt, bt) = s {
            assert(rest_nodes.skip(nt - 1) =~= old(field_nodes)@.skip(nt));
        }
    }
    res
}

/// Maps one batch region to a root handle: one dispatch for the root type.
/// The caller owns the handle and the obligation to release it; turning it
/// into a safe array is the conversion boundary's concern, outside this
/// library.
pub fn mmap(
    data: &[u8],
    block_offset: usize,
    data_type: &DataType,
    ipc_field: &IpcField,
    dictionaries: &Dictionaries,
    field_nodes: &mut VecDeque<Node>,
    buffers: &mut VecDeque<IpcBuffer>,
) -> (r: Result<ArrowArray, Error>)
    requires
        ipc_consistent(*data_type, *ipc_field),
    ensures
        final(field_nodes)@.is_suffix_of(old(field_nodes)@),
        final(buffers)@.is_suffix_of(old(buffers)@),
        old(field_nodes)@.len() == 0 ==> final(field_nodes)@ == old(field_nodes)@
            && final(buffers)@ == old(buffers)@,
        old(field_nodes)@.len() > 0 && *data_type is Unsupported ==> final(field_nodes)@ == old(
            field_nodes,
        )@.skip(1) && final(buffers)@ == old(buffers)@,
        match spec_build(
            *data_type,
            *ipc_field,
            dictionaries@,
            old(field_nodes)@,
            old(buffers)@,
            data@.len() as int,
            block_offset as int,
        ) {
            BuildSpec::Fail(e) => r matches Err(ee) && (ee == e || (ee == Error::Misaligned
                && !machine_free_build(
                *data_type,
                *ipc_field,
                dictionaries@,
                old(field_nodes)@,
                old(buffers)@,
                data@.len() as int,
                block_offset as int,
            ))),
            BuildSpec::Done(a, nt, bt) => (r matches Ok(arr) && arr@ == a && final(field_nodes)@
                == old(field_nodes)@.skip(nt) && final(buffers)@ == old(buffers)@.skip(bt)) || (r
                matches Err(ee) && ee == Error::Misaligned && !machine_free_build(
                *data_type,
                *ipc_field,
                dictionaries@,
                old(field_nodes)@,
                old(buffers)@,
                data@.len() as int,
                block_offset as int,
            )),
        },
{
    get_array(data, block_offset, data_type, ipc_field, dictionaries, field_nodes, buffers)
}

} // verus!
