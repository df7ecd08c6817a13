//! Schema-side inputs: physical types, per-node IPC metadata, and the two
//! wire queues (field nodes and buffer descriptors).

use vstd::prelude::*;

verus! {

/// Byte width of a fixed-width element (a primitive value or a dictionary
/// key). The bridge is generic over the element's meaning; only its width
/// matters for bounds and reinterpretation checks.
#[derive(Clone, Copy, Debug, PartialEq, Eq, Structural)]
pub enum PrimWidth {
    W1,
    W2,
    W4,
    W8,
    W16,
}

impl PrimWidth {
    /// The width in bytes, as a mathematical value.
    pub open spec fn bytes(self) -> int {
        match self {
            PrimWidth::W1 => 1,
            PrimWidth::W2 => 2,
            PrimWidth::W4 => 4,
            PrimWidth::W8 => 8,
            PrimWidth::W16 => 16,
        }
    }

    /// The width in bytes.
    pub fn byte_width(&self) -> (r: usize)
        ensures
            r == self.bytes(),
            1 <= r <= 16,
    {
        match self {
            PrimWidth::W1 => 1,
            PrimWidth::W2 => 2,
            PrimWidth::W4 => 4,
            PrimWidth::W8 => 8,
            PrimWidth::W16 => 16,
        }
    }
}

/// The physical layout of one schema node. Logical types that share a layout
/// (Utf8 and Binary, for instance) share a builder; nested variants carry
/// their child layouts.
#[derive(Debug)]
pub enum DataType {
    Null,
    Boolean,
    /// Fixed-width values of the given element width.
    Primitive(PrimWidth),
    /// Variable-length bytes addressed by 32-bit offsets.
    Binary,
    /// Variable-length text addressed by 32-bit offsets.
    Utf8,
    /// Variable-length bytes addressed by 64-bit offsets.
    LargeBinary,
    /// Variable-length text addressed by 64-bit offsets.
    LargeUtf8,
    /// Runs of bytes of one fixed size per row.
    FixedSizeBinary,
    /// Variable-length lists addressed by 32-bit offsets.
    List(Box<DataType>),
    /// Variable-length lists addressed by 64-bit offsets.
    LargeList(Box<DataType>),
    /// Lists of one fixed size per row; no offsets buffer.
    FixedSizeList(Box<DataType>),
    /// One child per declared field, in declared order.
    Struct(Vec<DataType>),
    /// Dictionary-encoded values: keys of the given width, values resolved
    /// out of band through the dictionary lookup.
    Dictionary(PrimWidth),
    /// A layout this bridge does not map; always a fatal error.
    Unsupported,
}

/// Per-node IPC field metadata: nested child fields mirroring the type tree,
/// and, for dictionary nodes, the id to resolve.
#[derive(Debug)]
pub struct IpcField {
    pub fields: Vec<IpcField>,
    pub dictionary_id: Option<i64>,
}

/// One field node from the footer: (row count, null count), signed on the
/// wire.
#[derive(Clone, Copy, Debug, PartialEq, Eq, Structural)]
pub struct Node {
    pub length: i64,
    pub null_count: i64,
}

/// One buffer descriptor from the footer: (offset, length) relative to the
/// block offset, signed on the wire.
#[derive(Clone, Copy, Debug, PartialEq, Eq, Structural)]
pub struct IpcBuffer {
    pub offset: i64,
    pub length: i64,
}

/// Whether the IPC field metadata mirrors the type tree: one child field per
/// nested child, in order. A dictionary node missing its id is not excluded
/// here; it fails the build with `MissingDictionary`.
pub open spec fn ipc_consistent(dt: DataType, f: IpcField) -> bool
    decreases dt,
{
    match dt {
        DataType::List(child) => f.fields@.len() >= 1 && ipc_consistent(*child, f.fields@[0]),
        DataType::LargeList(child) => f.fields@.len() >= 1 && ipc_consistent(*child, f.fields@[0]),
        DataType::FixedSizeList(child) => f.fields@.len() >= 1 && ipc_consistent(
            *child,
            f.fields@[0],
        ),
        DataType::Struct(children) => f.fields@.len() == children@.len() && (forall|i: int|
            0 <= i < children@.len() ==> ipc_consistent(#[trigger] children@[i], f.fields@[i])),
        _ => true,
    }
}

} // verus!
