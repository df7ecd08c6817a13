//! The array handle: one node of the exported tree. A handle records counts,
//! the buffer ranges it exposes (absolute into the source bytes), its child
//! handles and an optional dictionary handle. It owns its subtree; dropping
//! it drops everything it owns.

use vstd::prelude::*;

verus! {

broadcast use vstd::std_specs::vec::group_vec_axioms;

/// An absolute byte range inside the source bytes.
#[derive(Clone, Copy, Debug, PartialEq, Eq, Structural)]
pub struct BufferRange {
    pub offset: usize,
    pub length: usize,
}

/// One exported array node.
///
/// `offset` is always zero: IPC blocks are not sub-sliced at this layer.
/// A buffer slot holds `None` where the layout reserves the slot but the
/// bytes are never dereferenced (a validity bitmap with no nulls).
#[derive(Debug)]
pub struct ArrowArray {
    pub length: usize,
    pub null_count: usize,
    pub offset: usize,
    pub buffers: Vec<Option<BufferRange>>,
    pub children: Vec<ArrowArray>,
    pub dictionary: Option<Box<ArrowArray>>,
}

/// The mathematical value of a handle tree.
#[verifier::ext_equal]
pub struct ArrowArrayV {
    pub length: int,
    pub null_count: int,
    pub offset: int,
    pub buffers: Seq<Option<(int, int)>>,
    pub children: Seq<ArrowArrayV>,
    pub dictionary: Option<Box<ArrowArrayV>>,
}

/// The value of one buffer slot: `(absolute offset, length)` or absent.
pub open spec fn range_view(b: Option<BufferRange>) -> Option<(int, int)> {
    match b {
        Some(r) => Some((r.offset as int, r.length as int)),
        None => None,
    }
}

/// The value of a whole handle tree.
pub open spec fn arr_view(a: ArrowArray) -> ArrowArrayV
    decreases a
    via arr_view_decreases
{
    ArrowArrayV {
        length: a.length as int,
        null_count: a.null_count as int,
        offset: a.offset as int,
        buffers: Seq::new(a.buffers@.len(), |i: int| range_view(a.buffers@[i])),
        children: Seq::new(
            a.children@.len(),
            |i: int|
                if 0 <= i < a.children@.len() {
                    arr_view(a.children@[i])
                } else {
                    vstd::pervasive::arbitrary()
                },
        ),
        dictionary: match a.dictionary {
            Some(d) => Some(Box::new(arr_view(*d))),
            None => None,
        },
    }
}

#[via_fn]
proof fn arr_view_decreases(a: ArrowArray) {
    assert forall|i: int| 0 <= i < a.children@.len() implies (decreases_to!(
        a => a.children@[i]
    )) by {
        assert(decreases_to!(a => a.children));
        assert(decreases_to!(a.children => a.children@[i]));
    };
}

impl View for ArrowArray {
    type V = ArrowArrayV;

    open spec fn view(&self) -> ArrowArrayV {
        arr_view(*self)
    }
}

impl ArrowArrayV {
    /// Every buffer range of this node and of everything it owns lies within
    /// a source extent of `dlen` bytes.
    pub open spec fn in_extent(self, dlen: int) -> bool
        decreases self,
    {
        &&& (forall|i: int|
            0 <= i < self.buffers.len() ==> match #[trigger] self.buffers[i] {
                Some(r) => r.0 + r.1 <= dlen,
                None => true,
            })
        &&& (forall|i: int|
            0 <= i < self.children.len() ==> (#[trigger] self.children[i]).in_extent(dlen))
        &&& match self.dictionary {
            Some(d) => d.in_extent(dlen),
            None => true,
        }
    }
}

/// Assembles one handle from its parts: counts, ordered buffer slots, child
/// handles (ownership moves into the parent) and an optional dictionary
/// handle. The exported offset is fixed at zero.
pub fn create_array(
    num_rows: usize,
    null_count: usize,
    buffers: Vec<Option<BufferRange>>,
    children: Vec<ArrowArray>,
    dictionary: Option<ArrowArray>,
) -> (r: ArrowArray)
    ensures
        r@.length == num_rows,
        r@.null_count == null_count,
        r@.offset == 0,
        r@.buffers == Seq::new(buffers@.len(), |i: int| range_view(buffers@[i])),
        r@.children == Seq::new(children@.len(), |i: int| arr_view(children@[i])),
        r@.dictionary == match dictionary {
            Some(d) => Some(Box::new(arr_view(d))),
            None => None::<Box<ArrowArrayV>>,
        },
{
    let dict: Option<Box<ArrowArray>> = match dictionary {
        Some(d) => Some(Box::new(d)),
        None => None,
    };
    ArrowArray {
        length: num_rows,
        null_count,
        offset: 0,
        buffers,
        children,
        dictionary: dict,
    }
}

/// A deep copy of a handle tree: the copy has the same mathematical value and
/// owns its own subtree.
pub fn clone_array(a: &ArrowArray) -> (r: ArrowArray)
    ensures
        r@ == a@,
    decreases *a,
{
    let mut buffers: Vec<Option<BufferRange>> = Vec::new();
    let mut i: usize = 0;
    while i < a.buffers.len()
        invariant
            i <= a.buffers@.len(),
            buffers@ == a.buffers@.take(i as int),
        decreases a.buffers@.len() - i,
    {
        buffers.push(a.buffers[i]);
        proof {
            assert(buffers@ =~= a.buffers@.take(i + 1 as int));
        }
        i = i + 1;
    }
    let mut children: Vec<ArrowArray> = Vec::new();
    let mut j: usize = 0;
    while j < a.children.len()
        invariant
            j <= a.children@.len(),
            children@.len() == j,
            forall|k: int| 0 <= k < j ==> (#[trigger] children@[k])@ == a.children@[k]@,
        decreases a.children@.len() - j,
    {
        children.push(clone_array(&a.children[j]));
        j = j + 1;
    }
    let dict: Option<Box<ArrowArray>> = match &a.dictionary {
        Some(d) => Some(Box::new(clone_array(d))),
        None => None,
    };
    let r = ArrowArray {
        length: a.length,
        null_count: a.null_count,
        offset: a.offset,
        buffers,
        children,
        dictionary: dict,
    };
    proof {
        assert(buffers@ =~= a.buffers@);
        assert(r@.buffers =~= a@.buffers);
        assert(r@.children =~= a@.children);
    }
    r
}

} // verus!
