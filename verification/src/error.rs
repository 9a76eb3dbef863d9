//! Failure taxonomy of the interchange layer.
//!
//! Every checked operation reports why it refused its input: a type
//! mismatch when a dictionary descriptor disagrees with its parts, a
//! bounds violation naming the offending value and the limit, or a
//! malformed interchange struct naming the field that was invalid.

use vstd::prelude::*;

verus! {

/// Error returned by every checked operation of this crate.
#[derive(Clone, Copy, Debug, PartialEq, Eq, Structural)]
pub enum ArrowError {
    /// A dictionary array was initialized with a descriptor whose
    /// logical type is not a dictionary encoding.
    NotADictionaryType,
    /// The dictionary descriptor's key tag disagrees with the key type
    /// of the keys array.
    KeyTypeMismatch,
    /// The dictionary descriptor's value type disagrees with the type
    /// of the values array.
    ValueTypeMismatch,
    /// A dictionary key is representable as a machine index but is not
    /// smaller than the value pool's length.
    KeyOutOfBounds { key: usize, pool_size: usize },
    /// The key at this position cannot be converted to a machine index.
    KeyUnrepresentable { position: usize },
    /// The interchange struct's buffer list is absent although its type
    /// requires buffers.
    NullBuffers,
    /// The requested buffer index is not within the declared buffer count.
    BufferIndexOut { index: usize, n_buffers: usize },
    /// The buffer list is shorter than the declared buffer count.
    BuffersTooShort { index: usize, have: usize },
    /// The buffer at this index is a null pointer although the type
    /// requires it.
    NullBufferAt { index: usize },
    /// The buffer at this index does not carry the element kind that
    /// the type descriptor demands.
    WrongBufferKind { index: usize },
    /// The buffer at this index holds fewer elements than the
    /// type's geometry rule requires for the declared window.
    BufferTooSmall { index: usize, need: usize, have: usize },
    /// The interchange struct's child list is absent although its type
    /// requires a child.
    NullChildren,
    /// The requested child index is not within the declared child count.
    ChildIndexOut { index: usize, n_children: usize },
    /// The child list is shorter than the declared child count.
    ChildrenTooShort { index: usize, have: usize },
    /// The child at this index is a null pointer.
    NullChildAt { index: usize },
    /// The struct's dictionary pointer is null although its type is a
    /// dictionary encoding.
    NullDictionary,
    /// The type descriptor has no child type at this index.
    NoSuchChildType { index: usize },
    /// A signed struct field (length, null count, offset, buffer or
    /// child count) is negative or does not fit a machine word.
    FieldOutOfRange,
    /// A buffer geometry computation exceeds the address space.
    LengthOverflow,
    /// An offsets buffer is not non-negative and non-decreasing, or its
    /// last entry exceeds the data it points into.
    MalformedOffsets,
    /// A view entry is inconsistent with the variadic data buffers.
    MalformedViews,
}

} // verus!
