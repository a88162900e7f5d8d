//! What can go wrong while a session is being set up.

use vstd::prelude::*;

verus! {

/// A declaration that cannot be built. Every one of these is fatal to the
/// session: no partial result is meaningful once the declared sizes or bindings
/// are inconsistent.
#[derive(Clone, Copy, Debug, PartialEq, Eq, Structural)]
pub enum ConstructionError {
    /// The element size of a buffer's typed view is zero.
    ZeroSizedElement,
    /// The byte size of a buffer is not a multiple of its element size.
    SizeNotMultiple,
    /// The byte size of a buffer does not fit in 64 bits.
    SizeOverflow,
    /// The initial contents of a buffer do not have the buffer's size.
    InputSizeMismatch,
    /// A layout names a role that cannot be attached to a binding slot.
    UnbindableRole,
    /// A layout declares the same slot twice.
    DuplicateSlot,
    /// The buffers offered to a binding group do not satisfy the layout.
    LayoutMismatch,
}

} // verus!
