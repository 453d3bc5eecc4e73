use vstd::prelude::*;

verus! {

/// Unsigned offset used for references to tables, vectors and strings.
pub type UOffset = u32;

/// Signed offset stored at the start of a table, pointing back to its vtable.
pub type SOffset = i32;

/// Unsigned offset of a field inside a table, stored in the vtable.
pub type VOffset = u16;

/// Length prefix of vectors and strings.
pub type Len = u32;

/// The number of bytes of a `UOffset`.
pub const SIZE_OF_UOFFSET: usize = 4;

/// The number of bytes of an `SOffset`.
pub const SIZE_OF_SOFFSET: usize = 4;

/// The number of bytes of a `VOffset`.
pub const SIZE_OF_VOFFSET: usize = 2;

/// The number of bytes of a `Len`.
pub const SIZE_OF_LEN: usize = 4;

} // verus!
