//! Filesystem abstractions: file attribute bits and the `File` /
//! `Filesystem` interfaces that the FAT12 implementation provides.

use vstd::prelude::*;

verus! {

/// Attribute bit marking a regular file.
pub const ATTR_FILE: u32 = 1;

/// Attribute bit marking a directory.
pub const ATTR_DIRECTORY: u32 = 2;

/// Whether an attribute word has the directory bit set.
pub open spec fn spec_is_directory(attr: u32) -> bool {
    (attr / 2) % 2 == 1
}

/// An open file: an ephemeral descriptor with a size and attribute bits.
/// Reading goes through the owning filesystem.
pub trait File: Sized {
    /// The size the descriptor carries.
    spec fn spec_size(&self) -> nat;

    /// The attribute bits the descriptor carries.
    spec fn spec_attr(&self) -> u32;

    /// Size of the file in bytes.
    fn get_size(&self) -> (r: usize)
        ensures
            r == self.spec_size(),
    ;

    /// Attribute bits of the file.
    fn get_attr(&self) -> (r: u32)
        ensures
            r == self.spec_attr(),
    ;
}

/// A mounted filesystem with a root directory.
pub trait Filesystem: Sized {
    /// The file descriptor type of this filesystem.
    type FileT;

    /// The root directory descriptor.
    spec fn spec_root(&self) -> Self::FileT;

    /// Get the root directory for this filesystem.
    fn get_root(&self) -> (r: Self::FileT)
        ensures
            r == self.spec_root(),
    ;
}

} // verus!
