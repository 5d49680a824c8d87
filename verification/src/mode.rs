//! Default permission bit-fields given to newly created items.

use vstd::prelude::*;

verus! {

/// Regular file: `rw-r--r--`.
pub const FILE_REGULAR: u32 = 0o644;

/// Executable file: `rwxr-xr-x`.
pub const FILE_EXECUTABLE: u32 = 0o755;

/// Directory: `rwxr-xr-x`.
pub const DIRECTORY: u32 = 0o755;

/// Symbolic link: every permission bit set.
pub const SYMLINK: u32 = 0o777;

} // verus!
