//! Errno-like codes carried in the `error` field of every operation result.
//!
//! A result whose code is [`OK`] reports success; every other code is a
//! positive number naming why the filesystem refused the operation.

use vstd::prelude::*;

verus! {

/// No error.
pub const OK: i32 = 0;

/// No such file or directory.
pub const ENOENT: i32 = 2;

/// I/O error.
pub const EIO: i32 = 5;

/// Permission denied.
pub const EACCES: i32 = 13;

/// File exists.
pub const EEXIST: i32 = 17;

/// Not a directory.
pub const ENOTDIR: i32 = 20;

/// Is a directory.
pub const EISDIR: i32 = 21;

/// Invalid argument.
pub const EINVAL: i32 = 22;

/// No space left on device.
pub const ENOSPC: i32 = 28;

/// Directory not empty.
pub const ENOTEMPTY: i32 = 66;

} // verus!
