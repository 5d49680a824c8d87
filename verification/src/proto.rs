//! The filesystem service contract: the operations a backend serves, the
//! shape of every result, and the error codes each operation may report.
//!
//! Domain errors never abort a call. Every operation that can fail returns a
//! result whose `error` field is [`errno::OK`] on success and one of the codes
//! the operation is allowed to report otherwise.

use vstd::prelude::*;
use crate::errno;

verus! {

/// Unique identifier of a file, directory or symlink.
pub type ItemId = u64;

/// Identifier reserved for the root directory.
pub const ROOT_ID: ItemId = 1;

/// Parent identifier of an item that has no parent. Only the root has it.
pub const NO_PARENT: ItemId = 0;

/// Kind of a filesystem item.
#[derive(Debug, Clone, Copy, PartialEq, Eq, Structural)]
pub enum ItemType {
    File,
    Directory,
    Symlink,
}

/// Attributes of one item.
#[derive(Debug, Clone)]
pub struct ItemAttributes {
    pub item_id: ItemId,
    pub item_type: ItemType,
    /// Length of the content in bytes.
    pub size: u64,
    /// Seconds since the epoch.
    pub modified_time: u64,
    /// Seconds since the epoch.
    pub created_time: u64,
    /// Permission bit-field.
    pub mode: u32,
}

/// Attributes to change; a field that is `None` is left as it is.
#[derive(Debug, Clone)]
pub struct SetAttributesParams {
    pub mode: Option<u32>,
    pub modified_time: Option<u64>,
}

/// Result of a lookup.
#[derive(Debug, Clone)]
pub struct LookupResult {
    pub item_id: ItemId,
    pub item_type: ItemType,
    pub error: i32,
}

/// Result of reading file content.
#[derive(Debug, Clone)]
pub struct ReadResult {
    pub data: Vec<u8>,
    pub error: i32,
}

/// Result of a write.
#[derive(Debug, Clone)]
pub struct WriteResult {
    pub bytes_written: u64,
    pub error: i32,
}

/// One entry of a directory listing.
#[derive(Debug, Clone)]
pub struct DirEntry {
    pub name: String,
    pub item_id: ItemId,
    pub item_type: ItemType,
}

/// Mathematical value of a [`DirEntry`].
pub struct DirEntryView {
    pub name: Seq<char>,
    pub item_id: ItemId,
    pub item_type: ItemType,
}

impl View for DirEntry {
    type V = DirEntryView;

    open spec fn view(&self) -> DirEntryView {
        DirEntryView { name: self.name@, item_id: self.item_id, item_type: self.item_type }
    }
}

/// The values of a sequence of entries, in the same order.
pub open spec fn entry_views(entries: Seq<DirEntry>) -> Seq<DirEntryView> {
    entries.map_values(|e: DirEntry| e@)
}

/// One page of a directory listing.
#[derive(Debug, Clone)]
pub struct ReadDirResult {
    pub entries: Vec<DirEntry>,
    /// Cursor of the next page, or 0 when this page is the last.
    pub next_cursor: u64,
    pub error: i32,
}

/// Result of reading attributes.
#[derive(Debug, Clone)]
pub struct GetAttributesResult {
    pub attrs: ItemAttributes,
    pub error: i32,
}

/// Result of creating an item.
#[derive(Debug, Clone)]
pub struct CreateResult {
    pub item_id: ItemId,
    pub error: i32,
}

/// Result of an operation that returns nothing but its outcome.
#[derive(Debug, Clone)]
pub struct VfsResult {
    pub error: i32,
}

/// The operations a filesystem backend serves.
///
/// The clauses here hold of every backend: which codes an operation may
/// report, what a failed operation leaves in its result, and that the root is
/// protected. A backend states the rest in its own implementation.
pub trait Vfs {
    /// Whether the backend is in a state in which it may be called. Every
    /// operation keeps it.
    spec fn valid(&self) -> bool;

    /// Whether the backend can still issue a fresh identifier.
    spec fn has_free_id(&self) -> bool;

    /// Resolves a child name within a directory.
    fn lookup(&self, parent_id: ItemId, name: String) -> (r: LookupResult)
        requires
            self.valid(),
        ensures
            r.error == errno::OK || r.error == errno::ENOENT,
    ;

    /// Attributes of an item.
    fn get_attributes(&self, item_id: ItemId) -> (r: GetAttributesResult)
        requires
            self.valid(),
        ensures
            r.error == errno::OK || r.error == errno::ENOENT,
            r.error == errno::OK ==> r.attrs.item_id == item_id,
    ;

    /// One page of the children of a directory. `cursor` is 0 for the first
    /// page and the `next_cursor` of the page before for every other.
    fn read_dir(&self, item_id: ItemId, cursor: u64) -> (r: ReadDirResult)
        requires
            self.valid(),
        ensures
            r.error == errno::OK || r.error == errno::ENOENT || r.error == errno::ENOTDIR,
            r.error != errno::OK ==> r.entries@.len() == 0 && r.next_cursor == 0,
    ;

    /// Up to `len` bytes of a file, starting at `offset`.
    fn read(&self, item_id: ItemId, offset: u64, len: u64) -> (r: ReadResult)
        requires
            self.valid(),
        ensures
            r.error == errno::OK || r.error == errno::ENOENT || r.error == errno::EISDIR,
            r.data@.len() <= len,
            r.error != errno::OK ==> r.data@.len() == 0,
    ;

    /// Places `data` at `offset` in a file, growing the file where needed.
    fn write(&mut self, item_id: ItemId, offset: u64, data: Vec<u8>) -> (r: WriteResult)
        requires
            old(self).valid(),
            offset + data@.len() <= usize::MAX,
        ensures
            final(self).valid(),
            final(self).has_free_id() == old(self).has_free_id(),
            r.error == errno::OK || r.error == errno::ENOENT || r.error == errno::EISDIR,
            r.bytes_written == (if r.error == errno::OK { data@.len() } else { 0 }),
    ;

    /// Creates an empty item of the given kind in a directory.
    fn create(&mut self, parent_id: ItemId, name: String, item_type: ItemType) -> (r: CreateResult)
        requires
            old(self).valid(),
            old(self).has_free_id(),
        ensures
            final(self).valid(),
            r.error == errno::OK || r.error == errno::ENOENT || r.error == errno::ENOTDIR
                || r.error == errno::EEXIST,
            r.error == errno::OK ==> r.item_id != ROOT_ID && r.item_id != NO_PARENT,
            r.error != errno::OK ==> r.item_id == 0,
    ;

    /// Removes an item. The root is never removed.
    fn delete(&mut self, item_id: ItemId) -> (r: VfsResult)
        requires
            old(self).valid(),
        ensures
            final(self).valid(),
            final(self).has_free_id() == old(self).has_free_id(),
            r.error == errno::OK || r.error == errno::EACCES || r.error == errno::ENOTEMPTY
                || r.error == errno::ENOENT,
            item_id == ROOT_ID ==> r.error == errno::EACCES,
    ;

    /// Moves an item to a directory and a name. The root is never moved.
    fn rename(&mut self, item_id: ItemId, new_parent_id: ItemId, new_name: String) -> (r:
        VfsResult)
        requires
            old(self).valid(),
        ensures
            final(self).valid(),
            final(self).has_free_id() == old(self).has_free_id(),
            r.error == errno::OK || r.error == errno::EACCES || r.error == errno::ENOENT
                || r.error == errno::ENOTDIR || r.error == errno::EEXIST,
            item_id == ROOT_ID ==> r.error == errno::EACCES,
    ;

    /// Applies the attributes that `params` carries.
    fn set_attributes(&mut self, item_id: ItemId, params: SetAttributesParams) -> (r: VfsResult)
        requires
            old(self).valid(),
        ensures
            final(self).valid(),
            final(self).has_free_id() == old(self).has_free_id(),
            r.error == errno::OK || r.error == errno::ENOENT,
    ;

    /// Liveness probe; it cannot fail.
    fn ping(&self) -> (r: String)
        requires
            self.valid(),
    ;
}

} // verus!
