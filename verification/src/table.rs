//! The mathematical model of the item table.
//!
//! A table is the sequence of its items in ascending order of identifier.
//! This module says when such a sequence is a filesystem, what every
//! operation answers on it, and what the operation leaves behind. The store
//! is verified against these functions, and the laws are stated over them.

use vstd::prelude::*;
use crate::errno;
use crate::mode;
use crate::proto::{
    CreateResult, DirEntryView, GetAttributesResult, ItemAttributes, ItemId, ItemType,
    LookupResult, SetAttributesParams, VfsResult, WriteResult, NO_PARENT, ROOT_ID,
};

verus! {

/// Number of entries in one page of a directory listing.
pub const PAGE_SIZE: usize = 100;

/// Mathematical value of one item of the table.
pub struct ItemView {
    pub id: ItemId,
    pub parent_id: ItemId,
    pub name: Seq<char>,
    pub item_type: ItemType,
    pub data: Seq<u8>,
    pub modified_time: u64,
    pub created_time: u64,
    pub mode: u32,
}

/// Whether some item has this identifier.
pub open spec fn contains(t: Seq<ItemView>, id: ItemId) -> bool {
    exists|i: int| 0 <= i < t.len() && #[trigger] t[i].id == id
}

/// The position of the item with this identifier, where there is one.
pub open spec fn row_of(t: Seq<ItemView>, id: ItemId) -> int {
    choose|i: int| 0 <= i < t.len() && #[trigger] t[i].id == id
}

/// The item with this identifier, where there is one.
pub open spec fn item(t: Seq<ItemView>, id: ItemId) -> ItemView {
    t[row_of(t, id)]
}

/// Whether this identifier names a directory.
pub open spec fn is_directory(t: Seq<ItemView>, id: ItemId) -> bool {
    exists|i: int|
        0 <= i < t.len() && #[trigger] t[i].id == id && t[i].item_type == ItemType::Directory
}

/// Whether this identifier names a file.
pub open spec fn is_file(t: Seq<ItemView>, id: ItemId) -> bool {
    exists|i: int| 0 <= i < t.len() && #[trigger] t[i].id == id && t[i].item_type == ItemType::File
}

/// Whether the item stands under `parent_id` with the name `name`.
pub open spec fn named(r: ItemView, parent_id: ItemId, name: Seq<char>) -> bool {
    r.parent_id == parent_id && r.name == name
}

/// Whether some item stands under `parent_id` with the name `name`.
pub open spec fn has_child(t: Seq<ItemView>, parent_id: ItemId, name: Seq<char>) -> bool {
    exists|i: int| 0 <= i < t.len() && named(#[trigger] t[i], parent_id, name)
}

/// The position of the item under `parent_id` with the name `name`, where
/// there is one.
pub open spec fn child_row(t: Seq<ItemView>, parent_id: ItemId, name: Seq<char>) -> int {
    choose|i: int| 0 <= i < t.len() && named(#[trigger] t[i], parent_id, name)
}

/// Whether an item other than `id` stands under `parent_id` with the name
/// `name`.
pub open spec fn has_other_child(
    t: Seq<ItemView>,
    id: ItemId,
    parent_id: ItemId,
    name: Seq<char>,
) -> bool {
    exists|i: int| 0 <= i < t.len() && named(#[trigger] t[i], parent_id, name) && t[i].id != id
}

/// Whether some item has `parent_id` as its parent.
pub open spec fn has_children(t: Seq<ItemView>, parent_id: ItemId) -> bool {
    exists|i: int| 0 <= i < t.len() && #[trigger] t[i].parent_id == parent_id
}

/// The items whose parent is `parent_id`, in the order of the table.
pub open spec fn children(t: Seq<ItemView>, parent_id: ItemId) -> Seq<ItemView> {
    t.filter(|r: ItemView| r.parent_id == parent_id)
}

/// Identifiers grow along the table, so none occurs twice.
pub open spec fn ascending(t: Seq<ItemView>) -> bool {
    forall|i: int, j: int| 0 <= i < j < t.len() ==> #[trigger] t[i].id < #[trigger] t[j].id
}

/// No two items share a parent and a name.
pub open spec fn siblings_differ(t: Seq<ItemView>) -> bool {
    forall|i: int, j: int|
        0 <= i < j < t.len() ==> !named(#[trigger] t[i], t[j].parent_id, #[trigger] t[j].name)
}

/// When a sequence of items, with the next identifier to issue, is a
/// filesystem:
/// the first item is the root directory, which has no parent and no name;
/// identifiers ascend and lie below the next one to issue; every other item
/// lies in a directory of the table; siblings differ in name; only files
/// have content.
pub open spec fn table_wf(t: Seq<ItemView>, next_id: ItemId) -> bool {
    &&& t.len() > 0
    &&& t[0].id == ROOT_ID
    &&& t[0].parent_id == NO_PARENT
    &&& t[0].item_type == ItemType::Directory
    &&& t[0].name.len() == 0
    &&& ascending(t)
    &&& forall|i: int| 0 <= i < t.len() ==> #[trigger] t[i].id < next_id
    &&& forall|i: int| 0 < i < t.len() ==> is_directory(t, #[trigger] t[i].parent_id)
    &&& siblings_differ(t)
    &&& forall|i: int|
        0 <= i < t.len() && #[trigger] t[i].item_type != ItemType::File ==> t[i].data.len() == 0
}

/// The directory entry that lists an item.
pub open spec fn entry_of(r: ItemView) -> DirEntryView {
    DirEntryView { name: r.name, item_id: r.id, item_type: r.item_type }
}

/// The attributes of an item.
pub open spec fn attributes_of(r: ItemView) -> ItemAttributes {
    ItemAttributes {
        item_id: r.id,
        item_type: r.item_type,
        size: r.data.len() as u64,
        modified_time: r.modified_time,
        created_time: r.created_time,
        mode: r.mode,
    }
}

/// The attributes reported for an identifier that names nothing.
pub open spec fn no_attributes() -> ItemAttributes {
    ItemAttributes {
        item_id: 0,
        item_type: ItemType::File,
        size: 0,
        modified_time: 0,
        created_time: 0,
        mode: 0,
    }
}

/// The mode a new item of this kind gets.
pub open spec fn default_mode(item_type: ItemType) -> u32 {
    match item_type {
        ItemType::Directory => mode::DIRECTORY,
        ItemType::File => mode::FILE_REGULAR,
        ItemType::Symlink => mode::SYMLINK,
    }
}

/// The item that `create` adds.
pub open spec fn new_item(id: ItemId, parent_id: ItemId, name: Seq<char>, item_type: ItemType)
    -> ItemView {
    ItemView {
        id,
        parent_id,
        name,
        item_type,
        data: Seq::empty(),
        modified_time: 0,
        created_time: 0,
        mode: default_mode(item_type),
    }
}

// ---------------------------------------------------------------------------
// lookup, get_attributes
// ---------------------------------------------------------------------------
/// What `lookup` answers.
pub open spec fn lookup_result(t: Seq<ItemView>, parent_id: ItemId, name: Seq<char>)
    -> LookupResult {
    if has_child(t, parent_id, name) {
        let r = t[child_row(t, parent_id, name)];
        LookupResult { item_id: r.id, item_type: r.item_type, error: errno::OK }
    } else {
        LookupResult { item_id: 0, item_type: ItemType::File, error: errno::ENOENT }
    }
}

/// What `get_attributes` answers.
pub open spec fn attributes_result(t: Seq<ItemView>, id: ItemId) -> GetAttributesResult {
    if contains(t, id) {
        GetAttributesResult { attrs: attributes_of(item(t, id)), error: errno::OK }
    } else {
        GetAttributesResult { attrs: no_attributes(), error: errno::ENOENT }
    }
}

// ---------------------------------------------------------------------------
// read_dir
// ---------------------------------------------------------------------------
/// The code `read_dir` reports.
pub open spec fn read_dir_error(t: Seq<ItemView>, id: ItemId) -> i32 {
    if !contains(t, id) {
        errno::ENOENT
    } else if !is_directory(t, id) {
        errno::ENOTDIR
    } else {
        errno::OK
    }
}

/// The entries of all children of `id`, in the order of the table.
pub open spec fn listing(t: Seq<ItemView>, id: ItemId) -> Seq<DirEntryView> {
    children(t, id).map_values(|r: ItemView| entry_of(r))
}

/// The page of `all` that starts after `cursor` entries.
pub open spec fn page_of(all: Seq<DirEntryView>, cursor: nat) -> Seq<DirEntryView> {
    let start = if cursor <= all.len() { cursor } else { all.len() };
    let end = if cursor + PAGE_SIZE <= all.len() { cursor + PAGE_SIZE } else { all.len() as int };
    all.subrange(start as int, end)
}

/// The cursor of the page after the one at `cursor`, or 0 where that page
/// is the last.
pub open spec fn next_cursor_of(all: Seq<DirEntryView>, cursor: nat) -> nat {
    if all.len() > cursor + page_of(all, cursor).len() {
        cursor + page_of(all, cursor).len()
    } else {
        0
    }
}

/// The entries `read_dir` returns.
pub open spec fn read_dir_entries(t: Seq<ItemView>, id: ItemId, cursor: u64) -> Seq<DirEntryView> {
    if read_dir_error(t, id) == errno::OK {
        page_of(listing(t, id), cursor as nat)
    } else {
        Seq::empty()
    }
}

/// The cursor `read_dir` returns.
pub open spec fn read_dir_next(t: Seq<ItemView>, id: ItemId, cursor: u64) -> nat {
    if read_dir_error(t, id) == errno::OK {
        next_cursor_of(listing(t, id), cursor as nat)
    } else {
        0
    }
}

// ---------------------------------------------------------------------------
// read, write
// ---------------------------------------------------------------------------
/// The code `read` and `write` report: content is kept for files only.
pub open spec fn content_error(t: Seq<ItemView>, id: ItemId) -> i32 {
    if !contains(t, id) {
        errno::ENOENT
    } else if !is_file(t, id) {
        errno::EISDIR
    } else {
        errno::OK
    }
}

/// Up to `len` bytes of `content` from `offset` on: fewer where the content
/// ends before, none where it ends at or before `offset`.
pub open spec fn read_bytes(content: Seq<u8>, offset: nat, len: nat) -> Seq<u8> {
    let start = if offset <= content.len() { offset } else { content.len() };
    let end = if offset + len <= content.len() { offset + len } else { content.len() };
    content.subrange(start as int, end as int)
}

/// The bytes `read` returns.
pub open spec fn read_data(t: Seq<ItemView>, id: ItemId, offset: u64, len: u64) -> Seq<u8> {
    if content_error(t, id) == errno::OK {
        read_bytes(item(t, id).data, offset as nat, len as nat)
    } else {
        Seq::empty()
    }
}

/// The length of `content` after `data` is written at `offset`.
pub open spec fn written_len(content: Seq<u8>, offset: nat, data: Seq<u8>) -> nat {
    if content.len() >= offset + data.len() {
        content.len()
    } else {
        offset + data.len()
    }
}

/// `content` after `data` is written at `offset`: `data` stands at
/// `offset`, a gap between the old end and `offset` is zero, the rest is as
/// before.
pub open spec fn written(content: Seq<u8>, offset: nat, data: Seq<u8>) -> Seq<u8> {
    Seq::new(
        written_len(content, offset, data),
        |k: int|
            if offset <= k < offset + data.len() {
                data[k - offset]
            } else if k < content.len() {
                content[k]
            } else {
                0u8
            },
    )
}

/// What `write` answers.
pub open spec fn write_result(t: Seq<ItemView>, id: ItemId, data: Seq<u8>) -> WriteResult {
    if content_error(t, id) == errno::OK {
        WriteResult { bytes_written: data.len() as u64, error: errno::OK }
    } else {
        WriteResult { bytes_written: 0, error: content_error(t, id) }
    }
}

/// The table after `write`.
pub open spec fn after_write(t: Seq<ItemView>, id: ItemId, offset: u64, data: Seq<u8>) -> Seq<
    ItemView,
> {
    if content_error(t, id) == errno::OK {
        let r = item(t, id);
        t.update(row_of(t, id), ItemView { data: written(r.data, offset as nat, data), ..r })
    } else {
        t
    }
}

// ---------------------------------------------------------------------------
// create
// ---------------------------------------------------------------------------
/// The code `create` reports.
pub open spec fn create_error(t: Seq<ItemView>, parent_id: ItemId, name: Seq<char>) -> i32 {
    if !contains(t, parent_id) {
        errno::ENOENT
    } else if !is_directory(t, parent_id) {
        errno::ENOTDIR
    } else if has_child(t, parent_id, name) {
        errno::EEXIST
    } else {
        errno::OK
    }
}

/// What `create` answers: the new item gets the next identifier.
pub open spec fn create_result(
    t: Seq<ItemView>,
    next_id: ItemId,
    parent_id: ItemId,
    name: Seq<char>,
) -> CreateResult {
    if create_error(t, parent_id, name) == errno::OK {
        CreateResult { item_id: next_id, error: errno::OK }
    } else {
        CreateResult { item_id: 0, error: create_error(t, parent_id, name) }
    }
}

/// The table after `create`.
pub open spec fn after_create(
    t: Seq<ItemView>,
    next_id: ItemId,
    parent_id: ItemId,
    name: Seq<char>,
    item_type: ItemType,
) -> Seq<ItemView> {
    if create_error(t, parent_id, name) == errno::OK {
        t.push(new_item(next_id, parent_id, name, item_type))
    } else {
        t
    }
}

/// The next identifier to issue after `create`: only a successful call
/// uses one up.
pub open spec fn next_id_after_create(
    t: Seq<ItemView>,
    next_id: ItemId,
    parent_id: ItemId,
    name: Seq<char>,
) -> int {
    if create_error(t, parent_id, name) == errno::OK {
        next_id + 1
    } else {
        next_id as int
    }
}

// ---------------------------------------------------------------------------
// delete
// ---------------------------------------------------------------------------
/// The code `delete` reports.
pub open spec fn delete_error(t: Seq<ItemView>, id: ItemId) -> i32 {
    if id == ROOT_ID {
        errno::EACCES
    } else if is_directory(t, id) && has_children(t, id) {
        errno::ENOTEMPTY
    } else if !contains(t, id) {
        errno::ENOENT
    } else {
        errno::OK
    }
}

/// The table after `delete`.
pub open spec fn after_delete(t: Seq<ItemView>, id: ItemId) -> Seq<ItemView> {
    if delete_error(t, id) == errno::OK {
        t.remove(row_of(t, id))
    } else {
        t
    }
}

// ---------------------------------------------------------------------------
// rename
// ---------------------------------------------------------------------------
/// The code `rename` reports.
pub open spec fn rename_error(
    t: Seq<ItemView>,
    id: ItemId,
    new_parent_id: ItemId,
    new_name: Seq<char>,
) -> i32 {
    if id == ROOT_ID {
        errno::EACCES
    } else if !contains(t, new_parent_id) {
        errno::ENOENT
    } else if !is_directory(t, new_parent_id) {
        errno::ENOTDIR
    } else if has_other_child(t, id, new_parent_id, new_name) {
        errno::EEXIST
    } else if !contains(t, id) {
        errno::ENOENT
    } else {
        errno::OK
    }
}

/// The table after `rename`.
pub open spec fn after_rename(
    t: Seq<ItemView>,
    id: ItemId,
    new_parent_id: ItemId,
    new_name: Seq<char>,
) -> Seq<ItemView> {
    if rename_error(t, id, new_parent_id, new_name) == errno::OK {
        let r = item(t, id);
        t.update(row_of(t, id), ItemView { parent_id: new_parent_id, name: new_name, ..r })
    } else {
        t
    }
}

// ---------------------------------------------------------------------------
// set_attributes
// ---------------------------------------------------------------------------
/// The code `set_attributes` reports.
pub open spec fn set_attributes_error(t: Seq<ItemView>, id: ItemId) -> i32 {
    if contains(t, id) {
        errno::OK
    } else {
        errno::ENOENT
    }
}

/// An item after the attributes that `params` carries are applied to it.
pub open spec fn with_attributes(r: ItemView, params: SetAttributesParams) -> ItemView {
    ItemView {
        mode: match params.mode {
            Some(m) => m,
            None => r.mode,
        },
        modified_time: match params.modified_time {
            Some(m) => m,
            None => r.modified_time,
        },
        ..r
    }
}

/// The table after `set_attributes`.
pub open spec fn after_set_attributes(t: Seq<ItemView>, id: ItemId, params: SetAttributesParams)
    -> Seq<ItemView> {
    if contains(t, id) {
        t.update(row_of(t, id), with_attributes(item(t, id), params))
    } else {
        t
    }
}

/// What an operation that returns only its outcome answers.
pub open spec fn outcome(error: i32) -> VfsResult {
    VfsResult { error }
}

} // verus!
