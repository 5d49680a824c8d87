//! The in-memory backend: a table of items, kept in ascending order of
//! identifier, that answers the filesystem service contract.
//!
//! The store is a plain value. Operations that only inspect it take `&self`,
//! operations that change it take `&mut self`, so a caller that shares one
//! store between tasks guards it with a reader/writer lock and holds the lock
//! for the length of one call.

use vstd::prelude::*;
use vstd::string::StringSliceAdditionalSpecFns;
use vstd::string::StrSliceExecFns;
use crate::errno;
use crate::mode;
use crate::proto::{
    entry_views, CreateResult, DirEntry, GetAttributesResult, ItemAttributes, ItemId, ItemType,
    LookupResult, ReadDirResult, ReadResult, SetAttributesParams, Vfs, VfsResult, WriteResult,
    NO_PARENT, ROOT_ID,
};
use crate::table::{
    after_create, after_delete, after_rename, after_set_attributes, after_write, ascending,
    attributes_result, children, contains, content_error, create_result,
    delete_error, entry_of, has_child, has_children, has_other_child, is_directory, item, listing,
    lookup_result, named, new_item, next_id_after_create, outcome, read_data, read_dir_entries,
    read_dir_error, read_dir_next, rename_error, set_attributes_error, table_wf, write_result,
    written, ItemView, PAGE_SIZE,
};
use crate::wellformed::{
    lemma_child_row, lemma_create_keeps_wf, lemma_delete_keeps_wf, lemma_rename_keeps_wf,
    lemma_row, lemma_set_attributes_keeps_wf, lemma_write_keeps_wf,
};

verus! {

/// One item of the store.
#[derive(Debug, Clone)]
pub struct FsItem {
    pub id: ItemId,
    pub parent_id: ItemId,
    pub name: String,
    pub item_type: ItemType,
    pub data: Vec<u8>,
    pub modified_time: u64,
    pub created_time: u64,
    pub mode: u32,
}

impl View for FsItem {
    type V = ItemView;

    open spec fn view(&self) -> ItemView {
        ItemView {
            id: self.id,
            parent_id: self.parent_id,
            name: self.name@,
            item_type: self.item_type,
            data: self.data@,
            modified_time: self.modified_time,
            created_time: self.created_time,
            mode: self.mode,
        }
    }
}

/// The values of a sequence of items, in the same order.
pub open spec fn item_views(items: Seq<FsItem>) -> Seq<ItemView> {
    items.map_values(|it: FsItem| it@)
}

/// The bytes of `bytes` from `start` up to `end`.
fn copy_range(bytes: &Vec<u8>, start: usize, end: usize) -> (r: Vec<u8>)
    requires
        start <= end <= bytes@.len(),
    ensures
        r@ == bytes@.subrange(start as int, end as int),
{
    let mut r: Vec<u8> = Vec::new();
    let mut k: usize = start;
    while k < end
        invariant
            start <= k <= end <= bytes@.len(),
            r@ == bytes@.subrange(start as int, k as int),
        decreases end - k,
    {
        r.push(bytes[k]);
        k += 1;
    }
    r
}

/// Writes `data` into `content` at `offset`, growing `content` with zero
/// bytes where it ends before the end of what is written.
fn place(content: &mut Vec<u8>, offset: usize, data: &Vec<u8>)
    requires
        offset + data@.len() <= usize::MAX,
    ensures
        final(content)@ == written(old(content)@, offset as nat, data@),
{
    let end = offset + data.len();
    while content.len() < end
        invariant
            old(content)@.len() <= content@.len(),
            content@.len() <= end || content@.len() == old(content)@.len(),
            forall|i: int| 0 <= i < old(content)@.len() ==> content@[i] == old(content)@[i],
            forall|i: int| old(content)@.len() <= i < content@.len() ==> content@[i] == 0u8,
        decreases end - content@.len(),
    {
        content.push(0u8);
    }
    let ghost grown = content@;
    let mut j: usize = 0;
    while j < data.len()
        invariant
            j <= data@.len(),
            end == offset + data@.len(),
            content@.len() == grown.len(),
            end <= grown.len(),
            forall|i: int| 0 <= i < j ==> content@[offset + i] == data@[i],
            forall|i: int|
                0 <= i < grown.len() && !(offset <= i < offset + j) ==> content@[i] == grown[i],
        decreases data@.len() - j,
    {
        content.set(offset + j, data[j]);
        j += 1;
    }
    proof {
        let w = written(old(content)@, offset as nat, data@);
        assert(content@.len() == w.len());
        assert forall|i: int| 0 <= i < w.len() implies content@[i] == w[i] by {
            if offset <= i < offset + data@.len() {
                assert(content@[offset + (i - offset)] == data@[i - offset]);
            } else {
                assert(content@[i] == grown[i]);
            }
        }
        assert(content@ =~= w);
    }
}

/// The children of the first `k + 1` items are those of the first `k`,
/// followed by item `k` where it is a child.
proof fn lemma_children_step(t: Seq<ItemView>, parent_id: ItemId, k: int)
    requires
        0 <= k < t.len(),
    ensures
        children(t.take(k + 1), parent_id) == if t[k].parent_id == parent_id {
            children(t.take(k), parent_id).push(t[k])
        } else {
            children(t.take(k), parent_id)
        },
{
    reveal(Seq::filter);
    let s = t.take(k + 1);
    assert(s.drop_last() =~= t.take(k));
    assert(s.last() == t[k]);
}

impl FsItem {
    /// A copy of the item, content included.
    pub fn duplicate(&self) -> (r: FsItem)
        ensures
            r@ == self@,
    {
        assert(self.data@.subrange(0, self.data@.len() as int) =~= self.data@);
        FsItem {
            id: self.id,
            parent_id: self.parent_id,
            name: self.name.clone(),
            item_type: self.item_type,
            data: copy_range(&self.data, 0, self.data.len()),
            modified_time: self.modified_time,
            created_time: self.created_time,
            mode: self.mode,
        }
    }
}

/// The tree a new store starts with: under the root a greeting, a shell
/// script and a directory of documents that holds one file.
pub open spec fn starter_table() -> Seq<ItemView> {
    seq![
        new_item(ROOT_ID, NO_PARENT, Seq::empty(), ItemType::Directory),
        ItemView {
            data: "Hello, World!\n".spec_bytes(),
            ..new_item(2, ROOT_ID, "hello.txt"@, ItemType::File)
        },
        new_item(3, ROOT_ID, "documents"@, ItemType::Directory),
        ItemView {
            data: "# README\n\nThis is a test file.\n".spec_bytes(),
            ..new_item(4, 3, "readme.md"@, ItemType::File)
        },
        ItemView {
            data: "#!/bin/bash\necho \"Hello from executable!\"\n".spec_bytes(),
            mode: mode::FILE_EXECUTABLE,
            ..new_item(5, ROOT_ID, "test.sh"@, ItemType::File)
        },
    ]
}

/// The starter tree is a filesystem.
pub proof fn lemma_starter_table_wf()
    ensures
        table_wf(starter_table(), 6),
{
    let t = starter_table();
    reveal_strlit("hello.txt");
    reveal_strlit("documents");
    reveal_strlit("test.sh");
    assert(t[1].name[0] == 'h');
    assert(t[2].name[0] == 'd');
    assert(t[4].name[0] == 't');
    assert(t[0].item_type == ItemType::Directory && t[0].id == 1);
    assert(t[2].item_type == ItemType::Directory && t[2].id == 3);
    assert(is_directory(t, 1));
    assert(is_directory(t, 3));
    assert(t[1].parent_id == 1 && t[2].parent_id == 1 && t[3].parent_id == 3 && t[4].parent_id
        == 1);
}

/// The in-memory filesystem.
pub struct MemoryVfs {
    items: Vec<FsItem>,
    next_id: ItemId,
}

impl MemoryVfs {
    /// The items, in ascending order of identifier.
    pub closed spec fn table(&self) -> Seq<ItemView> {
        item_views(self.items@)
    }

    /// The identifier the next created item gets.
    pub closed spec fn next_id(&self) -> ItemId {
        self.next_id
    }

    /// The store is a filesystem.
    pub open spec fn wf(&self) -> bool {
        table_wf(self.table(), self.next_id())
    }

    /// A store that holds the starter tree.
    pub fn new() -> (r: MemoryVfs)
        ensures
            r.wf(),
            r.next_id() == 6,
            r.table() == starter_table(),
    {
        let mut items: Vec<FsItem> = Vec::new();
        items.push(
            FsItem {
                id: ROOT_ID,
                parent_id: NO_PARENT,
                name: String::new(),
                item_type: ItemType::Directory,
                data: Vec::new(),
                modified_time: 0,
                created_time: 0,
                mode: mode::DIRECTORY,
            },
        );
        items.push(
            FsItem {
                id: 2,
                parent_id: ROOT_ID,
                name: "hello.txt".to_string(),
                item_type: ItemType::File,
                data: "Hello, World!\n".as_bytes_vec(),
                modified_time: 0,
                created_time: 0,
                mode: mode::FILE_REGULAR,
            },
        );
        items.push(
            FsItem {
                id: 3,
                parent_id: ROOT_ID,
                name: "documents".to_string(),
                item_type: ItemType::Directory,
                data: Vec::new(),
                modified_time: 0,
                created_time: 0,
                mode: mode::DIRECTORY,
            },
        );
        items.push(
            FsItem {
                id: 4,
                parent_id: 3,
                name: "readme.md".to_string(),
                item_type: ItemType::File,
                data: "# README\n\nThis is a test file.\n".as_bytes_vec(),
                modified_time: 0,
                created_time: 0,
                mode: mode::FILE_REGULAR,
            },
        );
        items.push(
            FsItem {
                id: 5,
                parent_id: ROOT_ID,
                name: "test.sh".to_string(),
                item_type: ItemType::File,
                data: "#!/bin/bash\necho \"Hello from executable!\"\n".as_bytes_vec(),
                modified_time: 0,
                created_time: 0,
                mode: mode::FILE_EXECUTABLE,
            },
        );
        let r = MemoryVfs { items, next_id: 6 };
        proof {
            assert(r.table() =~= starter_table());
            lemma_starter_table_wf();
        }
        r
    }

    /// A store that holds the root directory and nothing else.
    pub fn empty() -> (r: MemoryVfs)
        ensures
            r.wf(),
            r.next_id() == 2,
            r.table() == seq![new_item(ROOT_ID, NO_PARENT, Seq::empty(), ItemType::Directory)],
    {
        let root = FsItem {
            id: ROOT_ID,
            parent_id: NO_PARENT,
            name: String::new(),
            item_type: ItemType::Directory,
            data: Vec::new(),
            modified_time: 0,
            created_time: 0,
            mode: mode::DIRECTORY,
        };
        let mut items: Vec<FsItem> = Vec::new();
        items.push(root);
        let r = MemoryVfs { items, next_id: 2 };
        proof {
            let t = r.table();
            assert(t =~= seq![new_item(ROOT_ID, NO_PARENT, Seq::empty(), ItemType::Directory)]);
            assert(t[0].name.len() == 0);
        }
        r
    }

    /// Whether an identifier is left for `create` to issue.
    pub fn can_create(&self) -> (b: bool)
        ensures
            b == self.has_free_id(),
    {
        self.next_id < u64::MAX
    }

    /// Number of items in the store, the root included.
    pub fn len(&self) -> (n: usize)
        ensures
            n == self.table().len(),
    {
        self.items.len()
    }

    /// The position of the item with this identifier, found by halving:
    /// identifiers ascend along the table.
    fn find(&self, id: ItemId) -> (r: Option<usize>)
        requires
            ascending(self.table()),
        ensures
            match r {
                Some(k) => k < self.table().len() && self.table()[k as int].id == id,
                None => !contains(self.table(), id),
            },
    {
        let mut lo: usize = 0;
        let mut hi: usize = self.items.len();
        while lo < hi
            invariant
                lo <= hi <= self.items@.len(),
                ascending(self.table()),
                forall|j: int| 0 <= j < lo ==> (#[trigger] self.table()[j]).id < id,
                forall|j: int| hi <= j < self.items@.len() ==> (#[trigger] self.table()[j]).id > id,
            decreases hi - lo,
        {
            let mid = lo + (hi - lo) / 2;
            let mid_id = self.items[mid].id;
            if mid_id == id {
                return Some(mid);
            }
            if mid_id < id {
                assert forall|j: int| 0 <= j < mid + 1 implies (#[trigger] self.table()[j]).id
                    < id by {
                    if j < mid {
                        assert(self.table()[j].id < self.table()[mid as int].id);
                    }
                }
                lo = mid + 1;
            } else {
                assert forall|j: int| mid <= j < self.items@.len() implies id < (
                #[trigger] self.table()[j]).id by {
                    if mid < j {
                        assert(self.table()[mid as int].id < self.table()[j].id);
                    }
                }
                hi = mid;
            }
        }
        None
    }

    /// The position of the item under `parent_id` with the name `name`.
    fn find_child(&self, parent_id: ItemId, name: &String) -> (r: Option<usize>)
        ensures
            match r {
                Some(k) => k < self.table().len() && named(
                    self.table()[k as int],
                    parent_id,
                    name@,
                ),
                None => !has_child(self.table(), parent_id, name@),
            },
    {
        let mut k: usize = 0;
        while k < self.items.len()
            invariant
                k <= self.items@.len(),
                forall|j: int| 0 <= j < k ==> !named(#[trigger] self.table()[j], parent_id, name@),
            decreases self.items@.len() - k,
        {
            if self.items[k].parent_id == parent_id && self.items[k].name == *name {
                return Some(k);
            }
            k += 1;
        }
        None
    }

    /// Whether some item has `parent_id` as its parent.
    fn any_child(&self, parent_id: ItemId) -> (b: bool)
        ensures
            b == has_children(self.table(), parent_id),
    {
        let mut k: usize = 0;
        while k < self.items.len()
            invariant
                k <= self.items@.len(),
                forall|j: int| 0 <= j < k ==> (#[trigger] self.table()[j]).parent_id != parent_id,
            decreases self.items@.len() - k,
        {
            if self.items[k].parent_id == parent_id {
                assert(self.table()[k as int].parent_id == parent_id);
                return true;
            }
            k += 1;
        }
        false
    }

    /// Whether an item other than `id` stands under `parent_id` with the
    /// name `name`.
    fn any_other_child(&self, id: ItemId, parent_id: ItemId, name: &String) -> (b: bool)
        ensures
            b == has_other_child(self.table(), id, parent_id, name@),
    {
        let mut k: usize = 0;
        while k < self.items.len()
            invariant
                k <= self.items@.len(),
                forall|j: int|
                    0 <= j < k ==> !(named(#[trigger] self.table()[j], parent_id, name@)
                        && self.table()[j].id != id),
            decreases self.items@.len() - k,
        {
            if self.items[k].parent_id == parent_id && self.items[k].name == *name
                && self.items[k].id != id {
                assert(named(self.table()[k as int], parent_id, name@));
                return true;
            }
            k += 1;
        }
        false
    }

    /// Copies of the items whose parent is `parent_id`, in ascending order
    /// of identifier.
    pub fn get_children(&self, parent_id: ItemId) -> (r: Vec<FsItem>)
        ensures
            item_views(r@) == children(self.table(), parent_id),
    {
        let mut out: Vec<FsItem> = Vec::new();
        let mut k: usize = 0;
        proof {
            reveal(Seq::filter);
            assert(item_views(out@) =~= children(self.table().take(0), parent_id));
        }
        while k < self.items.len()
            invariant
                k <= self.items@.len(),
                item_views(out@) == children(self.table().take(k as int), parent_id),
            decreases self.items@.len() - k,
        {
            proof {
                lemma_children_step(self.table(), parent_id, k as int);
            }
            if self.items[k].parent_id == parent_id {
                let ghost before = out@;
                out.push(self.items[k].duplicate());
                assert(item_views(out@) =~= item_views(before).push(self.table()[k as int]));
            }
            k += 1;
        }
        assert(self.table().take(k as int) =~= self.table());
        out
    }
}

impl Vfs for MemoryVfs {
    open spec fn valid(&self) -> bool {
        self.wf()
    }

    open spec fn has_free_id(&self) -> bool {
        self.next_id() < u64::MAX
    }

    /// Finds the item under `parent_id` with the name `name`. Whether
    /// `parent_id` names a directory plays no part.
    fn lookup(&self, parent_id: ItemId, name: String) -> (r: LookupResult)
        ensures
            r == lookup_result(self.table(), parent_id, name@),
    {
        match self.find_child(parent_id, &name) {
            Some(k) => {
                proof {
                    lemma_child_row(self.table(), parent_id, name@, k as int);
                }
                LookupResult {
                    item_id: self.items[k].id,
                    item_type: self.items[k].item_type,
                    error: errno::OK,
                }
            },
            None => LookupResult { item_id: 0, item_type: ItemType::File, error: errno::ENOENT },
        }
    }

    /// The attributes of an item; its size is the length of its content.
    fn get_attributes(&self, item_id: ItemId) -> (r: GetAttributesResult)
        ensures
            r == attributes_result(self.table(), item_id),
    {
        match self.find(item_id) {
            Some(k) => {
                proof {
                    lemma_row(self.table(), item_id, k as int);
                }
                let it = &self.items[k];
                GetAttributesResult {
                    attrs: ItemAttributes {
                        item_id: it.id,
                        item_type: it.item_type,
                        size: it.data.len() as u64,
                        modified_time: it.modified_time,
                        created_time: it.created_time,
                        mode: it.mode,
                    },
                    error: errno::OK,
                }
            },
            None => GetAttributesResult {
                attrs: ItemAttributes {
                    item_id: 0,
                    item_type: ItemType::File,
                    size: 0,
                    modified_time: 0,
                    created_time: 0,
                    mode: 0,
                },
                error: errno::ENOENT,
            },
        }
    }

    /// One page of the children of a directory, in ascending order of
    /// identifier. `cursor` is the number of children that the pages before
    /// held.
    fn read_dir(&self, item_id: ItemId, cursor: u64) -> (r: ReadDirResult)
        ensures
            r.error == read_dir_error(self.table(), item_id),
            entry_views(r.entries@) == read_dir_entries(self.table(), item_id, cursor),
            r.next_cursor == read_dir_next(self.table(), item_id, cursor),
    {
        match self.find(item_id) {
            Some(k) => {
                proof {
                    lemma_row(self.table(), item_id, k as int);
                }
                if self.items[k].item_type == ItemType::Directory {
                    let kids = self.get_children(item_id);
                    let n = kids.len();
                    let start: usize = if cursor <= n as u64 {
                        cursor as usize
                    } else {
                        n
                    };
                    let end: usize = if n - start > PAGE_SIZE {
                        start + PAGE_SIZE
                    } else {
                        n
                    };
                    let ghost all = listing(self.table(), item_id);
                    assert(all.len() == n);
                    let mut entries: Vec<DirEntry> = Vec::new();
                    let mut j: usize = start;
                    assert(entry_views(entries@) =~= all.subrange(start as int, j as int));
                    while j < end
                        invariant
                            start <= j <= end <= n,
                            n == kids@.len(),
                            all == item_views(kids@).map_values(|r: ItemView| entry_of(r)),
                            entry_views(entries@) == all.subrange(start as int, j as int),
                        decreases end - j,
                    {
                        let ghost before = entries@;
                        entries.push(
                            DirEntry {
                                name: kids[j].name.clone(),
                                item_id: kids[j].id,
                                item_type: kids[j].item_type,
                            },
                        );
                        assert(entry_views(entries@) =~= entry_views(before).push(all[j as int]));
                        j += 1;
                        assert(all.subrange(start as int, j as int) =~= all.subrange(
                            start as int,
                            j - 1,
                        ).push(all[j - 1]));
                    }
                    let next_cursor: u64 = if n > end {
                        end as u64
                    } else {
                        0
                    };
                    ReadDirResult { entries, next_cursor, error: errno::OK }
                } else {
                    ReadDirResult { entries: Vec::new(), next_cursor: 0, error: errno::ENOTDIR }
                }
            },
            None => ReadDirResult { entries: Vec::new(), next_cursor: 0, error: errno::ENOENT },
        }
    }

    /// Up to `len` bytes of a file from `offset` on. Only a file has
    /// content: any other kind of item reports `EISDIR`.
    fn read(&self, item_id: ItemId, offset: u64, len: u64) -> (r: ReadResult)
        ensures
            r.error == content_error(self.table(), item_id),
            r.data@ == read_data(self.table(), item_id, offset, len),
    {
        match self.find(item_id) {
            Some(k) => {
                proof {
                    lemma_row(self.table(), item_id, k as int);
                }
                if self.items[k].item_type == ItemType::File {
                    let content = &self.items[k].data;
                    let n = content.len();
                    let start: usize = if offset <= n as u64 {
                        offset as usize
                    } else {
                        n
                    };
                    let end: usize = if len <= (n - start) as u64 {
                        start + len as usize
                    } else {
                        n
                    };
                    ReadResult { data: copy_range(content, start, end), error: errno::OK }
                } else {
                    ReadResult { data: Vec::new(), error: errno::EISDIR }
                }
            },
            None => ReadResult { data: Vec::new(), error: errno::ENOENT },
        }
    }

    /// Places `data` at `offset` in a file. A file that ends before
    /// `offset` is first filled with zero bytes up to it. Only a file has
    /// content: any other kind of item reports `EISDIR`.
    fn write(&mut self, item_id: ItemId, offset: u64, data: Vec<u8>) -> (r: WriteResult)
        ensures
            r == write_result(old(self).table(), item_id, data@),
            final(self).table() == after_write(old(self).table(), item_id, offset, data@),
            final(self).next_id() == old(self).next_id(),
    {
        proof {
            lemma_write_keeps_wf(self.table(), self.next_id(), item_id, offset, data@);
        }
        match self.find(item_id) {
            Some(k) => {
                proof {
                    lemma_row(self.table(), item_id, k as int);
                }
                if self.items[k].item_type == ItemType::File {
                    place(&mut self.items[k].data, offset as usize, &data);
                    assert(self.table() =~= after_write(
                        old(self).table(),
                        item_id,
                        offset,
                        data@,
                    ));
                    WriteResult { bytes_written: data.len() as u64, error: errno::OK }
                } else {
                    WriteResult { bytes_written: 0, error: errno::EISDIR }
                }
            },
            None => WriteResult { bytes_written: 0, error: errno::ENOENT },
        }
    }

    /// Adds an empty item to a directory. The item gets the next
    /// identifier and the default mode of its kind.
    fn create(&mut self, parent_id: ItemId, name: String, item_type: ItemType) -> (r:
        CreateResult)
        ensures
            r == create_result(old(self).table(), old(self).next_id(), parent_id, name@),
            final(self).table() == after_create(
                old(self).table(),
                old(self).next_id(),
                parent_id,
                name@,
                item_type,
            ),
            final(self).next_id() == next_id_after_create(
                old(self).table(),
                old(self).next_id(),
                parent_id,
                name@,
            ),
    {
        proof {
            lemma_create_keeps_wf(self.table(), self.next_id(), parent_id, name@, item_type);
        }
        match self.find(parent_id) {
            Some(p) => {
                proof {
                    lemma_row(self.table(), parent_id, p as int);
                }
                if self.items[p].item_type != ItemType::Directory {
                    return CreateResult { item_id: 0, error: errno::ENOTDIR };
                }
            },
            None => {
                return CreateResult { item_id: 0, error: errno::ENOENT };
            },
        }
        if self.find_child(parent_id, &name).is_some() {
            return CreateResult { item_id: 0, error: errno::EEXIST };
        }
        let new_id = self.next_id;
        self.next_id = self.next_id + 1;
        let initial_mode = match item_type {
            ItemType::Directory => mode::DIRECTORY,
            ItemType::File => mode::FILE_REGULAR,
            ItemType::Symlink => mode::SYMLINK,
        };
        self.items.push(
            FsItem {
                id: new_id,
                parent_id,
                name,
                item_type,
                data: Vec::new(),
                modified_time: 0,
                created_time: 0,
                mode: initial_mode,
            },
        );
        assert(self.table() =~= old(self).table().push(
            new_item(new_id, parent_id, name@, item_type),
        ));
        CreateResult { item_id: new_id, error: errno::OK }
    }

    /// Removes an item. A directory is removed only when it has no
    /// children.
    fn delete(&mut self, item_id: ItemId) -> (r: VfsResult)
        ensures
            r == outcome(delete_error(old(self).table(), item_id)),
            final(self).table() == after_delete(old(self).table(), item_id),
            final(self).next_id() == old(self).next_id(),
    {
        proof {
            lemma_delete_keeps_wf(self.table(), self.next_id(), item_id);
        }
        if item_id == ROOT_ID {
            return VfsResult { error: errno::EACCES };
        }
        match self.find(item_id) {
            Some(k) => {
                proof {
                    lemma_row(self.table(), item_id, k as int);
                }
                if self.items[k].item_type == ItemType::Directory && self.any_child(item_id) {
                    return VfsResult { error: errno::ENOTEMPTY };
                }
                self.items.remove(k);
                assert(self.table() =~= old(self).table().remove(k as int));
                VfsResult { error: errno::OK }
            },
            None => VfsResult { error: errno::ENOENT },
        }
    }

    /// Moves an item under `new_parent_id` with the name `new_name`. The
    /// target directory and the name are examined before the item itself.
    fn rename(&mut self, item_id: ItemId, new_parent_id: ItemId, new_name: String) -> (r:
        VfsResult)
        ensures
            r == outcome(rename_error(old(self).table(), item_id, new_parent_id, new_name@)),
            final(self).table() == after_rename(
                old(self).table(),
                item_id,
                new_parent_id,
                new_name@,
            ),
            final(self).next_id() == old(self).next_id(),
    {
        proof {
            lemma_rename_keeps_wf(self.table(), self.next_id(), item_id, new_parent_id, new_name@);
        }
        if item_id == ROOT_ID {
            return VfsResult { error: errno::EACCES };
        }
        match self.find(new_parent_id) {
            Some(p) => {
                proof {
                    lemma_row(self.table(), new_parent_id, p as int);
                }
                if self.items[p].item_type != ItemType::Directory {
                    return VfsResult { error: errno::ENOTDIR };
                }
            },
            None => {
                return VfsResult { error: errno::ENOENT };
            },
        }
        if self.any_other_child(item_id, new_parent_id, &new_name) {
            return VfsResult { error: errno::EEXIST };
        }
        match self.find(item_id) {
            Some(k) => {
                proof {
                    lemma_row(self.table(), item_id, k as int);
                }
                let it = &mut self.items[k];
                it.parent_id = new_parent_id;
                it.name = new_name;
                assert(self.table() =~= after_rename(
                    old(self).table(),
                    item_id,
                    new_parent_id,
                    new_name@,
                ));
                VfsResult { error: errno::OK }
            },
            None => VfsResult { error: errno::ENOENT },
        }
    }

    /// Sets the mode and the modification time that `params` carries.
    fn set_attributes(&mut self, item_id: ItemId, params: SetAttributesParams) -> (r: VfsResult)
        ensures
            r == outcome(set_attributes_error(old(self).table(), item_id)),
            final(self).table() == after_set_attributes(old(self).table(), item_id, params),
            final(self).next_id() == old(self).next_id(),
    {
        proof {
            lemma_set_attributes_keeps_wf(self.table(), self.next_id(), item_id, params);
        }
        match self.find(item_id) {
            Some(k) => {
                proof {
                    lemma_row(self.table(), item_id, k as int);
                }
                let it = &mut self.items[k];
                match params.mode {
                    Some(m) => {
                        it.mode = m;
                    },
                    None => {},
                }
                match params.modified_time {
                    Some(m) => {
                        it.modified_time = m;
                    },
                    None => {},
                }
                assert(self.table() =~= after_set_attributes(
                    old(self).table(),
                    item_id,
                    params,
                ));
                VfsResult { error: errno::OK }
            },
            None => VfsResult { error: errno::ENOENT },
        }
    }

    fn ping(&self) -> (r: String)
        ensures
            r@ == "pong from memory VFS"@,
    {
        "pong from memory VFS".to_string()
    }
}

} // verus!
