//! Laws of the store, stated over the model that its contracts use.
//!
//! Each law relates what one or several operations answer. The operations
//! of [`crate::store::MemoryVfs`] return exactly what the functions of
//! [`crate::table`] say, so a law proved of those functions holds of the
//! store.

use vstd::prelude::*;
use crate::errno;
use crate::proto::{DirEntryView, ItemId, ItemType, LookupResult, NO_PARENT, ROOT_ID};
use crate::table::{
    after_create, after_delete, after_rename, after_write, ascending, child_row, children,
    contains, content_error, create_error, create_result, delete_error, entry_of, has_child,
    has_children, is_directory, is_file, item, listing, lookup_result, named, new_item,
    next_cursor_of, page_of, read_bytes, read_data, rename_error, row_of, table_wf, written,
    ItemView,
};
use crate::wellformed::{lemma_child_row, lemma_row};

verus! {

/// `lookup` succeeds exactly when an item stands under that parent with
/// that name. It then returns the identifier and the kind of that item, and
/// reports `ENOENT` otherwise.
pub proof fn lookup_finds_exactly(
    t: Seq<ItemView>,
    next_id: ItemId,
    parent_id: ItemId,
    name: Seq<char>,
)
    requires
        table_wf(t, next_id),
    ensures
        lookup_result(t, parent_id, name).error == errno::OK <==> exists|i: int|
            0 <= i < t.len() && named(#[trigger] t[i], parent_id, name),
        lookup_result(t, parent_id, name).error == errno::OK || lookup_result(
            t,
            parent_id,
            name,
        ).error == errno::ENOENT,
        forall|i: int|
            0 <= i < t.len() && named(#[trigger] t[i], parent_id, name) ==> lookup_result(
                t,
                parent_id,
                name,
            ).item_id == t[i].id && lookup_result(t, parent_id, name).item_type == t[i].item_type,
{
    assert forall|i: int| 0 <= i < t.len() && named(#[trigger] t[i], parent_id, name) implies {
        &&& lookup_result(t, parent_id, name).item_id == t[i].id
        &&& lookup_result(t, parent_id, name).item_type == t[i].item_type
    } by {
        lemma_child_row(t, parent_id, name, i);
    }
}

/// Reading back what was just written returns it: after `data` is written
/// to a file at `offset`, a read of as many bytes at `offset` returns `data`.
pub proof fn read_after_write(
    t: Seq<ItemView>,
    next_id: ItemId,
    id: ItemId,
    offset: u64,
    data: Seq<u8>,
)
    requires
        table_wf(t, next_id),
        is_file(t, id),
        data.len() <= u64::MAX,
    ensures
        content_error(t, id) == errno::OK,
        content_error(after_write(t, id, offset, data), id) == errno::OK,
        read_data(after_write(t, id, offset, data), id, offset, data.len() as u64) == data,
{
    let k = row_of(t, id);
    assert(0 <= k < t.len() && t[k].id == id);
    lemma_row(t, id, k);
    let u = after_write(t, id, offset, data);
    assert(u[k].id == id);
    assert forall|i: int, j: int| 0 <= i < j < u.len() implies #[trigger] u[i].id
        < #[trigger] u[j].id by {
        assert(t[i].id < t[j].id);
    }
    lemma_row(u, id, k);
    let after = written(t[k].data, offset as nat, data);
    assert(read_bytes(after, offset as nat, data.len()) =~= data);
}

/// Writing past the end of a file fills the gap with zeros: after a write
/// at an offset beyond the old length, the bytes from the old length up to
/// the offset are all zero.
pub proof fn write_zero_fills_gap(
    t: Seq<ItemView>,
    next_id: ItemId,
    id: ItemId,
    offset: u64,
    data: Seq<u8>,
)
    requires
        table_wf(t, next_id),
        is_file(t, id),
        offset > item(t, id).data.len(),
    ensures
        read_data(
            after_write(t, id, offset, data),
            id,
            item(t, id).data.len() as u64,
            (offset - item(t, id).data.len()) as u64,
        ) == Seq::new((offset - item(t, id).data.len()) as nat, |i: int| 0u8),
{
    let k = row_of(t, id);
    assert(0 <= k < t.len() && t[k].id == id);
    lemma_row(t, id, k);
    let u = after_write(t, id, offset, data);
    assert(u[k].id == id);
    assert forall|i: int, j: int| 0 <= i < j < u.len() implies #[trigger] u[i].id
        < #[trigger] u[j].id by {
        assert(t[i].id < t[j].id);
    }
    lemma_row(u, id, k);
    let old_len = t[k].data.len();
    let after = written(t[k].data, offset as nat, data);
    assert(read_bytes(after, old_len, (offset - old_len) as nat) =~= Seq::new(
        (offset - old_len) as nat,
        |i: int| 0u8,
    ));
}

/// The root is protected: in every table, `delete` and `rename` of the
/// root report `EACCES` and change nothing.
pub proof fn root_is_protected(t: Seq<ItemView>, new_parent_id: ItemId, new_name: Seq<char>)
    ensures
        delete_error(t, ROOT_ID) == errno::EACCES,
        after_delete(t, ROOT_ID) == t,
        rename_error(t, ROOT_ID, new_parent_id, new_name) == errno::EACCES,
        after_rename(t, ROOT_ID, new_parent_id, new_name) == t,
{
}

/// A directory other than the root is deleted exactly when it has no
/// children: `delete` reports `ENOTEMPTY` while it has one, and succeeds
/// once it has none.
pub proof fn directory_deletable_when_empty(t: Seq<ItemView>, next_id: ItemId, id: ItemId)
    requires
        table_wf(t, next_id),
        is_directory(t, id),
        id != ROOT_ID,
    ensures
        has_children(t, id) ==> delete_error(t, id) == errno::ENOTEMPTY && after_delete(t, id)
            == t,
        !has_children(t, id) ==> delete_error(t, id) == errno::OK && !contains(
            after_delete(t, id),
            id,
        ),
{
    if !has_children(t, id) {
        let k = row_of(t, id);
        assert(0 <= k < t.len() && t[k].id == id);
        lemma_row(t, id, k);
        let u = t.remove(k);
        assert forall|i: int| 0 <= i < u.len() implies (#[trigger] u[i]).id != id by {
            if i < k {
                assert(u[i] == t[i]);
                assert(t[i].id < t[k].id);
            } else {
                assert(u[i] == t[i + 1]);
                assert(t[k].id < t[i + 1].id);
            }
        }
    }
}

/// A successful `delete` takes one item away and leaves every other item
/// as it was. So a directory keeps the children that were not deleted, and
/// has none left once each of them has been deleted.
pub proof fn delete_takes_one_item(t: Seq<ItemView>, next_id: ItemId, id: ItemId, other: ItemId)
    requires
        table_wf(t, next_id),
        delete_error(t, id) == errno::OK,
        other != id,
    ensures
        !contains(after_delete(t, id), id),
        contains(after_delete(t, id), other) == contains(t, other),
        contains(t, other) ==> item(after_delete(t, id), other) == item(t, other),
        is_directory(after_delete(t, id), other) == is_directory(t, other),
        has_children(after_delete(t, id), other) <==> exists|i: int|
            0 <= i < t.len() && #[trigger] t[i].parent_id == other && t[i].id != id,
{
    let k = row_of(t, id);
    assert(0 <= k < t.len() && t[k].id == id);
    lemma_row(t, id, k);
    let u = t.remove(k);
    assert(u == after_delete(t, id));
    assert forall|i: int| 0 <= i < u.len() implies #[trigger] u[i] == t[if i < k {
        i
    } else {
        i + 1
    }] by {}
    assert forall|i: int, j: int| 0 <= i < j < u.len() implies #[trigger] u[i].id
        < #[trigger] u[j].id by {
        let si = if i < k { i } else { i + 1 };
        let sj = if j < k { j } else { j + 1 };
        assert(t[si].id < t[sj].id);
    }
    assert forall|i: int| 0 <= i < u.len() implies (#[trigger] u[i]).id != id by {
        let si = if i < k { i } else { i + 1 };
        if si < k {
            assert(t[si].id < t[k].id);
        } else {
            assert(t[k].id < t[si].id);
        }
    }
    if contains(t, other) {
        let w = row_of(t, other);
        assert(0 <= w < t.len() && t[w].id == other);
        lemma_row(t, other, w);
        let at = if w < k { w } else { w - 1 };
        assert(u[at] == t[w]);
        lemma_row(u, other, at);
    } else {
        assert forall|i: int| 0 <= i < u.len() implies (#[trigger] u[i]).id != other by {
            let si = if i < k { i } else { i + 1 };
            assert(u[i] == t[si]);
        }
        assert(!is_directory(u, other));
        assert(!is_directory(t, other));
    }
    if has_children(u, other) {
        let i = choose|i: int| 0 <= i < u.len() && #[trigger] u[i].parent_id == other;
        let si = if i < k { i } else { i + 1 };
        assert(u[i] == t[si]);
        assert(t[si].parent_id == other && t[si].id != id);
    }
    if exists|i: int| 0 <= i < t.len() && #[trigger] t[i].parent_id == other && t[i].id != id {
        let i = choose|i: int|
            0 <= i < t.len() && #[trigger] t[i].parent_id == other && t[i].id != id;
        assert(i != k);
        let at = if i < k { i } else { i - 1 };
        assert(u[at] == t[i]);
        assert(u[at].parent_id == other);
    }
}

/// `create` issues an identifier that no item has, and that lies above
/// every identifier in the table. The new item is then found under its
/// parent and name, and by its identifier, as an empty item with the default
/// mode of its kind.
pub proof fn create_issues_fresh_identifier(
    t: Seq<ItemView>,
    next_id: ItemId,
    parent_id: ItemId,
    name: Seq<char>,
    item_type: ItemType,
)
    requires
        table_wf(t, next_id),
        create_error(t, parent_id, name) == errno::OK,
    ensures
        create_result(t, next_id, parent_id, name).item_id == next_id,
        !contains(t, next_id),
        forall|i: int| 0 <= i < t.len() ==> (#[trigger] t[i]).id < next_id,
        contains(after_create(t, next_id, parent_id, name, item_type), next_id),
        item(after_create(t, next_id, parent_id, name, item_type), next_id) == new_item(
            next_id,
            parent_id,
            name,
            item_type,
        ),
        lookup_result(after_create(t, next_id, parent_id, name, item_type), parent_id, name) == (
        LookupResult { item_id: next_id, item_type, error: errno::OK }),
{
    let u = after_create(t, next_id, parent_id, name, item_type);
    let last = t.len() as int;
    assert(u == t.push(new_item(next_id, parent_id, name, item_type)));
    assert forall|i: int, j: int| 0 <= i < j < u.len() implies #[trigger] u[i].id
        < #[trigger] u[j].id by {
        if j < last {
            assert(t[i].id < t[j].id);
        } else {
            assert(t[i].id < next_id);
        }
    }
    lemma_row(u, next_id, last);
    assert forall|i: int, j: int| 0 <= i < j < u.len() implies !named(
        #[trigger] u[i],
        u[j].parent_id,
        #[trigger] u[j].name,
    ) by {
        if j < last {
            assert(!named(t[i], t[j].parent_id, t[j].name));
        } else {
            assert(!named(t[i], parent_id, name));
        }
    }
    lemma_child_row(u, parent_id, name, last);
}

/// After a successful `delete`, nothing is found under the parent and the
/// name that the deleted item had.
pub proof fn deleted_item_is_not_found(t: Seq<ItemView>, next_id: ItemId, id: ItemId)
    requires
        table_wf(t, next_id),
        delete_error(t, id) == errno::OK,
    ensures
        lookup_result(after_delete(t, id), item(t, id).parent_id, item(t, id).name).error
            == errno::ENOENT,
{
    let k = row_of(t, id);
    assert(0 <= k < t.len() && t[k].id == id);
    lemma_row(t, id, k);
    let u = t.remove(k);
    assert(u == after_delete(t, id));
    assert forall|i: int| 0 <= i < u.len() implies !named(
        #[trigger] u[i],
        t[k].parent_id,
        t[k].name,
    ) by {
        if i < k {
            assert(u[i] == t[i]);
            assert(!named(t[i], t[k].parent_id, t[k].name));
        } else {
            assert(u[i] == t[i + 1]);
            assert(!named(t[k], t[i + 1].parent_id, t[i + 1].name));
        }
    }
}

/// `create` under a name that a sibling has reports `EEXIST`, whatever
/// kind of item is asked for, and changes nothing.
pub proof fn create_refuses_taken_name(
    t: Seq<ItemView>,
    next_id: ItemId,
    parent_id: ItemId,
    name: Seq<char>,
    item_type: ItemType,
)
    requires
        table_wf(t, next_id),
        has_child(t, parent_id, name),
        parent_id != NO_PARENT,
    ensures
        create_error(t, parent_id, name) == errno::EEXIST,
        create_result(t, next_id, parent_id, name).item_id == 0,
        after_create(t, next_id, parent_id, name, item_type) == t,
{
    let k = child_row(t, parent_id, name);
    assert(0 <= k < t.len() && named(t[k], parent_id, name));
    assert(k != 0);
    assert(is_directory(t, t[k].parent_id));
}

/// The entries that successive pages hold, from the page at `cursor` to
/// the last: each page is followed by the page at the cursor it returned,
/// until a page returns the cursor 0.
pub open spec fn pages_from(all: Seq<DirEntryView>, cursor: nat) -> Seq<DirEntryView>
    decreases all.len() - cursor,
{
    let next = next_cursor_of(all, cursor);
    if next == 0 {
        page_of(all, cursor)
    } else {
        page_of(all, cursor) + pages_from(all, next)
    }
}

/// The pages from `cursor` on hold what the listing holds from `cursor`
/// on.
proof fn lemma_pages_from(all: Seq<DirEntryView>, cursor: nat)
    requires
        cursor <= all.len(),
    ensures
        pages_from(all, cursor) == all.subrange(cursor as int, all.len() as int),
    decreases all.len() - cursor,
{
    let next = next_cursor_of(all, cursor);
    if next == 0 {
        assert(page_of(all, cursor) =~= all.subrange(cursor as int, all.len() as int));
    } else {
        lemma_pages_from(all, next);
        assert(page_of(all, cursor) + all.subrange(next as int, all.len() as int)
            =~= all.subrange(cursor as int, all.len() as int));
    }
}

/// The children of a table whose identifiers ascend have ascending
/// identifiers, and each of them is an item of the table with that parent.
proof fn lemma_children_ascend(t: Seq<ItemView>, parent_id: ItemId)
    requires
        ascending(t),
    ensures
        ascending(children(t, parent_id)),
        forall|i: int|
            0 <= i < children(t, parent_id).len() ==> (#[trigger] children(
                t,
                parent_id,
            )[i]).parent_id == parent_id && t.contains(children(t, parent_id)[i]),
        forall|k: int|
            0 <= k < t.len() && (#[trigger] t[k]).parent_id == parent_id ==> children(
                t,
                parent_id,
            ).contains(t[k]),
        children(t, parent_id).len() > 0 ==> children(t, parent_id).last().id <= t.last().id,
    decreases t.len(),
{
    reveal(Seq::filter);
    let c = children(t, parent_id);
    if t.len() > 0 {
        let rest = t.drop_last();
        let cr = children(rest, parent_id);
        assert forall|i: int, j: int| 0 <= i < j < rest.len() implies #[trigger] rest[i].id
            < #[trigger] rest[j].id by {
            assert(t[i].id < t[j].id);
        }
        lemma_children_ascend(rest, parent_id);
        if cr.len() > 0 {
            assert(rest.len() > 0);
            assert(rest.last() == t[t.len() - 2]);
            assert(t[t.len() - 2].id < t[t.len() - 1].id);
        }
        assert forall|i: int| 0 <= i < c.len() implies (#[trigger] c[i]).parent_id == parent_id
            && t.contains(c[i]) by {
            if i < cr.len() {
                assert(c[i] == cr[i]);
                assert(rest.contains(cr[i]));
                let w = choose|w: int| 0 <= w < rest.len() && rest[w] == cr[i];
                assert(t[w] == cr[i]);
            } else {
                assert(c[i] == t.last());
                assert(t[t.len() - 1] == c[i]);
            }
        }
        assert forall|k: int| 0 <= k < t.len() && (#[trigger] t[k]).parent_id
            == parent_id implies c.contains(t[k]) by {
            if k < rest.len() {
                assert(rest[k] == t[k]);
                assert(cr.contains(rest[k]));
                let w = choose|w: int| 0 <= w < cr.len() && cr[w] == rest[k];
                assert(c[w] == t[k]);
            } else {
                assert(c[c.len() - 1] == t[k]);
            }
        }
        assert forall|i: int, j: int| 0 <= i < j < c.len() implies #[trigger] c[i].id
            < #[trigger] c[j].id by {
            if j < cr.len() {
                assert(cr[i].id < cr[j].id);
            } else {
                assert(c[j] == t.last());
                assert(cr[i].id <= cr.last().id);
            }
        }
    }
}

/// Whether `entry` lists an item of the table whose parent is `id`.
pub open spec fn lists_a_child(t: Seq<ItemView>, id: ItemId, entry: DirEntryView) -> bool {
    exists|k: int| 0 <= k < t.len() && (#[trigger] t[k]).parent_id == id && entry == entry_of(t[k])
}

/// Following the cursors from 0 until one is 0 lists every child of a
/// directory exactly once: the pages, one after the other, are the listing;
/// no two entries of the listing name the same item; and the listing holds
/// an entry for an item exactly when the item is a child.
pub proof fn paging_lists_every_child_once(t: Seq<ItemView>, next_id: ItemId, id: ItemId)
    requires
        table_wf(t, next_id),
    ensures
        pages_from(listing(t, id), 0) == listing(t, id),
        forall|i: int, j: int|
            0 <= i < j < listing(t, id).len() ==> (#[trigger] listing(t, id)[i]).item_id != (
            #[trigger] listing(t, id)[j]).item_id,
        forall|k: int|
            0 <= k < t.len() && (#[trigger] t[k]).parent_id == id ==> listing(t, id).contains(
                entry_of(t[k]),
            ),
        forall|i: int|
            0 <= i < listing(t, id).len() ==> lists_a_child(t, id, #[trigger] listing(t, id)[i]),
{
    let all = listing(t, id);
    let c = children(t, id);
    lemma_pages_from(all, 0);
    assert(all.subrange(0, all.len() as int) =~= all);
    lemma_children_ascend(t, id);
    assert forall|i: int, j: int| 0 <= i < j < all.len() implies (#[trigger] all[i]).item_id != (
    #[trigger] all[j]).item_id by {
        assert(c[i].id < c[j].id);
    }
    assert forall|k: int| 0 <= k < t.len() && (#[trigger] t[k]).parent_id
        == id implies all.contains(entry_of(t[k])) by {
        assert(c.contains(t[k]));
        let w = choose|w: int| 0 <= w < c.len() && c[w] == t[k];
        assert(all[w] == entry_of(t[k]));
    }
    assert forall|i: int| 0 <= i < all.len() implies lists_a_child(t, id, #[trigger] all[i]) by {
        assert(t.contains(c[i]));
        let k = choose|k: int| 0 <= k < t.len() && t[k] == c[i];
        assert(t[k].parent_id == id && all[i] == entry_of(t[k]));
    }
}

} // verus!
