//! Every operation leaves a filesystem a filesystem.
//!
//! The lemmas here are stated over the model alone: for each operation that
//! changes the table, the table after it is well-formed where the table
//! before it was.

use vstd::prelude::*;
use crate::errno;
use crate::proto::{
    ItemId, ItemType, SetAttributesParams,
};
use crate::table::{
    after_create, after_delete, after_rename, after_set_attributes, after_write, ascending,
    child_row, contains, content_error, create_error, delete_error, has_child, has_children,
    has_other_child, is_directory, is_file, item, named, new_item, rename_error, row_of,
    siblings_differ, table_wf, ItemView,
};

verus! {

/// In a table whose identifiers ascend, a position that holds an
/// identifier is the position of that identifier, and the kind of the item
/// there is the kind of the identifier.
pub proof fn lemma_row(t: Seq<ItemView>, id: ItemId, k: int)
    requires
        ascending(t),
        0 <= k < t.len(),
        t[k].id == id,
    ensures
        contains(t, id),
        row_of(t, id) == k,
        item(t, id) == t[k],
        is_directory(t, id) == (t[k].item_type == ItemType::Directory),
        is_file(t, id) == (t[k].item_type == ItemType::File),
{
    let r = row_of(t, id);
    assert(0 <= r < t.len() && t[r].id == id);
    if r < k {
        assert(t[r].id < t[k].id);
    } else if k < r {
        assert(t[k].id < t[r].id);
    }
    assert forall|i: int| 0 <= i < t.len() && #[trigger] t[i].id == id implies i == k by {
        if i < k {
            assert(t[i].id < t[k].id);
        } else if k < i {
            assert(t[k].id < t[i].id);
        }
    }
}

/// In a table whose siblings differ, a position that holds a parent and a
/// name is the position of that child.
pub proof fn lemma_child_row(t: Seq<ItemView>, parent_id: ItemId, name: Seq<char>, k: int)
    requires
        siblings_differ(t),
        0 <= k < t.len(),
        named(t[k], parent_id, name),
    ensures
        has_child(t, parent_id, name),
        child_row(t, parent_id, name) == k,
{
    let r = child_row(t, parent_id, name);
    assert(0 <= r < t.len() && named(t[r], parent_id, name));
    if r < k {
        assert(!named(t[r], t[k].parent_id, t[k].name));
    } else if k < r {
        assert(!named(t[k], t[r].parent_id, t[r].name));
    }
}

/// A table that holds a directory with this identifier at some position
/// has this identifier as a directory.
proof fn lemma_directory_at(u: Seq<ItemView>, id: ItemId, at: int)
    requires
        0 <= at < u.len(),
        u[at].id == id,
        u[at].item_type == ItemType::Directory,
    ensures
        is_directory(u, id),
{
}

/// `create` keeps the table a filesystem.
pub proof fn lemma_create_keeps_wf(
    t: Seq<ItemView>,
    next_id: ItemId,
    parent_id: ItemId,
    name: Seq<char>,
    item_type: ItemType,
)
    requires
        table_wf(t, next_id),
        next_id < u64::MAX,
    ensures
        table_wf(
            after_create(t, next_id, parent_id, name, item_type),
            if create_error(t, parent_id, name) == errno::OK {
                (next_id + 1) as u64
            } else {
                next_id
            },
        ),
{
    if create_error(t, parent_id, name) == errno::OK {
        let n = new_item(next_id, parent_id, name, item_type);
        let u = t.push(n);
        assert(u[0] == t[0]);
        assert forall|i: int, j: int| 0 <= i < j < u.len() implies #[trigger] u[i].id
            < #[trigger] u[j].id by {
            if j < t.len() {
                assert(t[i].id < t[j].id);
            } else {
                assert(t[i].id < next_id);
            }
        }
        assert forall|i: int| 0 < i < u.len() implies is_directory(
            u,
            #[trigger] u[i].parent_id,
        ) by {
            let p = u[i].parent_id;
            if i < t.len() {
                assert(u[i] == t[i]);
                assert(is_directory(t, t[i].parent_id));
            } else {
                assert(is_directory(t, parent_id));
            }
            let w = choose|w: int|
                0 <= w < t.len() && #[trigger] t[w].id == p && t[w].item_type
                    == ItemType::Directory;
            assert(u[w] == t[w]);
            lemma_directory_at(u, p, w);
        }
        assert forall|i: int, j: int| 0 <= i < j < u.len() implies !named(
            #[trigger] u[i],
            u[j].parent_id,
            #[trigger] u[j].name,
        ) by {
            if j < t.len() {
                assert(!named(t[i], t[j].parent_id, t[j].name));
            } else {
                assert(!named(t[i], parent_id, name));
            }
        }
        assert forall|i: int|
            0 <= i < u.len() && #[trigger] u[i].item_type != ItemType::File implies u[i].data.len()
            == 0 by {
            if i < t.len() {
                assert(u[i] == t[i]);
            }
        }
        assert forall|i: int| 0 <= i < u.len() implies #[trigger] u[i].id < (next_id + 1) as u64 by {
            if i < t.len() {
                assert(u[i] == t[i]);
            }
        }
    }
}

/// `delete` keeps the table a filesystem.
pub proof fn lemma_delete_keeps_wf(t: Seq<ItemView>, next_id: ItemId, id: ItemId)
    requires
        table_wf(t, next_id),
    ensures
        table_wf(after_delete(t, id), next_id),
{
    if delete_error(t, id) == errno::OK {
        let k = row_of(t, id);
        assert(0 <= k < t.len() && t[k].id == id);
        lemma_row(t, id, k);
        assert(k != 0);
        let u = t.remove(k);
        assert(u[0] == t[0]);
        assert forall|i: int| 0 <= i < u.len() implies #[trigger] u[i] == t[if i < k {
            i
        } else {
            i + 1
        }] by {}
        assert forall|i: int, j: int| 0 <= i < j < u.len() implies #[trigger] u[i].id
            < #[trigger] u[j].id by {
            let si = if i < k { i } else { i + 1 };
            let sj = if j < k { j } else { j + 1 };
            assert(t[si].id < t[sj].id);
        }
        assert forall|i: int| 0 < i < u.len() implies is_directory(
            u,
            #[trigger] u[i].parent_id,
        ) by {
            let si = if i < k { i } else { i + 1 };
            let p = t[si].parent_id;
            assert(is_directory(t, t[si].parent_id));
            let w = choose|w: int|
                0 <= w < t.len() && #[trigger] t[w].id == p && t[w].item_type
                    == ItemType::Directory;
            if w == k {
                assert(is_directory(t, id));
                assert(t[si].parent_id == id);
                assert(has_children(t, id));
                assert(false);
            }
            let at = if w < k { w } else { w - 1 };
            assert(u[at] == t[w]);
            lemma_directory_at(u, p, at);
        }
        assert forall|i: int, j: int| 0 <= i < j < u.len() implies !named(
            #[trigger] u[i],
            u[j].parent_id,
            #[trigger] u[j].name,
        ) by {
            let si = if i < k { i } else { i + 1 };
            let sj = if j < k { j } else { j + 1 };
            assert(!named(t[si], t[sj].parent_id, t[sj].name));
        }
        assert forall|i: int|
            0 <= i < u.len() && #[trigger] u[i].item_type != ItemType::File implies u[i].data.len()
            == 0 by {
            let si = if i < k { i } else { i + 1 };
            assert(u[i] == t[si]);
        }
        assert forall|i: int| 0 <= i < u.len() implies #[trigger] u[i].id < next_id by {
            let si = if i < k { i } else { i + 1 };
            assert(u[i] == t[si]);
        }
    }
}

/// `rename` keeps the table a filesystem.
pub proof fn lemma_rename_keeps_wf(
    t: Seq<ItemView>,
    next_id: ItemId,
    id: ItemId,
    new_parent_id: ItemId,
    new_name: Seq<char>,
)
    requires
        table_wf(t, next_id),
    ensures
        table_wf(after_rename(t, id, new_parent_id, new_name), next_id),
{
    if rename_error(t, id, new_parent_id, new_name) == errno::OK {
        let k = row_of(t, id);
        assert(0 <= k < t.len() && t[k].id == id);
        lemma_row(t, id, k);
        assert(k != 0);
        let u = after_rename(t, id, new_parent_id, new_name);
        assert(u == t.update(k, ItemView { parent_id: new_parent_id, name: new_name, ..t[k] }));
        assert(u[0] == t[0]);
        assert forall|i: int| 0 <= i < u.len() implies (#[trigger] u[i]).id == t[i].id
            && u[i].item_type == t[i].item_type && u[i].data == t[i].data by {}
        assert forall|i: int, j: int| 0 <= i < j < u.len() implies #[trigger] u[i].id
            < #[trigger] u[j].id by {
            assert(t[i].id < t[j].id);
        }
        assert forall|i: int| 0 < i < u.len() implies is_directory(
            u,
            #[trigger] u[i].parent_id,
        ) by {
            let p = u[i].parent_id;
            if i == k {
                assert(is_directory(t, new_parent_id));
            } else {
                assert(u[i] == t[i]);
                assert(is_directory(t, t[i].parent_id));
            }
            let w = choose|w: int|
                0 <= w < t.len() && #[trigger] t[w].id == p && t[w].item_type
                    == ItemType::Directory;
            assert(u[w].id == t[w].id);
            lemma_directory_at(u, p, w);
        }
        assert forall|i: int, j: int| 0 <= i < j < u.len() implies !named(
            #[trigger] u[i],
            u[j].parent_id,
            #[trigger] u[j].name,
        ) by {
            assert(!named(t[i], t[j].parent_id, t[j].name));
            assert(t[i].id < t[j].id);
            if i == k {
                if named(t[j], new_parent_id, new_name) {
                    assert(has_other_child(t, id, new_parent_id, new_name));
                }
            } else if j == k {
                if named(t[i], new_parent_id, new_name) {
                    assert(has_other_child(t, id, new_parent_id, new_name));
                }
            }
        }
        assert forall|i: int|
            0 <= i < u.len() && #[trigger] u[i].item_type != ItemType::File implies u[i].data.len()
            == 0 by {
            assert(t[i].item_type != ItemType::File);
        }
        assert forall|i: int| 0 <= i < u.len() implies #[trigger] u[i].id < next_id by {
            assert(t[i].id < next_id);
        }
    }
}

/// A table in which one item has new content, mode or time, and a file
/// stays the only kind with content, is a filesystem where the table before
/// was one.
proof fn lemma_same_shape(t: Seq<ItemView>, u: Seq<ItemView>, next_id: ItemId)
    requires
        table_wf(t, next_id),
        u.len() == t.len(),
        forall|i: int|
            0 <= i < t.len() ==> (#[trigger] u[i]).id == t[i].id && u[i].parent_id
                == t[i].parent_id && u[i].name == t[i].name && u[i].item_type == t[i].item_type,
        forall|i: int|
            0 <= i < u.len() && #[trigger] u[i].item_type != ItemType::File ==> u[i].data.len()
                == 0,
    ensures
        table_wf(u, next_id),
{
    assert forall|i: int, j: int| 0 <= i < j < u.len() implies #[trigger] u[i].id
        < #[trigger] u[j].id by {
        assert(t[i].id < t[j].id);
    }
    assert forall|i: int| 0 < i < u.len() implies is_directory(u, #[trigger] u[i].parent_id) by {
        let p = u[i].parent_id;
        assert(is_directory(t, t[i].parent_id));
        let w = choose|w: int|
            0 <= w < t.len() && #[trigger] t[w].id == p && t[w].item_type == ItemType::Directory;
        assert(u[w].id == t[w].id);
        lemma_directory_at(u, p, w);
    }
    assert forall|i: int, j: int| 0 <= i < j < u.len() implies !named(
        #[trigger] u[i],
        u[j].parent_id,
        #[trigger] u[j].name,
    ) by {
        assert(!named(t[i], t[j].parent_id, t[j].name));
    }
    assert forall|i: int| 0 <= i < u.len() implies #[trigger] u[i].id < next_id by {
        assert(t[i].id < next_id);
    }
}

/// `write` keeps the table a filesystem.
pub proof fn lemma_write_keeps_wf(
    t: Seq<ItemView>,
    next_id: ItemId,
    id: ItemId,
    offset: u64,
    data: Seq<u8>,
)
    requires
        table_wf(t, next_id),
    ensures
        table_wf(after_write(t, id, offset, data), next_id),
{
    if content_error(t, id) == errno::OK {
        let k = row_of(t, id);
        assert(0 <= k < t.len() && t[k].id == id);
        lemma_row(t, id, k);
        let u = after_write(t, id, offset, data);
        assert forall|i: int|
            0 <= i < u.len() && #[trigger] u[i].item_type != ItemType::File implies u[i].data.len()
            == 0 by {
            assert(i != k);
            assert(u[i] == t[i]);
        }
        lemma_same_shape(t, u, next_id);
    }
}

/// `set_attributes` keeps the table a filesystem.
pub proof fn lemma_set_attributes_keeps_wf(
    t: Seq<ItemView>,
    next_id: ItemId,
    id: ItemId,
    params: SetAttributesParams,
)
    requires
        table_wf(t, next_id),
    ensures
        table_wf(after_set_attributes(t, id, params), next_id),
{
    if contains(t, id) {
        let k = row_of(t, id);
        assert(0 <= k < t.len() && t[k].id == id);
        lemma_row(t, id, k);
        let u = after_set_attributes(t, id, params);
        assert forall|i: int|
            0 <= i < u.len() && #[trigger] u[i].item_type != ItemType::File implies u[i].data.len()
            == 0 by {
            assert(u[i].data == t[i].data);
            assert(t[i].item_type != ItemType::File);
        }
        lemma_same_shape(t, u, next_id);
    }
}

} // verus!
