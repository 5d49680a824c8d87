use fs_kitty::bridge::{
    add, item_type_to_u8, u8_to_item_type, vfs_connect, vfs_create, vfs_delete, vfs_disconnect,
    vfs_get_attributes, vfs_lookup, vfs_ping, vfs_read, vfs_read_dir, vfs_rename, vfs_write,
    VfsHandle,
};
use fs_kitty::proto::{
    CreateResult, DirEntry, GetAttributesResult, ItemAttributes, ItemType, LookupResult,
    ReadDirResult, ReadResult, Vfs, VfsResult, WriteResult,
};
use fs_kitty::store::MemoryVfs;

fn undelivered<T>() -> Option<Result<T, String>> {
    Some(Err("connection closed".to_string()))
}

#[test]
fn add_sums() {
    assert_eq!(add(2, 3), 5);
    assert_eq!(add(-7, 7), 0);
    assert_eq!(add(i32::MAX, 0), i32::MAX);
    assert_eq!(add(i32::MIN, 1), i32::MIN + 1);
}

#[test]
fn item_kinds_as_bytes() {
    assert_eq!(item_type_to_u8(ItemType::File), 0);
    assert_eq!(item_type_to_u8(ItemType::Directory), 1);
    assert_eq!(item_type_to_u8(ItemType::Symlink), 2);
    assert_eq!(u8_to_item_type(0), ItemType::File);
    assert_eq!(u8_to_item_type(1), ItemType::Directory);
    assert_eq!(u8_to_item_type(2), ItemType::Symlink);
    assert_eq!(u8_to_item_type(3), ItemType::File);
    assert_eq!(u8_to_item_type(255), ItemType::File);
}

#[test]
fn calls_without_a_connection() {
    assert_eq!(vfs_ping(None).unwrap_err(), "Not connected");
    assert_eq!(vfs_lookup(None).unwrap_err(), "Not connected");
    assert_eq!(vfs_get_attributes(None).unwrap_err(), "Not connected");
    assert_eq!(vfs_read_dir(None).unwrap_err(), "Not connected");
    assert_eq!(vfs_read(None).unwrap_err(), "Not connected");
    assert_eq!(vfs_write(None).unwrap_err(), "Not connected");
    assert_eq!(vfs_create(None).unwrap_err(), "Not connected");
    assert_eq!(vfs_delete(None).unwrap_err(), "Not connected");
    assert_eq!(vfs_rename(None).unwrap_err(), "Not connected");
}

#[test]
fn calls_that_were_not_delivered() {
    assert_eq!(vfs_ping(undelivered()).unwrap_err(), "connection closed");
    assert_eq!(vfs_lookup(undelivered()).unwrap_err(), "connection closed");
    assert_eq!(vfs_get_attributes(undelivered()).unwrap_err(), "connection closed");
    assert_eq!(vfs_read_dir(undelivered()).unwrap_err(), "connection closed");
    assert_eq!(vfs_read(undelivered()).unwrap_err(), "connection closed");
    assert_eq!(vfs_write(undelivered()).unwrap_err(), "connection closed");
    assert_eq!(vfs_create(undelivered()).unwrap_err(), "connection closed");
    assert_eq!(vfs_delete(undelivered()).unwrap_err(), "connection closed");
    assert_eq!(vfs_rename(undelivered()).unwrap_err(), "connection closed");
}

#[test]
fn ping_answer_passes_through() {
    assert_eq!(vfs_ping(Some(Ok("pong".to_string()))).unwrap(), "pong");
}

#[test]
fn lookup_is_flattened() {
    let r = vfs_lookup(Some(Ok(LookupResult {
        item_id: 9,
        item_type: ItemType::Directory,
        error: 0,
    })))
    .unwrap();
    assert_eq!(r.item_id, 9);
    assert_eq!(r.item_type, 1);
    assert_eq!(r.error, 0);
    // A domain error is a delivered result.
    let r = vfs_lookup(Some(Ok(LookupResult { item_id: 0, item_type: ItemType::File, error: 2 })))
        .unwrap();
    assert_eq!(r.item_id, 0);
    assert_eq!(r.item_type, 0);
    assert_eq!(r.error, 2);
}

#[test]
fn attributes_are_flattened() {
    let r = vfs_get_attributes(Some(Ok(GetAttributesResult {
        attrs: ItemAttributes {
            item_id: 5,
            item_type: ItemType::Symlink,
            size: 11,
            modified_time: 22,
            created_time: 33,
            mode: 0o777,
        },
        error: 0,
    })))
    .unwrap();
    assert_eq!(r.item_id, 5);
    assert_eq!(r.item_type, 2);
    assert_eq!(r.size, 11);
    assert_eq!(r.modified_time, 22);
    assert_eq!(r.created_time, 33);
    assert_eq!(r.mode, 0o777);
    assert_eq!(r.error, 0);
}

#[test]
fn listing_becomes_parallel_arrays() {
    let page = ReadDirResult {
        entries: vec![
            DirEntry { name: "a".to_string(), item_id: 2, item_type: ItemType::File },
            DirEntry { name: "b".to_string(), item_id: 3, item_type: ItemType::Directory },
            DirEntry { name: "c".to_string(), item_id: 7, item_type: ItemType::Symlink },
        ],
        next_cursor: 100,
        error: 0,
    };
    let r = vfs_read_dir(Some(Ok(page))).unwrap();
    assert_eq!(r.names, vec!["a".to_string(), "b".to_string(), "c".to_string()]);
    assert_eq!(r.item_ids, vec![2, 3, 7]);
    assert_eq!(r.item_types, vec![0, 1, 2]);
    assert_eq!(r.next_cursor, 100);
    assert_eq!(r.error, 0);

    let empty = ReadDirResult { entries: Vec::new(), next_cursor: 0, error: 20 };
    let r = vfs_read_dir(Some(Ok(empty))).unwrap();
    assert!(r.names.is_empty());
    assert!(r.item_ids.is_empty());
    assert!(r.item_types.is_empty());
    assert_eq!(r.error, 20);
}

#[test]
fn plain_results_are_flattened() {
    let r = vfs_read(Some(Ok(ReadResult { data: vec![1, 2, 3], error: 0 }))).unwrap();
    assert_eq!(r.data, vec![1, 2, 3]);
    assert_eq!(r.error, 0);
    let r = vfs_write(Some(Ok(WriteResult { bytes_written: 3, error: 0 }))).unwrap();
    assert_eq!(r.bytes_written, 3);
    assert_eq!(r.error, 0);
    let r = vfs_create(Some(Ok(CreateResult { item_id: 6, error: 0 }))).unwrap();
    assert_eq!(r.item_id, 6);
    assert_eq!(r.error, 0);
    let r = vfs_delete(Some(Ok(VfsResult { error: 66 }))).unwrap();
    assert_eq!(r.error, 66);
    let r = vfs_rename(Some(Ok(VfsResult { error: 17 }))).unwrap();
    assert_eq!(r.error, 17);
}

#[test]
fn handle_connects_once_and_tears_down() {
    let mut handle: VfsHandle<MemoryVfs> = VfsHandle::new();
    assert!(!handle.is_connected());
    assert!(handle.client().is_none());

    assert_eq!(
        vfs_connect(&mut handle, Err("connection refused".to_string())).unwrap_err(),
        "connection refused"
    );
    assert!(!handle.is_connected());

    assert!(vfs_connect(&mut handle, Ok(MemoryVfs::new())).is_ok());
    assert!(handle.is_connected());
    assert_eq!(
        vfs_connect(&mut handle, Ok(MemoryVfs::empty())).unwrap_err(),
        "Already connected"
    );
    assert_eq!(
        vfs_connect(&mut handle, Err("refused".to_string())).unwrap_err(),
        "Already connected"
    );
    // The first connection is still the one that is held.
    assert_eq!(handle.client().unwrap().len(), 5);

    let closed = vfs_disconnect(&mut handle);
    assert_eq!(closed.unwrap().len(), 5);
    assert!(!handle.is_connected());
    assert!(vfs_disconnect(&mut handle).is_none());
    assert!(vfs_connect(&mut handle, Ok(MemoryVfs::empty())).is_ok());
}

#[test]
fn a_call_through_the_handle() {
    let mut handle: VfsHandle<MemoryVfs> = VfsHandle::new();
    let reply = handle.client().map(|c| Ok(c.lookup(1, "hello.txt".to_string())));
    assert_eq!(vfs_lookup(reply).unwrap_err(), "Not connected");
    vfs_connect(&mut handle, Ok(MemoryVfs::new())).unwrap();
    let reply = handle.client().map(|c| Ok(c.lookup(1, "documents".to_string())));
    let r = vfs_lookup(reply).unwrap();
    assert_eq!(r.item_id, 3);
    assert_eq!(r.item_type, 1);
    assert_eq!(r.error, 0);
}
