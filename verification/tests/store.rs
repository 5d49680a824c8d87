use fs_kitty::errno;
use fs_kitty::mode;
use fs_kitty::proto::{ItemType, SetAttributesParams, Vfs};
use fs_kitty::store::MemoryVfs;

fn name(s: &str) -> String {
    s.to_string()
}

#[test]
fn scenario_create_write_read_delete_lookup() {
    let mut vfs = MemoryVfs::empty();

    let created = vfs.create(1, name("a.txt"), ItemType::File);
    assert_eq!(created.item_id, 2);
    assert_eq!(created.error, errno::OK);

    let written = vfs.write(2, 0, b"hi".to_vec());
    assert_eq!(written.bytes_written, 2);
    assert_eq!(written.error, errno::OK);

    let read = vfs.read(2, 0, 10);
    assert_eq!(read.data, b"hi".to_vec());
    assert_eq!(read.error, errno::OK);

    let deleted = vfs.delete(2);
    assert_eq!(deleted.error, errno::OK);

    let looked = vfs.lookup(1, name("a.txt"));
    assert_eq!(looked.error, errno::ENOENT);
    assert_eq!(looked.item_id, 0);
}

#[test]
fn errno_values() {
    assert_eq!(errno::OK, 0);
    assert_eq!(errno::ENOENT, 2);
    assert_eq!(errno::EIO, 5);
    assert_eq!(errno::EACCES, 13);
    assert_eq!(errno::EEXIST, 17);
    assert_eq!(errno::ENOTDIR, 20);
    assert_eq!(errno::EISDIR, 21);
    assert_eq!(errno::EINVAL, 22);
    assert_eq!(errno::ENOSPC, 28);
    assert_eq!(errno::ENOTEMPTY, 66);
}

#[test]
fn mode_values() {
    assert_eq!(mode::FILE_REGULAR, 0o644);
    assert_eq!(mode::FILE_EXECUTABLE, 0o755);
    assert_eq!(mode::DIRECTORY, 0o755);
    assert_eq!(mode::SYMLINK, 0o777);
}

#[test]
fn empty_store_holds_only_the_root() {
    let vfs = MemoryVfs::empty();
    assert_eq!(vfs.len(), 1);
    let root = vfs.get_attributes(1);
    assert_eq!(root.error, errno::OK);
    assert_eq!(root.attrs.item_id, 1);
    assert_eq!(root.attrs.item_type, ItemType::Directory);
    assert_eq!(root.attrs.size, 0);
    assert_eq!(root.attrs.mode, 0o755);
    let listing = vfs.read_dir(1, 0);
    assert_eq!(listing.error, errno::OK);
    assert!(listing.entries.is_empty());
    assert_eq!(listing.next_cursor, 0);
}

#[test]
fn starter_tree_contents() {
    let vfs = MemoryVfs::new();
    assert_eq!(vfs.len(), 5);

    let hello = vfs.lookup(1, name("hello.txt"));
    assert_eq!(hello.error, errno::OK);
    assert_eq!(hello.item_id, 2);
    assert_eq!(hello.item_type, ItemType::File);
    assert_eq!(vfs.read(2, 0, 1024).data, b"Hello, World!\n".to_vec());
    assert_eq!(vfs.get_attributes(2).attrs.mode, 0o644);
    assert_eq!(vfs.get_attributes(2).attrs.size, 14);

    let docs = vfs.lookup(1, name("documents"));
    assert_eq!(docs.error, errno::OK);
    assert_eq!(docs.item_id, 3);
    assert_eq!(docs.item_type, ItemType::Directory);

    let readme = vfs.lookup(3, name("readme.md"));
    assert_eq!(readme.error, errno::OK);
    assert_eq!(readme.item_id, 4);
    assert_eq!(
        vfs.read(4, 0, 1024).data,
        b"# README\n\nThis is a test file.\n".to_vec()
    );

    let script = vfs.lookup(1, name("test.sh"));
    assert_eq!(script.item_id, 5);
    assert_eq!(vfs.get_attributes(5).attrs.mode, 0o755);
    assert_eq!(
        vfs.read(5, 0, 1024).data,
        b"#!/bin/bash\necho \"Hello from executable!\"\n".to_vec()
    );
}

#[test]
fn starter_tree_issues_six_next() {
    let mut vfs = MemoryVfs::new();
    let created = vfs.create(1, name("newfile.txt"), ItemType::File);
    assert_eq!(created.error, errno::OK);
    assert_eq!(created.item_id, 6);
    let written = vfs.write(6, 0, b"Test content from client!".to_vec());
    assert_eq!(written.error, errno::OK);
    assert_eq!(written.bytes_written, 25);
    assert_eq!(vfs.read(6, 0, 1024).data, b"Test content from client!".to_vec());
    assert_eq!(vfs.lookup(1, name("nonexistent")).error, errno::ENOENT);
    assert_eq!(vfs.delete(6).error, errno::OK);
    let names: Vec<String> = vfs.read_dir(1, 0).entries.iter().map(|e| e.name.clone()).collect();
    assert_eq!(names, vec![name("hello.txt"), name("documents"), name("test.sh")]);
}

#[test]
fn lookup_succeeds_exactly_for_existing_pairs() {
    let mut vfs = MemoryVfs::empty();
    let dir = vfs.create(1, name("d"), ItemType::Directory).item_id;
    let file = vfs.create(dir, name("x"), ItemType::File).item_id;

    let found = vfs.lookup(dir, name("x"));
    assert_eq!(found.error, errno::OK);
    assert_eq!(found.item_id, file);
    assert_eq!(found.item_type, ItemType::File);

    // The same name under another parent is another pair.
    let other = vfs.lookup(1, name("x"));
    assert_eq!(other.error, errno::ENOENT);
    assert_eq!(other.item_id, 0);
    assert_eq!(other.item_type, ItemType::File);

    // Names are compared exactly.
    assert_eq!(vfs.lookup(dir, name("X")).error, errno::ENOENT);
    assert_eq!(vfs.lookup(dir, name("x ")).error, errno::ENOENT);
}

#[test]
fn lookup_does_not_ask_whether_the_parent_is_a_directory() {
    let mut vfs = MemoryVfs::empty();
    let file = vfs.create(1, name("f"), ItemType::File).item_id;
    // A parent that is a file, and one that does not exist: both plain misses.
    assert_eq!(vfs.lookup(file, name("anything")).error, errno::ENOENT);
    assert_eq!(vfs.lookup(999, name("anything")).error, errno::ENOENT);
    // The root itself stands under the parent 0 with the empty name.
    let root = vfs.lookup(0, String::new());
    assert_eq!(root.error, errno::OK);
    assert_eq!(root.item_id, 1);
    assert_eq!(root.item_type, ItemType::Directory);
}

#[test]
fn get_attributes_reports_size_and_defaults() {
    let mut vfs = MemoryVfs::empty();
    let f = vfs.create(1, name("f"), ItemType::File).item_id;
    let d = vfs.create(1, name("d"), ItemType::Directory).item_id;
    let l = vfs.create(1, name("l"), ItemType::Symlink).item_id;
    vfs.write(f, 0, vec![1, 2, 3, 4, 5]);

    let fa = vfs.get_attributes(f);
    assert_eq!(fa.error, errno::OK);
    assert_eq!(fa.attrs.item_id, f);
    assert_eq!(fa.attrs.item_type, ItemType::File);
    assert_eq!(fa.attrs.size, 5);
    assert_eq!(fa.attrs.mode, 0o644);
    assert_eq!(fa.attrs.modified_time, 0);
    assert_eq!(fa.attrs.created_time, 0);

    let da = vfs.get_attributes(d);
    assert_eq!(da.attrs.item_type, ItemType::Directory);
    assert_eq!(da.attrs.mode, 0o755);
    assert_eq!(da.attrs.size, 0);

    let la = vfs.get_attributes(l);
    assert_eq!(la.attrs.item_type, ItemType::Symlink);
    assert_eq!(la.attrs.mode, 0o777);
}

#[test]
fn get_attributes_of_unknown_item() {
    let vfs = MemoryVfs::empty();
    let r = vfs.get_attributes(42);
    assert_eq!(r.error, errno::ENOENT);
    assert_eq!(r.attrs.item_id, 0);
    assert_eq!(r.attrs.item_type, ItemType::File);
    assert_eq!(r.attrs.size, 0);
    assert_eq!(r.attrs.modified_time, 0);
    assert_eq!(r.attrs.created_time, 0);
    assert_eq!(r.attrs.mode, 0);
}

#[test]
fn read_after_write_returns_the_data() {
    let mut vfs = MemoryVfs::empty();
    let f = vfs.create(1, name("f"), ItemType::File).item_id;
    vfs.write(f, 0, b"0123456789".to_vec());
    let w = vfs.write(f, 3, b"abc".to_vec());
    assert_eq!(w.error, errno::OK);
    assert_eq!(w.bytes_written, 3);
    assert_eq!(vfs.read(f, 3, 3).data, b"abc".to_vec());
    assert_eq!(vfs.read(f, 0, 100).data, b"012abc6789".to_vec());
    assert_eq!(vfs.get_attributes(f).attrs.size, 10);
}

#[test]
fn write_extends_the_file() {
    let mut vfs = MemoryVfs::empty();
    let f = vfs.create(1, name("f"), ItemType::File).item_id;
    vfs.write(f, 0, b"abcd".to_vec());
    vfs.write(f, 2, b"WXYZ".to_vec());
    assert_eq!(vfs.read(f, 0, 100).data, b"abWXYZ".to_vec());
    assert_eq!(vfs.read(f, 2, 4).data, b"WXYZ".to_vec());
}

#[test]
fn write_past_the_end_zero_fills_the_gap() {
    let mut vfs = MemoryVfs::empty();
    let f = vfs.create(1, name("f"), ItemType::File).item_id;
    vfs.write(f, 0, b"ab".to_vec());
    let w = vfs.write(f, 5, b"xy".to_vec());
    assert_eq!(w.error, errno::OK);
    assert_eq!(w.bytes_written, 2);
    // old length 2, offset 5: the gap is bytes 2, 3 and 4
    assert_eq!(vfs.read(f, 2, 3).data, vec![0u8, 0, 0]);
    assert_eq!(vfs.read(f, 0, 100).data, vec![b'a', b'b', 0, 0, 0, b'x', b'y']);
    assert_eq!(vfs.get_attributes(f).attrs.size, 7);
}

#[test]
fn empty_write_past_the_end_still_grows_the_file() {
    let mut vfs = MemoryVfs::empty();
    let f = vfs.create(1, name("f"), ItemType::File).item_id;
    let w = vfs.write(f, 4, Vec::new());
    assert_eq!(w.error, errno::OK);
    assert_eq!(w.bytes_written, 0);
    assert_eq!(vfs.read(f, 0, 100).data, vec![0u8; 4]);
}

#[test]
fn empty_write_inside_the_file_changes_nothing() {
    let mut vfs = MemoryVfs::empty();
    let f = vfs.create(1, name("f"), ItemType::File).item_id;
    vfs.write(f, 0, b"abc".to_vec());
    vfs.write(f, 1, Vec::new());
    assert_eq!(vfs.read(f, 0, 100).data, b"abc".to_vec());
}

#[test]
fn read_past_the_end_is_short_not_an_error() {
    let mut vfs = MemoryVfs::empty();
    let f = vfs.create(1, name("f"), ItemType::File).item_id;
    vfs.write(f, 0, b"hello".to_vec());

    let tail = vfs.read(f, 3, 10);
    assert_eq!(tail.error, errno::OK);
    assert_eq!(tail.data, b"lo".to_vec());

    let at_end = vfs.read(f, 5, 10);
    assert_eq!(at_end.error, errno::OK);
    assert!(at_end.data.is_empty());

    let beyond = vfs.read(f, 6, 10);
    assert_eq!(beyond.error, errno::OK);
    assert!(beyond.data.is_empty());

    let nothing = vfs.read(f, 1, 0);
    assert_eq!(nothing.error, errno::OK);
    assert!(nothing.data.is_empty());
}

#[test]
fn read_with_huge_offset_and_length() {
    let mut vfs = MemoryVfs::empty();
    let f = vfs.create(1, name("f"), ItemType::File).item_id;
    vfs.write(f, 0, b"hello".to_vec());
    assert_eq!(vfs.read(f, 1, u64::MAX).data, b"ello".to_vec());
    assert!(vfs.read(f, u64::MAX, u64::MAX).data.is_empty());
    assert_eq!(vfs.read(f, u64::MAX, 1).error, errno::OK);
}

#[test]
fn read_and_write_errors() {
    let mut vfs = MemoryVfs::empty();
    let d = vfs.create(1, name("d"), ItemType::Directory).item_id;
    let l = vfs.create(1, name("l"), ItemType::Symlink).item_id;

    let r = vfs.read(77, 0, 1);
    assert_eq!(r.error, errno::ENOENT);
    assert!(r.data.is_empty());
    let r = vfs.read(d, 0, 1);
    assert_eq!(r.error, errno::EISDIR);
    assert!(r.data.is_empty());
    assert_eq!(vfs.read(1, 0, 1).error, errno::EISDIR);
    assert_eq!(vfs.read(l, 0, 1).error, errno::EISDIR);

    let w = vfs.write(77, 0, vec![1]);
    assert_eq!(w.error, errno::ENOENT);
    assert_eq!(w.bytes_written, 0);
    let w = vfs.write(d, 0, vec![1]);
    assert_eq!(w.error, errno::EISDIR);
    assert_eq!(w.bytes_written, 0);
    assert_eq!(vfs.write(l, 0, vec![1]).error, errno::EISDIR);
    assert_eq!(vfs.get_attributes(d).attrs.size, 0);
}

#[test]
fn create_errors() {
    let mut vfs = MemoryVfs::empty();
    let f = vfs.create(1, name("f"), ItemType::File).item_id;

    let missing = vfs.create(99, name("x"), ItemType::File);
    assert_eq!(missing.error, errno::ENOENT);
    assert_eq!(missing.item_id, 0);

    let not_dir = vfs.create(f, name("x"), ItemType::File);
    assert_eq!(not_dir.error, errno::ENOTDIR);
    assert_eq!(not_dir.item_id, 0);

    let exists = vfs.create(1, name("f"), ItemType::File);
    assert_eq!(exists.error, errno::EEXIST);
    assert_eq!(exists.item_id, 0);
    assert_eq!(vfs.len(), 2);
}

#[test]
fn create_with_taken_name_fails_for_every_kind() {
    let mut vfs = MemoryVfs::empty();
    vfs.create(1, name("taken"), ItemType::Directory);
    for kind in [ItemType::File, ItemType::Directory, ItemType::Symlink] {
        let r = vfs.create(1, name("taken"), kind);
        assert_eq!(r.error, errno::EEXIST);
        assert_eq!(r.item_id, 0);
    }
    assert_eq!(vfs.len(), 2);
    // A failed create uses up no identifier.
    assert_eq!(vfs.create(1, name("free"), ItemType::File).item_id, 3);
}

#[test]
fn create_under_no_parent_reports_missing_parent() {
    let mut vfs = MemoryVfs::empty();
    let r = vfs.create(0, String::new(), ItemType::File);
    assert_eq!(r.error, errno::ENOENT);
}

#[test]
fn identifiers_are_never_reused() {
    let mut vfs = MemoryVfs::empty();
    let a = vfs.create(1, name("a"), ItemType::File).item_id;
    assert_eq!(a, 2);
    assert_eq!(vfs.delete(a).error, errno::OK);
    let b = vfs.create(1, name("a"), ItemType::File).item_id;
    assert_eq!(b, 3);
    assert_eq!(vfs.get_attributes(a).error, errno::ENOENT);
    assert!(vfs.can_create());
}

#[test]
fn root_is_protected() {
    let mut vfs = MemoryVfs::new();
    assert_eq!(vfs.delete(1).error, errno::EACCES);
    assert_eq!(vfs.rename(1, 3, name("moved")).error, errno::EACCES);
    assert_eq!(vfs.rename(1, 99, name("moved")).error, errno::EACCES);
    assert_eq!(vfs.rename(1, 1, String::new()).error, errno::EACCES);
    let mut empty = MemoryVfs::empty();
    assert_eq!(empty.delete(1).error, errno::EACCES);
    assert_eq!(empty.rename(1, 1, name("x")).error, errno::EACCES);
    assert_eq!(empty.get_attributes(1).error, errno::OK);
}

#[test]
fn directory_is_deletable_once_empty() {
    let mut vfs = MemoryVfs::empty();
    let d = vfs.create(1, name("d"), ItemType::Directory).item_id;
    let a = vfs.create(d, name("a"), ItemType::File).item_id;
    let b = vfs.create(d, name("b"), ItemType::Directory).item_id;

    assert_eq!(vfs.delete(d).error, errno::ENOTEMPTY);
    assert_eq!(vfs.delete(a).error, errno::OK);
    assert_eq!(vfs.delete(d).error, errno::ENOTEMPTY);
    assert_eq!(vfs.delete(b).error, errno::OK);
    assert_eq!(vfs.delete(d).error, errno::OK);
    assert_eq!(vfs.get_attributes(d).error, errno::ENOENT);
    assert_eq!(vfs.len(), 1);
}

#[test]
fn delete_errors() {
    let mut vfs = MemoryVfs::empty();
    assert_eq!(vfs.delete(2).error, errno::ENOENT);
    assert_eq!(vfs.delete(0).error, errno::ENOENT);
    let f = vfs.create(1, name("f"), ItemType::File).item_id;
    assert_eq!(vfs.delete(f).error, errno::OK);
    assert_eq!(vfs.delete(f).error, errno::ENOENT);
}

#[test]
fn rename_moves_and_renames() {
    let mut vfs = MemoryVfs::empty();
    let d = vfs.create(1, name("d"), ItemType::Directory).item_id;
    let f = vfs.create(1, name("f"), ItemType::File).item_id;
    vfs.write(f, 0, b"data".to_vec());

    assert_eq!(vfs.rename(f, d, name("g")).error, errno::OK);
    assert_eq!(vfs.lookup(1, name("f")).error, errno::ENOENT);
    let moved = vfs.lookup(d, name("g"));
    assert_eq!(moved.error, errno::OK);
    assert_eq!(moved.item_id, f);
    assert_eq!(vfs.read(f, 0, 10).data, b"data".to_vec());
    // The directory now has a child.
    assert_eq!(vfs.delete(d).error, errno::ENOTEMPTY);
}

#[test]
fn rename_errors() {
    let mut vfs = MemoryVfs::empty();
    let d = vfs.create(1, name("d"), ItemType::Directory).item_id;
    let f = vfs.create(1, name("f"), ItemType::File).item_id;
    let g = vfs.create(1, name("g"), ItemType::File).item_id;

    assert_eq!(vfs.rename(f, 99, name("x")).error, errno::ENOENT);
    assert_eq!(vfs.rename(f, g, name("x")).error, errno::ENOTDIR);
    assert_eq!(vfs.rename(f, 1, name("g")).error, errno::EEXIST);
    assert_eq!(vfs.rename(f, 1, name("d")).error, errno::EEXIST);
    assert_eq!(vfs.rename(99, d, name("x")).error, errno::ENOENT);
    // Nothing moved.
    assert_eq!(vfs.lookup(1, name("f")).item_id, f);
    assert_eq!(vfs.lookup(1, name("g")).item_id, g);
}

#[test]
fn rename_to_its_own_place_succeeds() {
    let mut vfs = MemoryVfs::empty();
    let f = vfs.create(1, name("f"), ItemType::File).item_id;
    assert_eq!(vfs.rename(f, 1, name("f")).error, errno::OK);
    assert_eq!(vfs.lookup(1, name("f")).item_id, f);
}

#[test]
fn rename_examines_the_target_before_the_item() {
    let mut vfs = MemoryVfs::empty();
    vfs.create(1, name("f"), ItemType::File);
    // The item is unknown and the name is taken: the name is reported.
    assert_eq!(vfs.rename(99, 1, name("f")).error, errno::EEXIST);
    // The item and the target are both unknown.
    assert_eq!(vfs.rename(99, 98, name("f")).error, errno::ENOENT);
}

#[test]
fn set_attributes_applies_what_is_present() {
    let mut vfs = MemoryVfs::empty();
    let f = vfs.create(1, name("f"), ItemType::File).item_id;

    let r = vfs.set_attributes(f, SetAttributesParams { mode: Some(0o600), modified_time: None });
    assert_eq!(r.error, errno::OK);
    let a = vfs.get_attributes(f).attrs;
    assert_eq!(a.mode, 0o600);
    assert_eq!(a.modified_time, 0);

    let r = vfs.set_attributes(f, SetAttributesParams { mode: None, modified_time: Some(1234) });
    assert_eq!(r.error, errno::OK);
    let a = vfs.get_attributes(f).attrs;
    assert_eq!(a.mode, 0o600);
    assert_eq!(a.modified_time, 1234);
    assert_eq!(a.created_time, 0);

    let r = vfs.set_attributes(f, SetAttributesParams { mode: Some(0o755), modified_time: Some(9) });
    assert_eq!(r.error, errno::OK);
    let a = vfs.get_attributes(f).attrs;
    assert_eq!(a.mode, 0o755);
    assert_eq!(a.modified_time, 9);

    let r = vfs.set_attributes(f, SetAttributesParams { mode: None, modified_time: None });
    assert_eq!(r.error, errno::OK);
    let a = vfs.get_attributes(f).attrs;
    assert_eq!(a.mode, 0o755);
    assert_eq!(a.modified_time, 9);
}

#[test]
fn set_attributes_of_unknown_item() {
    let mut vfs = MemoryVfs::empty();
    let r = vfs.set_attributes(5, SetAttributesParams { mode: Some(1), modified_time: Some(2) });
    assert_eq!(r.error, errno::ENOENT);
}

#[test]
fn write_does_not_advance_the_times() {
    let mut vfs = MemoryVfs::empty();
    let f = vfs.create(1, name("f"), ItemType::File).item_id;
    vfs.write(f, 0, vec![1, 2, 3]);
    vfs.read(f, 0, 3);
    let a = vfs.get_attributes(f).attrs;
    assert_eq!(a.modified_time, 0);
    assert_eq!(a.created_time, 0);
}

#[test]
fn read_dir_errors() {
    let mut vfs = MemoryVfs::empty();
    let f = vfs.create(1, name("f"), ItemType::File).item_id;
    let r = vfs.read_dir(99, 0);
    assert_eq!(r.error, errno::ENOENT);
    assert!(r.entries.is_empty());
    assert_eq!(r.next_cursor, 0);
    let r = vfs.read_dir(f, 0);
    assert_eq!(r.error, errno::ENOTDIR);
    assert!(r.entries.is_empty());
    assert_eq!(r.next_cursor, 0);
}

#[test]
fn read_dir_lists_children_with_their_kinds() {
    let mut vfs = MemoryVfs::empty();
    let d = vfs.create(1, name("d"), ItemType::Directory).item_id;
    let f = vfs.create(1, name("f"), ItemType::File).item_id;
    let inner = vfs.create(d, name("inner"), ItemType::Symlink).item_id;

    let root = vfs.read_dir(1, 0);
    assert_eq!(root.error, errno::OK);
    assert_eq!(root.next_cursor, 0);
    assert_eq!(root.entries.len(), 2);
    assert_eq!(root.entries[0].name, "d");
    assert_eq!(root.entries[0].item_id, d);
    assert_eq!(root.entries[0].item_type, ItemType::Directory);
    assert_eq!(root.entries[1].name, "f");
    assert_eq!(root.entries[1].item_id, f);
    assert_eq!(root.entries[1].item_type, ItemType::File);

    let sub = vfs.read_dir(d, 0);
    assert_eq!(sub.entries.len(), 1);
    assert_eq!(sub.entries[0].name, "inner");
    assert_eq!(sub.entries[0].item_id, inner);
    assert_eq!(sub.entries[0].item_type, ItemType::Symlink);
}

fn store_with_children(n: u64) -> MemoryVfs {
    let mut vfs = MemoryVfs::empty();
    for i in 0..n {
        let r = vfs.create(1, format!("child-{}", i), ItemType::File);
        assert_eq!(r.error, errno::OK);
    }
    vfs
}

#[test]
fn read_dir_pages_list_every_child_once() {
    let vfs = store_with_children(250);
    let mut seen: Vec<u64> = Vec::new();
    let mut cursors: Vec<u64> = Vec::new();
    let mut sizes: Vec<usize> = Vec::new();
    let mut cursor = 0;
    loop {
        let page = vfs.read_dir(1, cursor);
        assert_eq!(page.error, errno::OK);
        sizes.push(page.entries.len());
        for e in &page.entries {
            seen.push(e.item_id);
        }
        cursors.push(page.next_cursor);
        if page.next_cursor == 0 {
            break;
        }
        cursor = page.next_cursor;
    }
    assert_eq!(sizes, vec![100, 100, 50]);
    assert_eq!(cursors, vec![100, 200, 0]);
    let expected: Vec<u64> = (2..252).collect();
    assert_eq!(seen, expected);
}

#[test]
fn read_dir_page_boundaries() {
    let exact = store_with_children(100);
    let page = exact.read_dir(1, 0);
    assert_eq!(page.entries.len(), 100);
    assert_eq!(page.next_cursor, 0);

    let one_more = store_with_children(101);
    let page = one_more.read_dir(1, 0);
    assert_eq!(page.entries.len(), 100);
    assert_eq!(page.next_cursor, 100);
    let page = one_more.read_dir(1, 100);
    assert_eq!(page.entries.len(), 1);
    assert_eq!(page.entries[0].name, "child-100");
    assert_eq!(page.next_cursor, 0);

    // A cursor in the middle of a page, at the end and past the end.
    let page = one_more.read_dir(1, 5);
    assert_eq!(page.entries.len(), 96);
    assert_eq!(page.entries[0].name, "child-5");
    assert_eq!(page.next_cursor, 0);
    let page = one_more.read_dir(1, 101);
    assert_eq!(page.error, errno::OK);
    assert!(page.entries.is_empty());
    assert_eq!(page.next_cursor, 0);
    let page = one_more.read_dir(1, u64::MAX);
    assert_eq!(page.error, errno::OK);
    assert!(page.entries.is_empty());
    assert_eq!(page.next_cursor, 0);
}

#[test]
fn get_children_copies_the_children() {
    let mut vfs = MemoryVfs::new();
    vfs.write(2, 0, b"J".to_vec());
    let kids = vfs.get_children(1);
    assert_eq!(kids.len(), 3);
    assert_eq!(kids[0].id, 2);
    assert_eq!(kids[0].parent_id, 1);
    assert_eq!(kids[0].name, "hello.txt");
    assert_eq!(kids[0].data, b"Jello, World!\n".to_vec());
    assert_eq!(kids[0].mode, 0o644);
    assert_eq!(kids[1].id, 3);
    assert_eq!(kids[1].item_type, ItemType::Directory);
    assert_eq!(kids[2].id, 5);
    assert_eq!(kids[2].name, "test.sh");
    assert!(vfs.get_children(2).is_empty());
    assert!(vfs.get_children(0).len() == 1);
    let copy = kids[0].duplicate();
    assert_eq!(copy.name, kids[0].name);
    assert_eq!(copy.data, kids[0].data);
}

#[test]
fn ping_answers() {
    let vfs = MemoryVfs::new();
    assert_eq!(vfs.ping(), "pong from memory VFS");
}

#[test]
fn every_item_is_found_by_its_identifier() {
    let mut vfs = store_with_children(300);
    for id in (2..302).step_by(3) {
        assert_eq!(vfs.delete(id).error, errno::OK);
    }
    assert_eq!(vfs.len(), 201);
    for id in 0..310u64 {
        let kept = id == 1 || ((2..302).contains(&id) && (id - 2) % 3 != 0);
        let r = vfs.get_attributes(id);
        assert_eq!(r.error == errno::OK, kept, "identifier {}", id);
        if kept {
            assert_eq!(r.attrs.item_id, id);
        } else {
            assert_eq!(r.error, errno::ENOENT);
        }
    }
}

fn probe<V: Vfs>(backend: &mut V) -> Vec<i32> {
    vec![
        backend.delete(1).error,
        backend.rename(1, 1, "x".to_string()).error,
        backend.lookup(1, "no such name".to_string()).error,
        backend.read(1, 0, 1).error,
    ]
}

#[test]
fn backend_is_usable_through_the_contract() {
    let mut vfs = MemoryVfs::new();
    assert_eq!(
        probe(&mut vfs),
        vec![errno::EACCES, errno::EACCES, errno::ENOENT, errno::EISDIR]
    );
}
