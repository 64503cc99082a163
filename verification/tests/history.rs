use lll::error::{IoError, IoErrorKind};
use lll::fs::{DirSnapshot, Disk, FileKind, LllDirEntry, LllDirList, LllMetadata};
use lll::history::{DirectoryHistory, LllHistory};
use lll::sort::{SortOption, SortType};

fn meta(file_type: FileKind, modified: i128) -> LllMetadata {
    LllMetadata { len: 0, modified, permissions: 0o755, file_type, uid: 0, gid: 0 }
}

fn snapshot(dir: &str, children: &[(&str, FileKind)], modified: i128) -> DirSnapshot {
    let prefix = if dir == "/" { String::from("/") } else { format!("{}/", dir) };
    DirSnapshot {
        children: Ok(children
            .iter()
            .map(|c| {
                Ok(LllDirEntry::new(
                    String::from(c.0),
                    format!("{}{}", prefix, c.0),
                    meta(c.1, modified),
                ))
            })
            .collect()),
        metadata: Ok(meta(FileKind::Directory, modified)),
    }
}

fn opt() -> SortOption {
    SortOption {
        show_hidden: false,
        directories_first: true,
        reverse: false,
        sort_method: SortType::SortAlpha,
    }
}

/// A disk with /a/b/c, and some files beside the directories.
fn tree() -> Disk {
    let mut disk = Disk::new();
    disk.record(
        String::from("/"),
        snapshot("/", &[("0", FileKind::Directory), ("a", FileKind::Directory)], 10),
    );
    disk.record(
        String::from("/a"),
        snapshot(
            "/a",
            &[("x", FileKind::File), ("a1", FileKind::Directory), ("b", FileKind::Directory)],
            20,
        ),
    );
    disk.record(
        String::from("/a/b"),
        snapshot("/a/b", &[("c", FileKind::Directory), ("b1", FileKind::Directory)], 30),
    );
    disk.record(String::from("/a/b/c"), snapshot("/a/b/c", &[("f", FileKind::File)], 40));
    disk
}

fn names(list: &LllDirList) -> Vec<String> {
    (0..list.len()).map(|i| list.entry(i).file_name().clone()).collect()
}

#[test]
fn populate_to_root_caches_every_ancestor() {
    let disk = tree();
    let mut cache = LllHistory::new();
    cache.populate_to_root("/a/b/c", &disk, &opt()).unwrap();
    assert_eq!(cache.len(), 3);
    assert!(cache.contains_key("/"));
    assert!(cache.contains_key("/a"));
    assert!(cache.contains_key("/a/b"));
    assert!(!cache.contains_key("/a/b/c"));
    let a = cache.get("/a").unwrap();
    assert_eq!(names(a), vec!["a1", "b", "x"]);
    assert_eq!(a.get_curr_ref().unwrap().file_name(), "b");
    assert_eq!(a.index(), Some(1));
    let ab = cache.get("/a/b").unwrap();
    assert_eq!(ab.get_curr_ref().unwrap().file_name(), "c");
    assert_eq!(ab.index(), Some(1));
    let root = cache.get("/").unwrap();
    assert_eq!(root.get_curr_ref().unwrap().file_name(), "a");
}

#[test]
fn populate_to_root_leaves_cached_ancestors_alone() {
    let disk = tree();
    let mut cache = LllHistory::new();
    let mut a = LllDirList::new(String::from("/a"), &disk, &opt()).unwrap();
    a.set_index(2);
    a.depreciate();
    let before = format!("{:?}", a);
    cache.insert(String::from("/a"), a);
    cache.populate_to_root("/a/b/c", &disk, &opt()).unwrap();
    assert_eq!(cache.len(), 3);
    assert_eq!(format!("{:?}", cache.get("/a").unwrap()), before);
    assert_eq!(cache.get("/a/b").unwrap().index(), Some(1));
}

#[test]
fn populate_to_root_leaves_the_cursor_where_the_child_is_not_shown() {
    let mut disk = tree();
    disk.record(String::from("/a"), snapshot("/a", &[("x", FileKind::File)], 20));
    let mut cache = LllHistory::new();
    cache.populate_to_root("/a/b", &disk, &opt()).unwrap();
    assert_eq!(cache.get("/a").unwrap().index(), Some(0));
}

#[test]
fn populate_to_root_changes_nothing_when_it_fails() {
    let mut disk = tree();
    disk.record(
        String::from("/"),
        DirSnapshot {
            children: Err(IoError::new(IoErrorKind::PermissionDenied, "Permission denied")),
            metadata: Ok(meta(FileKind::Directory, 1)),
        },
    );
    let mut cache = LllHistory::new();
    let other = LllDirList::new(String::from("/a/b/c"), &disk, &opt()).unwrap();
    cache.insert(String::from("/a/b/c"), other);
    assert_eq!(
        cache.populate_to_root("/a/b/c", &disk, &opt()).unwrap_err(),
        IoError::new(IoErrorKind::PermissionDenied, "Permission denied")
    );
    assert_eq!(cache.len(), 1);
    assert!(cache.contains_key("/a/b/c"));
    assert!(!cache.contains_key("/a"));
    assert!(!cache.contains_key("/a/b"));
}

#[test]
fn populate_reports_what_it_added() {
    let disk = tree();
    let mut cache = LllHistory::new();
    let a = LllDirList::new(String::from("/a"), &disk, &opt()).unwrap();
    cache.insert(String::from("/a"), a);
    let added = cache.populate("/a/b/c", &disk, &opt()).unwrap();
    assert_eq!(added, vec!["/a/b", "/"]);
    cache.forget(&added);
    assert_eq!(cache.len(), 1);
    assert!(cache.contains_key("/a"));
}

#[test]
fn insert_then_pop_gives_the_listing_back() {
    let disk = tree();
    let mut cache = LllHistory::new();
    let mut list = LllDirList::new(String::from("/a"), &disk, &opt()).unwrap();
    list.set_index(2);
    list.get_curr_mut().unwrap().set_selected(true);
    let before = format!("{:?}", list);
    cache.insert(String::from("/a"), list);
    assert!(cache.contains_key("/a"));
    let back = cache.pop_or_create("/a", &disk, &opt()).unwrap();
    assert_eq!(format!("{:?}", back), before);
    assert!(!cache.contains_key("/a"));
    assert_eq!(cache.len(), 0);
}

#[test]
fn pop_or_create_reads_a_stale_listing_again() {
    let disk = tree();
    let mut cache = LllHistory::new();
    let mut list = LllDirList::new(String::from("/a"), &disk, &opt()).unwrap();
    list.set_index(2);
    list.get_curr_mut().unwrap().set_selected(true);
    list.depreciate();
    cache.insert(String::from("/a"), list);
    let mut changed = tree();
    changed.record(String::from("/a"), snapshot("/a", &[("only", FileKind::File)], 20));
    let back = cache.pop_or_create("/a", &changed, &opt()).unwrap();
    assert_eq!(names(&back), vec!["only"]);
    assert_eq!(back.index(), Some(0));
    assert!(!back.need_update());
    assert!(back.selected_entries().is_empty());
}

#[test]
fn pop_or_create_reads_again_when_the_directory_is_newer() {
    let disk = tree();
    let mut cache = LllHistory::new();
    cache.insert(String::from("/a"), LllDirList::new(String::from("/a"), &disk, &opt()).unwrap());
    let mut newer = tree();
    newer.record(String::from("/a"), snapshot("/a", &[("only", FileKind::File)], 21));
    let back = cache.pop_or_create("/a", &newer, &opt()).unwrap();
    assert_eq!(names(&back), vec!["only"]);
    assert_eq!(back.metadata().modified, 21);

    // an older time on the disk does not count as a change
    cache.insert(String::from("/a"), back);
    let mut older = tree();
    older.record(String::from("/a"), snapshot("/a", &[("other", FileKind::File)], 19));
    let back = cache.pop_or_create("/a", &older, &opt()).unwrap();
    assert_eq!(names(&back), vec!["only"]);
}

#[test]
fn pop_or_create_makes_a_listing_that_is_not_cached() {
    let disk = tree();
    let mut cache = LllHistory::new();
    let list = cache.pop_or_create("/a/b", &disk, &opt()).unwrap();
    assert_eq!(names(&list), vec!["b1", "c"]);
    assert_eq!(list.index(), Some(0));
    assert_eq!(list.file_path(), "/a/b");
    assert_eq!(cache.len(), 0);
}

#[test]
fn pop_or_create_keeps_the_cache_when_it_fails() {
    let disk = tree();
    let mut cache = LllHistory::new();
    let mut list = LllDirList::new(String::from("/a"), &disk, &opt()).unwrap();
    list.set_index(1);
    list.depreciate();
    let before = format!("{:?}", list);
    cache.insert(String::from("/a"), list);
    let empty = Disk::new();
    assert_eq!(
        cache.pop_or_create("/a", &empty, &opt()).unwrap_err(),
        IoError::new(IoErrorKind::NotFound, "No such file or directory")
    );
    assert_eq!(format!("{:?}", cache.get("/a").unwrap()), before);
    assert_eq!(cache.pop_or_create("/zzz", &empty, &opt()).unwrap_err().kind, IoErrorKind::NotFound);
    assert_eq!(cache.len(), 1);

    // a fresh listing needs the time on the disk, too
    let mut cache = LllHistory::new();
    cache.insert(String::from("/a"), LllDirList::new(String::from("/a"), &disk, &opt()).unwrap());
    assert_eq!(cache.pop_or_create("/a", &empty, &opt()).unwrap_err().kind, IoErrorKind::NotFound);
    assert!(cache.contains_key("/a"));
}

#[test]
fn insert_replaces_the_cached_listing() {
    let disk = tree();
    let mut cache = LllHistory::new();
    cache.insert(String::from("/a"), LllDirList::new(String::from("/a"), &disk, &opt()).unwrap());
    let mut second = LllDirList::new(String::from("/a"), &disk, &opt()).unwrap();
    second.set_index(2);
    cache.insert(String::from("/a"), second);
    assert_eq!(cache.len(), 1);
    assert_eq!(cache.get("/a").unwrap().index(), Some(2));
    assert!(cache.remove("/a").is_some());
    assert!(cache.remove("/a").is_none());
}

#[test]
fn get_mut_or_create_hands_out_the_cached_listing_as_it_is() {
    let disk = tree();
    let mut cache = LllHistory::new();
    let mut list = LllDirList::new(String::from("/a"), &disk, &opt()).unwrap();
    list.depreciate();
    cache.insert(String::from("/a"), list);
    let empty = Disk::new();
    {
        let cached = cache.get_mut_or_create("/a", &empty, &opt()).unwrap();
        assert!(cached.need_update());
        cached.set_index(2);
    }
    assert_eq!(cache.get("/a").unwrap().index(), Some(2));
}

#[test]
fn get_mut_or_create_caches_a_new_listing() {
    let disk = tree();
    let mut cache = LllHistory::new();
    {
        let made = cache.get_mut_or_create("/a/b", &disk, &opt()).unwrap();
        assert_eq!(names(made), vec!["b1", "c"]);
    }
    assert!(cache.contains_key("/a/b"));
    assert_eq!(
        cache.get_mut_or_create("/nowhere", &disk, &opt()).unwrap_err().kind,
        IoErrorKind::NotFound
    );
    assert_eq!(cache.len(), 1);
}

#[test]
fn depreciate_all_entries_marks_every_listing() {
    let disk = tree();
    let mut cache = LllHistory::new();
    cache.populate_to_root("/a/b/c", &disk, &opt()).unwrap();
    assert!(!cache.get("/a").unwrap().need_update());
    cache.depreciate_all_entries();
    assert_eq!(cache.len(), 3);
    assert!(cache.get("/").unwrap().need_update());
    assert!(cache.get("/a").unwrap().need_update());
    assert!(cache.get("/a/b").unwrap().need_update());
    assert_eq!(cache.get("/a").unwrap().index(), Some(1));
}
