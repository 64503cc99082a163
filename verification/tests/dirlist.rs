use lll::error::{IoError, IoErrorKind};
use lll::fs::dirlist::{map_entry_default, read_dir_list};
use lll::fs::{DirSnapshot, Disk, FileKind, LllDirEntry, LllDirList, LllMetadata};
use lll::sort::{sort_entries, SortOption, SortType};

fn meta(file_type: FileKind, modified: i128) -> LllMetadata {
    LllMetadata { len: 0, modified, permissions: 0o644, file_type, uid: 1000, gid: 1000 }
}

fn entry(dir: &str, name: &str, file_type: FileKind, modified: i128) -> LllDirEntry {
    LllDirEntry::new(String::from(name), format!("{}/{}", dir, name), meta(file_type, modified))
}

fn snapshot(dir: &str, children: &[(&str, FileKind, i128)], modified: i128) -> DirSnapshot {
    DirSnapshot {
        children: Ok(children.iter().map(|c| Ok(entry(dir, c.0, c.1, c.2))).collect()),
        metadata: Ok(meta(FileKind::Directory, modified)),
    }
}

fn alpha() -> SortOption {
    SortOption {
        show_hidden: false,
        directories_first: true,
        reverse: false,
        sort_method: SortType::SortAlpha,
    }
}

fn names(list: &LllDirList) -> Vec<String> {
    (0..list.len()).map(|i| list.entry(i).file_name().clone()).collect()
}

fn home() -> Vec<(&'static str, FileKind, i128)> {
    vec![
        ("notes.txt", FileKind::File, 30),
        (".config", FileKind::Directory, 10),
        ("src", FileKind::Directory, 50),
        ("Makefile", FileKind::File, 20),
        ("bin", FileKind::Directory, 40),
        (".profile", FileKind::File, 60),
    ]
}

fn disk_with(dir: &str, children: &[(&str, FileKind, i128)], modified: i128) -> Disk {
    let mut disk = Disk::new();
    disk.record(String::from(dir), snapshot(dir, children, modified));
    disk
}

#[test]
fn new_lists_the_filtered_children_in_order() {
    let disk = disk_with("/home/u", &home(), 100);
    let list = LllDirList::new(String::from("/home/u"), &disk, &alpha()).unwrap();
    assert_eq!(names(&list), vec!["bin", "src", "Makefile", "notes.txt"]);
    assert_eq!(list.index(), Some(0));
    assert_eq!(list.file_path(), "/home/u");
    assert!(!list.need_update());
    assert_eq!(list.metadata(), meta(FileKind::Directory, 100));
    assert_eq!(list.entry(3).file_path(), "/home/u/notes.txt");
    assert!(!list.entry(0).is_selected());
}

#[test]
fn new_shows_hidden_entries_when_asked() {
    let disk = disk_with("/home/u", &home(), 100);
    let opt = SortOption { show_hidden: true, ..alpha() };
    let list = LllDirList::new(String::from("/home/u"), &disk, &opt).unwrap();
    assert_eq!(names(&list), vec![".config", "bin", "src", ".profile", "Makefile", "notes.txt"]);
}

#[test]
fn new_follows_the_sort_options() {
    let disk = disk_with("/home/u", &home(), 100);
    let opt = SortOption { directories_first: false, ..alpha() };
    let list = LllDirList::new(String::from("/home/u"), &disk, &opt).unwrap();
    assert_eq!(names(&list), vec!["Makefile", "bin", "notes.txt", "src"]);
    let opt = SortOption { reverse: true, ..alpha() };
    let list = LllDirList::new(String::from("/home/u"), &disk, &opt).unwrap();
    assert_eq!(names(&list), vec!["src", "bin", "notes.txt", "Makefile"]);
    let opt = SortOption { sort_method: SortType::SortMtime, directories_first: false, ..alpha() };
    let list = LllDirList::new(String::from("/home/u"), &disk, &opt).unwrap();
    assert_eq!(names(&list), vec!["Makefile", "notes.txt", "bin", "src"]);
    let opt = SortOption {
        sort_method: SortType::SortMtime,
        directories_first: false,
        reverse: true,
        show_hidden: true,
    };
    let list = LllDirList::new(String::from("/home/u"), &disk, &opt).unwrap();
    assert_eq!(names(&list), vec![".profile", "src", "bin", "notes.txt", "Makefile", ".config"]);
}

#[test]
fn sorting_keeps_the_order_of_equal_keys() {
    let entries = vec![
        entry("/d", "b", FileKind::File, 5),
        entry("/d", "a", FileKind::File, 5),
        entry("/d", "c", FileKind::File, 1),
        entry("/d", "d", FileKind::File, 5),
    ];
    let opt = SortOption { sort_method: SortType::SortMtime, ..alpha() };
    let sorted = sort_entries(entries, &opt);
    let names: Vec<&str> = sorted.iter().map(|e| e.file_name().as_str()).collect();
    assert_eq!(names, vec!["c", "b", "a", "d"]);
}

#[test]
fn new_of_an_empty_directory_has_no_cursor() {
    let disk = disk_with("/empty", &[], 1);
    let list = LllDirList::new(String::from("/empty"), &disk, &alpha()).unwrap();
    assert_eq!(list.len(), 0);
    assert_eq!(list.index(), None);
    assert!(list.get_curr_ref().is_none());
    assert!(list.get_selected_paths().is_empty());
}

#[test]
fn new_skips_children_that_could_not_be_read() {
    let mut disk = Disk::new();
    disk.record(
        String::from("/d"),
        DirSnapshot {
            children: Ok(vec![
                Ok(entry("/d", "b", FileKind::File, 1)),
                Err(IoError::new(IoErrorKind::PermissionDenied, "Permission denied")),
                Ok(entry("/d", "a", FileKind::File, 1)),
            ]),
            metadata: Ok(meta(FileKind::Directory, 1)),
        },
    );
    let list = LllDirList::new(String::from("/d"), &disk, &alpha()).unwrap();
    assert_eq!(names(&list), vec!["a", "b"]);
}

#[test]
fn map_entry_default_drops_failures() {
    let ok = Ok(entry("/d", "a", FileKind::File, 1));
    assert_eq!(map_entry_default(&ok), Some(entry("/d", "a", FileKind::File, 1)));
    let err = Err(IoError::new(IoErrorKind::Other, "stale handle"));
    assert_eq!(map_entry_default(&err), None);
}

#[test]
fn read_dir_list_filters_and_keeps_the_order_of_reading() {
    let children = vec![
        Ok(entry("/d", "z", FileKind::File, 1)),
        Ok(entry("/d", ".z", FileKind::File, 1)),
        Err(IoError::new(IoErrorKind::Other, "x")),
        Ok(entry("/d", "a", FileKind::Directory, 1)),
    ];
    let kept = read_dir_list(&children, &alpha());
    let names: Vec<&str> = kept.iter().map(|e| e.file_name().as_str()).collect();
    assert_eq!(names, vec!["z", "a"]);
}

#[test]
fn new_fails_when_the_directory_cannot_be_read() {
    let mut disk = Disk::new();
    disk.record(
        String::from("/secret"),
        DirSnapshot {
            children: Err(IoError::new(IoErrorKind::PermissionDenied, "Permission denied")),
            metadata: Ok(meta(FileKind::Directory, 1)),
        },
    );
    disk.record(
        String::from("/gone"),
        DirSnapshot {
            children: Ok(vec![]),
            metadata: Err(IoError::new(IoErrorKind::Other, "Input/output error")),
        },
    );
    assert_eq!(
        LllDirList::new(String::from("/secret"), &disk, &alpha()).unwrap_err(),
        IoError::new(IoErrorKind::PermissionDenied, "Permission denied")
    );
    assert_eq!(
        LllDirList::new(String::from("/gone"), &disk, &alpha()).unwrap_err(),
        IoError::new(IoErrorKind::Other, "Input/output error")
    );
    assert_eq!(
        LllDirList::new(String::from("/nowhere"), &disk, &alpha()).unwrap_err(),
        IoError::new(IoErrorKind::NotFound, "No such file or directory")
    );
}

#[test]
fn update_contents_twice_changes_nothing_more() {
    let before = disk_with("/home/u", &home(), 100);
    let mut list = LllDirList::new(String::from("/home/u"), &before, &alpha()).unwrap();
    list.set_index(3);
    let after = disk_with("/home/u", &[("bin", FileKind::Directory, 40), ("a", FileKind::File, 1)], 200);
    list.update_contents(&after, &alpha()).unwrap();
    let once = format!("{:?}", list);
    assert_eq!(names(&list), vec!["bin", "a"]);
    assert_eq!(list.index(), Some(1));
    list.update_contents(&after, &alpha()).unwrap();
    assert_eq!(format!("{:?}", list), once);
}

#[test]
fn update_contents_clamps_the_cursor() {
    let disk = disk_with("/home/u", &home(), 100);
    let mut list = LllDirList::new(String::from("/home/u"), &disk, &alpha()).unwrap();
    list.set_index(3);
    list.depreciate();
    assert!(list.need_update());

    // fewer entries: the cursor goes to the last one
    let fewer = disk_with("/home/u", &[("x", FileKind::File, 1), ("y", FileKind::File, 1)], 101);
    list.update_contents(&fewer, &alpha()).unwrap();
    assert_eq!(list.index(), Some(1));
    assert!(!list.need_update());
    assert_eq!(list.metadata().modified, 101);

    // more entries: the cursor stays
    list.update_contents(&disk, &alpha()).unwrap();
    assert_eq!(list.index(), Some(1));

    // no entry: no cursor
    let none = disk_with("/home/u", &[], 102);
    list.update_contents(&none, &alpha()).unwrap();
    assert_eq!(list.index(), None);
    assert_eq!(list.len(), 0);

    // entries again: the cursor goes to the first
    list.update_contents(&fewer, &alpha()).unwrap();
    assert_eq!(list.index(), Some(0));
}

#[test]
fn update_contents_changes_nothing_when_it_fails() {
    let disk = disk_with("/home/u", &home(), 100);
    let mut list = LllDirList::new(String::from("/home/u"), &disk, &alpha()).unwrap();
    list.set_index(2);
    list.depreciate();
    let before = format!("{:?}", list);
    assert_eq!(
        list.update_contents(&Disk::new(), &alpha()).unwrap_err(),
        IoError::new(IoErrorKind::NotFound, "No such file or directory")
    );
    assert_eq!(format!("{:?}", list), before);
    let mut broken = Disk::new();
    broken.record(
        String::from("/home/u"),
        DirSnapshot {
            children: Ok(vec![]),
            metadata: Err(IoError::new(IoErrorKind::PermissionDenied, "Permission denied")),
        },
    );
    assert_eq!(
        list.update_contents(&broken, &alpha()).unwrap_err().kind,
        IoErrorKind::PermissionDenied
    );
    assert_eq!(format!("{:?}", list), before);
}

#[test]
fn selection_falls_back_to_the_cursor() {
    let disk = disk_with("/home/u", &home(), 100);
    let mut list = LllDirList::new(String::from("/home/u"), &disk, &alpha()).unwrap();
    list.set_index(2);
    assert!(list.selected_entries().is_empty());
    assert_eq!(list.get_selected_paths(), vec!["/home/u/Makefile"]);
}

#[test]
fn selection_wins_over_the_cursor() {
    let disk = disk_with("/home/u", &home(), 100);
    let mut list = LllDirList::new(String::from("/home/u"), &disk, &alpha()).unwrap();
    list.set_index(3);
    list.get_curr_mut().unwrap().set_selected(true);
    list.set_index(0);
    list.get_curr_mut().unwrap().set_selected(true);
    list.set_index(1);
    assert_eq!(list.get_selected_paths(), vec!["/home/u/bin", "/home/u/notes.txt"]);
    let selected: Vec<&str> =
        list.selected_entries().iter().map(|e| e.file_name().as_str()).collect();
    assert_eq!(selected, vec!["bin", "notes.txt"]);
    list.set_index(0);
    list.get_curr_mut().unwrap().set_selected(false);
    assert_eq!(list.get_selected_paths(), vec!["/home/u/notes.txt"]);
}

#[test]
fn cursor_can_be_put_on_a_path() {
    let disk = disk_with("/home/u", &home(), 100);
    let mut list = LllDirList::new(String::from("/home/u"), &disk, &alpha()).unwrap();
    assert_eq!(list.position_of("/home/u/src"), Some(1));
    assert_eq!(list.position_of("/home/u/none"), None);
    list.set_cursor_on("/home/u/src");
    assert_eq!(list.index(), Some(1));
    list.set_cursor_on("/home/u/none");
    assert_eq!(list.index(), Some(1));
    assert_eq!(list.get_curr_ref().unwrap().file_name(), "src");
}

#[test]
fn disk_keeps_the_last_record_of_a_path() {
    let mut disk = Disk::new();
    assert!(disk.lookup("/d").is_none());
    disk.record(String::from("/d"), snapshot("/d", &[("a", FileKind::File, 1)], 1));
    disk.record(String::from("/e"), snapshot("/e", &[], 2));
    disk.record(String::from("/d"), snapshot("/d", &[("b", FileKind::File, 1)], 3));
    assert_eq!(disk.metadata("/d").unwrap().modified, 3);
    assert_eq!(disk.metadata("/e").unwrap().modified, 2);
    assert_eq!(disk.metadata("/f").unwrap_err().kind, IoErrorKind::NotFound);
    let list = LllDirList::new(String::from("/d"), &disk, &alpha()).unwrap();
    assert_eq!(names(&list), vec!["b"]);
}

#[test]
fn cursor_moves_stay_within_the_listing() {
    let disk = disk_with("/home/u", &home(), 100);
    let mut list = LllDirList::new(String::from("/home/u"), &disk, &alpha()).unwrap();
    list.cursor_move_down(1);
    assert_eq!(list.index(), Some(1));
    list.cursor_move_down(10);
    assert_eq!(list.index(), Some(3));
    list.cursor_move_down(usize::MAX);
    assert_eq!(list.index(), Some(3));
    list.cursor_move_up(2);
    assert_eq!(list.index(), Some(1));
    list.cursor_move_up(5);
    assert_eq!(list.index(), Some(0));
    list.cursor_move(usize::MAX);
    assert_eq!(list.index(), Some(3));
    list.cursor_move(2);
    assert_eq!(list.index(), Some(2));
    let mut empty = LllDirList::new(String::from("/e"), &disk_with("/e", &[], 1), &alpha()).unwrap();
    empty.cursor_move(0);
    empty.cursor_move_down(1);
    empty.cursor_move_up(1);
    assert_eq!(empty.index(), None);
}

fn selection(list: &LllDirList) -> Vec<bool> {
    (0..list.len()).map(|i| list.entry(i).is_selected()).collect()
}

#[test]
fn select_files_marks_one_entry_and_goes_on() {
    let disk = disk_with("/home/u", &home(), 100);
    let mut list = LllDirList::new(String::from("/home/u"), &disk, &alpha()).unwrap();
    list.set_index(2);
    list.select_files(false, false);
    assert_eq!(selection(&list), vec![false, false, true, false]);
    assert_eq!(list.index(), Some(3));
    list.select_files(true, false);
    assert_eq!(selection(&list), vec![false, false, true, true]);
    assert_eq!(list.index(), Some(3));
    list.select_files(true, false);
    assert_eq!(selection(&list), vec![false, false, true, false]);
    list.set_index(2);
    list.select_files(false, false);
    assert_eq!(selection(&list), vec![false, false, true, false]);
    let mut empty = LllDirList::new(String::from("/e"), &disk_with("/e", &[], 1), &alpha()).unwrap();
    empty.select_files(true, false);
    empty.select_files(true, true);
    assert_eq!(empty.len(), 0);
}

#[test]
fn select_files_marks_all_entries() {
    let disk = disk_with("/home/u", &home(), 100);
    let mut list = LllDirList::new(String::from("/home/u"), &disk, &alpha()).unwrap();
    list.set_index(1);
    list.select_files(true, false);
    list.select_files(true, true);
    assert_eq!(selection(&list), vec![true, false, true, true]);
    assert_eq!(list.index(), Some(2));
    list.select_files(false, true);
    assert_eq!(selection(&list), vec![true, true, true, true]);
    assert_eq!(list.get_selected_paths().len(), 4);
}

#[test]
fn search_goes_round_from_the_cursor() {
    let disk = disk_with(
        "/d",
        &[
            ("alpha", FileKind::File, 1),
            ("beta", FileKind::File, 1),
            ("gamma", FileKind::File, 1),
            ("delta", FileKind::File, 1),
        ],
        1,
    );
    let opt = SortOption { directories_first: false, ..alpha() };
    let mut list = LllDirList::new(String::from("/d"), &disk, &opt).unwrap();
    assert_eq!(names(&list), vec!["alpha", "beta", "delta", "gamma"]);
    // "ta" stands in beta (1) and delta (2)
    list.set_index(0);
    assert_eq!(list.search("ta", true), Some(1));
    assert_eq!(list.search("ta", false), Some(2));
    list.set_index(1);
    assert_eq!(list.search("ta", true), Some(2));
    assert_eq!(list.search("ta", false), Some(2));
    list.set_index(2);
    assert_eq!(list.search("ta", true), Some(1));
    // the entry under the cursor is looked at last
    assert_eq!(list.search("delta", true), Some(2));
    assert_eq!(list.search("delta", false), Some(2));
    assert_eq!(list.search("", true), Some(3));
    assert_eq!(list.search("x", true), None);
    assert_eq!(list.search("alphabet", false), None);
    assert_eq!(list.search("Alpha", true), None);
    let empty = LllDirList::new(String::from("/e"), &disk_with("/e", &[], 1), &alpha()).unwrap();
    assert_eq!(empty.search("", true), None);
}
