use lll::fs::{FileKind, LllDirEntry, LllMetadata};
use lll::sort::{SortOption, SortType};
use lll::stringmap::StringMap;

#[test]
fn a_map_holds_one_value_for_each_string() {
    let mut map: StringMap<u32> = StringMap::new();
    assert_eq!(map.len(), 0);
    assert_eq!(map.insert(String::from("a"), 1), None);
    assert_eq!(map.insert(String::from("b"), 2), None);
    assert_eq!(map.insert(String::from("a"), 3), Some(1));
    assert_eq!(map.len(), 2);
    assert_eq!(map.get("a"), Some(&3));
    assert_eq!(map.get("b"), Some(&2));
    assert_eq!(map.get("c"), None);
    assert!(map.contains_key("b"));
    assert!(!map.contains_key(""));
    assert_eq!(map.remove("b"), Some(2));
    assert_eq!(map.remove("b"), None);
    assert_eq!(map.len(), 1);
    assert_eq!(map.get("a"), Some(&3));
}

#[test]
fn values_of_a_map_change_in_place() {
    let mut map: StringMap<u32> = StringMap::new();
    map.insert(String::from("a"), 1);
    map.insert(String::from("b"), 2);
    if let Some(v) = map.get_mut("a") {
        *v = 10;
    }
    assert!(map.get_mut("z").is_none());
    let at = map.index_of("b").unwrap();
    *map.value_mut_at(at) = 20;
    assert_eq!(map.index_of("z"), None);
    let at = map.insert_absent(String::from("c"), 30);
    assert_eq!(*map.value_mut_at(at), 30);
    assert_eq!(map.get("a"), Some(&10));
    assert_eq!(map.get("b"), Some(&20));
    assert_eq!(map.get("c"), Some(&30));
    assert_eq!(map.len(), 3);
}

fn entry(name: &str, file_type: FileKind, modified: i128) -> LllDirEntry {
    let metadata =
        LllMetadata { len: 1, modified, permissions: 0o644, file_type, uid: 0, gid: 0 };
    LllDirEntry::new(String::from(name), format!("/d/{}", name), metadata)
}

#[test]
fn the_filter_hides_names_that_begin_with_a_dot() {
    let mut opt = SortOption {
        show_hidden: false,
        directories_first: false,
        reverse: false,
        sort_method: SortType::SortAlpha,
    };
    assert!(opt.filter(&entry("a", FileKind::File, 0)));
    assert!(opt.filter(&entry("a.b", FileKind::File, 0)));
    assert!(!opt.filter(&entry(".a", FileKind::File, 0)));
    assert!(!opt.filter(&entry(".", FileKind::Directory, 0)));
    assert!(opt.filter(&entry("", FileKind::File, 0)));
    opt.show_hidden = true;
    assert!(opt.filter(&entry(".a", FileKind::File, 0)));
}

#[test]
fn the_comparator_follows_the_options() {
    let dir = entry("z", FileKind::Directory, 5);
    let old = entry("b", FileKind::File, 1);
    let new = entry("a", FileKind::Symlink, 9);
    let mut opt = SortOption {
        show_hidden: false,
        directories_first: false,
        reverse: false,
        sort_method: SortType::SortAlpha,
    };
    assert!(opt.compare(&new, &old));
    assert!(!opt.compare(&old, &new));
    assert!(opt.compare(&old, &old));
    assert!(!opt.compare(&dir, &old));
    opt.directories_first = true;
    assert!(opt.compare(&dir, &old));
    assert!(!opt.compare(&old, &dir));
    opt.reverse = true;
    assert!(opt.compare(&dir, &old));
    assert!(opt.compare(&old, &new));
    assert!(!opt.compare(&new, &old));
    opt.sort_method = SortType::SortMtime;
    assert!(opt.compare(&new, &old));
    opt.reverse = false;
    assert!(opt.compare(&old, &new));
    assert!(!opt.compare(&new, &old));
    assert!(opt.compare(&dir, &old));
    assert!(dir.metadata().is_dir());
    assert!(!new.metadata().is_dir());
}

#[test]
fn sorting_agrees_with_a_stable_sort_of_the_standard_library() {
    // a fixed sequence of names and times with many ties
    let mut state: u64 = 0x2545F4914F6CDD1D;
    let mut entries = Vec::new();
    for i in 0..200 {
        state ^= state << 13;
        state ^= state >> 7;
        state ^= state << 17;
        let name = format!("{}{}", ["a", "B", "é", ".x", "z9", ""][(state % 6) as usize], state % 5);
        let kind = if state % 3 == 0 { FileKind::Directory } else { FileKind::File };
        let mut e = entry(&name, kind, (state % 7) as i128);
        e.set_selected(i % 2 == 0);
        entries.push(e);
    }
    for sort_method in [SortType::SortAlpha, SortType::SortMtime] {
        for directories_first in [false, true] {
            let opt = SortOption { show_hidden: true, directories_first, reverse: false, sort_method };
            let mut expected = entries.clone();
            expected.sort_by(|a, b| {
                let dirs = if directories_first {
                    b.metadata().is_dir().cmp(&a.metadata().is_dir())
                } else {
                    std::cmp::Ordering::Equal
                };
                dirs.then_with(|| match sort_method {
                    SortType::SortAlpha => a.file_name().cmp(b.file_name()),
                    SortType::SortMtime => a.metadata().modified.cmp(&b.metadata().modified),
                })
            });
            assert_eq!(lll::sort::sort_entries(entries.clone(), &opt), expected);
        }
    }
}
