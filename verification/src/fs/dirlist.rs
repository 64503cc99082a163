use crate::error::{IoError, IoErrorKind, IoErrorView};
use crate::fs::disk::{child_views, not_found, snapshot_at, DirSnapshot, Disk, SnapshotView};
use crate::fs::entry::{EntryView, LllDirEntry};
use crate::fs::metadata::LllMetadata;
use crate::sort::{entry_views, sort_entries, SortOption};
use crate::text::{chars_of, str_eq};
use vstd::prelude::*;

verus! {

/// One directory as a tab shows it: its entries in order, the cursor, and
/// what is needed to tell whether it is out of date.
#[derive(Debug)]
pub struct LllDirList {
    index: Option<usize>,
    path: String,
    outdated: bool,
    metadata: LllMetadata,
    contents: Vec<LllDirEntry>,
}

/// What a listing is in contracts.
pub struct DirListView {
    /// The place of the cursor among the entries.
    pub index: Option<usize>,
    pub path: Seq<char>,
    /// Whether the listing was marked as out of date.
    pub outdated: bool,
    /// The metadata of the directory when it was last read.
    pub metadata: LllMetadata,
    pub contents: Seq<EntryView>,
}

impl DirListView {
    /// The cursor points at an entry, and there is none only where there
    /// is no entry.
    pub open spec fn wf(self) -> bool {
        match self.index {
            Some(i) => i < self.contents.len(),
            None => self.contents.len() == 0,
        }
    }
}

/// The children that were read and that `opt` shows, in the order in which
/// they were read.
pub open spec fn kept(children: Seq<Option<EntryView>>, opt: SortOption) -> Seq<EntryView>
    decreases children.len(),
{
    if children.len() == 0 {
        Seq::empty()
    } else {
        let front = kept(children.drop_last(), opt);
        match children.last() {
            Some(e) => if opt.keeps(e) {
                front.push(e)
            } else {
                front
            },
            None => front,
        }
    }
}

/// The entries of a listing of `children`: those that `opt` shows, in the
/// order of `opt`.
pub open spec fn listing_of(children: Seq<Option<EntryView>>, opt: SortOption) -> Seq<EntryView> {
    opt.sort(kept(children, opt))
}

/// The place of the cursor in a listing that is made anew.
pub open spec fn first_cursor(len: nat) -> Option<usize> {
    if len == 0 {
        None
    } else {
        Some(0usize)
    }
}

/// The place of the cursor after the entries were read again: where it
/// was, but no further than the last entry; the first entry where there
/// was none; none where there is no entry.
pub open spec fn clamped_cursor(index: Option<usize>, len: nat) -> Option<usize> {
    if len == 0 {
        None
    } else {
        match index {
            Some(i) => if i >= len {
                Some((len - 1) as usize)
            } else {
                Some(i)
            },
            None => Some(0usize),
        }
    }
}

/// The listing of `path` made from what reading it gave.
pub open spec fn new_listing(path: Seq<char>, snapshot: SnapshotView, opt: SortOption) -> Result<
    DirListView,
    IoErrorView,
> {
    match snapshot.children {
        Err(e) => Err(e),
        Ok(children) => match snapshot.metadata {
            Err(e) => Err(e),
            Ok(metadata) => Ok(
                DirListView {
                    index: first_cursor(listing_of(children, opt).len()),
                    path,
                    outdated: false,
                    metadata,
                    contents: listing_of(children, opt),
                },
            ),
        },
    }
}

/// The listing `list` after its directory was read again.
pub open spec fn updated_listing(list: DirListView, snapshot: SnapshotView, opt: SortOption)
    -> Result<DirListView, IoErrorView> {
    match snapshot.children {
        Err(e) => Err(e),
        Ok(children) => match snapshot.metadata {
            Err(e) => Err(e),
            Ok(metadata) => Ok(
                DirListView {
                    index: clamped_cursor(list.index, listing_of(children, opt).len()),
                    path: list.path,
                    outdated: false,
                    metadata,
                    contents: listing_of(children, opt),
                },
            ),
        },
    }
}

/// The place of the first entry of `contents` at or behind `from` that has
/// the path `path`, or the length of `contents` where there is none.
pub open spec fn position_of_path(contents: Seq<EntryView>, path: Seq<char>, from: int) -> int
    decreases contents.len() - from,
{
    if from < 0 || from >= contents.len() {
        contents.len() as int
    } else if contents[from].path == path {
        from
    } else {
        position_of_path(contents, path, from + 1)
    }
}

/// `list` with the cursor on the first entry that has the path `path`,
/// if there is one.
pub open spec fn with_cursor_on(list: DirListView, path: Seq<char>) -> DirListView {
    if position_of_path(list.contents, path, 0) < list.contents.len() {
        DirListView { index: Some(position_of_path(list.contents, path, 0) as usize), ..list }
    } else {
        list
    }
}

/// The entry under the cursor of `list`.
pub open spec fn cursor_entry(list: DirListView) -> Option<EntryView> {
    match list.index {
        Some(i) => if i < list.contents.len() {
            Some(list.contents[i as int])
        } else {
            None
        },
        None => None,
    }
}

/// `list` with the cursor on the entry at `new_index`, or on the last
/// entry where there is none at `new_index`. Without entries there is no
/// cursor to move.
pub open spec fn cursor_moved(list: DirListView, new_index: usize) -> DirListView {
    if list.contents.len() == 0 {
        list
    } else if new_index >= list.contents.len() {
        DirListView { index: Some((list.contents.len() - 1) as usize), ..list }
    } else {
        DirListView { index: Some(new_index), ..list }
    }
}

/// The selection flag of an entry after it was selected, or toggled.
pub open spec fn marked(selected: bool, toggle: bool) -> bool {
    if toggle {
        !selected
    } else {
        true
    }
}

/// `list` after a selection: every entry where `all` holds, else the
/// entry under the cursor, is selected, or has its selection turned
/// around where `toggle` holds. After the selection of a single entry the
/// cursor goes on to the next.
pub open spec fn selection_changed(list: DirListView, toggle: bool, all: bool) -> DirListView {
    if all {
        DirListView {
            contents: list.contents.map_values(
                |e: EntryView| e.with_selected(marked(e.selected, toggle)),
            ),
            ..list
        }
    } else {
        match list.index {
            Some(i) => if i < list.contents.len() {
                DirListView {
                    contents: list.contents.update(
                        i as int,
                        list.contents[i as int].with_selected(
                            marked(list.contents[i as int].selected, toggle),
                        ),
                    ),
                    index: if i + 1 < list.contents.len() {
                        Some((i + 1) as usize)
                    } else {
                        Some(i)
                    },
                    ..list
                }
            } else {
                list
            },
            None => list,
        }
    }
}

/// Whether `pattern` stands somewhere in `name`.
pub open spec fn holds(name: Seq<char>, pattern: Seq<char>) -> bool {
    exists|k: int|
        0 <= k <= name.len() - pattern.len() && #[trigger] name.subrange(k, k + pattern.len())
            == pattern
}

/// The place that a search looks at in its step `step`: it starts behind
/// the cursor, or before it where it goes backward, and goes round.
pub open spec fn search_place(start: int, step: int, len: int, forward: bool) -> int {
    if forward {
        (start + step) % len
    } else {
        (start + len - step) % len
    }
}

/// The entries of `contents` that are selected, in order.
pub open spec fn selected_of(contents: Seq<EntryView>) -> Seq<EntryView> {
    contents.filter(|e: EntryView| e.selected)
}

/// The path of each entry of `entries`.
pub open spec fn paths_of(entries: Seq<EntryView>) -> Seq<Seq<char>> {
    entries.map_values(|e: EntryView| e.path)
}

/// The paths that a command on files works on: those of the selected
/// entries, or, where none is selected, that of the entry under the cursor.
pub open spec fn selected_paths(list: DirListView) -> Seq<Seq<char>> {
    if selected_of(list.contents).len() > 0 {
        paths_of(selected_of(list.contents))
    } else {
        match cursor_entry(list) {
            Some(e) => seq![e.path],
            None => Seq::empty(),
        }
    }
}

/// The views of the entries that `v` refers to.
pub open spec fn ref_views(v: Seq<&LllDirEntry>) -> Seq<EntryView> {
    v.map_values(|e: &LllDirEntry| e@)
}

/// The characters of the paths that `v` refers to.
pub open spec fn path_views(v: Seq<&String>) -> Seq<Seq<char>> {
    v.map_values(|p: &String| p@)
}

/// Whether `pattern` stands in `name` at `at`.
fn stands_at(name: &Vec<char>, pattern: &Vec<char>, at: usize) -> (r: bool)
    requires
        at + pattern.len() <= name.len(),
    ensures
        r == (name@.subrange(at as int, at + pattern.len()) == pattern@),
{
    let mut j: usize = 0;
    while j < pattern.len()
        invariant
            j <= pattern.len(),
            at + pattern.len() <= name.len(),
            forall|k: int| 0 <= k < j ==> name@[at + k] == pattern@[k],
        decreases pattern.len() - j,
    {
        if name[at + j] != pattern[j] {
            assert(name@.subrange(at as int, at + pattern.len())[j as int] != pattern@[j as int]);
            return false;
        }
        j = j + 1;
    }
    assert(name@.subrange(at as int, at + pattern.len()) =~= pattern@);
    true
}

/// Whether `pattern` stands somewhere in `name`.
pub fn name_holds(name: &Vec<char>, pattern: &Vec<char>) -> (r: bool)
    ensures
        r == holds(name@, pattern@),
{
    if pattern.len() > name.len() {
        return false;
    }
    let last = name.len() - pattern.len();
    let mut at: usize = 0;
    loop
        invariant
            at <= last,
            last == name.len() - pattern.len(),
            pattern.len() <= name.len(),
            forall|k: int|
                0 <= k < at ==> #[trigger] name@.subrange(k, k + pattern@.len()) != pattern@,
        decreases last - at,
    {
        if stands_at(name, pattern, at) {
            return true;
        }
        if at == last {
            return false;
        }
        at = at + 1;
    }
}

/// The entry that one child of a directory read gives, if it could be
/// read.
pub fn map_entry_default(result: &Result<LllDirEntry, IoError>) -> (r: Option<LllDirEntry>)
    ensures
        match r {
            Some(e) => *result is Ok && e@ == result->Ok_0@,
            None => *result is Err,
        },
{
    match result {
        Ok(entry) => Some(entry.clone()),
        Err(_) => None,
    }
}

/// The entries of a directory read that `sort_option` shows, in the order
/// in which they were read.
pub fn read_dir_list(children: &Vec<Result<LllDirEntry, IoError>>, sort_option: &SortOption) -> (r:
    Vec<LllDirEntry>)
    ensures
        entry_views(r@) == kept(child_views(children@), *sort_option),
{
    let mut results: Vec<LllDirEntry> = Vec::new();
    let ghost all = child_views(children@);
    let mut i: usize = 0;
    while i < children.len()
        invariant
            i <= children.len(),
            all == child_views(children@),
            entry_views(results@) == kept(all.take(i as int), *sort_option),
        decreases children.len() - i,
    {
        proof {
            assert(all.take(i + 1).drop_last() =~= all.take(i as int));
            assert(all.take(i + 1).last() == all[i as int]);
        }
        let ghost before = results@;
        match map_entry_default(&children[i]) {
            Some(entry) => {
                if sort_option.filter(&entry) {
                    results.push(entry);
                    assert(entry_views(results@) =~= entry_views(before).push(entry@));
                }
            },
            None => {},
        }
        i = i + 1;
    }
    assert(all.take(children.len() as int) =~= all);
    results
}

fn copy_error(e: &IoError) -> (r: IoError)
    ensures
        r@ == e@,
{
    e.clone()
}

/// The entries and the metadata that a listing takes from what reading
/// its directory gave.
fn read_listing(snapshot: Option<&DirSnapshot>, sort_option: &SortOption) -> (r: Result<
    (Vec<LllDirEntry>, LllMetadata),
    IoError,
>)
    ensures
        match snapshot {
            Some(s) => match s@.children {
                Err(e) => r is Err && r->Err_0@ == e,
                Ok(children) => match s@.metadata {
                    Err(e) => r is Err && r->Err_0@ == e,
                    Ok(metadata) => r is Ok && r->Ok_0.1 == metadata && entry_views(r->Ok_0.0@)
                        == listing_of(children, *sort_option),
                },
            },
            None => r is Err && r->Err_0@ == not_found(),
        },
{
    match snapshot {
        None => Err(IoError::new(IoErrorKind::NotFound, "No such file or directory")),
        Some(s) => match &s.children {
            Err(e) => Err(copy_error(e)),
            Ok(children) => {
                let contents = sort_entries(read_dir_list(children, sort_option), sort_option);
                match &s.metadata {
                    Err(e) => Err(copy_error(e)),
                    Ok(metadata) => Ok((contents, *metadata)),
                }
            },
        },
    }
}

impl View for LllDirList {
    type V = DirListView;

    closed spec fn view(&self) -> DirListView {
        DirListView {
            index: self.index,
            path: self.path@,
            outdated: self.outdated,
            metadata: self.metadata,
            contents: entry_views(self.contents@),
        }
    }
}

impl LllDirList {
    /// The cursor points at an entry, and there is none only where there
    /// is no entry.
    pub open spec fn wf(&self) -> bool {
        self@.wf()
    }

    /// The listing of `path` as `disk` has it: the children that
    /// `sort_option` shows, in its order, with the cursor on the first.
    pub fn new(path: String, disk: &Disk, sort_option: &SortOption) -> (r: Result<Self, IoError>)
        requires
            disk.wf(),
        ensures
            match new_listing(path@, snapshot_at(disk@, path@), *sort_option) {
                Ok(list) => r is Ok && r->Ok_0@ == list && r->Ok_0.wf(),
                Err(e) => r is Err && r->Err_0@ == e,
            },
            r matches Ok(list) ==> {
                let children = snapshot_at(disk@, path@).children->Ok_0;
                &&& sort_option.sorted(list@.contents)
                &&& list@.contents.to_multiset() == kept(children, *sort_option).to_multiset()
                &&& forall|e: EntryView| #[trigger]
                    list@.contents.contains(e) <==> (children.contains(Some(e))
                        && sort_option.keeps(e))
            },
    {
        proof {
            let snapshot = snapshot_at(disk@, path@);
            if snapshot.children is Ok && snapshot.metadata is Ok {
                lemma_new_listing(path@, snapshot, *sort_option);
            }
        }
        let (contents, metadata) = match read_listing(disk.lookup(path.as_str()), sort_option) {
            Ok(read) => read,
            Err(e) => {
                return Err(e);
            },
        };
        let index = if contents.is_empty() {
            None
        } else {
            Some(0)
        };
        Ok(LllDirList { index, path, outdated: false, metadata, contents })
    }

    /// A listing that holds nothing and is marked as out of date: it
    /// stands where a listing has been taken away for a moment.
    pub(crate) fn placeholder() -> (r: Self)
        ensures
            r.wf(),
            r@.contents.len() == 0,
            r@.index is None,
            r@.outdated,
            r@.path.len() == 0,
    {
        LllDirList {
            index: None,
            path: String::new(),
            outdated: true,
            metadata: LllMetadata {
                len: 0,
                modified: 0,
                permissions: 0,
                file_type: crate::fs::metadata::FileKind::Directory,
                uid: 0,
                gid: 0,
            },
            contents: Vec::new(),
        }
    }

    /// Marks the listing as out of date.
    pub fn depreciate(&mut self)
        ensures
            final(self)@ == (DirListView { outdated: true, ..old(self)@ }),
    {
        self.outdated = true;
    }

    /// Whether the listing was marked as out of date.
    pub fn need_update(&self) -> (r: bool)
        ensures
            r == self@.outdated,
    {
        self.outdated
    }

    /// The path of the directory.
    pub fn file_path(&self) -> (r: &String)
        ensures
            r@ == self@.path,
    {
        &self.path
    }

    /// The metadata of the directory when it was last read.
    pub fn metadata(&self) -> (r: LllMetadata)
        ensures
            r == self@.metadata,
    {
        self.metadata
    }

    /// The place of the cursor.
    pub fn index(&self) -> (r: Option<usize>)
        ensures
            r == self@.index,
    {
        self.index
    }

    /// The number of entries.
    pub fn len(&self) -> (r: usize)
        ensures
            r == self@.contents.len(),
    {
        self.contents.len()
    }

    /// The entry at `i`.
    pub fn entry(&self, i: usize) -> (r: &LllDirEntry)
        requires
            i < self@.contents.len(),
        ensures
            r@ == self@.contents[i as int],
    {
        &self.contents[i]
    }

    /// Reads the entries again from `disk`. The cursor stays where it was,
    /// but no further than the last entry; the listing is then up to date.
    /// If the directory cannot be read, nothing changes.
    pub fn update_contents(&mut self, disk: &Disk, sort_option: &SortOption) -> (r: Result<
        (),
        IoError,
    >)
        requires
            disk.wf(),
        ensures
            match updated_listing(
                old(self)@,
                snapshot_at(disk@, old(self)@.path),
                *sort_option,
            ) {
                Ok(list) => r is Ok && final(self)@ == list && final(self).wf(),
                Err(e) => r is Err && r->Err_0@ == e && *final(self) == *old(self),
            },
    {
        let (contents, metadata) = match read_listing(
            disk.lookup(self.path.as_str()),
            sort_option,
        ) {
            Ok(read) => read,
            Err(e) => {
                return Err(e);
            },
        };
        let contents_len = contents.len();
        if contents_len == 0 {
            self.index = None;
        } else {
            self.index = match self.index {
                Some(index) => {
                    if index >= contents_len {
                        Some(contents_len - 1)
                    } else {
                        Some(index)
                    }
                },
                None => Some(0),
            };
        }
        self.metadata = metadata;
        self.contents = contents;
        self.outdated = false;
        Ok(())
    }

    /// The entries that are selected, in order.
    pub fn selected_entries(&self) -> (r: Vec<&LllDirEntry>)
        ensures
            ref_views(r@) == selected_of(self@.contents),
    {
        let mut selected: Vec<&LllDirEntry> = Vec::new();
        let ghost all = entry_views(self.contents@);
        let mut i: usize = 0;
        proof {
            reveal(Seq::filter);
        }
        while i < self.contents.len()
            invariant
                i <= self.contents.len(),
                all == entry_views(self.contents@),
                ref_views(selected@) == selected_of(all.take(i as int)),
            decreases self.contents.len() - i,
        {
            proof {
                reveal(Seq::filter);
                assert(all.take(i + 1).drop_last() =~= all.take(i as int));
                assert(all.take(i + 1).last() == all[i as int]);
            }
            let ghost before = selected@;
            let entry = &self.contents[i];
            if entry.is_selected() {
                selected.push(entry);
                assert(ref_views(selected@) =~= ref_views(before).push(entry@));
            }
            i = i + 1;
        }
        assert(all.take(self.contents.len() as int) =~= all);
        selected
    }

    /// The paths that a command on files works on: those of the selected
    /// entries, or, where none is selected, that of the entry under the
    /// cursor.
    pub fn get_selected_paths(&self) -> (r: Vec<&String>)
        ensures
            path_views(r@) == selected_paths(self@),
    {
        let selected = self.selected_entries();
        let mut paths: Vec<&String> = Vec::new();
        let ghost views = ref_views(selected@);
        let mut i: usize = 0;
        while i < selected.len()
            invariant
                i <= selected.len(),
                paths@.len() == i,
                views == ref_views(selected@),
                path_views(paths@) == paths_of(views.take(i as int)),
            decreases selected.len() - i,
        {
            let ghost before = paths@;
            paths.push(selected[i].file_path());
            assert(path_views(paths@) =~= paths_of(views.take(i + 1))) by {
                assert forall|k: int| 0 <= k < i + 1 implies path_views(paths@)[k]
                    == paths_of(views.take(i + 1))[k] by {
                    if k < i {
                        assert(path_views(before)[k] == paths_of(
                            views.take(i as int),
                        )[k]);
                    }
                }
            }
            i = i + 1;
        }
        assert(views.take(selected.len() as int) =~= views);
        if paths.is_empty() {
            match self.get_curr_ref() {
                Some(s) => {
                    paths.push(s.file_path());
                    assert(path_views(paths@) =~= seq![s@.path]);
                },
                None => {
                    assert(path_views(paths@) =~= Seq::<Seq<char>>::empty());
                },
            }
        }
        paths
    }

    /// The place of the first entry that has the path `path`.
    pub fn position_of(&self, path: &str) -> (r: Option<usize>)
        ensures
            match r {
                Some(i) => i < self@.contents.len() && i == position_of_path(
                    self@.contents,
                    path@,
                    0,
                ),
                None => position_of_path(self@.contents, path@, 0) == self@.contents.len(),
            },
    {
        let mut i: usize = 0;
        while i < self.contents.len()
            invariant
                i <= self.contents.len(),
                position_of_path(self@.contents, path@, 0) == position_of_path(
                    self@.contents,
                    path@,
                    i as int,
                ),
            decreases self.contents.len() - i,
        {
            if str_eq(self.contents[i].file_path().as_str(), path) {
                return Some(i);
            }
            i = i + 1;
        }
        None
    }

    /// Puts the cursor on the entry at `new_index`, or on the last entry
    /// where there are fewer.
    pub fn cursor_move(&mut self, new_index: usize)
        ensures
            final(self)@ == cursor_moved(old(self)@, new_index),
            old(self).wf() ==> final(self).wf(),
    {
        let len = self.contents.len();
        if len > 0 {
            if new_index >= len {
                self.index = Some(len - 1);
            } else {
                self.index = Some(new_index);
            }
        }
    }

    /// Moves the cursor down by `movement` entries, as far as there are
    /// entries.
    pub fn cursor_move_down(&mut self, movement: usize)
        requires
            old(self).wf(),
        ensures
            final(self).wf(),
            final(self)@ == (match old(self)@.index {
                Some(i) => cursor_moved(
                    old(self)@,
                    if i + movement > usize::MAX {
                        usize::MAX
                    } else {
                        (i + movement) as usize
                    },
                ),
                None => old(self)@,
            }),
    {
        match self.index {
            Some(index) => {
                let target = match index.checked_add(movement) {
                    Some(target) => target,
                    None => usize::MAX,
                };
                self.cursor_move(target);
            },
            None => {},
        }
    }

    /// Moves the cursor up by `movement` entries, as far as there are
    /// entries.
    pub fn cursor_move_up(&mut self, movement: usize)
        requires
            old(self).wf(),
        ensures
            final(self).wf(),
            final(self)@ == (match old(self)@.index {
                Some(i) => cursor_moved(
                    old(self)@,
                    if i < movement {
                        0usize
                    } else {
                        (i - movement) as usize
                    },
                ),
                None => old(self)@,
            }),
    {
        match self.index {
            Some(index) => {
                let target = if index < movement {
                    0
                } else {
                    index - movement
                };
                self.cursor_move(target);
            },
            None => {},
        }
    }

    /// Selects entries, or turns their selection around where `toggle`
    /// holds: every entry where `all` holds, else the entry under the
    /// cursor, from which the cursor then goes on to the next.
    pub fn select_files(&mut self, toggle: bool, all: bool)
        requires
            old(self).wf(),
        ensures
            final(self).wf(),
            final(self)@ == selection_changed(old(self)@, toggle, all),
    {
        if all {
            let n = self.contents.len();
            let mut i: usize = 0;
            let ghost before = entry_views(self.contents@);
            while i < n
                invariant
                    i <= n,
                    n == self.contents@.len(),
                    before.len() == n,
                    before == old(self)@.contents,
                    self.index == old(self).index,
                    self.path == old(self).path,
                    self.outdated == old(self).outdated,
                    self.metadata == old(self).metadata,
                    forall|j: int|
                        0 <= j < i ==> (#[trigger] self.contents@[j])@ == before[j].with_selected(
                            marked(before[j].selected, toggle),
                        ),
                    forall|j: int| i <= j < n ==> (#[trigger] self.contents@[j])@ == before[j],
                decreases n - i,
            {
                let entry = &mut self.contents[i];
                let selected = if toggle {
                    !entry.is_selected()
                } else {
                    true
                };
                entry.set_selected(selected);
                i = i + 1;
            }
            assert(entry_views(self.contents@) =~= before.map_values(
                |e: EntryView| e.with_selected(marked(e.selected, toggle)),
            ));
        } else {
            match self.index {
                Some(index) => {
                    let ghost before = entry_views(self.contents@);
                    let entry = &mut self.contents[index];
                    let selected = if toggle {
                        !entry.is_selected()
                    } else {
                        true
                    };
                    entry.set_selected(selected);
                    if index < self.contents.len() - 1 {
                        self.index = Some(index + 1);
                    }
                    assert(entry_views(self.contents@) =~= before.update(
                        index as int,
                        before[index as int].with_selected(
                            marked(before[index as int].selected, toggle),
                        ),
                    ));
                },
                None => {},
            }
        }
    }

    /// The place of the first entry whose name holds `pattern`, looking
    /// from the cursor on, forward or backward, and round to the cursor
    /// itself.
    pub fn search(&self, pattern: &str, forward: bool) -> (r: Option<usize>)
        requires
            self.wf(),
        ensures
            match r {
                Some(i) => {
                    &&& i < self@.contents.len()
                    &&& holds(self@.contents[i as int].file_name, pattern@)
                    &&& exists|step: int|
                        {
                            &&& 1 <= step <= self@.contents.len()
                            &&& i == #[trigger] search_place(
                                self@.index->Some_0 as int,
                                step,
                                self@.contents.len() as int,
                                forward,
                            )
                            &&& forall|earlier: int|
                                1 <= earlier < step ==> !holds(
                                    self@.contents[#[trigger] search_place(
                                        self@.index->Some_0 as int,
                                        earlier,
                                        self@.contents.len() as int,
                                        forward,
                                    )].file_name,
                                    pattern@,
                                )
                        }
                },
                None => forall|i: int|
                    0 <= i < self@.contents.len() ==> !holds(
                        (#[trigger] self@.contents[i]).file_name,
                        pattern@,
                    ),
            },
    {
        let len = self.contents.len();
        let start = match self.index {
            Some(start) => start,
            None => {
                return None;
            },
        };
        let wanted = chars_of(pattern);
        let mut looked: usize = 0;
        while looked < len
            invariant
                looked <= len,
                len == self@.contents.len(),
                len == self.contents@.len(),
                start < len,
                self@.index == Some(start),
                wanted@ == pattern@,
                forall|earlier: int|
                    1 <= earlier <= looked ==> !holds(
                        self@.contents[#[trigger] search_place(
                            start as int,
                            earlier,
                            len as int,
                            forward,
                        )].file_name,
                        pattern@,
                    ),
            decreases len - looked,
        {
            let step: u128 = looked as u128 + 1;
            let place: usize = if forward {
                (((start as u128) + step) % (len as u128)) as usize
            } else {
                (((start as u128) + (len as u128) - step) % (len as u128)) as usize
            };
            assert(place == search_place(start as int, step as int, len as int, forward));
            assert(self@.contents[place as int] == self.contents@[place as int]@);
            let name = chars_of(self.contents[place].file_name().as_str());
            if name_holds(&name, &wanted) {
                assert(place == search_place(
                    self@.index->Some_0 as int,
                    step as int,
                    self@.contents.len() as int,
                    forward,
                ));
                return Some(place);
            }
            looked = looked + 1;
        }
        proof {
            assert forall|i: int| 0 <= i < len implies !holds(
                (#[trigger] self@.contents[i]).file_name,
                pattern@,
            ) by {
                let l = len as int;
                let s = start as int;
                // the step at which the search looks at `i`
                let at = if forward {
                    if i > s {
                        i - s
                    } else {
                        i - s + l
                    }
                } else {
                    if i < s {
                        s - i
                    } else {
                        s - i + l
                    }
                };
                assert(1 <= at <= l);
                assert(search_place(s, at, l, forward) == i) by {
                    if forward {
                        if i > s {
                            vstd::arithmetic::div_mod::lemma_small_mod(i as nat, l as nat);
                        } else {
                            vstd::arithmetic::div_mod::lemma_mod_add_multiples_vanish(i, l);
                            vstd::arithmetic::div_mod::lemma_small_mod(i as nat, l as nat);
                        }
                    } else {
                        if i < s {
                            vstd::arithmetic::div_mod::lemma_mod_add_multiples_vanish(i, l);
                            vstd::arithmetic::div_mod::lemma_small_mod(i as nat, l as nat);
                        } else {
                            vstd::arithmetic::div_mod::lemma_small_mod(i as nat, l as nat);
                        }
                    }
                }
            }
        }
        None
    }

    /// Puts the cursor on the entry at `index`.
    pub fn set_index(&mut self, index: usize)
        requires
            index < old(self)@.contents.len(),
        ensures
            final(self)@ == (DirListView { index: Some(index), ..old(self)@ }),
            final(self).wf(),
    {
        self.index = Some(index);
    }

    /// Puts the cursor on the first entry that has the path `path`, if
    /// there is one.
    pub fn set_cursor_on(&mut self, path: &str)
        requires
            old(self).wf(),
        ensures
            final(self)@ == with_cursor_on(old(self)@, path@),
            final(self).wf(),
    {
        match self.position_of(path) {
            Some(at) => self.set_index(at),
            None => {},
        }
    }

    /// The entry under the cursor.
    pub fn get_curr_ref(&self) -> (r: Option<&LllDirEntry>)
        ensures
            match cursor_entry(self@) {
                Some(e) => r is Some && r->Some_0@ == e,
                None => r is None,
            },
    {
        match self.index {
            Some(index) => self.get_curr_ref_(index),
            None => None,
        }
    }

    /// The entry under the cursor, to change its selection.
    pub fn get_curr_mut(&mut self) -> (r: Option<&mut LllDirEntry>)
        ensures
            match old(self)@.index {
                Some(i) => if i < old(self)@.contents.len() {
                    &&& r is Some
                    &&& r->Some_0@ == old(self)@.contents[i as int]
                    &&& final(self)@ == (DirListView {
                        contents: old(self)@.contents.update(i as int, final(r->Some_0)@),
                        ..old(self)@
                    })
                } else {
                    r is None && final(self)@ == old(self)@
                },
                None => r is None && final(self)@ == old(self)@,
            },
    {
        match self.index {
            Some(index) => self.get_curr_mut_(index),
            None => None,
        }
    }

    fn get_curr_mut_(&mut self, index: usize) -> (r: Option<&mut LllDirEntry>)
        ensures
            if index < old(self)@.contents.len() {
                &&& r is Some
                &&& r->Some_0@ == old(self)@.contents[index as int]
                &&& final(self)@ == (DirListView {
                    contents: old(self)@.contents.update(index as int, final(r->Some_0)@),
                    ..old(self)@
                })
            } else {
                r is None && final(self)@ == old(self)@
            },
    {
        if index < self.contents.len() {
            let entry = &mut self.contents[index];
            assert(entry_views(old(self).contents@.update(index as int, *final(entry)))
                =~= entry_views(old(self).contents@).update(index as int, final(entry)@));
            Some(entry)
        } else {
            None
        }
    }

    fn get_curr_ref_(&self, index: usize) -> (r: Option<&LllDirEntry>)
        ensures
            if index < self@.contents.len() {
                r is Some && r->Some_0@ == self@.contents[index as int]
            } else {
                r is None
            },
    {
        if index < self.contents.len() {
            Some(&self.contents[index])
        } else {
            None
        }
    }
}

/// What `kept` keeps: the children that were read and that `opt` shows.
pub proof fn lemma_kept_members(children: Seq<Option<EntryView>>, opt: SortOption, e: EntryView)
    ensures
        kept(children, opt).contains(e) <==> (children.contains(Some(e)) && opt.keeps(e)),
    decreases children.len(),
{
    if children.len() > 0 {
        let front = children.drop_last();
        lemma_kept_members(front, opt, e);
        let all = kept(children, opt);
        let before = kept(front, opt);
        if before.contains(e) {
            let i = choose|i: int| 0 <= i < before.len() && before[i] == e;
            assert(all[i] == e);
        }
        if front.contains(Some(e)) {
            let i = choose|i: int| 0 <= i < front.len() && front[i] == Some(e);
            assert(children[i] == Some(e));
        }
        if children.last() == Some(e) && opt.keeps(e) {
            assert(all.last() == e);
        }
        if all.contains(e) && !before.contains(e) {
            let i = choose|i: int| 0 <= i < all.len() && all[i] == e;
            if i < before.len() {
                assert(before[i] == e);
            }
            assert(children[children.len() - 1] == Some(e));
        }
        if children.contains(Some(e)) && !front.contains(Some(e)) {
            let i = choose|i: int| 0 <= i < children.len() && children[i] == Some(e);
            if i < front.len() {
                assert(front[i] == Some(e));
            }
        }
    }
}

/// The listing of a directory that can be read holds the children that
/// `opt` shows, each as often as the directory has it, in the order of
/// `opt`, with the cursor on the first of them.
pub proof fn lemma_new_listing(path: Seq<char>, snapshot: SnapshotView, opt: SortOption)
    requires
        snapshot.children is Ok,
        snapshot.metadata is Ok,
    ensures
        new_listing(path, snapshot, opt) is Ok,
        ({
            let list = new_listing(path, snapshot, opt)->Ok_0;
            &&& opt.sorted(list.contents)
            &&& list.contents.to_multiset() == kept(snapshot.children->Ok_0, opt).to_multiset()
            &&& forall|e: EntryView| #[trigger]
                list.contents.contains(e) <==> (snapshot.children->Ok_0.contains(Some(e))
                    && opt.keeps(e))
            &&& list.index == first_cursor(list.contents.len())
            &&& list.wf()
            &&& list.path == path
            &&& !list.outdated
        }),
{
    broadcast use vstd::seq_lib::group_to_multiset_ensures;

    let children = snapshot.children->Ok_0;
    let list = new_listing(path, snapshot, opt)->Ok_0;
    crate::sort::lemma_sort(opt, kept(children, opt));
    assert forall|e: EntryView| #[trigger]
        list.contents.contains(e) <==> (children.contains(Some(e)) && opt.keeps(e)) by {
        lemma_kept_members(children, opt, e);
        assert(list.contents.contains(e) <==> list.contents.to_multiset().count(e) > 0);
        assert(kept(children, opt).contains(e) <==> kept(children, opt).to_multiset().count(e)
            > 0);
    }
}

/// Putting the cursor back in range twice is the same as doing it once.
pub proof fn lemma_clamped_cursor_idempotent(index: Option<usize>, len: nat)
    requires
        len <= usize::MAX,
    ensures
        clamped_cursor(clamped_cursor(index, len), len) == clamped_cursor(index, len),
{
}

/// Reading a directory again a second time, with nothing changed on the
/// disk in between, gives the entries and the cursor of the first time.
pub proof fn lemma_update_contents_idempotent(
    list: DirListView,
    snapshot: SnapshotView,
    opt: SortOption,
)
    requires
        updated_listing(list, snapshot, opt) is Ok,
        listing_of(snapshot.children->Ok_0, opt).len() <= usize::MAX,
    ensures
        updated_listing(updated_listing(list, snapshot, opt)->Ok_0, snapshot, opt)
            == updated_listing(list, snapshot, opt),
{
    lemma_clamped_cursor_idempotent(list.index, listing_of(snapshot.children->Ok_0, opt).len());
}

/// Where no entry is selected and the cursor is on an entry, a command on
/// files works on that entry and on no other.
pub proof fn lemma_selection_fallback(list: DirListView)
    requires
        forall|i: int| 0 <= i < list.contents.len() ==> !list.contents[i].selected,
        cursor_entry(list) is Some,
    ensures
        selected_paths(list) == seq![cursor_entry(list)->Some_0.path],
{
    lemma_none_selected(list.contents);
}

/// Where no entry is selected, the selected entries are none.
pub proof fn lemma_none_selected(contents: Seq<EntryView>)
    requires
        forall|i: int| 0 <= i < contents.len() ==> !contents[i].selected,
    ensures
        selected_of(contents).len() == 0,
    decreases contents.len(),
{
    reveal(Seq::filter);
    if contents.len() > 0 {
        lemma_none_selected(contents.drop_last());
    }
}

} // verus!
