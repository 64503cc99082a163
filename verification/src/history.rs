use crate::error::{IoError, IoErrorView};
use crate::fs::dirlist::{
    new_listing, updated_listing, with_cursor_on, DirListView, LllDirList,
};
use crate::fs::disk::{snapshot_at, Disk, SnapshotView};
use crate::path::{ancestors, ancestors_of};
use crate::stringmap::StringMap;
use crate::sort::SortOption;
use crate::text::string_views;
use vstd::prelude::*;

verus! {

/// The listings that no tab shows at the moment, by path.
#[derive(Debug)]
pub struct LllHistory {
    lists: StringMap<LllDirList>,
}

/// What a cache of listings is in contracts: the listings by path.
pub type HistoryView = Map<Seq<char>, DirListView>;

/// What a disk image is in contracts: what reading each directory gave.
pub type DiskView = Map<Seq<char>, SnapshotView>;

/// The listing that is handed out for `path`: the cached one, read again
/// where it was marked as out of date or where the directory has changed
/// since it was read; a new one where none is cached.
pub open spec fn checked_out(cache: HistoryView, path: Seq<char>, disk: DiskView, opt: SortOption)
    -> Result<DirListView, IoErrorView> {
    if cache.contains_key(path) {
        let list = cache[path];
        let snapshot = snapshot_at(disk, list.path);
        if list.outdated {
            updated_listing(list, snapshot, opt)
        } else {
            match snapshot.metadata {
                Err(e) => Err(e),
                Ok(metadata) => if metadata.modified > list.metadata.modified {
                    updated_listing(list, snapshot, opt)
                } else {
                    Ok(list)
                },
            }
        }
    } else {
        new_listing(path, snapshot_at(disk, path), opt)
    }
}

/// The listing of the directory `dir` with the cursor on its child
/// `child`, where it has such a child.
pub open spec fn ancestor_listing(
    dir: Seq<char>,
    child: Seq<char>,
    disk: DiskView,
    opt: SortOption,
) -> Result<DirListView, IoErrorView> {
    match new_listing(dir, snapshot_at(disk, dir), opt) {
        Ok(list) => Ok(with_cursor_on(list, child)),
        Err(e) => Err(e),
    }
}

/// The cache after a listing was added for each directory of `dirs` that
/// had none. `dirs` runs upward from the directory that holds `child`; each
/// new listing has the cursor on the directory below it.
pub open spec fn populated(
    cache: HistoryView,
    child: Seq<char>,
    dirs: Seq<Seq<char>>,
    disk: DiskView,
    opt: SortOption,
) -> Result<HistoryView, IoErrorView>
    decreases dirs.len(),
{
    if dirs.len() == 0 {
        Ok(cache)
    } else if cache.contains_key(dirs[0]) {
        populated(cache, dirs[0], dirs.drop_first(), disk, opt)
    } else {
        match ancestor_listing(dirs[0], child, disk, opt) {
            Ok(list) => populated(cache.insert(dirs[0], list), dirs[0], dirs.drop_first(), disk, opt),
            Err(e) => Err(e),
        }
    }
}

/// The cache with every listing marked as out of date.
pub open spec fn all_depreciated(cache: HistoryView) -> HistoryView {
    cache.map_values(|list: DirListView| DirListView { outdated: true, ..list })
}

/// The paths of `keys`, as a set.
pub open spec fn key_set(keys: Seq<String>) -> Set<Seq<char>> {
    Set::new(|k: Seq<char>| string_views(keys).contains(k))
}

impl View for LllHistory {
    type V = HistoryView;

    closed spec fn view(&self) -> HistoryView {
        Map::new(|k: Seq<char>| self.lists@.contains_key(k), |k: Seq<char>| self.lists@[k]@)
    }
}

impl LllHistory {
    /// Every cached listing is well formed and is cached under its own
    /// path.
    pub closed spec fn wf(&self) -> bool {
        &&& self.lists.wf()
        &&& forall|k: Seq<char>| #[trigger]
            self.lists@.contains_key(k) ==> self.lists@[k].wf() && self.lists@[k]@.path == k
    }

    /// In a well-formed cache every listing is well formed and has the
    /// path under which it is cached.
    pub proof fn lemma_wf(&self, path: Seq<char>)
        requires
            self.wf(),
            self@.contains_key(path),
        ensures
            self@[path].wf(),
            self@[path].path == path,
    {
        assert(self.lists@.contains_key(path));
    }

    /// The cache that holds nothing.
    pub fn new() -> (r: Self)
        ensures
            r.wf(),
            r@ == Map::<Seq<char>, DirListView>::empty(),
    {
        let r = LllHistory { lists: StringMap::new() };
        assert(r@ =~= Map::<Seq<char>, DirListView>::empty());
        r
    }

    /// Whether a listing is cached for `path`.
    pub fn contains_key(&self, path: &str) -> (r: bool)
        requires
            self.wf(),
        ensures
            r == self@.contains_key(path@),
    {
        self.lists.contains_key(path)
    }

    /// The number of cached listings.
    pub fn len(&self) -> (r: usize)
        requires
            self.wf(),
        ensures
            r == self@.dom().len(),
    {
        proof {
            self.lists.lemma_count();
            assert(self@.dom() =~= self.lists@.dom());
        }
        self.lists.len()
    }

    /// The cached listing of `path`.
    pub fn get(&self, path: &str) -> (r: Option<&LllDirList>)
        requires
            self.wf(),
        ensures
            match r {
                Some(list) => self@.contains_key(path@) && list@ == self@[path@] && list.wf(),
                None => !self@.contains_key(path@),
            },
    {
        self.lists.get(path)
    }

    /// Checks `list` in as the listing of `path`, in place of the one that
    /// was cached for it.
    pub fn insert(&mut self, path: String, list: LllDirList)
        requires
            old(self).wf(),
            list.wf(),
            list@.path == path@,
        ensures
            final(self).wf(),
            final(self)@ == old(self)@.insert(path@, list@),
    {
        self.lists.insert(path, list);
        assert(self@ =~= old(self)@.insert(path@, list@));
    }

    /// Takes the listing of `path` out of the cache, as it is.
    pub fn remove(&mut self, path: &str) -> (r: Option<LllDirList>)
        requires
            old(self).wf(),
        ensures
            final(self).wf(),
            final(self)@ == old(self)@.remove(path@),
            match r {
                Some(list) => old(self)@.contains_key(path@) && list@ == old(self)@[path@]
                    && list.wf() && list@.path == path@,
                None => !old(self)@.contains_key(path@),
            },
    {
        let r = self.lists.remove(path);
        assert(self@ =~= old(self)@.remove(path@));
        r
    }

    /// Replacing one listing by another of the same path keeps the cache
    /// well formed.
    proof fn lemma_replace(before: Self, after: Self, path: Seq<char>)
        requires
            before.wf(),
            before.lists@.contains_key(path),
        ensures
            after.lists.wf() && after.lists@ == before.lists@.insert(path, after.lists@[path]) ==> {
                &&& after@ == before@.insert(path, after.lists@[path]@)
                &&& (after.lists@[path].wf() && after.lists@[path]@.path == path ==> after.wf())
            },
    {
        if after.lists.wf() && after.lists@ == before.lists@.insert(path, after.lists@[path]) {
            assert(after@ =~= before@.insert(path, after.lists@[path]@));
            if after.lists@[path].wf() && after.lists@[path]@.path == path {
                assert forall|k: Seq<char>| #[trigger] after.lists@.contains_key(k) implies after.lists@[k].wf()
                    && after.lists@[k]@.path == k by {
                    if k != path {
                        assert(before.lists@.contains_key(k));
                    }
                }
            }
        }
    }

    /// Takes the listings of `keys` out of the cache.
    pub fn forget(&mut self, keys: &Vec<String>)
        requires
            old(self).wf(),
        ensures
            final(self).wf(),
            final(self)@ == old(self)@.remove_keys(key_set(keys@)),
    {
        let mut i: usize = 0;
        assert(self@ =~= old(self)@.remove_keys(key_set(keys@.take(0))));
        while i < keys.len()
            invariant
                i <= keys.len(),
                self.wf(),
                self@ == old(self)@.remove_keys(key_set(keys@.take(i as int))),
            decreases keys.len() - i,
        {
            self.remove(keys[i].as_str());
            proof {
                let done = string_views(keys@.take(i as int));
                let next = string_views(keys@.take(i + 1));
                assert(next =~= done.push(keys@[i as int]@));
                assert forall|k: Seq<char>| next.contains(k) <==> (done.contains(k) || k
                    == keys@[i as int]@) by {
                    if done.contains(k) {
                        let j = choose|j: int| 0 <= j < done.len() && done[j] == k;
                        assert(next[j] == k);
                    }
                    if k == keys@[i as int]@ {
                        assert(next[i as int] == k);
                    }
                }
                assert(self@ =~= old(self)@.remove_keys(key_set(keys@.take(i + 1))));
            }
            i = i + 1;
        }
        assert(keys@.take(keys.len() as int) =~= keys@);
    }

    /// Adds a listing for each directory above `pathbuf` that has none, and
    /// hands out the paths of those that were added.
    pub fn populate(&mut self, pathbuf: &str, disk: &Disk, sort_option: &SortOption) -> (r: Result<
        Vec<String>,
        IoError,
    >)
        requires
            old(self).wf(),
            disk.wf(),
        ensures
            final(self).wf(),
            match populated(
                old(self)@,
                pathbuf@,
                ancestors_of(pathbuf@),
                disk@,
                *sort_option,
            ) {
                Ok(cache) => {
                    &&& r is Ok
                    &&& final(self)@ == cache
                    &&& final(self)@.remove_keys(key_set(r->Ok_0@)) == old(self)@
                },
                Err(e) => r is Err && r->Err_0@ == e && final(self)@ == old(self)@,
            },
    {
        let dirs = ancestors(pathbuf);
        let ghost all = ancestors_of(pathbuf@);
        let mut added: Vec<String> = Vec::new();
        let mut child: String = pathbuf.to_owned();
        let mut i: usize = 0;
        assert(all.skip(0) =~= all);
        assert(self@.remove_keys(key_set(added@)) =~= old(self)@);
        while i < dirs.len()
            invariant
                i <= dirs.len(),
                self.wf(),
                disk.wf(),
                all == string_views(dirs@),
                all == ancestors_of(pathbuf@),
                populated(old(self)@, pathbuf@, all, disk@, *sort_option) == populated(
                    self@,
                    child@,
                    all.skip(i as int),
                    disk@,
                    *sort_option,
                ),
                self@.remove_keys(key_set(added@)) == old(self)@,
            decreases dirs.len() - i,
        {
            let dir: &String = &dirs[i];
            proof {
                assert(all.skip(i as int)[0] == dir@);
                assert(all.skip(i as int).drop_first() =~= all.skip(i + 1));
            }
            if !self.contains_key(dir.as_str()) {
                match LllDirList::new(dir.clone(), disk, sort_option) {
                    Err(e) => {
                        self.forget(&added);
                        return Err(e);
                    },
                    Ok(mut dirlist) => {
                        dirlist.set_cursor_on(child.as_str());
                        let ghost before = self@;
                        let ghost before_added = added@;
                        self.insert(dir.clone(), dirlist);
                        added.push(dir.clone());
                        proof {
                            let done = string_views(before_added);
                            let next = string_views(added@);
                            assert(next =~= done.push(dir@));
                            assert forall|k: Seq<char>| next.contains(k) <==> (done.contains(k)
                                || k == dir@) by {
                                if done.contains(k) {
                                    let j = choose|j: int| 0 <= j < done.len() && done[j] == k;
                                    assert(next[j] == k);
                                }
                                if k == dir@ {
                                    assert(next[done.len() as int] == k);
                                }
                            }
                            assert(!old(self)@.contains_key(dir@)) by {
                                if old(self)@.contains_key(dir@) {
                                    assert(before.remove_keys(key_set(before_added)).contains_key(
                                        dir@,
                                    ));
                                }
                            }
                            assert(self@.remove_keys(key_set(added@)) =~= old(self)@);
                        }
                    },
                }
            }
            child = dir.clone();
            i = i + 1;
        }
        Ok(added)
    }

}

/// The cache of a tab: the listings that it has put aside, by path. A
/// listing is either in the cache or checked out by the tab, never both.
pub trait DirectoryHistory {
    /// The listings that the cache holds, by path.
    spec fn listings(&self) -> HistoryView;

    /// Every cached listing is well formed and is cached under its own
    /// path.
    spec fn valid(&self) -> bool;

    /// Makes sure that a listing is cached for every directory above
    /// `pathbuf`, up to the root. A listing that is made for it has the
    /// cursor on the directory that leads down to `pathbuf`; one that is
    /// cached already stays as it is. If a directory cannot be read, the
    /// cache stays as it was.
    fn populate_to_root(&mut self, pathbuf: &str, disk: &Disk, sort_option: &SortOption) -> (r:
        Result<(), IoError>)
        requires
            old(self).valid(),
            disk.wf(),
        ensures
            final(self).valid(),
            match populated(
                old(self).listings(),
                pathbuf@,
                ancestors_of(pathbuf@),
                disk@,
                *sort_option,
            ) {
                Ok(cache) => r is Ok && final(self).listings() == cache,
                Err(e) => r is Err && r->Err_0@ == e && final(self).listings() == old(self).listings(),
            },
    ;

    /// Checks the listing of `path` out of the cache: the cached one, read
    /// again where it was marked as out of date or where the directory has
    /// changed since; a new one where none was cached. If the directory
    /// cannot be read, the cache stays as it was.
    fn pop_or_create(&mut self, path: &str, disk: &Disk, sort_option: &SortOption) -> (r:
        Result<LllDirList, IoError>)
        requires
            old(self).valid(),
            disk.wf(),
        ensures
            final(self).valid(),
            match checked_out(old(self).listings(), path@, disk@, *sort_option) {
                Ok(list) => {
                    &&& r is Ok
                    &&& r->Ok_0@ == list
                    &&& r->Ok_0.wf()
                    &&& list.path == path@
                    &&& final(self).listings() == old(self).listings().remove(path@)
                },
                Err(e) => r is Err && r->Err_0@ == e && final(self).listings() == old(self).listings(),
            },
    ;

    /// The cached listing of `path`, made and cached first where there was
    /// none. A cached listing is handed out as it is.
    fn get_mut_or_create(&mut self, path: &str, disk: &Disk, sort_option: &SortOption) -> (r:
        Result<&mut LllDirList, IoError>)
        requires
            old(self).valid(),
            disk.wf(),
        ensures
            if old(self).listings().contains_key(path@) {
                &&& r is Ok
                &&& r->Ok_0@ == old(self).listings()[path@]
                &&& final(self).listings() == old(self).listings().insert(path@, final(r->Ok_0)@)
            } else {
                match new_listing(path@, snapshot_at(disk@, path@), *sort_option) {
                    Ok(list) => {
                        &&& r is Ok
                        &&& r->Ok_0@ == list
                        &&& final(self).listings() == old(self).listings().insert(path@, final(r->Ok_0)@)
                    },
                    Err(e) => {
                        &&& r is Err
                        &&& r->Err_0@ == e
                        &&& final(self).listings() == old(self).listings()
                        &&& final(self).valid()
                    },
                }
            },
            r is Ok ==> r->Ok_0.wf() && r->Ok_0@.path == path@,
            r is Ok && final(r->Ok_0).wf() && final(r->Ok_0)@.path == path@ ==> final(self).valid(),
    ;

    /// Marks every cached listing as out of date.
    fn depreciate_all_entries(&mut self)
        requires
            old(self).valid(),
        ensures
            final(self).valid(),
            final(self).listings() == all_depreciated(old(self).listings()),
    ;
}

impl DirectoryHistory for LllHistory {
    open spec fn listings(&self) -> HistoryView {
        self@
    }

    open spec fn valid(&self) -> bool {
        self.wf()
    }

    fn populate_to_root(&mut self, pathbuf: &str, disk: &Disk, sort_option: &SortOption) -> (r:
        Result<(), IoError>)
    {
        match self.populate(pathbuf, disk, sort_option) {
            Ok(_) => Ok(()),
            Err(e) => Err(e),
        }
    }

    fn pop_or_create(&mut self, path: &str, disk: &Disk, sort_option: &SortOption) -> (r:
        Result<LllDirList, IoError>)
    {
        match self.remove(path) {
            Some(mut dirlist) => {
                let refreshed = if dirlist.need_update() {
                    dirlist.update_contents(disk, sort_option)
                } else {
                    match disk.metadata(dirlist.file_path().as_str()) {
                        Err(e) => Err(e),
                        Ok(metadata) => {
                            if metadata.modified > dirlist.metadata().modified {
                                dirlist.update_contents(disk, sort_option)
                            } else {
                                Ok(())
                            }
                        },
                    }
                };
                match refreshed {
                    Ok(()) => Ok(dirlist),
                    Err(e) => {
                        self.insert(path.to_owned(), dirlist);
                        assert(self@ =~= old(self)@);
                        Err(e)
                    },
                }
            },
            None => LllDirList::new(path.to_owned(), disk, sort_option),
        }
    }

    fn get_mut_or_create(&mut self, path: &str, disk: &Disk, sort_option: &SortOption) -> (r:
        Result<&mut LllDirList, IoError>)
    {
        let index = match self.lists.index_of(path) {
            Some(index) => index,
            None => {
                match LllDirList::new(path.to_owned(), disk, sort_option) {
                    Ok(s) => self.lists.insert_absent(path.to_owned(), s),
                    Err(e) => {
                        return Err(e);
                    },
                }
            },
        };
        proof {
            self.lists.lemma_pair(index as int);
            assert(self@ =~= old(self)@.insert(path@, self@[path@]));
            Self::lemma_replace(*self, *final(self), path@);
        }
        Ok(self.lists.value_mut_at(index))
    }

    fn depreciate_all_entries(&mut self)
    {
        let n = self.lists.len();
        let mut i: usize = 0;
        while i < n
            invariant
                i <= n,
                n == self.lists.count(),
                self.lists.wf(),
                old(self).lists.wf(),
                old(self).wf(),
                self.lists.count() == old(self).lists.count(),
                forall|j: int|
                    0 <= j < n ==> #[trigger] self.lists.key_at(j) == old(self).lists.key_at(j),
                forall|j: int|
                    0 <= j < i ==> (#[trigger] self.lists.value_at(j))@ == (DirListView {
                        outdated: true,
                        ..old(self).lists.value_at(j)@
                    }),
                forall|j: int|
                    i <= j < n ==> #[trigger] self.lists.value_at(j) == old(self).lists.value_at(j),
            decreases n - i,
        {
            let list = self.lists.value_mut_at(i);
            list.depreciate();
            i = i + 1;
        }
        proof {
            let before = old(self).lists;
            let after = self.lists;
            assert forall|k: Seq<char>| #[trigger]
                after@.contains_key(k) <==> before@.contains_key(k) by {
                if after@.contains_key(k) {
                    after.lemma_position(k);
                    let p = after.position(k);
                    assert(before.key_at(p) == k);
                    before.lemma_pair(p);
                }
                if before@.contains_key(k) {
                    before.lemma_position(k);
                    let p = before.position(k);
                    assert(after.key_at(p) == k);
                    after.lemma_pair(p);
                }
            }
            assert forall|k: Seq<char>| #[trigger] after@.contains_key(k) implies after@[k]@ == (
            DirListView { outdated: true, ..before@[k]@ }) by {
                after.lemma_position(k);
                let p = after.position(k);
                assert(before.key_at(p) == k);
                before.lemma_pair(p);
                assert(after.value_at(p)@ == (DirListView {
                    outdated: true,
                    ..before.value_at(p)@
                }));
            }
            assert(self@ =~= all_depreciated(old(self)@));
            assert forall|k: Seq<char>| #[trigger] self.lists@.contains_key(k) implies self.lists@[k].wf()
                && self.lists@[k]@.path == k by {
                assert(before@.contains_key(k));
            }
        }
    }
}

/// A listing that is checked in and checked out again, with nothing
/// changed on the disk in between, comes back as it went in, and the cache
/// holds it no longer.
pub proof fn lemma_insert_pop_round_trip(
    cache: HistoryView,
    path: Seq<char>,
    list: DirListView,
    disk: DiskView,
    opt: SortOption,
)
    requires
        !list.outdated,
        snapshot_at(disk, list.path).metadata is Ok,
        snapshot_at(disk, list.path).metadata->Ok_0.modified <= list.metadata.modified,
    ensures
        checked_out(cache.insert(path, list), path, disk, opt) == Ok::<DirListView, IoErrorView>(
            list,
        ),
        cache.insert(path, list).remove(path) == cache.remove(path),
{
    assert(cache.insert(path, list).remove(path) =~= cache.remove(path));
}

/// A listing that was marked as out of date, or whose directory has
/// changed on the disk since it was read, is read again when it is checked
/// out.
pub proof fn lemma_stale_is_rescanned(
    cache: HistoryView,
    path: Seq<char>,
    disk: DiskView,
    opt: SortOption,
)
    requires
        cache.contains_key(path),
        cache[path].outdated || (snapshot_at(disk, cache[path].path).metadata matches Ok(m)
            && m.modified > cache[path].metadata.modified),
    ensures
        checked_out(cache, path, disk, opt) == updated_listing(
            cache[path],
            snapshot_at(disk, cache[path].path),
            opt,
        ),
{
}

/// The cache that populating goes on with after the first of `dirs`.
pub open spec fn populated_step(
    cache: HistoryView,
    child: Seq<char>,
    dir: Seq<char>,
    disk: DiskView,
    opt: SortOption,
) -> HistoryView {
    if cache.contains_key(dir) {
        cache
    } else {
        cache.insert(dir, ancestor_listing(dir, child, disk, opt)->Ok_0)
    }
}

/// Populating keeps every listing that the cache holds, and adds listings
/// for the directories that had none and for nothing else.
pub proof fn lemma_populated_keeps(
    cache: HistoryView,
    child: Seq<char>,
    dirs: Seq<Seq<char>>,
    disk: DiskView,
    opt: SortOption,
)
    requires
        populated(cache, child, dirs, disk, opt) is Ok,
    ensures
        forall|k: Seq<char>| #[trigger]
            populated(cache, child, dirs, disk, opt)->Ok_0.contains_key(k) <==> (
            cache.contains_key(k) || dirs.contains(k)),
        forall|k: Seq<char>|
            cache.contains_key(k) ==> #[trigger] populated(cache, child, dirs, disk, opt)->Ok_0[k]
                == cache[k],
    decreases dirs.len(),
{
    if dirs.len() > 0 {
        let rest = dirs.drop_first();
        let after = populated(cache, child, dirs, disk, opt)->Ok_0;
        let next = populated_step(cache, child, dirs[0], disk, opt);
        assert(after == populated(next, dirs[0], rest, disk, opt)->Ok_0);
        lemma_populated_keeps(next, dirs[0], rest, disk, opt);
        assert forall|k: Seq<char>| #[trigger]
            after.contains_key(k) <==> (cache.contains_key(k) || dirs.contains(k)) by {
            if rest.contains(k) {
                let j = choose|j: int| 0 <= j < rest.len() && rest[j] == k;
                assert(dirs[j + 1] == k);
            }
            if dirs.contains(k) {
                let j = choose|j: int| 0 <= j < dirs.len() && dirs[j] == k;
                if j > 0 {
                    assert(rest[j - 1] == k);
                }
            }
            if k == dirs[0] {
                assert(next.contains_key(k));
                assert(dirs.contains(k));
            }
        }
        assert forall|k: Seq<char>| cache.contains_key(k) implies #[trigger] after[k]
            == cache[k] by {
            assert(next.contains_key(k));
            assert(next[k] == cache[k]);
        }
    }
}

/// The listing that populating adds for a directory that had none and
/// that occurs once has the cursor on the directory below it.
pub proof fn lemma_populated_adds(
    cache: HistoryView,
    child: Seq<char>,
    dirs: Seq<Seq<char>>,
    disk: DiskView,
    opt: SortOption,
    i: int,
)
    requires
        populated(cache, child, dirs, disk, opt) is Ok,
        dirs.no_duplicates(),
        0 <= i < dirs.len(),
        !cache.contains_key(dirs[i]),
    ensures
        Ok::<DirListView, IoErrorView>(populated(cache, child, dirs, disk, opt)->Ok_0[dirs[i]])
            == ancestor_listing(
            dirs[i],
            if i == 0 {
                child
            } else {
                dirs[i - 1]
            },
            disk,
            opt,
        ),
    decreases dirs.len(),
{
    let rest = dirs.drop_first();
    let after = populated(cache, child, dirs, disk, opt)->Ok_0;
    let next = populated_step(cache, child, dirs[0], disk, opt);
    assert(after == populated(next, dirs[0], rest, disk, opt)->Ok_0);
    if i == 0 {
        lemma_populated_keeps(next, dirs[0], rest, disk, opt);
        assert(next.contains_key(dirs[0]));
        assert(after[dirs[0]] == next[dirs[0]]);
    } else {
        assert(rest[i - 1] == dirs[i]);
        assert(dirs[i] != dirs[0]);
        assert(!next.contains_key(rest[i - 1]));
        assert(rest.no_duplicates()) by {
            assert forall|a: int, b: int| 0 <= a < rest.len() && 0 <= b < rest.len() && a
                != b implies rest[a] != rest[b] by {
                assert(dirs[a + 1] != dirs[b + 1]);
            }
        }
        if i > 1 {
            assert(rest[i - 2] == dirs[i - 1]);
        }
        lemma_populated_adds(next, dirs[0], rest, disk, opt, i - 1);
    }
}

/// Populating an empty cache for a path gives a listing for each
/// directory above the path, and none for the path itself; each listing
/// has the cursor on the directory that leads down to the path.
pub proof fn lemma_populate_to_root(path: Seq<char>, disk: DiskView, opt: SortOption)
    requires
        populated(Map::empty(), path, ancestors_of(path), disk, opt) is Ok,
    ensures
        ({
            let dirs = ancestors_of(path);
            let cache = populated(Map::empty(), path, dirs, disk, opt)->Ok_0;
            &&& forall|k: Seq<char>| #[trigger] cache.contains_key(k) <==> dirs.contains(k)
            &&& !cache.contains_key(path)
            &&& forall|i: int|
                0 <= i < dirs.len() ==> Ok::<DirListView, IoErrorView>(cache[#[trigger] dirs[i]])
                    == ancestor_listing(
                    dirs[i],
                    if i == 0 {
                        path
                    } else {
                        dirs[i - 1]
                    },
                    disk,
                    opt,
                )
        }),
{
    let dirs = ancestors_of(path);
    let cache = populated(Map::empty(), path, dirs, disk, opt)->Ok_0;
    crate::path::lemma_ancestors_shorter(path);
    assert(dirs.no_duplicates()) by {
        assert forall|i: int, j: int| 0 <= i < dirs.len() && 0 <= j < dirs.len() && i
            != j implies dirs[i] != dirs[j] by {
            if i < j {
                assert(dirs[j].len() < dirs[i].len());
            } else {
                assert(dirs[i].len() < dirs[j].len());
            }
        }
    }
    lemma_populated_keeps(Map::empty(), path, dirs, disk, opt);
    if dirs.contains(path) {
        let j = choose|j: int| 0 <= j < dirs.len() && dirs[j] == path;
        assert(dirs[j].len() < path.len());
    }
    assert forall|i: int| 0 <= i < dirs.len() implies Ok::<DirListView, IoErrorView>(
        cache[#[trigger] dirs[i]],
    ) == ancestor_listing(
        dirs[i],
        if i == 0 {
            path
        } else {
            dirs[i - 1]
        },
        disk,
        opt,
    ) by {
        lemma_populated_adds(Map::empty(), path, dirs, disk, opt, i);
    }
}

} // verus!
