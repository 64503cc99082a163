use crate::error::{IoError, IoErrorView};
use crate::fs::dirlist::{updated_listing, DirListView, LllDirList};
use crate::fs::disk::{snapshot_at, Disk};
use crate::history::{
    checked_out, populated, DirectoryHistory, DiskView, HistoryView, LllHistory,
};
use crate::path::{ancestors, ancestors_of};
use crate::text::{str_eq, string_views};
use crate::sort::SortOption;
use vstd::prelude::*;

verus! {

/// One navigation context: the directory it is in, the listing of that
/// directory, which it has checked out, and the cache of the listings it
/// has put aside.
#[derive(Debug)]
pub struct LllTab {
    history: LllHistory,
    curr_path: String,
    curr_list: LllDirList,
}

/// What a tab is in contracts.
pub struct TabView {
    pub history: HistoryView,
    pub curr_path: Seq<char>,
    pub curr_list: DirListView,
}

impl TabView {
    /// The listing that the tab shows is that of its directory, and the
    /// cache holds no second listing of that directory.
    pub open spec fn wf(self) -> bool {
        &&& self.curr_list.wf()
        &&& self.curr_list.path == self.curr_path
        &&& !self.history.contains_key(self.curr_path)
    }

    /// The tab with its listing marked as out of date.
    pub open spec fn depreciated(self) -> TabView {
        TabView { curr_list: DirListView { outdated: true, ..self.curr_list }, ..self }
    }
}

/// The tab after it has gone to `path`: its listing is checked in, the
/// directories above `path` get listings where `populate` asks for it, and
/// the listing of `path` is checked out.
pub open spec fn switched(
    tab: TabView,
    path: Seq<char>,
    populate: bool,
    disk: DiskView,
    opt: SortOption,
) -> Result<TabView, IoErrorView> {
    let checked_in = tab.history.insert(tab.curr_list.path, tab.curr_list);
    let cache = if populate {
        populated(checked_in, path, ancestors_of(path), disk, opt)
    } else {
        Ok(checked_in)
    };
    match cache {
        Err(e) => Err(e),
        Ok(cache) => match checked_out(cache, path, disk, opt) {
            Err(e) => Err(e),
            Ok(list) => Ok(TabView { history: cache.remove(path), curr_path: path, curr_list: list }),
        },
    }
}

/// The directories of `dirs` that `cache` has no listing of, in order.
pub open spec fn uncached(dirs: Seq<Seq<char>>, cache: HistoryView) -> Seq<Seq<char>>
    decreases dirs.len(),
{
    if dirs.len() == 0 {
        Seq::empty()
    } else if cache.contains_key(dirs.last()) {
        uncached(dirs.drop_last(), cache)
    } else {
        uncached(dirs.drop_last(), cache).push(dirs.last())
    }
}

/// The directories that are read for `tab` to go to `path`: `path` itself
/// and, where the directories above it get listings, those of them that
/// the tab has no listing of.
pub open spec fn switch_reads(tab: TabView, path: Seq<char>, populate: bool) -> Seq<Seq<char>> {
    if populate {
        seq![path] + uncached(
            ancestors_of(path),
            tab.history.insert(tab.curr_list.path, tab.curr_list),
        )
    } else {
        seq![path]
    }
}

/// A tab that starts in `path`.
pub open spec fn new_tab(path: Seq<char>, disk: DiskView, opt: SortOption) -> Result<
    TabView,
    IoErrorView,
> {
    match populated(Map::empty(), path, ancestors_of(path), disk, opt) {
        Err(e) => Err(e),
        Ok(cache) => match checked_out(cache, path, disk, opt) {
            Err(e) => Err(e),
            Ok(list) => Ok(TabView { history: cache.remove(path), curr_path: path, curr_list: list }),
        },
    }
}

/// The tab after its listing was read again.
pub open spec fn reloaded(tab: TabView, disk: DiskView, opt: SortOption) -> Result<
    TabView,
    IoErrorView,
> {
    match updated_listing(tab.curr_list, snapshot_at(disk, tab.curr_list.path), opt) {
        Ok(list) => Ok(TabView { curr_list: list, ..tab }),
        Err(e) => Err(e),
    }
}

/// The tab as it is shown next: with its listing read again if that was
/// marked as out of date.
pub open spec fn refreshed(tab: TabView, disk: DiskView, opt: SortOption) -> Result<
    TabView,
    IoErrorView,
> {
    if tab.curr_list.outdated {
        reloaded(tab, disk, opt)
    } else {
        Ok(tab)
    }
}

impl View for LllTab {
    type V = TabView;

    closed spec fn view(&self) -> TabView {
        TabView {
            history: self.history@,
            curr_path: self.curr_path@,
            curr_list: self.curr_list@,
        }
    }
}

impl LllTab {
    /// The cache is well formed, the listing that the tab shows is that of
    /// its directory, and the cache holds no second listing of it.
    pub closed spec fn wf(&self) -> bool {
        self.history.wf() && self@.wf()
    }

    /// A well-formed tab has a well-formed view.
    pub proof fn lemma_wf(&self)
        requires
            self.wf(),
        ensures
            self@.wf(),
    {
    }

    /// A tab that starts in `curr_path`, with listings cached for the
    /// directories above it.
    pub fn new(curr_path: String, disk: &Disk, sort_option: &SortOption) -> (r: Result<
        Self,
        IoError,
    >)
        requires
            disk.wf(),
        ensures
            match new_tab(curr_path@, disk@, *sort_option) {
                Ok(tab) => r is Ok && r->Ok_0@ == tab && r->Ok_0.wf(),
                Err(e) => r is Err && r->Err_0@ == e,
            },
    {
        let mut history = LllHistory::new();
        match history.populate_to_root(curr_path.as_str(), disk, sort_option) {
            Ok(()) => {},
            Err(e) => {
                return Err(e);
            },
        }
        match history.pop_or_create(curr_path.as_str(), disk, sort_option) {
            Ok(curr_list) => Ok(LllTab { history, curr_path, curr_list }),
            Err(e) => Err(e),
        }
    }

    /// The directory that the tab is in.
    pub fn curr_path(&self) -> (r: &String)
        ensures
            r@ == self@.curr_path,
    {
        &self.curr_path
    }

    /// The listing that the tab shows.
    pub fn curr_list(&self) -> (r: &LllDirList)
        ensures
            r@ == self@.curr_list,
            self.wf() ==> r.wf(),
    {
        &self.curr_list
    }

    /// The listing that the tab shows, to move its cursor or to change
    /// what is selected in it.
    pub fn curr_list_mut(&mut self) -> (r: &mut LllDirList)
        requires
            old(self).wf(),
        ensures
            r@ == old(self)@.curr_list,
            r.wf(),
            final(self)@ == (TabView { curr_list: final(r)@, ..old(self)@ }),
            final(r).wf() && final(r)@.path == r@.path ==> final(self).wf(),
    {
        &mut self.curr_list
    }

    /// The cache of the listings that the tab has put aside.
    pub fn history(&self) -> (r: &LllHistory)
        ensures
            r@ == self@.history,
            self.wf() ==> r.wf(),
    {
        &self.history
    }

    /// Marks the listing that the tab shows as out of date.
    pub fn depreciate(&mut self)
        requires
            old(self).wf(),
        ensures
            final(self).wf(),
            final(self)@ == old(self)@.depreciated(),
    {
        self.curr_list.depreciate();
    }

    /// Marks the listing that the tab shows and every listing in its cache
    /// as out of date, so that each is read again before it is shown.
    pub fn depreciate_all(&mut self)
        requires
            old(self).wf(),
        ensures
            final(self).wf(),
            final(self)@ == (TabView {
                history: crate::history::all_depreciated(old(self)@.history),
                ..old(self)@.depreciated()
            }),
    {
        self.curr_list.depreciate();
        self.history.depreciate_all_entries();
    }

    /// Reads the listing that the tab shows again. If the directory cannot
    /// be read, the tab stays as it was.
    pub fn reload(&mut self, disk: &Disk, sort_option: &SortOption) -> (r: Result<(), IoError>)
        requires
            old(self).wf(),
            disk.wf(),
        ensures
            final(self).wf(),
            match reloaded(old(self)@, disk@, *sort_option) {
                Ok(tab) => r is Ok && final(self)@ == tab,
                Err(e) => r is Err && r->Err_0@ == e && final(self)@ == old(self)@,
            },
    {
        self.curr_list.update_contents(disk, sort_option)
    }

    /// Reads the listing that the tab shows again if it was marked as out
    /// of date.
    pub fn refresh_if_stale(&mut self, disk: &Disk, sort_option: &SortOption) -> (r: Result<
        (),
        IoError,
    >)
        requires
            old(self).wf(),
            disk.wf(),
        ensures
            final(self).wf(),
            match refreshed(old(self)@, disk@, *sort_option) {
                Ok(tab) => r is Ok && final(self)@ == tab,
                Err(e) => r is Err && r->Err_0@ == e && final(self)@ == old(self)@,
            },
    {
        if self.curr_list.need_update() {
            self.curr_list.update_contents(disk, sort_option)
        } else {
            Ok(())
        }
    }

    /// The directories that have to be read for the tab to go to `path`:
    /// see `switch_to`.
    pub fn reads_for_switch(&self, path: &str, populate: bool) -> (r: Vec<String>)
        requires
            self.wf(),
        ensures
            string_views(r@) == switch_reads(self@, path@, populate),
    {
        let mut reads: Vec<String> = Vec::new();
        reads.push(path.to_owned());
        assert(string_views(reads@) =~= seq![path@]);
        if populate {
            let dirs = ancestors(path);
            let ghost all = ancestors_of(path@);
            let ghost cache = self@.history.insert(self@.curr_list.path, self@.curr_list);
            let mut i: usize = 0;
            assert(all.take(0) =~= Seq::<Seq<char>>::empty());
            assert(string_views(reads@) =~= seq![path@] + uncached(all.take(0), cache));
            while i < dirs.len()
                invariant
                    i <= dirs.len(),
                    self.wf(),
                    all == string_views(dirs@),
                    cache == self@.history.insert(self@.curr_list.path, self@.curr_list),
                    string_views(reads@) == seq![path@] + uncached(all.take(i as int), cache),
                decreases dirs.len() - i,
            {
                proof {
                    assert(all.take(i + 1).drop_last() =~= all.take(i as int));
                    assert(all.take(i + 1).last() == dirs@[i as int]@);
                }
                let dir: &String = &dirs[i];
                let cached = str_eq(dir.as_str(), self.curr_path.as_str())
                    || self.history.contains_key(dir.as_str());
                if !cached {
                    let ghost before = reads@;
                    reads.push(dir.clone());
                    assert(string_views(reads@) =~= string_views(before).push(dir@));
                    assert(string_views(reads@) =~= seq![path@] + uncached(
                        all.take(i + 1),
                        cache,
                    ));
                }
                i = i + 1;
            }
            assert(all.take(dirs.len() as int) =~= all);
        }
        reads
    }

    /// Puts back the listing that was checked in under `old_path`.
    fn restore(&mut self, old_path: &str)
        requires
            old(self).history.wf(),
            old(self).history@.contains_key(old_path@),
        ensures
            final(self).history.wf(),
            final(self).history@ == old(self).history@.remove(old_path@),
            final(self).curr_list@ == old(self).history@[old_path@],
            final(self).curr_list.wf(),
            final(self).curr_list@.path == old_path@,
            final(self).curr_path == old(self).curr_path,
    {
        match self.history.remove(old_path) {
            Some(list) => {
                self.curr_list = list;
            },
            None => {},
        }
    }

    /// Goes to `path`: checks the listing that the tab shows into the
    /// cache, adds listings for the directories above `path` where
    /// `populate` asks for it, and checks the listing of `path` out. If a
    /// directory cannot be read, the tab stays as it was.
    pub fn switch_to(&mut self, path: &str, populate: bool, disk: &Disk, sort_option: &SortOption)
        -> (r: Result<(), IoError>)
        requires
            old(self).wf(),
            disk.wf(),
        ensures
            final(self).wf(),
            match switched(old(self)@, path@, populate, disk@, *sort_option) {
                Ok(tab) => r is Ok && final(self)@ == tab,
                Err(e) => r is Err && r->Err_0@ == e && final(self)@ == old(self)@,
            },
    {
        let mut old_list = LllDirList::placeholder();
        std::mem::swap(&mut self.curr_list, &mut old_list);
        let old_path = old_list.file_path().clone();
        self.history.insert(old_path.clone(), old_list);
        let ghost checked_in = self.history@;
        assert(checked_in.remove(old_path@) =~= old(self).history@);
        let added = if populate {
            match self.history.populate(path, disk, sort_option) {
                Ok(added) => added,
                Err(e) => {
                    self.restore(old_path.as_str());
                    return Err(e);
                },
            }
        } else {
            let added: Vec<String> = Vec::new();
            assert(self.history@.remove_keys(crate::history::key_set(added@)) =~= checked_in);
            added
        };
        match self.history.pop_or_create(path, disk, sort_option) {
            Ok(list) => {
                self.curr_list = list;
                self.curr_path = path.to_owned();
                Ok(())
            },
            Err(e) => {
                self.history.forget(&added);
                self.restore(old_path.as_str());
                Err(e)
            },
        }
    }
}

} // verus!
