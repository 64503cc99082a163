use crate::error::{IoError, IoErrorView, LllError, LllErrorView};
use crate::sort::SortOption;
use crate::fs::disk::Disk;
use crate::history::DiskView;
use crate::tab::{refreshed, reloaded, LllTab, TabView};
use vstd::prelude::*;

verus! {

/// What `r` is as a value of the model.
pub open spec fn io_view(r: Result<(), IoError>) -> Result<(), IoErrorView> {
    match r {
        Ok(()) => Ok(()),
        Err(e) => Err(e@),
    }
}

/// What `r` is as a value of the model.
pub open spec fn lll_view(r: Result<(), LllError>) -> Result<(), LllErrorView> {
    match r {
        Ok(()) => Ok(()),
        Err(e) => Err(e@),
    }
}

/// A command that was to take the session from `before` to `expected` has
/// done so, or it has failed with the error of `expected` and left the
/// session as it was.
pub open spec fn carried_out(
    before: ContextView,
    after: ContextView,
    r: Result<(), IoErrorView>,
    expected: Result<ContextView, IoErrorView>,
) -> bool {
    match expected {
        Ok(session) => r is Ok && after == session,
        Err(e) => r == Err::<(), IoErrorView>(e) && after == before,
    }
}

/// Whether a file operation copies or moves.
#[derive(Clone, Copy, Debug, PartialEq, Eq, Structural)]
pub enum FileOperationKind {
    Copy,
    Move,
}

/// A copy or a move that a worker is carrying out: the tab it takes from
/// and the tab it puts into.
#[derive(Clone, Copy, Debug, PartialEq, Eq, Structural)]
pub struct FileOperation {
    pub tab_src: usize,
    pub tab_dest: usize,
    pub kind: FileOperationKind,
}

/// The settings that the session was started with.
#[derive(Clone, Copy, Debug, PartialEq, Eq)]
pub struct LllConfig {
    /// Which entries the listings show and in what order.
    pub sort_option: SortOption,
    /// The widths of the three columns, relative to each other.
    pub column_ratio: (usize, usize, usize),
}

/// The session: the tabs in order, which of them is the current one, and
/// the file operations that are under way.
#[derive(Debug)]
pub struct LllContext {
    tabs: Vec<LllTab>,
    curr_tab_index: usize,
    threads: Vec<FileOperation>,
    exit: bool,
    config_t: LllConfig,
}

/// What the session is in contracts.
pub struct ContextView {
    pub tabs: Seq<TabView>,
    pub curr_tab_index: usize,
    pub threads: Seq<FileOperation>,
    pub exit: bool,
    pub config_t: LllConfig,
}

impl ContextView {
    /// The tab that is the current one.
    pub open spec fn curr_tab(self) -> TabView {
        self.tabs[self.curr_tab_index as int]
    }

    /// The session with the tab at `i` replaced by `tab`.
    pub open spec fn with_tab(self, i: int, tab: TabView) -> ContextView {
        ContextView { tabs: self.tabs.update(i, tab), ..self }
    }

    /// Whether there is a tab, and so a current one.
    pub open spec fn has_tab(self) -> bool {
        self.curr_tab_index < self.tabs.len()
    }
}

/// The session after the listing of the tab at `index` was read again.
pub open spec fn reloaded_tab(session: ContextView, index: int, disk: DiskView) -> Result<
    ContextView,
    IoErrorView,
> {
    match reloaded(session.tabs[index], disk, session.config_t.sort_option) {
        Ok(tab) => Ok(session.with_tab(index, tab)),
        Err(e) => Err(e),
    }
}

/// The session as it is shown next: with the listing of the current tab
/// read again if that was marked as out of date.
pub open spec fn refreshed_session(session: ContextView, disk: DiskView) -> Result<
    ContextView,
    IoErrorView,
> {
    match refreshed(session.curr_tab(), disk, session.config_t.sort_option) {
        Ok(tab) => Ok(session.with_tab(session.curr_tab_index as int, tab)),
        Err(e) => Err(e),
    }
}

/// The tab with its listing and every listing in its cache marked as out
/// of date.
pub open spec fn depreciated_tab(tab: TabView) -> TabView {
    TabView { history: crate::history::all_depreciated(tab.history), ..tab.depreciated() }
}

/// The tabs with every listing marked as out of date.
pub open spec fn all_tabs_depreciated(tabs: Seq<TabView>) -> Seq<TabView> {
    Seq::new(tabs.len(), |i: int| depreciated_tab(tabs[i]))
}

/// The failure of leaving while workers are busy.
pub open spec fn operations_running() -> IoErrorView {
    IoErrorView { kind: crate::error::IoErrorKind::Other, message: "operations running"@ }
}

/// The session after it was asked to end: it ends, unless file operations
/// are under way and the end is not forced.
pub open spec fn quit_requested(session: ContextView, force: bool) -> Result<
    ContextView,
    IoErrorView,
> {
    if !force && session.threads.len() > 0 {
        Err(operations_running())
    } else {
        Ok(ContextView { exit: true, ..session })
    }
}

/// The views of the tabs of `tabs`.
pub open spec fn tab_views(tabs: Seq<LllTab>) -> Seq<TabView> {
    tabs.map_values(|t: LllTab| t@)
}

impl View for LllContext {
    type V = ContextView;

    closed spec fn view(&self) -> ContextView {
        ContextView {
            tabs: tab_views(self.tabs@),
            curr_tab_index: self.curr_tab_index,
            threads: self.threads@,
            exit: self.exit,
            config_t: self.config_t,
        }
    }
}

impl LllContext {
    /// Every tab is well formed, and the current tab is one of them unless
    /// there is none yet.
    pub closed spec fn wf(&self) -> bool {
        &&& forall|i: int| 0 <= i < self.tabs@.len() ==> (#[trigger] self.tabs@[i]).wf()
        &&& (self.tabs@.len() == 0 || self.curr_tab_index < self.tabs@.len())
    }

    /// In a well-formed session every tab has a well-formed view.
    pub proof fn lemma_wf(&self, i: int)
        requires
            self.wf(),
            0 <= i < self@.tabs.len(),
        ensures
            self@.tabs[i].wf(),
            self@.tabs.len() == 0 || self@.curr_tab_index < self@.tabs.len(),
    {
        self.tabs@[i].lemma_wf();
    }

    /// A session without tabs.
    pub fn new(config_t: LllConfig) -> (r: Self)
        ensures
            r.wf(),
            r@ == (ContextView {
                tabs: Seq::empty(),
                curr_tab_index: 0,
                threads: Seq::empty(),
                exit: false,
                config_t,
            }),
    {
        let r = LllContext {
            tabs: Vec::new(),
            curr_tab_index: 0,
            threads: Vec::new(),
            exit: false,
            config_t,
        };
        assert(r@.tabs =~= Seq::empty());
        r
    }

    /// The settings of the session.
    pub fn config(&self) -> (r: LllConfig)
        ensures
            r == self@.config_t,
    {
        self.config_t
    }

    /// Changes the settings. Every listing is marked as out of date, since
    /// the settings say what a listing shows and in what order.
    pub fn set_config(&mut self, config_t: LllConfig)
        requires
            old(self).wf(),
        ensures
            final(self).wf(),
            final(self)@ == (ContextView {
                config_t,
                tabs: all_tabs_depreciated(old(self)@.tabs),
                ..old(self)@
            }),
    {
        self.config_t = config_t;
        let n = self.tabs.len();
        let mut i: usize = 0;
        assert(self@.tabs =~= old(self)@.tabs);
        while i < n
            invariant
                i <= n,
                n == old(self)@.tabs.len(),
                self.wf(),
                self@.tabs.len() == n,
                self@.curr_tab_index == old(self)@.curr_tab_index,
                self@.threads == old(self)@.threads,
                self@.exit == old(self)@.exit,
                self@.config_t == config_t,
                forall|j: int|
                    0 <= j < i ==> #[trigger] self@.tabs[j] == depreciated_tab(old(self)@.tabs[j]),
                forall|j: int| i <= j < n ==> #[trigger] self@.tabs[j] == old(self)@.tabs[j],
            decreases n - i,
        {
            let tab = self.tab_mut(i);
            tab.depreciate_all();
            i = i + 1;
        }
        assert(self@.tabs =~= all_tabs_depreciated(old(self)@.tabs));
    }

    /// The number of tabs.
    pub fn tab_count(&self) -> (r: usize)
        ensures
            r == self@.tabs.len(),
    {
        self.tabs.len()
    }

    /// The index of the current tab.
    pub fn curr_tab_index(&self) -> (r: usize)
        ensures
            r == self@.curr_tab_index,
    {
        self.curr_tab_index
    }

    /// The tab at `index`.
    pub fn tab(&self, index: usize) -> (r: &LllTab)
        requires
            index < self@.tabs.len(),
        ensures
            r@ == self@.tabs[index as int],
            self.wf() ==> r.wf(),
    {
        &self.tabs[index]
    }

    /// The current tab.
    pub fn curr_tab_ref(&self) -> (r: &LllTab)
        requires
            self@.has_tab(),
        ensures
            r@ == self@.curr_tab(),
            self.wf() ==> r.wf(),
    {
        &self.tabs[self.curr_tab_index]
    }

    /// The tab at `index`, to change it in place.
    pub fn tab_mut(&mut self, index: usize) -> (r: &mut LllTab)
        requires
            old(self).wf(),
            index < old(self)@.tabs.len(),
        ensures
            r@ == old(self)@.tabs[index as int],
            r.wf(),
            final(self)@ == old(self)@.with_tab(index as int, final(r)@),
            final(r).wf() ==> final(self).wf(),
    {
        proof {
            Self::lemma_replace_tab(*old(self), *final(self), index as int);
        }
        &mut self.tabs[index]
    }

    proof fn lemma_replace_tab(before: Self, after: Self, i: int)
        requires
            before.wf(),
            0 <= i < before.tabs@.len(),
        ensures
            after.tabs@ == before.tabs@.update(i, after.tabs@[i]) && after.curr_tab_index
                == before.curr_tab_index && after.threads == before.threads && after.exit
                == before.exit && after.config_t == before.config_t ==> {
                &&& after@ == before@.with_tab(i, after.tabs@[i]@)
                &&& (after.tabs@[i].wf() ==> after.wf())
            },
    {
        if after.tabs@ == before.tabs@.update(i, after.tabs@[i]) {
            assert(tab_views(after.tabs@) =~= tab_views(before.tabs@).update(i, after.tabs@[i]@));
            if after.tabs@[i].wf() && after.curr_tab_index == before.curr_tab_index {
                assert forall|j: int| 0 <= j < after.tabs@.len() implies (
                #[trigger] after.tabs@[j]).wf() by {
                    if j != i {
                        assert(before.tabs@[j].wf());
                    }
                }
            }
        }
    }

    /// The current tab, to change it in place.
    pub fn curr_tab_mut(&mut self) -> (r: &mut LllTab)
        requires
            old(self).wf(),
            old(self)@.has_tab(),
        ensures
            r@ == old(self)@.curr_tab(),
            r.wf(),
            final(self)@ == old(self)@.with_tab(old(self)@.curr_tab_index as int, final(r)@),
            final(r).wf() ==> final(self).wf(),
    {
        let index = self.curr_tab_index;
        self.tab_mut(index)
    }

    /// Marks the listing of the tab at `index` as out of date.
    pub fn depreciate_tab(&mut self, index: usize)
        requires
            old(self).wf(),
            index < old(self)@.tabs.len(),
        ensures
            final(self).wf(),
            final(self)@ == old(self)@.with_tab(
                index as int,
                old(self)@.tabs[index as int].depreciated(),
            ),
    {
        let tab = self.tab_mut(index);
        tab.depreciate();
    }

    /// Reads the listing of the tab at `index` again. If its directory
    /// cannot be read, the session stays as it was.
    pub fn reload_tab(&mut self, index: usize, disk: &Disk) -> (r: Result<(), IoError>)
        requires
            old(self).wf(),
            index < old(self)@.tabs.len(),
            disk.wf(),
        ensures
            final(self).wf(),
            carried_out(
                old(self)@,
                final(self)@,
                io_view(r),
                reloaded_tab(old(self)@, index as int, disk@),
            ),
    {
        let sort_option = self.config_t.sort_option;
        let tab = self.tab_mut(index);
        let r = tab.reload(disk, &sort_option);
        proof {
            let session = old(self)@;
            assert(session.tabs.update(index as int, session.tabs[index as int]) =~= session.tabs);
        }
        r
    }

    /// Reads the listing of the current tab again if it was marked as out
    /// of date. If its directory cannot be read, the session stays as it
    /// was.
    pub fn refresh_curr_tab(&mut self, disk: &Disk) -> (r: Result<(), IoError>)
        requires
            old(self).wf(),
            old(self)@.has_tab(),
            disk.wf(),
        ensures
            final(self).wf(),
            carried_out(
                old(self)@,
                final(self)@,
                io_view(r),
                refreshed_session(old(self)@, disk@),
            ),
    {
        let sort_option = self.config_t.sort_option;
        let tab = self.curr_tab_mut();
        let r = tab.refresh_if_stale(disk, &sort_option);
        proof {
            let session = old(self)@;
            assert(session.tabs.update(session.curr_tab_index as int, session.curr_tab())
                =~= session.tabs);
        }
        r
    }

    /// Makes the tab at `index` the current one.
    pub fn set_curr_tab_index(&mut self, index: usize)
        requires
            old(self).wf(),
            index < old(self)@.tabs.len(),
        ensures
            final(self).wf(),
            final(self)@ == (ContextView { curr_tab_index: index, ..old(self)@ }),
    {
        self.curr_tab_index = index;
    }

    /// Adds `tab` behind the others and makes it the current one.
    pub fn push_tab(&mut self, tab: LllTab)
        requires
            old(self).wf(),
            tab.wf(),
        ensures
            final(self).wf(),
            final(self)@ == (ContextView {
                tabs: old(self)@.tabs.push(tab@),
                curr_tab_index: old(self)@.tabs.len() as usize,
                ..old(self)@
            }),
    {
        self.tabs.push(tab);
        self.curr_tab_index = self.tabs.len() - 1;
        assert(self@.tabs =~= old(self)@.tabs.push(tab@));
        assert forall|i: int| 0 <= i < self.tabs@.len() implies (#[trigger] self.tabs@[i]).wf() by {
            if i < old(self).tabs@.len() {
                assert(old(self).tabs@[i].wf());
            }
        }
    }

    /// Whether the session is to end.
    pub fn exit(&self) -> (r: bool)
        ensures
            r == self@.exit,
    {
        self.exit
    }

    /// Asks the session to end, or to go on.
    pub fn set_exit(&mut self, exit: bool)
        requires
            old(self).wf(),
        ensures
            final(self).wf(),
            final(self)@ == (ContextView { exit, ..old(self)@ }),
    {
        self.exit = exit;
    }

    /// Asks the session to end. While file operations are under way it
    /// ends only where `force` holds; else the request fails and the
    /// session stays as it was.
    pub fn quit(&mut self, force: bool) -> (r: Result<(), IoError>)
        requires
            old(self).wf(),
        ensures
            final(self).wf(),
            carried_out(old(self)@, final(self)@, io_view(r), quit_requested(old(self)@, force)),
    {
        if !force && self.threads.len() > 0 {
            Err(IoError::new(crate::error::IoErrorKind::Other, "operations running"))
        } else {
            self.exit = true;
            Ok(())
        }
    }

    /// The number of file operations that are under way.
    pub fn thread_count(&self) -> (r: usize)
        ensures
            r == self@.threads.len(),
    {
        self.threads.len()
    }

    /// The file operation at `index`.
    pub fn thread(&self, index: usize) -> (r: FileOperation)
        requires
            index < self@.threads.len(),
        ensures
            r == self@.threads[index as int],
    {
        self.threads[index]
    }

    /// Notes that a worker has started on `operation`.
    pub fn push_thread(&mut self, operation: FileOperation)
        requires
            old(self).wf(),
        ensures
            final(self).wf(),
            final(self)@ == (ContextView {
                threads: old(self)@.threads.push(operation),
                ..old(self)@
            }),
    {
        self.threads.push(operation);
    }

    /// Takes the file operation at `index` off the list; the last one
    /// takes its place.
    pub fn swap_remove_thread(&mut self, index: usize) -> (r: FileOperation)
        requires
            old(self).wf(),
            index < old(self)@.threads.len(),
        ensures
            final(self).wf(),
            r == old(self)@.threads[index as int],
            final(self)@ == (ContextView {
                threads: old(self)@.threads.update(
                    index as int,
                    old(self)@.threads.last(),
                ).drop_last(),
                ..old(self)@
            }),
    {
        self.threads.swap_remove(index)
    }
}

} // verus!
