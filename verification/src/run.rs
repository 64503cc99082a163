use crate::context::{
    io_view, reloaded_tab, ContextView, FileOperation, LllContext,
};
use crate::error::{IoError, IoErrorView, LllError, LllErrorView, WorkerError};
use crate::fs::disk::Disk;
use crate::history::DiskView;
use crate::tab::{new_tab, LllTab};
use crate::text::{i32_to_string, signed_decimal, string_views};
use vstd::prelude::*;
use vstd::string::StringExecFns;

verus! {

/// For how many milliseconds the loop waits on a worker, and on the
/// keyboard while a worker is busy.
pub const THREAD_WAIT_MILLIS: u64 = 100;

/// How long the loop waits for a key.
#[derive(Clone, Copy, Debug, PartialEq, Eq, Structural)]
pub enum InputWait {
    /// Until a key comes: no file operation is under way.
    Indefinite,
    /// For a short while, so that the workers are looked after in between.
    Short,
}

/// How long the loop waits for the next key: for a short while as long
/// as a file operation is under way, else until the key comes.
pub fn input_wait(context: &LllContext) -> (r: InputWait)
    ensures
        r == (if context@.threads.len() > 0 {
            InputWait::Short
        } else {
            InputWait::Indefinite
        }),
{
    if context.thread_count() > 0 {
        InputWait::Short
    } else {
        InputWait::Indefinite
    }
}

/// How far a worker has come.
#[derive(Debug, PartialEq, Eq)]
pub struct ProgressInfo {
    pub bytes_done: u64,
    pub bytes_total: u64,
    pub current_item_name: String,
}

/// What looking after a worker once has brought.
#[derive(Debug, PartialEq, Eq)]
pub enum WorkerEvent {
    /// A report on how far it has come.
    Progress(ProgressInfo),
    /// Its channel is closed: it is done, one way or the other.
    Disconnected,
    /// Nothing within the wait.
    Idle,
}

/// What the loop does about a worker next.
#[derive(Debug, PartialEq, Eq)]
pub enum PollAction {
    /// Shows the report on the status line and goes on to the next worker.
    ShowProgress(ProgressInfo),
    /// Joins the worker, takes in how it ended, and looks after no other
    /// worker in this round.
    Join(FileOperation),
    /// Goes on to the next worker.
    Continue,
}

/// What the loop does about the worker at `index` after `event`, and the
/// session after it: a worker that is done leaves the list of file
/// operations, the last one taking its place.
pub open spec fn polled(session: ContextView, index: int, event: WorkerEvent) -> (
    ContextView,
    PollAction,
) {
    match event {
        WorkerEvent::Progress(info) => (session, PollAction::ShowProgress(info)),
        WorkerEvent::Disconnected => (
            ContextView {
                threads: session.threads.update(index, session.threads.last()).drop_last(),
                ..session
            },
            PollAction::Join(session.threads[index]),
        ),
        WorkerEvent::Idle => (session, PollAction::Continue),
    }
}

/// Takes in what looking after the worker at `index` has brought, and
/// says what the loop does next.
pub fn process_thread(context: &mut LllContext, index: usize, event: WorkerEvent) -> (r: PollAction)
    requires
        old(context).wf(),
        index < old(context)@.threads.len(),
    ensures
        final(context).wf(),
        (final(context)@, r) == polled(old(context)@, index as int, event),
{
    match event {
        WorkerEvent::Progress(info) => PollAction::ShowProgress(info),
        WorkerEvent::Disconnected => PollAction::Join(context.swap_remove_thread(index)),
        WorkerEvent::Idle => PollAction::Continue,
    }
}

/// How a worker has ended.
#[derive(Debug, PartialEq, Eq)]
pub enum JoinOutcome {
    /// It has done its work.
    Finished,
    /// It has failed, with this to say.
    Failed(String),
}

/// The session with the listing of the tab at `index` marked as out of
/// date, if there is such a tab.
pub open spec fn marked(session: ContextView, index: usize) -> ContextView {
    if index < session.tabs.len() {
        session.with_tab(index as int, session.tabs[index as int].depreciated())
    } else {
        session
    }
}

/// The session after the listing of the tab at `index` was to be read
/// again, and how that went. The listing of a tab whose directory cannot
/// be read stays as it was; where there is no such tab, nothing happens.
pub open spec fn rescanned(session: ContextView, index: usize, disk: DiskView) -> (
    ContextView,
    Result<(), IoErrorView>,
) {
    if index < session.tabs.len() {
        match reloaded_tab(session, index as int, disk) {
            Ok(after) => (after, Ok(())),
            Err(e) => (session, Err(e)),
        }
    } else {
        (session, Ok(()))
    }
}

/// The session after a worker has ended in `failed` or not, and what is
/// reported. After a failure nothing is read again. After a success the
/// listings of the tab that the files came from and of the tab that they
/// went to are marked as out of date and then read again, the first of
/// them first; the first that cannot be read ends this with its error.
pub open spec fn joined(
    session: ContextView,
    operation: FileOperation,
    failed: Option<Seq<char>>,
    disk: DiskView,
) -> (ContextView, Result<(), LllErrorView>) {
    match failed {
        Some(message) => (session, Err(LllErrorView::Worker(message))),
        None => {
            let stale = marked(marked(session, operation.tab_src), operation.tab_dest);
            let (first, r) = rescanned(stale, operation.tab_src, disk);
            match r {
                Err(e) => (first, Err(LllErrorView::IO(e))),
                Ok(()) => if operation.tab_dest != operation.tab_src {
                    let (second, r) = rescanned(first, operation.tab_dest, disk);
                    match r {
                        Err(e) => (second, Err(LllErrorView::IO(e))),
                        Ok(()) => (second, Ok(())),
                    }
                } else {
                    (first, Ok(()))
                },
            }
        },
    }
}

/// The directory of the tab at `index`, if there is such a tab.
pub open spec fn tab_path(session: ContextView, index: usize) -> Seq<Seq<char>> {
    if index < session.tabs.len() {
        seq![session.tabs[index as int].curr_path]
    } else {
        Seq::empty()
    }
}

/// The directories that are read again after a worker has ended: none
/// after a failure; after a success those of the two tabs of its
/// operation.
pub open spec fn rescan_paths(session: ContextView, operation: FileOperation, failed: bool) -> Seq<
    Seq<char>,
> {
    if failed {
        Seq::empty()
    } else if operation.tab_dest != operation.tab_src {
        tab_path(session, operation.tab_src) + tab_path(session, operation.tab_dest)
    } else {
        tab_path(session, operation.tab_src)
    }
}

/// The directories that have to be read before `join_thread` takes in how
/// the worker of `operation` has ended.
pub fn paths_to_rescan(context: &LllContext, operation: FileOperation, outcome: &JoinOutcome) -> (r:
    Vec<String>)
    ensures
        string_views(r@) == rescan_paths(context@, operation, failure_of(*outcome) is Some),
{
    let mut paths: Vec<String> = Vec::new();
    assert(string_views(paths@) =~= Seq::<Seq<char>>::empty());
    match outcome {
        JoinOutcome::Failed(_) => {},
        JoinOutcome::Finished => {
            if operation.tab_src < context.tab_count() {
                paths.push(context.tab(operation.tab_src).curr_path().clone());
            }
            assert(string_views(paths@) =~= tab_path(context@, operation.tab_src));
            if operation.tab_dest != operation.tab_src && operation.tab_dest
                < context.tab_count() {
                let ghost before = paths@;
                paths.push(context.tab(operation.tab_dest).curr_path().clone());
                assert(string_views(paths@) =~= string_views(before).push(
                    context@.tabs[operation.tab_dest as int].curr_path,
                ));
            }
            assert(string_views(paths@) =~= rescan_paths(context@, operation, false));
        },
    }
    paths
}

/// What `outcome` has to say where it is a failure.
pub open spec fn failure_of(outcome: JoinOutcome) -> Option<Seq<char>> {
    match outcome {
        JoinOutcome::Finished => None,
        JoinOutcome::Failed(message) => Some(message@),
    }
}

/// Reads the listing of the tab at `index` again, if there is such a tab.
fn reload_tab(index: usize, context: &mut LllContext, disk: &Disk) -> (r: Result<(), IoError>)
    requires
        old(context).wf(),
        disk.wf(),
    ensures
        final(context).wf(),
        (final(context)@, io_view(r)) == rescanned(old(context)@, index, disk@),
{
    if index < context.tab_count() {
        context.reload_tab(index, disk)
    } else {
        Ok(())
    }
}

/// Takes in how the worker of `operation` has ended. After a failure the
/// failure is reported and no listing is read again. After a success the
/// listings of the two tabs of the operation are marked as out of date and
/// read again from `disk`; one that cannot be read stays marked, so that
/// it is read again before it is shown.
pub fn join_thread(
    context: &mut LllContext,
    operation: FileOperation,
    outcome: JoinOutcome,
    disk: &Disk,
) -> (r: Result<(), LllError>)
    requires
        old(context).wf(),
        disk.wf(),
    ensures
        final(context).wf(),
        (final(context)@, crate::context::lll_view(r)) == joined(
            old(context)@,
            operation,
            failure_of(outcome),
            disk@,
        ),
{
    match outcome {
        JoinOutcome::Failed(message) => Err(LllError::Worker(WorkerError { message })),
        JoinOutcome::Finished => {
            let (tab_src, tab_dest) = (operation.tab_src, operation.tab_dest);
            if tab_src < context.tab_count() {
                context.depreciate_tab(tab_src);
            }
            if tab_dest < context.tab_count() {
                context.depreciate_tab(tab_dest);
            }
            match reload_tab(tab_src, context, disk) {
                Ok(()) => {},
                Err(e) => {
                    return Err(LllError::IO(e));
                },
            }
            if tab_dest != tab_src {
                match reload_tab(tab_dest, context, disk) {
                    Ok(()) => {},
                    Err(e) => {
                        return Err(LllError::IO(e));
                    },
                }
            }
            Ok(())
        },
    }
}

/// The session after its first tab was made, in the directory `curr_path`
/// where the process has one.
pub open spec fn started(
    session: ContextView,
    curr_path: Result<Seq<char>, IoErrorView>,
    disk: DiskView,
) -> Result<ContextView, IoErrorView> {
    match curr_path {
        Err(e) => Err(e),
        Ok(path) => match new_tab(path, disk, session.config_t.sort_option) {
            Err(e) => Err(e),
            Ok(tab) => Ok(
                ContextView {
                    tabs: session.tabs.push(tab),
                    curr_tab_index: session.tabs.len() as usize,
                    ..session
                },
            ),
        },
    }
}

/// What `r` is as a value of the model.
pub open spec fn path_view(r: Result<String, IoError>) -> Result<Seq<char>, IoErrorView> {
    match r {
        Ok(path) => Ok(path@),
        Err(e) => Err(e@),
    }
}

/// Gives the session its first tab, in the working directory of the
/// process. Where that directory is not known or cannot be read, the
/// session cannot start.
pub fn init_context(context: &mut LllContext, curr_path: Result<String, IoError>, disk: &Disk) -> (r:
    Result<(), IoError>)
    requires
        old(context).wf(),
        disk.wf(),
    ensures
        final(context).wf(),
        crate::context::carried_out(
            old(context)@,
            final(context)@,
            io_view(r),
            started(old(context)@, path_view(curr_path), disk@),
        ),
{
    let curr_path = match curr_path {
        Ok(path) => path,
        Err(e) => {
            return Err(e);
        },
    };
    let sort_option = context.config().sort_option;
    match LllTab::new(curr_path, disk, &sort_option) {
        Ok(tab) => {
            context.push_tab(tab);
            Ok(())
        },
        Err(e) => Err(e),
    }
}

/// What the status line says of a key that is not bound.
pub open spec fn unknown_keycode(code: i32) -> Seq<char> {
    "Unknown keycode: "@ + signed_decimal(code as int)
}

/// What the status line says of a key that is not bound.
pub fn unknown_keycode_message(code: i32) -> (r: String)
    ensures
        r@ == unknown_keycode(code),
{
    String::from_str("Unknown keycode: ").concat(i32_to_string(code).as_str())
}

/// After a worker has done its work, the listing of each tab of its
/// operation has been read again, or it is marked as out of date, so that
/// it is read again before it is shown.
pub proof fn lemma_join_rescans_or_marks(
    session: ContextView,
    operation: FileOperation,
    disk: DiskView,
    index: usize,
)
    requires
        index < session.tabs.len(),
        index == operation.tab_src || index == operation.tab_dest,
    ensures
        ({
            let after = joined(session, operation, None, disk).0;
            &&& after.tabs.len() == session.tabs.len()
            &&& (after.tabs[index as int].curr_list.outdated || Ok::<
                crate::tab::TabView,
                IoErrorView,
            >(after.tabs[index as int]) == crate::tab::reloaded(
                session.tabs[index as int],
                disk,
                session.config_t.sort_option,
            ))
        }),
{
}

/// After a worker has failed, the failure is reported and the session is
/// as it was: no listing is read again.
pub proof fn lemma_failed_join_reloads_nothing(
    session: ContextView,
    operation: FileOperation,
    message: Seq<char>,
    disk: DiskView,
)
    ensures
        joined(session, operation, Some(message), disk) == (
            session,
            Err::<(), LllErrorView>(LllErrorView::Worker(message)),
        ),
{
}

} // verus!
