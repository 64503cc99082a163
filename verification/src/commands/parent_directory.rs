use crate::commands::{done, LllCommand, LllRunnable, Outcome, OutcomeView, Outside, OutsideView};
use crate::context::{carried_out, io_view, ContextView, LllContext};
use crate::error::{IoError, IoErrorView, LllError};
use crate::fs::disk::Disk;
use crate::history::DiskView;
use crate::path::{parent, parent_of};
use crate::tab::switched;
use vstd::prelude::*;
use vstd::string::StringExecFns;

verus! {

/// The session after its current tab has gone to the directory above the
/// one it is in. In a directory that has none above it, nothing happens.
/// `chdir` is what making that directory the working directory of the
/// process gave.
pub open spec fn gone_to_parent(
    session: ContextView,
    chdir: Result<(), IoErrorView>,
    disk: DiskView,
) -> Result<ContextView, IoErrorView> {
    match parent_of(session.curr_tab().curr_path) {
        None => Ok(session),
        Some(path) => match chdir {
            Err(e) => Err(e),
            Ok(()) => match switched(
                session.curr_tab(),
                path,
                false,
                disk,
                session.config_t.sort_option,
            ) {
                Err(e) => Err(e),
                Ok(tab) => Ok(session.with_tab(session.curr_tab_index as int, tab)),
            },
        },
    }
}

/// Makes the parent of the current directory the current one.
#[derive(Clone, Copy, Debug, PartialEq, Eq)]
pub struct ParentDirectory;

impl ParentDirectory {
    /// The command; it has no arguments.
    pub fn new() -> Self {
        ParentDirectory
    }

    /// The name of the command in a keymap.
    pub fn command() -> (r: &'static str)
        ensures
            r@ == "parent_directory"@,
    {
        "parent_directory"
    }

    /// The directory that the command goes to: the one above the
    /// directory of the current tab, if there is one.
    pub fn target(context: &LllContext) -> (r: Option<String>)
        requires
            context@.has_tab(),
        ensures
            match parent_of(context@.curr_tab().curr_path) {
                Some(path) => r is Some && r->Some_0@ == path,
                None => r is None,
            },
    {
        parent(context.curr_tab_ref().curr_path().as_str())
    }

    /// Takes the current tab to the directory above the one it is in,
    /// once the process has been asked to make that directory its working
    /// directory and `chdir` has come back. In a directory that has none
    /// above it, nothing happens. On any failure the session stays as it
    /// was.
    pub fn parent_directory(context: &mut LllContext, chdir: Result<(), IoError>, disk: &Disk) -> (r:
        Result<(), IoError>)
        requires
            old(context).wf(),
            old(context)@.has_tab(),
            disk.wf(),
        ensures
            final(context).wf(),
            carried_out(
                old(context)@,
                final(context)@,
                io_view(r),
                gone_to_parent(old(context)@, io_view(chdir), disk@),
            ),
    {
        let path = match Self::target(context) {
            Some(path) => path,
            None => {
                return Ok(());
            },
        };
        match chdir {
            Err(e) => {
                return Err(e);
            },
            Ok(()) => {},
        }
        let sort_option = context.config().sort_option;
        let curr_tab = context.curr_tab_mut();
        let r = curr_tab.switch_to(path.as_str(), false, disk, &sort_option);
        proof {
            if r is Err {
                let session = old(context)@;
                assert(session.tabs.update(session.curr_tab_index as int, session.curr_tab())
                    =~= session.tabs);
            }
        }
        r
    }

}

impl LllCommand for ParentDirectory {
    open spec fn label(&self) -> Seq<char> {
        "parent_directory"@
    }

    fn to_string(&self) -> (r: String) {
        String::from_str("parent_directory")
    }
}

impl LllRunnable for ParentDirectory {
    /// The current tab goes to the directory above.
    open spec fn executed(&self, session: ContextView, outside: OutsideView) -> Result<
        (ContextView, OutcomeView),
        IoErrorView,
    > {
        done(gone_to_parent(session, outside.chdir, outside.disk))
    }

    fn execute(&self, context: &mut LllContext, outside: Outside) -> (r: Result<Outcome, LllError>) {
        match Self::parent_directory(context, outside.chdir, outside.disk) {
            Ok(()) => Ok(Outcome::Done),
            Err(e) => Err(LllError::IO(e)),
        }
    }
}

} // verus!
