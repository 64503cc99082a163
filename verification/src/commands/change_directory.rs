use crate::commands::{done, LllCommand, LllRunnable, Outcome, OutcomeView, Outside, OutsideView};
use crate::context::{carried_out, io_view, ContextView, LllContext};
use crate::error::{IoError, IoErrorView, LllError};
use crate::fs::disk::Disk;
use crate::history::DiskView;
use crate::tab::switched;
use vstd::prelude::*;
use vstd::string::StringExecFns;

verus! {

/// The session after its current tab has gone to `path`, with listings
/// for the directories above `path`. `chdir` is what making `path` the
/// working directory of the process gave.
pub open spec fn changed_directory(
    session: ContextView,
    path: Seq<char>,
    chdir: Result<(), IoErrorView>,
    disk: DiskView,
) -> Result<ContextView, IoErrorView> {
    match chdir {
        Err(e) => Err(e),
        Ok(()) => match switched(
            session.curr_tab(),
            path,
            true,
            disk,
            session.config_t.sort_option,
        ) {
            Err(e) => Err(e),
            Ok(tab) => Ok(session.with_tab(session.curr_tab_index as int, tab)),
        },
    }
}

/// Makes a given directory the current one of the current tab.
#[derive(Debug, PartialEq, Eq)]
pub struct ChangeDirectory {
    path: String,
}

impl ChangeDirectory {
    /// The directory that this command goes to.
    pub closed spec fn path(&self) -> Seq<char> {
        self.path@
    }

    /// The command with its path.
    pub fn new(path: String) -> (r: Self)
        ensures
            r.path() == path@,
    {
        ChangeDirectory { path }
    }

    /// The name of the command in a keymap.
    pub fn command() -> (r: &'static str)
        ensures
            r@ == "cd"@,
    {
        "cd"
    }

    /// The directory that this command goes to.
    pub fn target(&self) -> (r: &String)
        ensures
            r@ == self.path(),
    {
        &self.path
    }

    /// Takes the current tab to `path`, once the process has been asked to
    /// make `path` its working directory and `chdir` has come back. The
    /// listing that the tab showed goes into its cache, the directories
    /// above `path` get listings, and the listing of `path` comes out of
    /// the cache or is made from `disk`. On any failure the session stays
    /// as it was.
    pub fn change_directory(
        path: &String,
        context: &mut LllContext,
        chdir: Result<(), IoError>,
        disk: &Disk,
    ) -> (r: Result<(), IoError>)
        requires
            old(context).wf(),
            old(context)@.has_tab(),
            disk.wf(),
        ensures
            final(context).wf(),
            carried_out(
                old(context)@,
                final(context)@,
                io_view(r),
                changed_directory(old(context)@, path@, io_view(chdir), disk@),
            ),
    {
        match chdir {
            Err(e) => {
                return Err(e);
            },
            Ok(()) => {},
        }
        let sort_option = context.config().sort_option;
        let curr_tab = context.curr_tab_mut();
        let r = curr_tab.switch_to(path.as_str(), true, disk, &sort_option);
        proof {
            if r is Err {
                let session = old(context)@;
                assert(session.tabs.update(session.curr_tab_index as int, session.curr_tab())
                    =~= session.tabs);
            }
        }
        r
    }

}

impl LllCommand for ChangeDirectory {
    /// The name of the command and its path.
    open spec fn label(&self) -> Seq<char> {
        "cd"@ + seq![' '] + self.path()
    }

    fn to_string(&self) -> (r: String) {
        proof {
            reveal_strlit(" ");
        }
        let r = String::from_str("cd").concat(" ").concat(self.path.as_str());
        assert(r@ =~= "cd"@ + seq![' '] + self.path());
        r
    }
}

impl LllRunnable for ChangeDirectory {
    /// The current tab goes to the path of the command.
    open spec fn executed(&self, session: ContextView, outside: OutsideView) -> Result<
        (ContextView, OutcomeView),
        IoErrorView,
    > {
        done(changed_directory(session, self.path(), outside.chdir, outside.disk))
    }

    fn execute(&self, context: &mut LllContext, outside: Outside) -> (r: Result<Outcome, LllError>) {
        match Self::change_directory(&self.path, context, outside.chdir, outside.disk) {
            Ok(()) => Ok(Outcome::Done),
            Err(e) => Err(LllError::IO(e)),
        }
    }
}

} // verus!
