use crate::commands::{
    done, Command, CommandView, LllCommand, LllRunnable, Outcome, OutcomeView, Outside, OutsideView,
};
use crate::context::{carried_out, io_view, reloaded_tab, ContextView, LllContext};
use crate::error::{IoError, IoErrorKind, IoErrorView, LllError};
use crate::fs::dirlist::cursor_entry;
use crate::fs::disk::Disk;
use crate::history::DiskView;
use crate::path::{last_index, last_index_of};
use crate::text::chars_of;
use vstd::prelude::*;
use vstd::string::{StrSliceExecFns, StringExecFns};

verus! {

/// The failure of renaming to a name that is taken.
pub open spec fn already_exists() -> IoErrorView {
    IoErrorView { kind: IoErrorKind::AlreadyExists, message: "Filename already exists"@ }
}

/// The session after the entry under the cursor was renamed. `exists`
/// says whether the new name was taken; `rename` is what the renaming
/// gave, where the name was free. Afterwards the listing of the current
/// tab is read again.
pub open spec fn renamed(
    session: ContextView,
    exists: bool,
    rename: Result<(), IoErrorView>,
    disk: DiskView,
) -> Result<ContextView, IoErrorView> {
    if exists {
        Err(already_exists())
    } else {
        match rename {
            Err(e) => Err(e),
            Ok(()) => reloaded_tab(session, session.curr_tab_index as int, disk),
        }
    }
}

/// What running the command comes to: nothing where the cursor is on no
/// entry, else the renaming.
pub open spec fn rename_executed(
    session: ContextView,
    exists: bool,
    rename: Result<(), IoErrorView>,
    disk: DiskView,
) -> Result<ContextView, IoErrorView> {
    if cursor_entry(session.curr_tab().curr_list) is None {
        Ok(session)
    } else {
        renamed(session, exists, rename, disk)
    }
}

/// Renaming to a name that is taken fails with the error that says so,
/// whatever else is the case, and a command that fails leaves the
/// session as it was: its listings, their cursors and their entries.
pub proof fn lemma_rename_to_taken_name(
    session: ContextView,
    after: ContextView,
    r: Result<(), IoErrorView>,
    rename: Result<(), IoErrorView>,
    disk: DiskView,
)
    requires
        carried_out(session, after, r, renamed(session, true, rename, disk)),
    ensures
        r == Err::<(), IoErrorView>(already_exists()),
        after == session,
{
}

/// Renames the entry under the cursor to a given path.
#[derive(Debug, PartialEq, Eq)]
pub struct RenameFile {
    path: String,
}

impl RenameFile {
    /// The path that the entry is renamed to.
    pub closed spec fn path(&self) -> Seq<char> {
        self.path@
    }

    /// The command with its path.
    pub fn new(path: String) -> (r: Self)
        ensures
            r.path() == path@,
    {
        RenameFile { path }
    }

    /// The name of the command in a keymap.
    pub fn command() -> (r: &'static str)
        ensures
            r@ == "rename"@,
    {
        "rename"
    }

    /// The path that the entry is renamed to.
    pub fn target(&self) -> (r: &String)
        ensures
            r@ == self.path(),
    {
        &self.path
    }


    /// The path of the entry that is renamed: the one under the cursor of
    /// the current tab.
    pub fn source(context: &LllContext) -> (r: Option<String>)
        requires
            context@.has_tab(),
        ensures
            match cursor_entry(context@.curr_tab().curr_list) {
                Some(e) => r is Some && r->Some_0@ == e.path,
                None => r is None,
            },
    {
        match context.curr_tab_ref().curr_list().get_curr_ref() {
            Some(entry) => Some(entry.file_path().clone()),
            None => None,
        }
    }

    /// Whether the renaming may go ahead: not where the new name is taken.
    pub fn check(exists: bool) -> (r: Result<(), IoError>)
        ensures
            exists ==> r is Err && r->Err_0@ == already_exists(),
            !exists ==> r is Ok,
    {
        if exists {
            Err(IoError::new(IoErrorKind::AlreadyExists, "Filename already exists"))
        } else {
            Ok(())
        }
    }

    /// Takes the renaming into the session. Where the new name was taken,
    /// the command fails and the session stays as it was: the listing, its
    /// cursor and its entries. Where the renaming itself failed, likewise.
    /// Else the listing of the current tab is read again from `disk`.
    pub fn rename_file(
        &self,
        context: &mut LllContext,
        exists: bool,
        rename: Result<(), IoError>,
        disk: &Disk,
    ) -> (r: Result<(), IoError>)
        requires
            old(context).wf(),
            old(context)@.has_tab(),
            disk.wf(),
        ensures
            final(context).wf(),
            carried_out(
                old(context)@,
                final(context)@,
                io_view(r),
                renamed(old(context)@, exists, io_view(rename), disk@),
            ),
    {
        match Self::check(exists) {
            Err(e) => {
                return Err(e);
            },
            Ok(()) => {},
        }
        match rename {
            Err(e) => {
                return Err(e);
            },
            Ok(()) => {},
        }
        let index = context.curr_tab_index();
        context.reload_tab(index, disk)
    }
}

impl LllRunnable for RenameFile {
    /// The entry under the cursor is renamed; where the cursor is on no
    /// entry, nothing happens.
    open spec fn executed(&self, session: ContextView, outside: OutsideView) -> Result<
        (ContextView, OutcomeView),
        IoErrorView,
    > {
        done(rename_executed(session, outside.exists, outside.rename, outside.disk))
    }

    fn execute(&self, context: &mut LllContext, outside: Outside) -> (r: Result<Outcome, LllError>) {
        if Self::source(context).is_none() {
            return Ok(Outcome::Done);
        }
        match self.rename_file(context, outside.exists, outside.rename, outside.disk) {
            Ok(()) => Ok(Outcome::Done),
            Err(e) => Err(LllError::IO(e)),
        }
    }
}

/// Whether `c` ends a word on a command line, and so has to be escaped in
/// a file name.
pub open spec fn is_break(c: char) -> bool {
    c == ' ' || c == '\t' || c == '\n' || c == '"' || c == '\\' || c == '\'' || c == '`' || c == '@'
        || c == '$' || c == '>' || c == '<' || c == '=' || c == ';' || c == '|' || c == '&' || c
        == '{' || c == '(' || c == '\0'
}

/// Whether `c` ends a word on a command line.
pub fn is_break_char(c: char) -> (r: bool)
    ensures
        r == is_break(c),
{
    c == ' ' || c == '\t' || c == '\n' || c == '"' || c == '\\' || c == '\'' || c == '`' || c == '@'
        || c == '$' || c == '>' || c == '<' || c == '=' || c == ';' || c == '|' || c == '&' || c
        == '{' || c == '(' || c == '\0'
}

/// The character that takes the meaning from the one behind it.
pub const ESCAPE_CHAR: char = '\\';

/// `s` with `esc` in front of each character that ends a word.
pub open spec fn escaped(s: Seq<char>, esc: char) -> Seq<char>
    decreases s.len(),
{
    if s.len() == 0 {
        Seq::empty()
    } else if is_break(s.last()) {
        escaped(s.drop_last(), esc).push(esc).push(s.last())
    } else {
        escaped(s.drop_last(), esc).push(s.last())
    }
}

/// `rustyline::completion::escape`, called with `is_break_char` as the
/// test for a breaking character and with no quote open: the result is
/// `input` with `esc_char` put in front of each breaking character.
#[verifier::external_body]
fn escape(input: String, esc_char: char) -> (r: String)
    ensures
        r@ == escaped(input@, esc_char),
{
    rustyline::completion::escape(
        input,
        Some(esc_char),
        is_break_char,
        rustyline::completion::Quote::None,
    )
}

/// The name of the entry under the cursor of `session`, escaped for a
/// command line.
pub open spec fn escaped_name(session: ContextView) -> Option<Seq<char>> {
    match cursor_entry(session.curr_tab().curr_list) {
        Some(e) => Some(escaped(e.file_name, ESCAPE_CHAR)),
        None => None,
    }
}

fn escaped_file_name(context: &LllContext) -> (r: Option<String>)
    requires
        context@.has_tab(),
    ensures
        match escaped_name(context@) {
            Some(name) => r is Some && r->Some_0@ == name,
            None => r is None,
        },
{
    match context.curr_tab_ref().curr_list().get_curr_ref() {
        Some(s) => Some(escape(s.file_name().clone(), ESCAPE_CHAR)),
        None => None,
    }
}

/// The command line that asks for a new name with the cursor before the
/// extension of `file_name`: what stands before the cursor, and what
/// stands behind it.
pub open spec fn append_prompt(file_name: Seq<char>) -> CommandView {
    let ext = last_index_of(file_name, '.');
    if ext >= 0 {
        CommandView::CommandLine {
            prefix: "rename "@ + file_name.take(ext),
            suffix: file_name.skip(ext),
        }
    } else {
        CommandView::CommandLine { prefix: "rename "@ + file_name, suffix: Seq::empty() }
    }
}

/// The command line that asks for a new name with the cursor before
/// `file_name`.
pub open spec fn prepend_prompt(file_name: Seq<char>) -> CommandView {
    CommandView::CommandLine { prefix: "rename "@, suffix: file_name }
}

/// Asks for a new name, with the cursor before the extension of the old one.
#[derive(Clone, Copy, Debug, PartialEq, Eq)]
pub struct RenameFileAppend;

impl RenameFileAppend {
    /// The command; it has no arguments.
    pub fn new() -> Self {
        RenameFileAppend
    }

    /// The name of the command in a keymap.
    pub fn command() -> (r: &'static str)
        ensures
            r@ == "rename_append"@,
    {
        "rename_append"
    }


    /// The command line that renames `file_name`, with the cursor before
    /// its last dot, or at its end where it has none.
    pub fn rename_file(&self, file_name: String) -> (r: Command)
        ensures
            r@ == append_prompt(file_name@),
    {
        let chars = chars_of(file_name.as_str());
        assert(chars@.subrange(0, chars@.len() as int) =~= chars@);
        match last_index(&chars, 0, chars.len(), '.') {
            Some(ext) => {
                let prefix = String::from_str("rename ").concat(
                    file_name.as_str().substring_char(0, ext),
                );
                let suffix = file_name.as_str().substring_char(ext, chars.len()).to_owned();
                assert(prefix@ =~= "rename "@ + file_name@.take(ext as int));
                assert(suffix@ =~= file_name@.skip(ext as int));
                Command::CommandLine { prefix, suffix }
            },
            None => {
                let prefix = String::from_str("rename ").concat(file_name.as_str());
                Command::CommandLine { prefix, suffix: String::new() }
            },
        }
    }
}

impl LllRunnable for RenameFileAppend {
    /// The user is asked for the command line that renames the entry under
    /// the cursor, its name escaped; where the cursor is on no entry,
    /// nothing happens.
    open spec fn executed(&self, session: ContextView, outside: OutsideView) -> Result<
        (ContextView, OutcomeView),
        IoErrorView,
    > {
        match escaped_name(session) {
            Some(name) => Ok((session, OutcomeView::Prompt(append_prompt(name)))),
            None => Ok((session, OutcomeView::Done)),
        }
    }

    fn execute(&self, context: &mut LllContext, outside: Outside) -> (r: Result<Outcome, LllError>) {
        match escaped_file_name(context) {
            Some(file_name) => Ok(Outcome::Prompt(self.rename_file(file_name))),
            None => Ok(Outcome::Done),
        }
    }
}

/// Asks for a new name, with the cursor before the old one.
#[derive(Clone, Copy, Debug, PartialEq, Eq)]
pub struct RenameFilePrepend;

impl RenameFilePrepend {
    /// The command; it has no arguments.
    pub fn new() -> Self {
        RenameFilePrepend
    }

    /// The name of the command in a keymap.
    pub fn command() -> (r: &'static str)
        ensures
            r@ == "rename_prepend"@,
    {
        "rename_prepend"
    }


    /// The command line that renames `file_name`, with the cursor before
    /// it.
    pub fn rename_file(&self, file_name: String) -> (r: Command)
        ensures
            r@ == prepend_prompt(file_name@),
    {
        let prefix = String::from_str("rename ");
        let suffix = file_name;
        Command::CommandLine { prefix, suffix }
    }
}

impl LllRunnable for RenameFilePrepend {
    /// The user is asked for the command line that renames the entry under
    /// the cursor, its name escaped; where the cursor is on no entry,
    /// nothing happens.
    open spec fn executed(&self, session: ContextView, outside: OutsideView) -> Result<
        (ContextView, OutcomeView),
        IoErrorView,
    > {
        match escaped_name(session) {
            Some(name) => Ok((session, OutcomeView::Prompt(prepend_prompt(name)))),
            None => Ok((session, OutcomeView::Done)),
        }
    }

    fn execute(&self, context: &mut LllContext, outside: Outside) -> (r: Result<Outcome, LllError>) {
        match escaped_file_name(context) {
            Some(file_name) => Ok(Outcome::Prompt(self.rename_file(file_name))),
            None => Ok(Outcome::Done),
        }
    }
}

impl LllCommand for RenameFile {
    open spec fn label(&self) -> Seq<char> {
        "rename"@
    }

    fn to_string(&self) -> (r: String) {
        String::from_str("rename")
    }
}

impl LllCommand for RenameFileAppend {
    open spec fn label(&self) -> Seq<char> {
        "rename_append"@
    }

    fn to_string(&self) -> (r: String) {
        String::from_str("rename_append")
    }
}

impl LllCommand for RenameFilePrepend {
    open spec fn label(&self) -> Seq<char> {
        "rename_prepend"@
    }

    fn to_string(&self) -> (r: String) {
        String::from_str("rename_prepend")
    }
}

} // verus!
