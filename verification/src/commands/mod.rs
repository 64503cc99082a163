pub mod change_directory;
pub mod file_operations;
pub mod open_file;
pub mod parent_directory;
pub mod rename_file;
pub mod tab_switch;

pub use self::change_directory::ChangeDirectory;
pub use self::file_operations::PasteOptions;
pub use self::open_file::{OpenFile, OpenFileWith};
pub use self::parent_directory::ParentDirectory;
pub use self::rename_file::{RenameFile, RenameFileAppend, RenameFilePrepend};
pub use self::tab_switch::TabSwitch;

use crate::config::mimetype::{LllMimetype, LllMimetypeEntry, MimetypeEntryView, MimetypeView};
use crate::config::LllCommandMapping;
use crate::context::{io_view, ContextView, LllContext};
use crate::error::{IoError, IoErrorView, KeymapError, KeymapErrorView, LllError, LllErrorView};
use crate::fs::disk::Disk;
use crate::history::DiskView;
use crate::text::{
    decimal, parse_i32, parse_i32_spec, parse_usize, parse_usize_spec, signed_decimal, str_eq,
    string_views, usize_to_string, with_blanks,
};
use vstd::prelude::*;
use vstd::string::StringExecFns;

verus! {

/// What a key is bound to: a command, or a further keymap for the keys
/// that may follow it.
#[derive(Debug)]
pub enum CommandKeybind {
    SimpleKeybind(Command),
    CompositeKeybind(LllCommandMapping),
}

impl CommandKeybind {
    /// The binding as a menu shows it: the command, or dots for a keymap.
    pub open spec fn label(&self) -> Seq<char> {
        match self {
            CommandKeybind::SimpleKeybind(command) => command@.label(),
            CommandKeybind::CompositeKeybind(_) => "..."@,
        }
    }

    /// The binding as a menu shows it.
    pub fn to_string(&self) -> (r: String)
        ensures
            r@ == self.label(),
    {
        match self {
            CommandKeybind::SimpleKeybind(s) => s.to_string(),
            CommandKeybind::CompositeKeybind(_) => String::from_str("..."),
        }
    }
}

/// Files to open, and the program to open them with. Without a program
/// the first file goes to what the system opens it with.
#[derive(Debug, PartialEq, Eq)]
pub struct Launch {
    pub paths: Vec<String>,
    pub entry: Option<LllMimetypeEntry>,
}

/// What a launch is in contracts.
pub struct LaunchView {
    pub paths: Seq<Seq<char>>,
    pub entry: Option<MimetypeEntryView>,
}

impl View for Launch {
    type V = LaunchView;

    open spec fn view(&self) -> LaunchView {
        LaunchView {
            paths: string_views(self.paths@),
            entry: match self.entry {
                Some(e) => Some(e@),
                None => None,
            },
        }
    }
}

/// What is left for the program to do once a command has run.
#[derive(Debug, PartialEq, Eq)]
pub enum Outcome {
    /// Nothing but to show the session.
    Done,
    /// Files are to be opened with a program of the mimetype table, or
    /// with what the system has.
    Launch(Launch),
    /// Files are to be opened with a command that the user has typed.
    LaunchArgs { paths: Vec<String>, args: Vec<String> },
    /// The user is to be asked for a command line, which is then run.
    Prompt(Command),
}

/// What an outcome is in contracts.
pub enum OutcomeView {
    Done,
    Launch(LaunchView),
    LaunchArgs { paths: Seq<Seq<char>>, args: Seq<Seq<char>> },
    Prompt(CommandView),
}

impl View for Outcome {
    type V = OutcomeView;

    open spec fn view(&self) -> OutcomeView {
        match self {
            Outcome::Done => OutcomeView::Done,
            Outcome::Launch(l) => OutcomeView::Launch(l@),
            Outcome::LaunchArgs { paths, args } => OutcomeView::LaunchArgs {
                paths: string_views(paths@),
                args: string_views(args@),
            },
            Outcome::Prompt(command) => OutcomeView::Prompt(command@),
        }
    }
}

/// What the program has seen and done outside the session before a
/// command runs: on the filesystem, in the process, at the prompt. A
/// command reads of it what it needs.
#[derive(Debug)]
pub struct Outside<'a> {
    /// What making the directory that the command goes to the working
    /// directory of the process gave.
    pub chdir: Result<(), IoError>,
    /// Whether the entry under the cursor is a directory.
    pub is_dir: bool,
    /// Whether the path that a file is to be renamed to is taken.
    pub exists: bool,
    /// What renaming the file gave, where the path was free.
    pub rename: Result<(), IoError>,
    /// What the user has typed at the prompt of the command; `None` where
    /// the user has left the prompt.
    pub user_input: Option<String>,
    /// The directories that were read, after all of the above.
    pub disk: &'a Disk,
    /// The programs that open files.
    pub mimetype: &'a LllMimetype,
}

/// What the program has seen outside, in contracts.
pub struct OutsideView {
    pub chdir: Result<(), IoErrorView>,
    pub is_dir: bool,
    pub exists: bool,
    pub rename: Result<(), IoErrorView>,
    pub user_input: Option<Seq<char>>,
    pub disk: DiskView,
    pub mimetype: MimetypeView,
}

impl<'a> View for Outside<'a> {
    type V = OutsideView;

    open spec fn view(&self) -> OutsideView {
        OutsideView {
            chdir: io_view(self.chdir),
            is_dir: self.is_dir,
            exists: self.exists,
            rename: io_view(self.rename),
            user_input: match self.user_input {
                Some(s) => Some(s@),
                None => None,
            },
            disk: self.disk@,
            mimetype: self.mimetype@,
        }
    }
}

impl<'a> Outside<'a> {
    /// The disk image and the mimetype table are well formed.
    pub open spec fn wf(&self) -> bool {
        self.disk.wf() && self.mimetype.wf()
    }
}

/// A command that has run has changed the session as `expected` says and
/// has left the program `r` to do, or it has failed with the error of
/// `expected` and has left the session as it was.
pub open spec fn ran(
    before: ContextView,
    after: ContextView,
    r: Result<Outcome, LllError>,
    expected: Result<(ContextView, OutcomeView), IoErrorView>,
) -> bool {
    match expected {
        Ok((session, outcome)) => r is Ok && r->Ok_0@ == outcome && after == session,
        Err(e) => r is Err && r->Err_0@ == LllErrorView::IO(e) && after == before,
    }
}

/// A command that can be run on the session.
pub trait LllRunnable {
    /// What running the command on `session` comes to, given what the
    /// program has seen outside: the session after it and what is left for
    /// the program to do, or the error.
    spec fn executed(&self, session: ContextView, outside: OutsideView) -> Result<
        (ContextView, OutcomeView),
        IoErrorView,
    >;

    /// Runs the command. It either takes full effect or fails and leaves
    /// the session exactly as it was.
    fn execute(&self, context: &mut LllContext, outside: Outside) -> (r: Result<Outcome, LllError>)
        requires
            old(context).wf(),
            old(context)@.has_tab(),
            outside.wf(),
        ensures
            final(context).wf(),
            ran(
                old(context)@,
                final(context)@,
                r,
                self.executed(old(context)@, outside@),
            ),
    ;
}

/// `result` as the outcome of a command that leaves nothing to do.
pub open spec fn done(result: Result<ContextView, IoErrorView>) -> Result<
    (ContextView, OutcomeView),
    IoErrorView,
> {
    match result {
        Ok(session) => Ok((session, OutcomeView::Done)),
        Err(e) => Err(e),
    }
}

/// What every command has: a line that names it in a menu of keys.
pub trait LllCommand {
    /// The command as a menu shows it: its name and, for some commands,
    /// its arguments.
    spec fn label(&self) -> Seq<char>;

    /// The command as a menu shows it.
    fn to_string(&self) -> (r: String)
        ensures
            r@ == self.label(),
    ;
}

/// A command with its arguments read and checked: what a key is bound to.
#[derive(Debug, PartialEq, Eq)]
pub enum Command {
    ChangeDirectory(ChangeDirectory),
    CommandLine { prefix: String, suffix: String },
    CopyFiles,
    CursorMoveDown(usize),
    CursorMoveUp(usize),
    CursorMoveHome,
    CursorMoveEnd,
    CursorMovePageUp,
    CursorMovePageDown,
    CutFiles,
    DeleteFiles,
    ForceQuit,
    NewDirectory(Vec<String>),
    OpenFile(OpenFile),
    OpenFileWith(OpenFileWith),
    ParentDirectory(ParentDirectory),
    PasteFiles(PasteOptions),
    Quit,
    ReloadDirList,
    RenameFile(RenameFile),
    RenameFileAppend(RenameFileAppend),
    RenameFilePrepend(RenameFilePrepend),
    Search(String),
    SearchNext,
    SearchPrev,
    SelectFiles { toggle: bool, all: bool },
    SetMode,
    TabSwitch(TabSwitch),
    ToggleHiddenFiles,
}

/// What a command is in contracts.
pub enum CommandView {
    ChangeDirectory { path: Seq<char> },
    CommandLine { prefix: Seq<char>, suffix: Seq<char> },
    CopyFiles,
    CursorMoveDown(usize),
    CursorMoveUp(usize),
    CursorMoveHome,
    CursorMoveEnd,
    CursorMovePageUp,
    CursorMovePageDown,
    CutFiles,
    DeleteFiles,
    ForceQuit,
    NewDirectory(Seq<Seq<char>>),
    OpenFile,
    OpenFileWith,
    ParentDirectory,
    PasteFiles(PasteOptions),
    Quit,
    ReloadDirList,
    RenameFile { path: Seq<char> },
    RenameFileAppend,
    RenameFilePrepend,
    Search(Seq<char>),
    SearchNext,
    SearchPrev,
    SelectFiles { toggle: bool, all: bool },
    SetMode,
    TabSwitch { movement: int },
    ToggleHiddenFiles,
}

impl View for Command {
    type V = CommandView;

    open spec fn view(&self) -> CommandView {
        match self {
            Command::ChangeDirectory(c) => CommandView::ChangeDirectory { path: c.path() },
            Command::CommandLine { prefix, suffix } => CommandView::CommandLine {
                prefix: prefix@,
                suffix: suffix@,
            },
            Command::CopyFiles => CommandView::CopyFiles,
            Command::CursorMoveDown(n) => CommandView::CursorMoveDown(*n),
            Command::CursorMoveUp(n) => CommandView::CursorMoveUp(*n),
            Command::CursorMoveHome => CommandView::CursorMoveHome,
            Command::CursorMoveEnd => CommandView::CursorMoveEnd,
            Command::CursorMovePageUp => CommandView::CursorMovePageUp,
            Command::CursorMovePageDown => CommandView::CursorMovePageDown,
            Command::CutFiles => CommandView::CutFiles,
            Command::DeleteFiles => CommandView::DeleteFiles,
            Command::ForceQuit => CommandView::ForceQuit,
            Command::NewDirectory(paths) => CommandView::NewDirectory(string_views(paths@)),
            Command::OpenFile(_) => CommandView::OpenFile,
            Command::OpenFileWith(_) => CommandView::OpenFileWith,
            Command::ParentDirectory(_) => CommandView::ParentDirectory,
            Command::PasteFiles(options) => CommandView::PasteFiles(*options),
            Command::Quit => CommandView::Quit,
            Command::ReloadDirList => CommandView::ReloadDirList,
            Command::RenameFile(c) => CommandView::RenameFile { path: c.path() },
            Command::RenameFileAppend(_) => CommandView::RenameFileAppend,
            Command::RenameFilePrepend(_) => CommandView::RenameFilePrepend,
            Command::Search(pattern) => CommandView::Search(pattern@),
            Command::SearchNext => CommandView::SearchNext,
            Command::SearchPrev => CommandView::SearchPrev,
            Command::SelectFiles { toggle, all } => CommandView::SelectFiles {
                toggle: *toggle,
                all: *all,
            },
            Command::SetMode => CommandView::SetMode,
            Command::TabSwitch(c) => CommandView::TabSwitch { movement: c.movement() },
            Command::ToggleHiddenFiles => CommandView::ToggleHiddenFiles,
        }
    }
}

/// `text` behind a blank where `on` holds, nothing where it does not.
pub open spec fn flag_text(on: bool, text: Seq<char>) -> Seq<char> {
    if on {
        seq![' '] + text
    } else {
        Seq::empty()
    }
}

impl CommandView {
    /// The command as a menu shows it: its name and its arguments.
    pub open spec fn label(self) -> Seq<char> {
        match self {
            CommandView::ChangeDirectory { path } => "cd"@ + seq![' '] + path,
            CommandView::CommandLine { prefix, suffix } => "console"@ + seq![' '] + prefix,
            CommandView::CopyFiles => "copy_files"@,
            CommandView::CursorMoveDown(n) => "cursor_move_down"@ + seq![' '] + decimal(n as nat),
            CommandView::CursorMoveUp(n) => "cursor_move_up"@ + seq![' '] + decimal(n as nat),
            CommandView::CursorMoveHome => "cursor_move_home"@,
            CommandView::CursorMoveEnd => "cursor_move_end"@,
            CommandView::CursorMovePageUp => "cursor_move_page_up"@,
            CommandView::CursorMovePageDown => "cursor_move_page_down"@,
            CommandView::CutFiles => "cut_files"@,
            CommandView::DeleteFiles => "delete_files"@,
            CommandView::ForceQuit => "force_quit"@,
            CommandView::NewDirectory(paths) => "mkdir"@ + with_blanks(paths),
            CommandView::OpenFile => "open_file"@,
            CommandView::OpenFileWith => "open_file_with"@,
            CommandView::ParentDirectory => "parent_directory"@,
            CommandView::PasteFiles(options) => "paste_files"@ + flag_text(
                options.overwrite,
                "--overwrite"@,
            ) + flag_text(options.skip_exist, "--skip_exist"@),
            CommandView::Quit => "quit"@,
            CommandView::ReloadDirList => "reload_dir_list"@,
            CommandView::RenameFile { path } => "rename"@,
            CommandView::RenameFileAppend => "rename_append"@,
            CommandView::RenameFilePrepend => "rename_prepend"@,
            CommandView::Search(pattern) => "search"@ + seq![' '] + pattern,
            CommandView::SearchNext => "search_next"@,
            CommandView::SearchPrev => "search_prev"@,
            CommandView::SelectFiles { toggle, all } => "select_files"@ + flag_text(
                toggle,
                "--toggle"@,
            ) + flag_text(all, "--all"@),
            CommandView::SetMode => "set_mode"@,
            CommandView::TabSwitch { movement } => "tab_switch"@ + seq![' '] + signed_decimal(
                movement,
            ),
            CommandView::ToggleHiddenFiles => "toggle_hidden"@,
        }
    }
}

fn with_argument(name: &str, argument: &str) -> (r: String)
    ensures
        r@ == name@ + seq![' '] + argument@,
{
    proof {
        reveal_strlit(" ");
    }
    let r = String::from_str(name).concat(" ").concat(argument);
    assert(r@ =~= name@ + seq![' '] + argument@);
    r
}

fn with_flags(name: &str, first: bool, first_text: &str, second: bool, second_text: &str) -> (r:
    String)
    ensures
        r@ == name@ + flag_text(first, first_text@) + flag_text(second, second_text@),
{
    proof {
        reveal_strlit(" ");
    }
    let mut r = String::from_str(name);
    if first {
        r.append(" ");
        r.append(first_text);
    }
    if second {
        r.append(" ");
        r.append(second_text);
    }
    assert(r@ =~= name@ + flag_text(first, first_text@) + flag_text(second, second_text@));
    r
}

fn with_arguments(name: &str, arguments: &Vec<String>) -> (r: String)
    ensures
        r@ == name@ + with_blanks(string_views(arguments@)),
{
    let mut r = String::from_str(name);
    let mut i: usize = 0;
    let ghost all = string_views(arguments@);
    assert(r@ =~= name@ + with_blanks(all.take(0)));
    while i < arguments.len()
        invariant
            i <= arguments.len(),
            all == string_views(arguments@),
            r@ == name@ + with_blanks(all.take(i as int)),
        decreases arguments.len() - i,
    {
        proof {
            reveal_strlit(" ");
            assert(all.take(i + 1).drop_last() =~= all.take(i as int));
            assert(all.take(i + 1).last() == arguments@[i as int]@);
        }
        r.append(" ");
        r.append(arguments[i].as_str());
        assert(r@ =~= name@ + with_blanks(all.take(i + 1)));
        i = i + 1;
    }
    assert(all.take(arguments.len() as int) =~= all);
    r
}

impl LllCommand for Command {
    open spec fn label(&self) -> Seq<char> {
        self@.label()
    }

    fn to_string(&self) -> (r: String) {
        match self {
            Command::ChangeDirectory(c) => c.to_string(),
            Command::CommandLine { prefix, suffix } => with_argument("console", prefix.as_str()),
            Command::CopyFiles => String::from_str("copy_files"),
            Command::CursorMoveDown(n) => with_argument(
                "cursor_move_down",
                usize_to_string(*n).as_str(),
            ),
            Command::CursorMoveUp(n) => with_argument(
                "cursor_move_up",
                usize_to_string(*n).as_str(),
            ),
            Command::CursorMoveHome => String::from_str("cursor_move_home"),
            Command::CursorMoveEnd => String::from_str("cursor_move_end"),
            Command::CursorMovePageUp => String::from_str("cursor_move_page_up"),
            Command::CursorMovePageDown => String::from_str("cursor_move_page_down"),
            Command::CutFiles => String::from_str("cut_files"),
            Command::DeleteFiles => String::from_str("delete_files"),
            Command::ForceQuit => String::from_str("force_quit"),
            Command::NewDirectory(paths) => with_arguments("mkdir", paths),
            Command::OpenFile(c) => c.to_string(),
            Command::OpenFileWith(c) => c.to_string(),
            Command::ParentDirectory(c) => c.to_string(),
            Command::PasteFiles(options) => with_flags(
                "paste_files",
                options.overwrite,
                "--overwrite",
                options.skip_exist,
                "--skip_exist",
            ),
            Command::Quit => String::from_str("quit"),
            Command::ReloadDirList => String::from_str("reload_dir_list"),
            Command::RenameFile(c) => c.to_string(),
            Command::RenameFileAppend(c) => c.to_string(),
            Command::RenameFilePrepend(c) => c.to_string(),
            Command::Search(pattern) => with_argument("search", pattern.as_str()),
            Command::SearchNext => String::from_str("search_next"),
            Command::SearchPrev => String::from_str("search_prev"),
            Command::SelectFiles { toggle, all } => with_flags(
                "select_files",
                *toggle,
                "--toggle",
                *all,
                "--all",
            ),
            Command::SetMode => String::from_str("set_mode"),
            Command::TabSwitch(c) => c.to_string(),
            Command::ToggleHiddenFiles => String::from_str("toggle_hidden"),
        }
    }
}

/// The characters of each argument of `args`.
pub open spec fn arg_views(args: Seq<&str>) -> Seq<Seq<char>> {
    args.map_values(|a: &str| a@)
}

/// The number of bytes that a paste moves between two progress reports.
pub const PASTE_BUFFER_SIZE: usize = 4194304;

/// The failure of the command `name` with the message `error`.
pub open spec fn failure(name: Seq<char>, error: Seq<char>) -> Result<
    CommandView,
    KeymapErrorView,
> {
    Err(KeymapErrorView { command: Some(name), error })
}

/// `cd`: without argument to the home directory, with `..` to the parent,
/// with another argument to that path.
pub open spec fn cd_of(args: Seq<Seq<char>>, home: Option<Seq<char>>) -> Result<
    CommandView,
    KeymapErrorView,
> {
    if args.len() == 0 {
        match home {
            Some(h) => Ok(CommandView::ChangeDirectory { path: h }),
            None => failure("cd"@, "Cannot find home directory"@),
        }
    } else if args.len() == 1 {
        if args[0] == ".."@ {
            Ok(CommandView::ParentDirectory)
        } else {
            Ok(CommandView::ChangeDirectory { path: args[0] })
        }
    } else {
        failure("cd"@, "Expected 1 argument, got "@ + decimal(args.len()))
    }
}

/// `console`: a command line that opens with the argument, if there is one.
pub open spec fn console_of(args: Seq<Seq<char>>) -> Result<CommandView, KeymapErrorView> {
    if args.len() == 0 {
        Ok(CommandView::CommandLine { prefix: Seq::empty(), suffix: Seq::empty() })
    } else if args.len() == 1 {
        Ok(CommandView::CommandLine { prefix: args[0], suffix: Seq::empty() })
    } else {
        failure("console"@, "Expected 0 or 2 arguments, got "@ + decimal(args.len()))
    }
}

/// `cursor_move_down` and `cursor_move_up`: by one entry, or by the number
/// that the argument writes.
pub open spec fn cursor_move_of(name: Seq<char>, down: bool, args: Seq<Seq<char>>) -> Result<
    CommandView,
    KeymapErrorView,
> {
    if args.len() == 0 {
        Ok(
            if down {
                CommandView::CursorMoveDown(1)
            } else {
                CommandView::CursorMoveUp(1)
            },
        )
    } else if args.len() == 1 {
        match parse_usize_spec(args[0]) {
            Ok(n) => Ok(
                if down {
                    CommandView::CursorMoveDown(n as usize)
                } else {
                    CommandView::CursorMoveUp(n as usize)
                },
            ),
            Err(e) => failure(name, e.spec_message()),
        }
    } else {
        failure(name, "Expected 0 or 1 arguments, got "@ + decimal(args.len()))
    }
}

/// `mkdir`: one directory for each argument, and at least one.
pub open spec fn mkdir_of(args: Seq<Seq<char>>) -> Result<CommandView, KeymapErrorView> {
    if args.len() == 0 {
        failure("mkdir"@, "mkdir requires additional parameter"@)
    } else {
        Ok(CommandView::NewDirectory(args))
    }
}

/// The first of `args` that is neither `a` nor `b`.
pub open spec fn first_unknown(args: Seq<Seq<char>>, a: Seq<char>, b: Seq<char>) -> Option<
    Seq<char>,
>
    decreases args.len(),
{
    if args.len() == 0 {
        None
    } else if args[0] != a && args[0] != b {
        Some(args[0])
    } else {
        first_unknown(args.drop_first(), a, b)
    }
}

/// `paste_files`: each argument is `--overwrite` or `--skip_exist` and
/// switches that option on.
pub open spec fn paste_files_of(args: Seq<Seq<char>>) -> Result<CommandView, KeymapErrorView> {
    match first_unknown(args, "--overwrite"@, "--skip_exist"@) {
        Some(arg) => failure("paste_files"@, "unknown option "@ + arg),
        None => Ok(
            CommandView::PasteFiles(
                PasteOptions {
                    overwrite: args.contains("--overwrite"@),
                    skip_exist: args.contains("--skip_exist"@),
                    buffer_size: PASTE_BUFFER_SIZE,
                    copy_inside: false,
                    content_only: false,
                    depth: 0,
                },
            ),
        ),
    }
}

/// `rename`: to the path that the one argument gives.
pub open spec fn rename_of(args: Seq<Seq<char>>) -> Result<CommandView, KeymapErrorView> {
    if args.len() == 1 {
        Ok(CommandView::RenameFile { path: args[0] })
    } else {
        failure("rename_file"@, "Expected 1, got "@ + decimal(args.len()))
    }
}

/// `search`: for the pattern that the one argument gives.
pub open spec fn search_of(args: Seq<Seq<char>>) -> Result<CommandView, KeymapErrorView> {
    if args.len() == 1 {
        Ok(CommandView::Search(args[0]))
    } else {
        failure("search"@, "Expected 1, got "@ + decimal(args.len()))
    }
}

/// `select_files`: each argument is `--toggle` or `--all` and switches that
/// flag on.
pub open spec fn select_files_of(args: Seq<Seq<char>>) -> Result<CommandView, KeymapErrorView> {
    match first_unknown(args, "--toggle"@, "--all"@) {
        Some(arg) => failure("select_files"@, "unknown option "@ + arg),
        None => Ok(
            CommandView::SelectFiles {
                toggle: args.contains("--toggle"@),
                all: args.contains("--all"@),
            },
        ),
    }
}

/// `tab_switch`: by the signed number that the one argument writes.
pub open spec fn tab_switch_of(args: Seq<Seq<char>>) -> Result<CommandView, KeymapErrorView> {
    if args.len() == 1 {
        match parse_i32_spec(args[0]) {
            Ok(n) => Ok(CommandView::TabSwitch { movement: n }),
            Err(e) => failure("tab_switch"@, e.spec_message()),
        }
    } else {
        failure("tab_switch"@, "No option provided"@)
    }
}

/// The command that the name `command` and the arguments `args` stand for,
/// or why they stand for none. `home` is the user's home directory, where
/// one is known.
pub open spec fn command_of(command: Seq<char>, args: Seq<Seq<char>>, home: Option<Seq<char>>)
    -> Result<CommandView, KeymapErrorView> {
    if command == "cd"@ {
        cd_of(args, home)
    } else if command == "copy_files"@ {
        Ok(CommandView::CopyFiles)
    } else if command == "console"@ {
        console_of(args)
    } else if command == "cursor_move_down"@ {
        cursor_move_of("cursor_move_down"@, true, args)
    } else if command == "cursor_move_up"@ {
        cursor_move_of("cursor_move_up"@, false, args)
    } else if command == "cursor_move_home"@ {
        Ok(CommandView::CursorMoveHome)
    } else if command == "cursor_move_end"@ {
        Ok(CommandView::CursorMoveEnd)
    } else if command == "cursor_move_page_up"@ {
        Ok(CommandView::CursorMovePageUp)
    } else if command == "cursor_move_page_down"@ {
        Ok(CommandView::CursorMovePageDown)
    } else if command == "cut_files"@ {
        Ok(CommandView::CutFiles)
    } else if command == "delete_files"@ {
        Ok(CommandView::DeleteFiles)
    } else if command == "force_quit"@ {
        Ok(CommandView::ForceQuit)
    } else if command == "mkdir"@ {
        mkdir_of(args)
    } else if command == "open_file"@ {
        Ok(CommandView::OpenFile)
    } else if command == "open_file_with"@ {
        Ok(CommandView::OpenFileWith)
    } else if command == "paste_files"@ {
        paste_files_of(args)
    } else if command == "quit"@ {
        Ok(CommandView::Quit)
    } else if command == "reload_dir_list"@ {
        Ok(CommandView::ReloadDirList)
    } else if command == "rename"@ {
        rename_of(args)
    } else if command == "rename_append"@ {
        Ok(CommandView::RenameFileAppend)
    } else if command == "rename_prepend"@ {
        Ok(CommandView::RenameFilePrepend)
    } else if command == "search"@ {
        search_of(args)
    } else if command == "search_next"@ {
        Ok(CommandView::SearchNext)
    } else if command == "search_prev"@ {
        Ok(CommandView::SearchPrev)
    } else if command == "select_files"@ {
        select_files_of(args)
    } else if command == "set_mode"@ {
        Ok(CommandView::SetMode)
    } else if command == "tab_switch"@ {
        tab_switch_of(args)
    } else if command == "toggle_hidden"@ {
        Ok(CommandView::ToggleHiddenFiles)
    } else {
        Err(KeymapErrorView { command: None, error: "Unknown command: "@ + command })
    }
}

/// What `r` is as a value of the model.
pub open spec fn outcome_view(r: Result<Command, KeymapError>) -> Result<
    CommandView,
    KeymapErrorView,
> {
    match r {
        Ok(c) => Ok(c@),
        Err(e) => Err(e@),
    }
}

fn fail(name: &str, error: String) -> (r: Result<Command, KeymapError>)
    ensures
        outcome_view(r) == failure(name@, error@),
{
    Err(KeymapError::new(Some(name), error))
}

fn fail_with_count(name: &str, text: &str, n: usize) -> (r: Result<Command, KeymapError>)
    ensures
        outcome_view(r) == failure(name@, text@ + decimal(n as nat)),
{
    fail(name, String::from_str(text).concat(usize_to_string(n).as_str()))
}

fn cd(args: &[&str], home_dir: Option<&str>) -> (r: Result<Command, KeymapError>)
    ensures
        outcome_view(r) == cd_of(
            arg_views(args@),
            match home_dir {
                Some(h) => Some(h@),
                None => None,
            },
        ),
{
    if args.len() == 0 {
        match home_dir {
            Some(h) => Ok(Command::ChangeDirectory(ChangeDirectory::new(h.to_owned()))),
            None => fail("cd", String::from_str("Cannot find home directory")),
        }
    } else if args.len() == 1 {
        if str_eq(args[0], "..") {
            Ok(Command::ParentDirectory(ParentDirectory::new()))
        } else {
            Ok(Command::ChangeDirectory(ChangeDirectory::new(args[0].to_owned())))
        }
    } else {
        fail_with_count("cd", "Expected 1 argument, got ", args.len())
    }
}

fn console(args: &[&str]) -> (r: Result<Command, KeymapError>)
    ensures
        outcome_view(r) == console_of(arg_views(args@)),
{
    if args.len() == 0 {
        Ok(Command::CommandLine { prefix: String::new(), suffix: String::new() })
    } else if args.len() == 1 {
        Ok(Command::CommandLine { prefix: args[0].to_owned(), suffix: String::new() })
    } else {
        fail_with_count("console", "Expected 0 or 2 arguments, got ", args.len())
    }
}

fn cursor_move(name: &str, down: bool, args: &[&str]) -> (r: Result<Command, KeymapError>)
    ensures
        outcome_view(r) == cursor_move_of(name@, down, arg_views(args@)),
{
    if args.len() == 0 {
        if down {
            Ok(Command::CursorMoveDown(1))
        } else {
            Ok(Command::CursorMoveUp(1))
        }
    } else if args.len() == 1 {
        match parse_usize(args[0]) {
            Ok(n) => {
                if down {
                    Ok(Command::CursorMoveDown(n))
                } else {
                    Ok(Command::CursorMoveUp(n))
                }
            },
            Err(e) => fail(name, String::from_str(e.message())),
        }
    } else {
        fail_with_count(name, "Expected 0 or 1 arguments, got ", args.len())
    }
}

fn mkdir(args: &[&str]) -> (r: Result<Command, KeymapError>)
    ensures
        outcome_view(r) == mkdir_of(arg_views(args@)),
{
    if args.len() == 0 {
        fail("mkdir", String::from_str("mkdir requires additional parameter"))
    } else {
        let mut paths: Vec<String> = Vec::new();
        let mut i: usize = 0;
        while i < args.len()
            invariant
                i <= args.len(),
                paths@.len() == i,
                string_views(paths@) == arg_views(args@).take(i as int),
            decreases args.len() - i,
        {
            let ghost before = paths@;
            paths.push(args[i].to_owned());
            assert forall|j: int| 0 <= j < i + 1 implies string_views(paths@)[j] == arg_views(
                args@,
            ).take(i + 1)[j] by {
                if j < i {
                    assert(string_views(before)[j] == arg_views(args@).take(i as int)[j]);
                }
            }
            assert(string_views(paths@) =~= arg_views(args@).take(i + 1));
            i = i + 1;
        }
        assert(arg_views(args@).take(args.len() as int) =~= arg_views(args@));
        Ok(Command::NewDirectory(paths))
    }
}

/// Reads the flags `a` and `b` off `args`: whether each occurs, or the
/// first argument that is neither.
fn read_flags(args: &[&str], a: &str, b: &str) -> (r: Result<(bool, bool), String>)
    ensures
        match first_unknown(arg_views(args@), a@, b@) {
            Some(arg) => r is Err && r->Err_0@ == arg,
            None => r == Ok::<(bool, bool), String>(
                (arg_views(args@).contains(a@), arg_views(args@).contains(b@)),
            ),
        },
{
    let mut has_a = false;
    let mut has_b = false;
    let mut i: usize = 0;
    let ghost all = arg_views(args@);
    assert(all.skip(0) =~= all);
    while i < args.len()
        invariant
            i <= args.len(),
            all == arg_views(args@),
            first_unknown(all, a@, b@) == first_unknown(all.skip(i as int), a@, b@),
            has_a == all.take(i as int).contains(a@),
            has_b == all.take(i as int).contains(b@),
        decreases args.len() - i,
    {
        let arg = args[i];
        assert(all.skip(i as int)[0] == arg@);
        assert(all.skip(i as int).drop_first() =~= all.skip(i + 1));
        assert(all.take(i + 1) =~= all.take(i as int).push(arg@));
        let is_a = str_eq(arg, a);
        let is_b = str_eq(arg, b);
        if !is_a && !is_b {
            return Err(arg.to_owned());
        }
        proof {
            let before = all.take(i as int);
            let after = all.take(i + 1);
            assert(after.last() == arg@);
            assert forall|x: Seq<char>| after.contains(x) <==> (before.contains(x) || x == arg@) by {
                if before.contains(x) {
                    let j = choose|j: int| 0 <= j < before.len() && before[j] == x;
                    assert(after[j] == x);
                }
                if x == arg@ {
                    assert(after[i as int] == x);
                }
                if after.contains(x) {
                    let j = choose|j: int| 0 <= j < after.len() && after[j] == x;
                    if j < i {
                        assert(before[j] == x);
                    }
                }
            }
        }
        has_a = has_a || is_a;
        has_b = has_b || is_b;
        i = i + 1;
    }
    assert(all.take(args.len() as int) =~= all);
    Ok((has_a, has_b))
}

fn paste_files(args: &[&str]) -> (r: Result<Command, KeymapError>)
    ensures
        outcome_view(r) == paste_files_of(arg_views(args@)),
{
    let mut options = crate::commands::file_operations::copy_options_new();
    options.buffer_size = PASTE_BUFFER_SIZE;
    match read_flags(args, "--overwrite", "--skip_exist") {
        Ok((overwrite, skip_exist)) => {
            options.overwrite = overwrite;
            options.skip_exist = skip_exist;
            Ok(Command::PasteFiles(options))
        },
        Err(arg) => {
            let error = String::from_str("unknown option ").concat(arg.as_str());
            fail("paste_files", error)
        },
    }
}

fn rename(args: &[&str]) -> (r: Result<Command, KeymapError>)
    ensures
        outcome_view(r) == rename_of(arg_views(args@)),
{
    if args.len() == 1 {
        Ok(Command::RenameFile(RenameFile::new(args[0].to_owned())))
    } else {
        fail_with_count("rename_file", "Expected 1, got ", args.len())
    }
}

fn search(args: &[&str]) -> (r: Result<Command, KeymapError>)
    ensures
        outcome_view(r) == search_of(arg_views(args@)),
{
    if args.len() == 1 {
        Ok(Command::Search(args[0].to_owned()))
    } else {
        fail_with_count("search", "Expected 1, got ", args.len())
    }
}

fn select_files(args: &[&str]) -> (r: Result<Command, KeymapError>)
    ensures
        outcome_view(r) == select_files_of(arg_views(args@)),
{
    match read_flags(args, "--toggle", "--all") {
        Ok((toggle, all)) => Ok(Command::SelectFiles { toggle, all }),
        Err(arg) => {
            let error = String::from_str("unknown option ").concat(arg.as_str());
            fail("select_files", error)
        },
    }
}

fn tab_switch(args: &[&str]) -> (r: Result<Command, KeymapError>)
    ensures
        outcome_view(r) == tab_switch_of(arg_views(args@)),
{
    if args.len() == 1 {
        match parse_i32(args[0]) {
            Ok(n) => Ok(Command::TabSwitch(TabSwitch::new(n))),
            Err(e) => fail("tab_switch", String::from_str(e.message())),
        }
    } else {
        fail("tab_switch", String::from_str("No option provided"))
    }
}

/// Reads a command from its name and its arguments, as a keymap writes
/// them. `home_dir` is the user's home directory, where one is known.
pub fn from_args(command: &str, args: &[&str], home_dir: Option<&str>) -> (r: Result<
    Command,
    KeymapError,
>)
    ensures
        outcome_view(r) == command_of(
            command@,
            arg_views(args@),
            match home_dir {
                Some(h) => Some(h@),
                None => None,
            },
        ),
{
    if str_eq(command, "cd") {
        cd(args, home_dir)
    } else if str_eq(command, "copy_files") {
        Ok(Command::CopyFiles)
    } else if str_eq(command, "console") {
        console(args)
    } else if str_eq(command, "cursor_move_down") {
        cursor_move("cursor_move_down", true, args)
    } else if str_eq(command, "cursor_move_up") {
        cursor_move("cursor_move_up", false, args)
    } else if str_eq(command, "cursor_move_home") {
        Ok(Command::CursorMoveHome)
    } else if str_eq(command, "cursor_move_end") {
        Ok(Command::CursorMoveEnd)
    } else if str_eq(command, "cursor_move_page_up") {
        Ok(Command::CursorMovePageUp)
    } else if str_eq(command, "cursor_move_page_down") {
        Ok(Command::CursorMovePageDown)
    } else if str_eq(command, "cut_files") {
        Ok(Command::CutFiles)
    } else if str_eq(command, "delete_files") {
        Ok(Command::DeleteFiles)
    } else if str_eq(command, "force_quit") {
        Ok(Command::ForceQuit)
    } else if str_eq(command, "mkdir") {
        mkdir(args)
    } else if str_eq(command, "open_file") {
        Ok(Command::OpenFile(OpenFile::new()))
    } else if str_eq(command, "open_file_with") {
        Ok(Command::OpenFileWith(OpenFileWith::new()))
    } else if str_eq(command, "paste_files") {
        paste_files(args)
    } else if str_eq(command, "quit") {
        Ok(Command::Quit)
    } else if str_eq(command, "reload_dir_list") {
        Ok(Command::ReloadDirList)
    } else if str_eq(command, "rename") {
        rename(args)
    } else if str_eq(command, "rename_append") {
        Ok(Command::RenameFileAppend(RenameFileAppend::new()))
    } else if str_eq(command, "rename_prepend") {
        Ok(Command::RenameFilePrepend(RenameFilePrepend::new()))
    } else if str_eq(command, "search") {
        search(args)
    } else if str_eq(command, "search_next") {
        Ok(Command::SearchNext)
    } else if str_eq(command, "search_prev") {
        Ok(Command::SearchPrev)
    } else if str_eq(command, "select_files") {
        select_files(args)
    } else if str_eq(command, "set_mode") {
        Ok(Command::SetMode)
    } else if str_eq(command, "tab_switch") {
        tab_switch(args)
    } else if str_eq(command, "toggle_hidden") {
        Ok(Command::ToggleHiddenFiles)
    } else {
        let error = String::from_str("Unknown command: ").concat(command);
        Err(KeymapError::new(None, error))
    }
}

} // verus!
