use crate::commands::{
    Launch, LaunchView, LllCommand, LllRunnable, Outcome, OutcomeView, Outside, OutsideView,
};
use crate::config::mimetype::{
    entries_for_ext, mimetype_ref_views, LllMimetype, LllMimetypeEntry, MimetypeEntryView,
    MimetypeView,
};
use crate::context::{io_view, ContextView, LllContext};
use crate::error::{IoError, IoErrorKind, IoErrorView, LllError};
use crate::fs::dirlist::{cursor_entry, path_views, selected_paths};
use crate::fs::disk::Disk;
use crate::history::DiskView;
use crate::path::{extension, extension_of};
use crate::tab::switched;
use crate::text::{
    decimal, parse_usize, parse_usize_spec, sort_lines, sorted_lines, split_whitespace,
    string_views, usize_to_string, words_of,
};
use vstd::prelude::*;
use vstd::string::StringExecFns;

verus! {

/// The programs that open `path`: those for its extension, the preferred
/// one first.
pub open spec fn options_for(path: Seq<char>, mimetype: MimetypeView) -> Seq<MimetypeEntryView> {
    match extension_of(path) {
        Some(ext) => entries_for_ext(mimetype, ext),
        None => Seq::empty(),
    }
}

/// How the files `paths` are opened: with the preferred program for the
/// first of them, or, where there is none, with what the system has.
pub open spec fn launch_of(paths: Seq<Seq<char>>, mimetype: MimetypeView) -> LaunchView {
    LaunchView {
        paths,
        entry: if options_for(paths[0], mimetype).len() == 0 {
            None
        } else {
            Some(options_for(paths[0], mimetype)[0])
        },
    }
}

/// The failure of opening when there is nothing to open.
pub open spec fn no_files_selected() -> IoErrorView {
    IoErrorView { kind: IoErrorKind::NotFound, message: "No files selected"@ }
}

/// The session after its current tab has entered `path`. `chdir` is what
/// making `path` the working directory of the process gave.
pub open spec fn entered_directory(
    session: ContextView,
    path: Seq<char>,
    chdir: Result<(), IoErrorView>,
    disk: DiskView,
) -> Result<ContextView, IoErrorView> {
    match chdir {
        Err(e) => Err(e),
        Ok(()) => match switched(
            session.curr_tab(),
            path,
            false,
            disk,
            session.config_t.sort_option,
        ) {
            Err(e) => Err(e),
            Ok(tab) => Ok(session.with_tab(session.curr_tab_index as int, tab)),
        },
    }
}

/// What is left to do after opening, and the session after it. `is_dir` says whether
/// the entry under the cursor is a directory.
pub open spec fn opened(
    session: ContextView,
    is_dir: bool,
    chdir: Result<(), IoErrorView>,
    disk: DiskView,
    mimetype: MimetypeView,
) -> Result<(ContextView, OutcomeView), IoErrorView> {
    let list = session.curr_tab().curr_list;
    if cursor_entry(list) is Some && is_dir {
        match entered_directory(session, cursor_entry(list)->Some_0.path, chdir, disk) {
            Ok(after) => Ok((after, OutcomeView::Done)),
            Err(e) => Err(e),
        }
    } else if selected_paths(list).len() == 0 {
        Err(no_files_selected())
    } else {
        Ok((session, OutcomeView::Launch(launch_of(selected_paths(list), mimetype))))
    }
}

/// The line of the menu for the program at `i`.
pub open spec fn menu_line(i: int, entry: MimetypeEntryView) -> Seq<char> {
    "  "@ + decimal(i as nat) + "\t"@ + entry.label()
}

/// The lines of the menu for `options`, in the order in which they stand
/// in `options`.
pub open spec fn menu_lines(options: Seq<MimetypeEntryView>) -> Seq<Seq<char>> {
    Seq::new(options.len(), |i: int| menu_line(i, options[i]))
}

/// What the answer `input` to the menu of `options` comes to: the program
/// with the number that it writes, or the command that it spells.
pub open spec fn chosen(
    paths: Seq<Seq<char>>,
    options: Seq<MimetypeEntryView>,
    input: Option<Seq<char>>,
) -> OutcomeView {
    match input {
        None => OutcomeView::Done,
        Some(input) => if input.len() == 0 {
            OutcomeView::Done
        } else {
            match parse_usize_spec(input) {
                Ok(n) => if n < options.len() {
                    OutcomeView::Launch(LaunchView { paths, entry: Some(options[n]) })
                } else {
                    OutcomeView::Done
                },
                Err(_) => OutcomeView::LaunchArgs { paths, args: words_of(input) },
            }
        },
    }
}

fn owned_paths(paths: &Vec<&String>) -> (r: Vec<String>)
    ensures
        string_views(r@) == path_views(paths@),
{
    let mut owned: Vec<String> = Vec::new();
    let mut i: usize = 0;
    while i < paths.len()
        invariant
            i <= paths.len(),
            owned@.len() == i,
            string_views(owned@) == path_views(paths@).take(i as int),
        decreases paths.len() - i,
    {
        let ghost before = owned@;
        owned.push(paths[i].clone());
        assert(string_views(owned@) =~= string_views(before).push(paths@[i as int]@));
        assert(string_views(owned@) =~= path_views(paths@).take(i + 1));
        i = i + 1;
    }
    assert(path_views(paths@).take(paths.len() as int) =~= path_views(paths@));
    owned
}

/// Enters the directory under the cursor, or opens the selected files.
#[derive(Clone, Copy, Debug, PartialEq, Eq)]
pub struct OpenFile;

impl OpenFile {
    /// The command; it has no arguments.
    pub fn new() -> Self {
        OpenFile
    }

    /// The name of the command in a keymap.
    pub fn command() -> (r: &'static str)
        ensures
            r@ == "open_file"@,
    {
        "open_file"
    }


    /// The programs that open `path`, the preferred one first. The
    /// extension of the file name decides.
    pub fn get_options<'a>(path: &str, mimetype: &'a LllMimetype) -> (r: Vec<&'a LllMimetypeEntry>)
        requires
            mimetype.wf(),
        ensures
            mimetype_ref_views(r@) == options_for(path@, mimetype@),
    {
        match extension(path) {
            Some(file_ext) => mimetype.get_entries_for_ext(file_ext.as_str()),
            None => {
                let r: Vec<&LllMimetypeEntry> = Vec::new();
                assert(mimetype_ref_views(r@) =~= Seq::<MimetypeEntryView>::empty());
                r
            },
        }
    }

    /// The path of the entry under the cursor of the current tab: what
    /// the command enters if it is a directory.
    pub fn target(context: &LllContext) -> (r: Option<String>)
        requires
            context@.has_tab(),
        ensures
            match cursor_entry(context@.curr_tab().curr_list) {
                Some(e) => r is Some && r->Some_0@ == e.path,
                None => r is None,
            },
    {
        match context.curr_tab_ref().curr_list().get_curr_ref() {
            Some(entry) => Some(entry.file_path().clone()),
            None => None,
        }
    }

    /// Takes the current tab into `path`, once the process has been asked
    /// to make `path` its working directory and `chdir` has come back. On
    /// any failure the session stays as it was.
    pub fn open_directory(
        path: &str,
        context: &mut LllContext,
        chdir: Result<(), IoError>,
        disk: &Disk,
    ) -> (r: Result<(), IoError>)
        requires
            old(context).wf(),
            old(context)@.has_tab(),
            disk.wf(),
        ensures
            final(context).wf(),
            crate::context::carried_out(
                old(context)@,
                final(context)@,
                io_view(r),
                entered_directory(old(context)@, path@, io_view(chdir), disk@),
            ),
    {
        match chdir {
            Err(e) => {
                return Err(e);
            },
            Ok(()) => {},
        }
        let sort_option = context.config().sort_option;
        let curr_tab = context.curr_tab_mut();
        let r = curr_tab.switch_to(path, false, disk, &sort_option);
        proof {
            if r is Err {
                let session = old(context)@;
                assert(session.tabs.update(session.curr_tab_index as int, session.curr_tab())
                    =~= session.tabs);
            }
        }
        r
    }

    /// How the files `paths` are opened: with the preferred program for
    /// the first of them, or, where there is none, with what the system
    /// has.
    pub fn open_file(paths: &Vec<&String>, mimetype: &LllMimetype) -> (r: Launch)
        requires
            paths@.len() > 0,
            mimetype.wf(),
        ensures
            r@ == launch_of(path_views(paths@), mimetype@),
    {
        let mimetype_options = Self::get_options(paths[0].as_str(), mimetype);
        let entry = if mimetype_options.is_empty() {
            None
        } else {
            Some(mimetype_options[0].clone())
        };
        Launch { paths: owned_paths(paths), entry }
    }

    /// Opens what is under the cursor. A directory is entered, once the
    /// process has been asked to make it its working directory and `chdir`
    /// has come back; `is_dir` says whether it is one. Otherwise the
    /// selected files, or the file under the cursor where none is
    /// selected, are to be opened. On any failure the session stays as it
    /// was.
    pub fn open(
        context: &mut LllContext,
        is_dir: bool,
        chdir: Result<(), IoError>,
        disk: &Disk,
        mimetype: &LllMimetype,
    ) -> (r: Result<Outcome, IoError>)
        requires
            old(context).wf(),
            old(context)@.has_tab(),
            disk.wf(),
            mimetype.wf(),
        ensures
            final(context).wf(),
            match opened(old(context)@, is_dir, io_view(chdir), disk@, mimetype@) {
                Ok((after, action)) => r is Ok && r->Ok_0@ == action && final(context)@ == after,
                Err(e) => r is Err && r->Err_0@ == e && final(context)@ == old(context)@,
            },
    {
        let path: Option<String> = if is_dir {
            Self::target(context)
        } else {
            None
        };
        match path {
            Some(path) => {
                match Self::open_directory(path.as_str(), context, chdir, disk) {
                    Ok(()) => Ok(Outcome::Done),
                    Err(e) => Err(e),
                }
            },
            None => {
                let curr_tab = context.curr_tab_ref();
                let paths = curr_tab.curr_list().get_selected_paths();
                if paths.is_empty() {
                    return Err(IoError::new(IoErrorKind::NotFound, "No files selected"));
                }
                Ok(Outcome::Launch(Self::open_file(&paths, mimetype)))
            },
        }
    }
}

impl LllRunnable for OpenFile {
    /// The directory under the cursor is entered, or the selected files
    /// are to be opened.
    open spec fn executed(&self, session: ContextView, outside: OutsideView) -> Result<
        (ContextView, OutcomeView),
        IoErrorView,
    > {
        opened(session, outside.is_dir, outside.chdir, outside.disk, outside.mimetype)
    }

    fn execute(&self, context: &mut LllContext, outside: Outside) -> (r: Result<Outcome, LllError>) {
        match Self::open(context, outside.is_dir, outside.chdir, outside.disk, outside.mimetype) {
            Ok(action) => Ok(action),
            Err(e) => Err(LllError::IO(e)),
        }
    }
}

/// Opens the selected files with a program that the user picks.
#[derive(Clone, Copy, Debug, PartialEq, Eq)]
pub struct OpenFileWith;

impl OpenFileWith {
    /// The command; it has no arguments.
    pub fn new() -> Self {
        OpenFileWith
    }

    /// The name of the command in a keymap.
    pub fn command() -> (r: &'static str)
        ensures
            r@ == "open_file_with"@,
    {
        "open_file_with"
    }


    /// The menu of the programs `options`: a line for each with its
    /// number, the lines in the order of the dictionary.
    pub fn menu(options: &Vec<&LllMimetypeEntry>) -> (r: Vec<String>)
        ensures
            string_views(r@) == sorted_lines(menu_lines(mimetype_ref_views(options@))),
    {
        let mut display_vec: Vec<String> = Vec::new();
        let ghost lines = menu_lines(mimetype_ref_views(options@));
        let mut i: usize = 0;
        while i < options.len()
            invariant
                i <= options.len(),
                lines == menu_lines(mimetype_ref_views(options@)),
                string_views(display_vec@) == lines.take(i as int),
            decreases options.len() - i,
        {
            let ghost before = display_vec@;
            let line = String::from_str("  ").concat(usize_to_string(i).as_str()).concat(
                "\t",
            ).concat(options[i].to_string().as_str());
            assert(line@ =~= menu_line(i as int, options@[i as int]@));
            display_vec.push(line);
            assert(string_views(display_vec@) =~= string_views(before).push(line@));
            assert(string_views(display_vec@) =~= lines.take(i + 1));
            i = i + 1;
        }
        assert(lines.take(options.len() as int) =~= lines);
        sort_lines(display_vec)
    }

    /// What the answer `user_input` to the menu for `paths` comes to.
    /// `None` stands for a prompt that the user has left. A number picks
    /// the program that the menu shows under it; anything else is taken as
    /// a command and its arguments.
    pub fn open_with(paths: &Vec<&String>, mimetype: &LllMimetype, user_input: Option<&str>) -> (r:
        Outcome)
        requires
            paths@.len() > 0,
            mimetype.wf(),
        ensures
            r@ == chosen(
                path_views(paths@),
                options_for(paths@[0]@, mimetype@),
                match user_input {
                    Some(s) => Some(s@),
                    None => None,
                },
            ),
    {
        let mimetype_options = OpenFile::get_options(paths[0].as_str(), mimetype);
        let user_input = match user_input {
            Some(s) => s,
            None => {
                return Outcome::Done;
            },
        };
        if user_input.is_empty() {
            return Outcome::Done;
        }
        match parse_usize(user_input) {
            Ok(s) => {
                if s < mimetype_options.len() {
                    Outcome::Launch(
                        Launch { paths: owned_paths(paths), entry: Some(mimetype_options[s].clone()) },
                    )
                } else {
                    Outcome::Done
                }
            },
            Err(_) => {
                let args = split_whitespace(user_input);
                Outcome::LaunchArgs { paths: owned_paths(paths), args }
            },
        }
    }

    /// The programs that the menu offers for what is selected in the
    /// current tab.
    pub fn options<'a>(context: &LllContext, mimetype: &'a LllMimetype) -> (r: Vec<
        &'a LllMimetypeEntry,
    >)
        requires
            context@.has_tab(),
            mimetype.wf(),
        ensures
            mimetype_ref_views(r@) == (if selected_paths(context@.curr_tab().curr_list).len()
                == 0 {
                Seq::empty()
            } else {
                options_for(selected_paths(context@.curr_tab().curr_list)[0], mimetype@)
            }),
    {
        let paths = context.curr_tab_ref().curr_list().get_selected_paths();
        if paths.is_empty() {
            let r: Vec<&LllMimetypeEntry> = Vec::new();
            assert(mimetype_ref_views(r@) =~= Seq::<MimetypeEntryView>::empty());
            r
        } else {
            OpenFile::get_options(paths[0].as_str(), mimetype)
        }
    }
}

impl LllRunnable for OpenFileWith {
    /// What is selected in the current tab is to be opened as the user's
    /// answer to the menu says. Where nothing is selected and the cursor
    /// is on nothing, nothing is opened. The session stays as it is.
    open spec fn executed(&self, session: ContextView, outside: OutsideView) -> Result<
        (ContextView, OutcomeView),
        IoErrorView,
    > {
        let paths = selected_paths(session.curr_tab().curr_list);
        if paths.len() == 0 {
            Ok((session, OutcomeView::Done))
        } else {
            Ok(
                (
                    session,
                    chosen(paths, options_for(paths[0], outside.mimetype), outside.user_input),
                ),
            )
        }
    }

    fn execute(&self, context: &mut LllContext, outside: Outside) -> (r: Result<Outcome, LllError>) {
        let paths = context.curr_tab_ref().curr_list().get_selected_paths();
        if paths.is_empty() {
            Ok(Outcome::Done)
        } else {
            let user_input: Option<&str> = match &outside.user_input {
                Some(s) => Some(s.as_str()),
                None => None,
            };
            Ok(OpenFileWith::open_with(&paths, outside.mimetype, user_input))
        }
    }
}

impl LllCommand for OpenFile {
    open spec fn label(&self) -> Seq<char> {
        "open_file"@
    }

    fn to_string(&self) -> (r: String) {
        String::from_str("open_file")
    }
}

impl LllCommand for OpenFileWith {
    open spec fn label(&self) -> Seq<char> {
        "open_file_with"@
    }

    fn to_string(&self) -> (r: String) {
        String::from_str("open_file_with")
    }
}

} // verus!
