use lll::commands::{from_args, Command, LllCommand, PasteOptions};
use lll::error::{KeymapError, LllError};

fn failure(name: Option<&str>, error: &str) -> KeymapError {
    KeymapError { command: name.map(String::from), error: String::from(error) }
}

fn label(command: &str, args: &[&str]) -> String {
    from_args(command, args, Some("/home/user")).unwrap().to_string()
}

#[test]
fn cd_without_argument_goes_home() {
    match from_args("cd", &[], Some("/home/user")) {
        Ok(Command::ChangeDirectory(c)) => assert_eq!(c.target(), "/home/user"),
        other => panic!("unexpected: {:?}", other),
    }
}

#[test]
fn cd_without_home_fails() {
    assert_eq!(
        from_args("cd", &[], None).unwrap_err(),
        failure(Some("cd"), "Cannot find home directory")
    );
}

#[test]
fn cd_dot_dot_is_parent_directory() {
    assert!(matches!(from_args("cd", &[".."], None), Ok(Command::ParentDirectory(_))));
}

#[test]
fn cd_with_path() {
    match from_args("cd", &["/tmp"], None) {
        Ok(Command::ChangeDirectory(c)) => {
            assert_eq!(c.target(), "/tmp");
            assert_eq!(c.to_string(), "cd /tmp");
        }
        other => panic!("unexpected: {:?}", other),
    }
}

#[test]
fn cd_with_two_arguments_fails() {
    assert_eq!(
        from_args("cd", &["a", "b"], None).unwrap_err(),
        failure(Some("cd"), "Expected 1 argument, got 2")
    );
}

#[test]
fn console_takes_at_most_one_argument() {
    match from_args("console", &[], None) {
        Ok(Command::CommandLine { prefix, suffix }) => {
            assert_eq!(prefix, "");
            assert_eq!(suffix, "");
        }
        other => panic!("unexpected: {:?}", other),
    }
    match from_args("console", &["mkdir "], None) {
        Ok(Command::CommandLine { prefix, suffix }) => {
            assert_eq!(prefix, "mkdir ");
            assert_eq!(suffix, "");
        }
        other => panic!("unexpected: {:?}", other),
    }
    assert_eq!(
        from_args("console", &["a", "b", "c"], None).unwrap_err(),
        failure(Some("console"), "Expected 0 or 2 arguments, got 3")
    );
}

#[test]
fn cursor_moves_read_a_count() {
    assert!(matches!(from_args("cursor_move_down", &[], None), Ok(Command::CursorMoveDown(1))));
    assert!(matches!(from_args("cursor_move_down", &["5"], None), Ok(Command::CursorMoveDown(5))));
    assert!(matches!(from_args("cursor_move_up", &[], None), Ok(Command::CursorMoveUp(1))));
    assert!(matches!(from_args("cursor_move_up", &["12"], None), Ok(Command::CursorMoveUp(12))));
    assert_eq!(
        from_args("cursor_move_down", &["-1"], None).unwrap_err(),
        failure(Some("cursor_move_down"), "invalid digit found in string")
    );
    assert_eq!(
        from_args("cursor_move_up", &[""], None).unwrap_err(),
        failure(Some("cursor_move_up"), "cannot parse integer from empty string")
    );
    assert_eq!(
        from_args("cursor_move_up", &["1", "2"], None).unwrap_err(),
        failure(Some("cursor_move_up"), "Expected 0 or 1 arguments, got 2")
    );
    assert_eq!(
        from_args("cursor_move_down", &["99999999999999999999999"], None).unwrap_err(),
        failure(Some("cursor_move_down"), "number too large to fit in target type")
    );
}

#[test]
fn commands_without_arguments() {
    assert!(matches!(from_args("copy_files", &[], None), Ok(Command::CopyFiles)));
    assert!(matches!(from_args("cursor_move_home", &[], None), Ok(Command::CursorMoveHome)));
    assert!(matches!(from_args("cursor_move_end", &[], None), Ok(Command::CursorMoveEnd)));
    assert!(matches!(from_args("cursor_move_page_up", &[], None), Ok(Command::CursorMovePageUp)));
    assert!(matches!(
        from_args("cursor_move_page_down", &[], None),
        Ok(Command::CursorMovePageDown)
    ));
    assert!(matches!(from_args("cut_files", &[], None), Ok(Command::CutFiles)));
    assert!(matches!(from_args("delete_files", &[], None), Ok(Command::DeleteFiles)));
    assert!(matches!(from_args("force_quit", &[], None), Ok(Command::ForceQuit)));
    assert!(matches!(from_args("open_file", &[], None), Ok(Command::OpenFile(_))));
    assert!(matches!(from_args("open_file_with", &[], None), Ok(Command::OpenFileWith(_))));
    assert!(matches!(from_args("quit", &[], None), Ok(Command::Quit)));
    assert!(matches!(from_args("reload_dir_list", &[], None), Ok(Command::ReloadDirList)));
    assert!(matches!(from_args("rename_append", &[], None), Ok(Command::RenameFileAppend(_))));
    assert!(matches!(from_args("rename_prepend", &[], None), Ok(Command::RenameFilePrepend(_))));
    assert!(matches!(from_args("search_next", &[], None), Ok(Command::SearchNext)));
    assert!(matches!(from_args("search_prev", &[], None), Ok(Command::SearchPrev)));
    assert!(matches!(from_args("set_mode", &[], None), Ok(Command::SetMode)));
    assert!(matches!(from_args("toggle_hidden", &[], None), Ok(Command::ToggleHiddenFiles)));
}

#[test]
fn mkdir_takes_one_directory_per_argument() {
    match from_args("mkdir", &["a", "b/c"], None) {
        Ok(Command::NewDirectory(paths)) => assert_eq!(paths, vec!["a", "b/c"]),
        other => panic!("unexpected: {:?}", other),
    }
    assert_eq!(
        from_args("mkdir", &[], None).unwrap_err(),
        failure(Some("mkdir"), "mkdir requires additional parameter")
    );
}

#[test]
fn paste_files_starts_from_the_defaults() {
    match from_args("paste_files", &[], None) {
        Ok(Command::PasteFiles(options)) => assert_eq!(
            options,
            PasteOptions {
                overwrite: false,
                skip_exist: false,
                buffer_size: 4 * 1024 * 1024,
                copy_inside: false,
                content_only: false,
                depth: 0,
            }
        ),
        other => panic!("unexpected: {:?}", other),
    }
}

#[test]
fn paste_files_reads_its_flags() {
    match from_args("paste_files", &["--overwrite"], None) {
        Ok(Command::PasteFiles(options)) => {
            assert!(options.overwrite);
            assert!(!options.skip_exist);
        }
        other => panic!("unexpected: {:?}", other),
    }
    match from_args("paste_files", &["--skip_exist", "--overwrite", "--skip_exist"], None) {
        Ok(Command::PasteFiles(options)) => {
            assert!(options.overwrite);
            assert!(options.skip_exist);
            assert_eq!(options.buffer_size, 4194304);
        }
        other => panic!("unexpected: {:?}", other),
    }
}

#[test]
fn paste_files_refuses_an_unknown_option() {
    assert_eq!(
        from_args("paste_files", &["--skip_exist", "--force", "--what"], None).unwrap_err(),
        failure(Some("paste_files"), "unknown option --force")
    );
}

#[test]
fn rename_takes_one_path() {
    match from_args("rename", &["new name"], None) {
        Ok(Command::RenameFile(c)) => assert_eq!(c.target(), "new name"),
        other => panic!("unexpected: {:?}", other),
    }
    assert_eq!(
        from_args("rename", &[], None).unwrap_err(),
        failure(Some("rename_file"), "Expected 1, got 0")
    );
}

#[test]
fn search_takes_one_pattern() {
    match from_args("search", &["needle"], None) {
        Ok(Command::Search(pattern)) => assert_eq!(pattern, "needle"),
        other => panic!("unexpected: {:?}", other),
    }
    assert_eq!(
        from_args("search", &["a", "b"], None).unwrap_err(),
        failure(Some("search"), "Expected 1, got 2")
    );
}

#[test]
fn select_files_reads_its_flags() {
    assert!(matches!(
        from_args("select_files", &[], None),
        Ok(Command::SelectFiles { toggle: false, all: false })
    ));
    assert!(matches!(
        from_args("select_files", &["--toggle"], None),
        Ok(Command::SelectFiles { toggle: true, all: false })
    ));
    assert!(matches!(
        from_args("select_files", &["--all", "--toggle"], None),
        Ok(Command::SelectFiles { toggle: true, all: true })
    ));
    assert_eq!(
        from_args("select_files", &["--all", "-x"], None).unwrap_err(),
        failure(Some("select_files"), "unknown option -x")
    );
}

#[test]
fn tab_switch_reads_a_signed_number() {
    match from_args("tab_switch", &["-1"], None) {
        Ok(Command::TabSwitch(t)) => assert_eq!(t.to_string(), "tab_switch -1"),
        other => panic!("unexpected: {:?}", other),
    }
    match from_args("tab_switch", &["+2"], None) {
        Ok(Command::TabSwitch(t)) => assert_eq!(t.to_string(), "tab_switch 2"),
        other => panic!("unexpected: {:?}", other),
    }
}

#[test]
fn tab_switch_refuses_what_is_no_number() {
    assert_eq!(
        from_args("tab_switch", &["two"], None).unwrap_err(),
        failure(Some("tab_switch"), "invalid digit found in string")
    );
    assert_eq!(
        from_args("tab_switch", &["2147483648"], None).unwrap_err(),
        failure(Some("tab_switch"), "number too large to fit in target type")
    );
    assert_eq!(
        from_args("tab_switch", &["-2147483649"], None).unwrap_err(),
        failure(Some("tab_switch"), "number too small to fit in target type")
    );
    assert_eq!(
        from_args("tab_switch", &[], None).unwrap_err(),
        failure(Some("tab_switch"), "No option provided")
    );
    assert_eq!(
        from_args("tab_switch", &["1", "2"], None).unwrap_err(),
        failure(Some("tab_switch"), "No option provided")
    );
}

#[test]
fn unknown_command_fails() {
    assert_eq!(
        from_args("frobnicate", &[], None).unwrap_err(),
        failure(None, "Unknown command: frobnicate")
    );
    assert_eq!(from_args("", &[], None).unwrap_err(), failure(None, "Unknown command: "));
    assert_eq!(from_args("CD", &[], None).unwrap_err(), failure(None, "Unknown command: CD"));
}

#[test]
fn command_names() {
    assert_eq!(lll::commands::ChangeDirectory::command(), "cd");
    assert_eq!(lll::commands::ParentDirectory::command(), "parent_directory");
    assert_eq!(lll::commands::OpenFile::command(), "open_file");
    assert_eq!(lll::commands::OpenFileWith::command(), "open_file_with");
    assert_eq!(lll::commands::RenameFile::command(), "rename");
    assert_eq!(lll::commands::RenameFileAppend::command(), "rename_append");
    assert_eq!(lll::commands::RenameFilePrepend::command(), "rename_prepend");
    assert_eq!(lll::commands::TabSwitch::command(), "tab_switch");
}

#[test]
fn labels_name_the_command_and_its_arguments() {
    assert_eq!(label("cd", &[]), "cd /home/user");
    assert_eq!(label("cd", &[".."]), "parent_directory");
    assert_eq!(label("console", &["mkdir "]), "console mkdir ");
    assert_eq!(label("cursor_move_down", &["10"]), "cursor_move_down 10");
    assert_eq!(label("cursor_move_up", &[]), "cursor_move_up 1");
    assert_eq!(label("mkdir", &["a", "b"]), "mkdir a b");
    assert_eq!(label("open_file", &[]), "open_file");
    assert_eq!(label("open_file_with", &[]), "open_file_with");
    assert_eq!(label("paste_files", &[]), "paste_files");
    assert_eq!(label("paste_files", &["--skip_exist"]), "paste_files --skip_exist");
    assert_eq!(
        label("paste_files", &["--skip_exist", "--overwrite"]),
        "paste_files --overwrite --skip_exist"
    );
    assert_eq!(label("rename", &["x"]), "rename");
    assert_eq!(label("rename_append", &[]), "rename_append");
    assert_eq!(label("rename_prepend", &[]), "rename_prepend");
    assert_eq!(label("search", &["needle"]), "search needle");
    assert_eq!(label("select_files", &["--all"]), "select_files --all");
    assert_eq!(label("tab_switch", &["-3"]), "tab_switch -3");
    assert_eq!(label("quit", &[]), "quit");
    assert_eq!(label("toggle_hidden", &[]), "toggle_hidden");
}

#[test]
fn a_keymap_error_names_its_command_on_the_status_line() {
    let e = from_args("cd", &["a", "b"], None).unwrap_err();
    assert_eq!(e.to_string(), "cd: Expected 1 argument, got 2");
    let e = from_args("nope", &[], None).unwrap_err();
    assert_eq!(e.to_string(), "Unknown command: nope");
    assert_eq!(LllError::Keymap(e).to_string(), "Unknown command: nope");
}
