use lll::commands::{from_args, Command};
use lll::config::keymap::{options, resolve, step, Resolution, ESCAPE};
use lll::commands::CommandKeybind;
use lll::config::LllCommandMapping;

fn simple(command: &str, args: &[&str]) -> CommandKeybind {
    CommandKeybind::SimpleKeybind(from_args(command, args, Some("/home/u")).unwrap())
}

fn code(c: char) -> i32 {
    c as i32
}

/// q: quit; g: { g: cursor_move_home, h: cd, t: { n: tab_switch 1 } }
fn keymap() -> LllCommandMapping {
    let mut deep = LllCommandMapping::new();
    deep.insert(code('n'), simple("tab_switch", &["1"]));
    let mut chord = LllCommandMapping::new();
    chord.insert(code('g'), simple("cursor_move_home", &[]));
    chord.insert(code('h'), simple("cd", &[]));
    chord.insert(code('t'), CommandKeybind::CompositeKeybind(deep));
    let mut root = LllCommandMapping::new();
    root.insert(code('q'), simple("quit", &[]));
    root.insert(code('g'), CommandKeybind::CompositeKeybind(chord));
    root
}

#[test]
fn a_bound_key_runs_its_command() {
    let root = keymap();
    assert!(matches!(resolve(&root, &[code('q')]), Resolution::Execute(Command::Quit)));
    assert!(matches!(step(&root, code('q')), Resolution::Execute(Command::Quit)));
}

#[test]
fn a_chord_waits_for_the_next_key() {
    let root = keymap();
    match resolve(&root, &[code('g')]) {
        Resolution::Pending(next) => assert_eq!(next.len(), 3),
        other => panic!("unexpected: {:?}", other),
    }
    match step(&root, code('g')) {
        Resolution::Pending(next) => {
            assert!(matches!(step(next, code('g')), Resolution::Execute(Command::CursorMoveHome)))
        }
        other => panic!("unexpected: {:?}", other),
    }
    match resolve(&root, &[]) {
        Resolution::Pending(next) => assert_eq!(next.len(), 2),
        other => panic!("unexpected: {:?}", other),
    }
}

#[test]
fn a_chord_runs_the_command_at_its_end() {
    let root = keymap();
    assert!(matches!(
        resolve(&root, &[code('g'), code('g')]),
        Resolution::Execute(Command::CursorMoveHome)
    ));
    assert!(matches!(
        resolve(&root, &[code('g'), code('t'), code('n')]),
        Resolution::Execute(Command::TabSwitch(_))
    ));
    // keys behind the command are not looked at
    assert!(matches!(
        resolve(&root, &[code('q'), code('x'), ESCAPE]),
        Resolution::Execute(Command::Quit)
    ));
}

#[test]
fn escape_gives_up_at_any_depth() {
    let root = keymap();
    assert!(matches!(resolve(&root, &[ESCAPE]), Resolution::Abort));
    assert!(matches!(resolve(&root, &[code('g'), ESCAPE]), Resolution::Abort));
    assert!(matches!(resolve(&root, &[code('g'), code('t'), ESCAPE]), Resolution::Abort));
    assert!(matches!(step(&root, ESCAPE), Resolution::Abort));
    assert_eq!(ESCAPE, 27);
}

#[test]
fn escape_gives_up_even_where_it_is_bound() {
    let mut root = keymap();
    root.insert(ESCAPE, simple("quit", &[]));
    assert!(matches!(resolve(&root, &[ESCAPE]), Resolution::Abort));
}

#[test]
fn an_unbound_key_is_reported_at_any_depth() {
    let root = keymap();
    assert!(matches!(resolve(&root, &[code('x')]), Resolution::Unknown(120)));
    assert!(matches!(resolve(&root, &[code('g'), code('x')]), Resolution::Unknown(120)));
    assert!(matches!(
        resolve(&root, &[code('g'), code('t'), code('q'), code('q')]),
        Resolution::Unknown(113)
    ));
    assert!(matches!(step(&root, -1), Resolution::Unknown(-1)));
}

#[test]
fn options_lists_the_next_keys_in_order() {
    let root = keymap();
    assert_eq!(options(&root), vec!["  g\t...", "  q\tquit"]);
    match resolve(&root, &[code('g')]) {
        Resolution::Pending(next) => assert_eq!(
            options(next),
            vec!["  g\tcursor_move_home", "  h\tcd /home/u", "  t\t..."]
        ),
        other => panic!("unexpected: {:?}", other),
    }
    assert_eq!(options(&LllCommandMapping::new()), Vec::<String>::new());
}

#[test]
fn options_shows_the_low_byte_of_a_code() {
    let mut root = LllCommandMapping::new();
    root.insert(256 + 65, simple("quit", &[]));
    root.insert(0xe9, simple("copy_files", &[]));
    assert_eq!(options(&root), vec!["  A\tquit", "  \u{e9}\tcopy_files"]);
}

#[test]
fn a_binding_shows_as_its_command_or_as_dots() {
    assert_eq!(simple("cd", &["/tmp"]).to_string(), "cd /tmp");
    assert_eq!(CommandKeybind::CompositeKeybind(LllCommandMapping::new()).to_string(), "...");
}
