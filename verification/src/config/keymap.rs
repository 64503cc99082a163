use crate::commands::{Command, CommandKeybind, CommandView};
use crate::text::{char_to_string, lines_sorted, sort_lines, sorted_lines, string_views};
use std::collections::HashMap;
use vstd::prelude::*;
use vstd::std_specs::iter::IteratorSpec;
use vstd::string::StringExecFns;

verus! {

/// The input code of the escape key, which gives up a sequence of keys.
pub const ESCAPE: i32 = 0x1B;

/// A keymap: what each input code is bound to.
pub type LllCommandMapping = HashMap<i32, CommandKeybind>;

/// Where a sequence of keys has led.
pub enum ResolutionView {
    /// To a command, which is to be run.
    Execute(CommandView),
    /// Into a keymap, which waits for the next key.
    Pending(Map<i32, CommandKeybind>),
    /// To the escape key: nothing is run.
    Abort,
    /// To a key that is not bound: nothing is run.
    Unknown(i32),
}

/// Where the keys `codes` lead from the keymap `keymap`. The escape key
/// gives up wherever it comes; a key that is not bound ends the sequence;
/// a key that is bound to a command ends it with that command; a key that
/// is bound to a keymap goes on in that keymap.
pub open spec fn resolved(keymap: Map<i32, CommandKeybind>, codes: Seq<i32>) -> ResolutionView
    decreases codes.len(),
{
    if codes.len() == 0 {
        ResolutionView::Pending(keymap)
    } else if codes[0] == ESCAPE {
        ResolutionView::Abort
    } else if !keymap.contains_key(codes[0]) {
        ResolutionView::Unknown(codes[0])
    } else {
        match keymap[codes[0]] {
            CommandKeybind::SimpleKeybind(command) => ResolutionView::Execute(command@),
            CommandKeybind::CompositeKeybind(next) => resolved(next@, codes.drop_first()),
        }
    }
}

/// Where a sequence of keys has led.
#[derive(Debug)]
pub enum Resolution<'a> {
    /// To a command, which is to be run.
    Execute(&'a Command),
    /// Into a keymap, which waits for the next key.
    Pending(&'a LllCommandMapping),
    /// To the escape key: nothing is run.
    Abort,
    /// To a key that is not bound: nothing is run.
    Unknown(i32),
}

impl<'a> View for Resolution<'a> {
    type V = ResolutionView;

    open spec fn view(&self) -> ResolutionView {
        match self {
            Resolution::Execute(command) => ResolutionView::Execute(command@),
            Resolution::Pending(keymap) => ResolutionView::Pending(keymap@),
            Resolution::Abort => ResolutionView::Abort,
            Resolution::Unknown(code) => ResolutionView::Unknown(*code),
        }
    }
}

/// Follows the one key `code` from `keymap`.
pub fn step<'a>(keymap: &'a LllCommandMapping, code: i32) -> (r: Resolution<'a>)
    ensures
        r@ == resolved(keymap@, seq![code]),
{
    broadcast use vstd::std_specs::hash::group_hash_axioms;

    if code == ESCAPE {
        return Resolution::Abort;
    }
    proof {
        reveal_with_fuel(resolved, 2);
        assert(seq![code].drop_first() =~= Seq::<i32>::empty());
    }
    match keymap.get(&code) {
        Some(CommandKeybind::SimpleKeybind(command)) => Resolution::Execute(command),
        Some(CommandKeybind::CompositeKeybind(next)) => Resolution::Pending(next),
        None => Resolution::Unknown(code),
    }
}

/// Follows the keys `codes` from `keymap`, one keymap after the other, to
/// where they lead.
pub fn resolve<'a>(keymap: &'a LllCommandMapping, codes: &[i32]) -> (r: Resolution<'a>)
    ensures
        r@ == resolved(keymap@, codes@),
{
    broadcast use vstd::std_specs::hash::group_hash_axioms;

    let mut current: &'a LllCommandMapping = keymap;
    let mut i: usize = 0;
    assert(codes@.skip(0) =~= codes@);
    while i < codes.len()
        invariant
            i <= codes.len(),
            resolved(keymap@, codes@) == resolved(current@, codes@.skip(i as int)),
        decreases codes.len() - i,
    {
        let code = codes[i];
        proof {
            assert(codes@.skip(i as int)[0] == code);
            assert(codes@.skip(i as int).drop_first() =~= codes@.skip(i + 1));
        }
        if code == ESCAPE {
            return Resolution::Abort;
        }
        match current.get(&code) {
            Some(CommandKeybind::SimpleKeybind(command)) => {
                return Resolution::Execute(command);
            },
            Some(CommandKeybind::CompositeKeybind(next)) => {
                current = next;
            },
            None => {
                return Resolution::Unknown(code);
            },
        }
        i = i + 1;
    }
    Resolution::Pending(current)
}

/// The character that a menu shows for the input code `code`.
pub open spec fn key_char(code: i32) -> char {
    (code as u8) as char
}

/// The line of a menu for the key `code` and what it is bound to.
pub open spec fn option_line(code: i32, binding: CommandKeybind) -> Seq<char> {
    "  "@ + seq![key_char(code)] + "\t"@ + binding.label()
}

/// The lines of a menu for the keys `keys` of `keymap`, in the order of
/// `keys`.
pub open spec fn option_lines(keys: Seq<i32>, keymap: Map<i32, CommandKeybind>) -> Seq<Seq<char>> {
    Seq::new(keys.len(), |i: int| option_line(keys[i], keymap[keys[i]]))
}

/// The menu of the keys that may come next in `keymap`: a line for each
/// key with what it is bound to, the lines in the order of the dictionary.
pub fn options(keymap: &LllCommandMapping) -> (r: Vec<String>)
    ensures
        exists|keys: Seq<i32>|
            keys.no_duplicates() && keys.to_set() == keymap@.dom() && #[trigger] sorted_lines(
                option_lines(keys, keymap@),
            ) == string_views(r@),
        lines_sorted(string_views(r@)),
        r@.len() == keymap@.dom().len(),
{
    broadcast use vstd::std_specs::hash::group_hash_axioms;
    broadcast use vstd::std_specs::hash::axiom_spec_keys_iter;

    let mut display_vec: Vec<String> = Vec::new();
    let ghost all = vstd::std_specs::hash::spec_keys_iter(keymap).remaining().unref();
    for k in it: keymap.keys()
        invariant
            it.seq().unref() == all,
            all.to_set() == keymap@.dom(),
            string_views(display_vec@) == option_lines(all.take(it.index()), keymap@),
    {
        let ghost before = display_vec@;
        assert(all.contains(*k));
        match keymap.get(k) {
            Some(binding) => {
                let key: char = #[verifier::truncate]
                (*k as u8) as char;
                let line = String::from_str("  ").concat(char_to_string(key).as_str()).concat(
                    "\t",
                ).concat(binding.to_string().as_str());
                assert(line@ =~= option_line(*k, keymap@[*k]));
                display_vec.push(line);
                assert(string_views(display_vec@) =~= string_views(before).push(line@));
            },
            None => {},
        }
        assert(string_views(display_vec@) =~= option_lines(all.take(it.index() + 1), keymap@));
    }
    proof {
        assert(all.take(all.len() as int) =~= all);
        crate::text::lemma_sorted_lines(string_views(display_vec@));
        assert(all.no_duplicates()) by {
            let refs = vstd::std_specs::hash::spec_keys_iter(keymap).remaining();
            assert forall|i: int, j: int| 0 <= i < all.len() && 0 <= j < all.len() && i
                != j implies all[i] != all[j] by {
                assert(refs[i] != refs[j]);
            }
        }
    }
    sort_lines(display_vec)
}

} // verus!
