use crate::stringmap::StringMap;
use crate::text::{string_views, with_blanks};
use vstd::prelude::*;
use vstd::string::StringExecFns;

verus! {

/// A program that opens files of some kind.
#[derive(Debug, PartialEq, Eq)]
pub struct LllMimetypeEntry {
    pub id: usize,
    pub program: String,
    pub args: Vec<String>,
    /// Start the program and do not wait for it.
    pub fork: bool,
    /// Throw away what the program prints.
    pub silent: bool,
}

/// What a program of the mimetype table is in contracts.
pub struct MimetypeEntryView {
    pub id: usize,
    pub program: Seq<char>,
    pub args: Seq<Seq<char>>,
    pub fork: bool,
    pub silent: bool,
}

impl MimetypeEntryView {
    /// The entry as a menu shows it: the program, its arguments, and in
    /// square brackets how it is started.
    pub open spec fn label(self) -> Seq<char> {
        self.program + with_blanks(self.args) + "\t["@ + (if self.fork {
            "fork,"@
        } else {
            Seq::empty()
        }) + (if self.silent {
            "silent"@
        } else {
            Seq::empty()
        }) + "]"@
    }
}

impl View for LllMimetypeEntry {
    type V = MimetypeEntryView;

    open spec fn view(&self) -> MimetypeEntryView {
        MimetypeEntryView {
            id: self.id,
            program: self.program@,
            args: string_views(self.args@),
            fork: self.fork,
            silent: self.silent,
        }
    }
}

impl Clone for LllMimetypeEntry {
    fn clone(&self) -> (r: Self)
        ensures
            r@ == self@,
    {
        let mut args: Vec<String> = Vec::new();
        let mut i: usize = 0;
        while i < self.args.len()
            invariant
                i <= self.args.len(),
                args@.len() == i,
                string_views(args@) == string_views(self.args@).take(i as int),
            decreases self.args.len() - i,
        {
            let ghost before = args@;
            args.push(self.args[i].clone());
            assert(string_views(args@) =~= string_views(before).push(self.args@[i as int]@));
            assert(string_views(args@) =~= string_views(self.args@).take(i + 1));
            i = i + 1;
        }
        assert(string_views(self.args@).take(self.args.len() as int) =~= string_views(self.args@));
        LllMimetypeEntry {
            id: self.id,
            program: self.program.clone(),
            args,
            fork: self.fork,
            silent: self.silent,
        }
    }
}

impl LllMimetypeEntry {
    /// The entry as a menu shows it.
    pub fn to_string(&self) -> (r: String)
        ensures
            r@ == self@.label(),
    {
        let mut r = self.program.clone();
        let mut i: usize = 0;
        assert(with_blanks(string_views(self.args@).take(0)) =~= Seq::<char>::empty());
        assert(r@ =~= self.program@ + with_blanks(string_views(self.args@).take(0)));
        while i < self.args.len()
            invariant
                i <= self.args.len(),
                r@ == self.program@ + with_blanks(string_views(self.args@).take(i as int)),
            decreases self.args.len() - i,
        {
            proof {
                reveal_strlit(" ");
                let all = string_views(self.args@);
                assert(all.take(i + 1).drop_last() =~= all.take(i as int));
                assert(all.take(i + 1).last() == self.args@[i as int]@);
            }
            r.append(" ");
            r.append(self.args[i].as_str());
            assert(r@ =~= self.program@ + with_blanks(string_views(self.args@).take(i + 1)));
            i = i + 1;
        }
        assert(string_views(self.args@).take(self.args.len() as int) =~= string_views(self.args@));
        r.append("\t[");
        if self.fork {
            r.append("fork,");
        }
        if self.silent {
            r.append("silent");
        }
        r.append("]");
        assert(r@ =~= self@.label());
        r
    }
}

/// The views of the entries of `v`.
pub open spec fn mimetype_views(v: Seq<LllMimetypeEntry>) -> Seq<MimetypeEntryView> {
    v.map_values(|e: LllMimetypeEntry| e@)
}

/// The views of the entries that `v` refers to.
pub open spec fn mimetype_ref_views(v: Seq<&LllMimetypeEntry>) -> Seq<MimetypeEntryView> {
    v.map_values(|e: &LllMimetypeEntry| e@)
}

/// The programs that open files, by the extension of the file name.
#[derive(Debug)]
pub struct LllMimetype {
    extension: StringMap<Vec<LllMimetypeEntry>>,
}

/// What a mimetype table is in contracts: the programs by extension.
pub type MimetypeView = Map<Seq<char>, Seq<MimetypeEntryView>>;

/// The programs that `mimetype` has for the extension `ext`.
pub open spec fn entries_for_ext(mimetype: MimetypeView, ext: Seq<char>) -> Seq<MimetypeEntryView> {
    if mimetype.contains_key(ext) {
        mimetype[ext]
    } else {
        Seq::empty()
    }
}

impl View for LllMimetype {
    type V = MimetypeView;

    closed spec fn view(&self) -> MimetypeView {
        Map::new(
            |k: Seq<char>| self.extension@.contains_key(k),
            |k: Seq<char>| mimetype_views(self.extension@[k]@),
        )
    }
}

impl LllMimetype {
    /// No extension occurs twice in the table.
    pub closed spec fn wf(&self) -> bool {
        self.extension.wf()
    }

    /// No program for any extension.
    pub fn new() -> (r: Self)
        ensures
            r.wf(),
            r@ == Map::<Seq<char>, Seq<MimetypeEntryView>>::empty(),
    {
        let r = LllMimetype { extension: StringMap::new() };
        assert(r@ =~= Map::<Seq<char>, Seq<MimetypeEntryView>>::empty());
        r
    }

    /// Sets the programs for the extension `ext`, the preferred one first.
    pub fn set_entries_for_ext(&mut self, ext: String, entries: Vec<LllMimetypeEntry>)
        requires
            old(self).wf(),
        ensures
            final(self).wf(),
            final(self)@ == old(self)@.insert(ext@, mimetype_views(entries@)),
    {
        self.extension.insert(ext, entries);
        assert(self@ =~= old(self)@.insert(ext@, mimetype_views(entries@)));
    }

    /// The programs for the extension `ext`, the preferred one first.
    pub fn get_entries_for_ext(&self, ext: &str) -> (r: Vec<&LllMimetypeEntry>)
        requires
            self.wf(),
        ensures
            mimetype_ref_views(r@) == entries_for_ext(self@, ext@),
    {
        let mut found: Vec<&LllMimetypeEntry> = Vec::new();
        match self.extension.get(ext) {
            Some(entries) => {
                let mut i: usize = 0;
                assert(mimetype_ref_views(found@) =~= mimetype_views(entries@).take(0));
                while i < entries.len()
                    invariant
                        i <= entries.len(),
                        mimetype_ref_views(found@) == mimetype_views(entries@).take(i as int),
                    decreases entries.len() - i,
                {
                    let ghost before = found@;
                    found.push(&entries[i]);
                    assert(mimetype_ref_views(found@) =~= mimetype_ref_views(before).push(
                        entries@[i as int]@,
                    ));
                    assert(mimetype_ref_views(found@) =~= mimetype_views(entries@).take(i + 1));
                    i = i + 1;
                }
                assert(mimetype_views(entries@).take(entries.len() as int) =~= mimetype_views(
                    entries@,
                ));
            },
            None => {
                assert(mimetype_ref_views(found@) =~= Seq::<MimetypeEntryView>::empty());
            },
        }
        found
    }
}

} // verus!
