use crate::fs::metadata::LllMetadata;
use vstd::prelude::*;

verus! {

/// One child of a directory: its name, its path, a snapshot of its
/// metadata, and whether the user has selected it.
#[derive(Debug, PartialEq, Eq)]
pub struct LllDirEntry {
    file_name: String,
    path: String,
    metadata: LllMetadata,
    selected: bool,
}

/// What an entry is in contracts.
pub struct EntryView {
    pub file_name: Seq<char>,
    pub path: Seq<char>,
    pub metadata: LllMetadata,
    pub selected: bool,
}

impl View for LllDirEntry {
    type V = EntryView;

    closed spec fn view(&self) -> EntryView {
        EntryView {
            file_name: self.file_name@,
            path: self.path@,
            metadata: self.metadata,
            selected: self.selected,
        }
    }
}

impl LllDirEntry {
    /// An entry that is not selected.
    pub fn new(file_name: String, path: String, metadata: LllMetadata) -> (r: Self)
        ensures
            r@ == (EntryView { file_name: file_name@, path: path@, metadata, selected: false }),
    {
        LllDirEntry { file_name, path, metadata, selected: false }
    }

    /// The name of the entry within its directory.
    pub fn file_name(&self) -> (r: &String)
        ensures
            r@ == self@.file_name,
    {
        &self.file_name
    }

    /// The path of the entry.
    pub fn file_path(&self) -> (r: &String)
        ensures
            r@ == self@.path,
    {
        &self.path
    }

    /// The metadata of the entry when it was read.
    pub fn metadata(&self) -> (r: LllMetadata)
        ensures
            r == self@.metadata,
    {
        self.metadata
    }

    /// Whether the user has selected the entry.
    pub fn is_selected(&self) -> (r: bool)
        ensures
            r == self@.selected,
    {
        self.selected
    }

    /// Sets the selection flag, the one part of an entry that changes.
    pub fn set_selected(&mut self, selected: bool)
        ensures
            final(self)@ == (EntryView { selected, ..old(self)@ }),
    {
        self.selected = selected;
    }
}

impl EntryView {
    /// The entry with its selection flag set to `selected`.
    pub open spec fn with_selected(self, selected: bool) -> EntryView {
        EntryView { selected, ..self }
    }
}

impl Clone for LllDirEntry {
    fn clone(&self) -> (r: Self)
        ensures
            r@ == self@,
    {
        LllDirEntry {
            file_name: self.file_name.clone(),
            path: self.path.clone(),
            metadata: self.metadata,
            selected: self.selected,
        }
    }
}

} // verus!
