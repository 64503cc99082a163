use crate::error::{IoError, IoErrorKind, IoErrorView};
use crate::fs::entry::{EntryView, LllDirEntry};
use crate::fs::metadata::LllMetadata;
use crate::stringmap::StringMap;
use vstd::prelude::*;

verus! {

/// What reading one directory gave: its children, each of which may have
/// failed to read, and its own metadata.
#[derive(Debug)]
pub struct DirSnapshot {
    pub children: Result<Vec<Result<LllDirEntry, IoError>>, IoError>,
    pub metadata: Result<LllMetadata, IoError>,
}

/// What reading one directory gave, in contracts.
pub struct SnapshotView {
    /// The children in the order in which they were read; `None` stands for
    /// one that could not be read.
    pub children: Result<Seq<Option<EntryView>>, IoErrorView>,
    pub metadata: Result<LllMetadata, IoErrorView>,
}

/// What each child of a directory read is in the model.
pub open spec fn child_views(children: Seq<Result<LllDirEntry, IoError>>) -> Seq<
    Option<EntryView>,
> {
    children.map_values(
        |c: Result<LllDirEntry, IoError>|
            match c {
                Ok(e) => Some(e@),
                Err(_) => None,
            },
    )
}

impl View for DirSnapshot {
    type V = SnapshotView;

    open spec fn view(&self) -> SnapshotView {
        SnapshotView {
            children: match self.children {
                Ok(children) => Ok(child_views(children@)),
                Err(e) => Err(e@),
            },
            metadata: match self.metadata {
                Ok(m) => Ok(m),
                Err(e) => Err(e@),
            },
        }
    }
}

/// The failure with which a directory reads that the image does not hold.
pub open spec fn not_found() -> IoErrorView {
    IoErrorView { kind: IoErrorKind::NotFound, message: "No such file or directory"@ }
}

/// What reading `path` gives on the disk `disk`.
pub open spec fn snapshot_at(disk: Map<Seq<char>, SnapshotView>, path: Seq<char>) -> SnapshotView {
    if disk.contains_key(path) {
        disk[path]
    } else {
        SnapshotView { children: Err(not_found()), metadata: Err(not_found()) }
    }
}

/// An image of the directories that were read from the filesystem, by
/// path. A directory that it does not hold reads as one that is not there.
#[derive(Debug)]
pub struct Disk {
    dirs: StringMap<DirSnapshot>,
}

impl View for Disk {
    type V = Map<Seq<char>, SnapshotView>;

    closed spec fn view(&self) -> Map<Seq<char>, SnapshotView> {
        Map::new(|k: Seq<char>| self.dirs@.contains_key(k), |k: Seq<char>| self.dirs@[k]@)
    }
}

impl Disk {
    /// No path occurs twice in the image.
    pub closed spec fn wf(&self) -> bool {
        self.dirs.wf()
    }

    /// The image that holds no directory.
    pub fn new() -> (r: Self)
        ensures
            r.wf(),
            r@ == Map::<Seq<char>, SnapshotView>::empty(),
    {
        let r = Disk { dirs: StringMap::new() };
        assert(r@ =~= Map::<Seq<char>, SnapshotView>::empty());
        r
    }

    /// Records what reading `path` gave, in place of what was recorded for
    /// it before.
    pub fn record(&mut self, path: String, snapshot: DirSnapshot)
        requires
            old(self).wf(),
        ensures
            final(self).wf(),
            final(self)@ == old(self)@.insert(path@, snapshot@),
    {
        self.dirs.insert(path, snapshot);
        assert(self@ =~= old(self)@.insert(path@, snapshot@));
    }

    /// The metadata that reading `path` gives.
    pub fn metadata(&self, path: &str) -> (r: Result<LllMetadata, IoError>)
        requires
            self.wf(),
        ensures
            match snapshot_at(self@, path@).metadata {
                Ok(m) => r == Ok::<LllMetadata, IoError>(m),
                Err(e) => r is Err && r->Err_0@ == e,
            },
    {
        match self.lookup(path) {
            Some(snapshot) => match &snapshot.metadata {
                Ok(m) => Ok(*m),
                Err(e) => Err(e.clone()),
            },
            None => Err(IoError::new(IoErrorKind::NotFound, "No such file or directory")),
        }
    }

    /// What was recorded for `path`.
    pub fn lookup(&self, path: &str) -> (r: Option<&DirSnapshot>)
        requires
            self.wf(),
        ensures
            match r {
                Some(s) => self@.contains_key(path@) && s@ == self@[path@],
                None => !self@.contains_key(path@),
            },
    {
        self.dirs.get(path)
    }
}

} // verus!
