use vstd::prelude::*;

verus! {

/// What kind of thing a path names.
#[derive(Clone, Copy, Debug, PartialEq, Eq, Structural)]
pub enum FileKind {
    File,
    Directory,
    Symlink,
    Other,
}

/// A snapshot of what the filesystem records about one path.
#[derive(Clone, Copy, Debug, PartialEq, Eq, Structural)]
pub struct LllMetadata {
    /// The size in bytes.
    pub len: u64,
    /// The time of the last modification, in nanoseconds since the epoch.
    pub modified: i128,
    /// The permission bits.
    pub permissions: u32,
    pub file_type: FileKind,
    /// The owning user.
    pub uid: u32,
    /// The owning group.
    pub gid: u32,
}

impl LllMetadata {
    /// Whether the snapshot is that of a directory.
    pub open spec fn spec_is_dir(&self) -> bool {
        self.file_type == FileKind::Directory
    }

    /// Whether the snapshot is that of a directory.
    #[verifier::when_used_as_spec(spec_is_dir)]
    pub fn is_dir(&self) -> (r: bool)
        ensures
            r == self.spec_is_dir(),
    {
        match self.file_type {
            FileKind::Directory => true,
            _ => false,
        }
    }
}

} // verus!
