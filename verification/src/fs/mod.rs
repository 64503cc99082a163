pub mod dirlist;
pub mod disk;
pub mod entry;
pub mod metadata;

pub use self::dirlist::{DirListView, LllDirList};
pub use self::disk::{DirSnapshot, Disk, SnapshotView};
pub use self::entry::{EntryView, LllDirEntry};
pub use self::metadata::{FileKind, LllMetadata};
