use vstd::prelude::*;

verus! {

/// How a paste copies or moves what was picked up.
#[derive(Clone, Copy, Debug, PartialEq, Eq, Structural)]
pub struct PasteOptions {
    /// Replace files that already exist at the destination.
    pub overwrite: bool,
    /// Leave files that already exist at the destination alone.
    pub skip_exist: bool,
    /// The number of bytes moved between two progress reports.
    pub buffer_size: usize,
    /// Place a copied directory inside the destination under a new name.
    pub copy_inside: bool,
    /// Copy what a directory holds, without the directory itself.
    pub content_only: bool,
    /// How many levels of a directory are read; 0 reads all of them.
    pub depth: u64,
}

/// `fs_extra::dir::CopyOptions::new`, field by field: nothing is overwritten
/// or skipped, progress is reported every 64000 bytes, a directory is copied
/// as itself and to its full depth.
#[verifier::external_body]
pub(crate) fn copy_options_new() -> (r: PasteOptions)
    ensures
        r == (PasteOptions {
            overwrite: false,
            skip_exist: false,
            buffer_size: 64000,
            copy_inside: false,
            content_only: false,
            depth: 0,
        }),
{
    let o = fs_extra::dir::CopyOptions::new();
    PasteOptions {
        overwrite: o.overwrite,
        skip_exist: o.skip_exist,
        buffer_size: o.buffer_size,
        copy_inside: o.copy_inside,
        content_only: o.content_only,
        depth: o.depth,
    }
}

} // verus!
