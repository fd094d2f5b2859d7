//! Which entries go into a tar archive of a server's files, as what kind of
//! entry, and how they count toward the bytes archived.

use vstd::prelude::*;

verus! {

/// The kind of a tar entry.
#[derive(Clone, Copy, Debug, PartialEq, Eq, Structural)]
pub enum TarEntryKind {
    Directory,
    Regular,
    Symlink,
}

/// The entry that a file system object becomes: a directory, a regular
/// file, or else a symbolic link when its target can be read; nothing
/// otherwise.
pub open spec fn tar_entry_kind_spec(is_dir: bool, is_file: bool, link_readable: bool) -> Option<
    TarEntryKind,
> {
    if is_dir {
        Some(TarEntryKind::Directory)
    } else if is_file {
        Some(TarEntryKind::Regular)
    } else if link_readable {
        Some(TarEntryKind::Symlink)
    } else {
        None
    }
}

/// Decides the entry that a file system object becomes.
pub fn tar_entry_kind(is_dir: bool, is_file: bool, link_readable: bool) -> (r: Option<TarEntryKind>)
    ensures
        r == tar_entry_kind_spec(is_dir, is_file, link_readable),
{
    if is_dir {
        Some(TarEntryKind::Directory)
    } else if is_file {
        Some(TarEntryKind::Regular)
    } else if link_readable {
        Some(TarEntryKind::Symlink)
    } else {
        None
    }
}

/// The bytes an entry adds to the archived count when it is written: a
/// directory its own size, a symbolic link the size of the top-level source
/// it was found under (`source_len`), a regular file nothing (its bytes are
/// counted as they are read).
pub fn archived_bytes(kind: TarEntryKind, entry_len: u64, source_len: u64) -> (r: u64)
    ensures
        r == (match kind {
            TarEntryKind::Directory => entry_len,
            TarEntryKind::Regular => 0,
            TarEntryKind::Symlink => source_len,
        }),
{
    match kind {
        TarEntryKind::Directory => entry_len,
        TarEntryKind::Regular => 0,
        TarEntryKind::Symlink => source_len,
    }
}

} // verus!
