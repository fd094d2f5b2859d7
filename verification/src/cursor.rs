//! The read position of a reader that shares one file with other readers and
//! reads at explicit offsets.

use vstd::prelude::*;

verus! {

/// Where a seek moves to, as `std::io::SeekFrom` describes it.
#[derive(Clone, Copy, Debug, PartialEq, Eq, Structural)]
pub enum SeekTarget {
    /// An absolute position.
    Start(u64),
    /// A position relative to the end of the file.
    End(i64),
    /// A position relative to the current one.
    Current(i64),
}

/// `base` moved by `delta`, clamped to the range of `u64`.
pub open spec fn moved(base: u64, delta: i64) -> u64 {
    if base + delta > u64::MAX {
        u64::MAX
    } else if base + delta < 0 {
        0
    } else {
        (base + delta) as u64
    }
}

/// The position that a seek to `target` reaches from `offset` in a file of
/// `file_size` bytes.
pub open spec fn seek_position(file_size: u64, offset: u64, target: SeekTarget) -> u64 {
    match target {
        SeekTarget::Start(n) => n,
        SeekTarget::End(d) => moved(file_size, d),
        SeekTarget::Current(d) => moved(offset, d),
    }
}

/// `base` moved by `delta` with saturating arithmetic.
pub fn move_saturating(base: u64, delta: i64) -> (r: u64)
    ensures
        r == moved(base, delta),
{
    if delta >= 0 {
        base.saturating_add(delta as u64)
    } else {
        let magnitude: u64 = (-(delta + 1)) as u64 + 1;
        base.saturating_sub(magnitude)
    }
}

/// The size of the shared file and the position of this reader in it.
#[derive(Clone, Copy, Debug)]
pub struct ReadCursor {
    pub file_size: u64,
    pub offset: u64,
}

impl ReadCursor {
    /// A cursor at the start of a file of `file_size` bytes.
    pub fn new(file_size: u64) -> (r: ReadCursor)
        ensures
            r.file_size == file_size,
            r.offset == 0,
    {
        ReadCursor { file_size, offset: 0 }
    }

    /// Moves to `target` and returns the new position.
    pub fn seek(&mut self, target: SeekTarget) -> (r: u64)
        ensures
            final(self).file_size == old(self).file_size,
            final(self).offset == seek_position(old(self).file_size, old(self).offset, target),
            r == final(self).offset,
    {
        self.offset = match target {
            SeekTarget::Start(n) => n,
            SeekTarget::End(d) => move_saturating(self.file_size, d),
            SeekTarget::Current(d) => move_saturating(self.offset, d),
        };
        self.offset
    }

    /// Moves past `bytes_read` bytes that a read returned.
    pub fn advance(&mut self, bytes_read: usize)
        requires
            old(self).offset + bytes_read <= u64::MAX,
        ensures
            final(self).file_size == old(self).file_size,
            final(self).offset == old(self).offset + bytes_read,
    {
        self.offset = self.offset + bytes_read as u64;
    }
}

/// A relative seek forth and back by the same distance returns to where it
/// started, when neither move reaches an end of the `u64` range.
pub proof fn lemma_seek_round_trip(file_size: u64, offset: u64, delta: i64)
    requires
        delta > i64::MIN,
        0 <= offset + delta <= u64::MAX,
    ensures
        seek_position(
            file_size,
            seek_position(file_size, offset, SeekTarget::Current(delta)),
            SeekTarget::Current(-delta as i64),
        ) == offset,
{
}

/// Seeking to an absolute position and then by zero stays at that position.
pub proof fn lemma_seek_start_then_stay(file_size: u64, offset: u64, n: u64)
    ensures
        seek_position(
            file_size,
            seek_position(file_size, offset, SeekTarget::Start(n)),
            SeekTarget::Current(0),
        ) == n,
        seek_position(file_size, offset, SeekTarget::End(0)) == file_size,
{
}

} // verus!
