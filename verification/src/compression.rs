//! Compression formats and levels, and the settings that each encoder gets
//! for a level.

use vstd::prelude::*;

verus! {

/// A compression format of archives and streams.
#[derive(Clone, Copy, Debug, PartialEq, Eq, Structural)]
pub enum CompressionType {
    Uncompressed,
    Gz,
    Xz,
    Bz2,
    Lz4,
    Zstd,
}

/// How hard an encoder works.
#[derive(Clone, Copy, Debug, PartialEq, Eq, Structural)]
pub enum CompressionLevel {
    BestSpeed,
    GoodSpeed,
    GoodCompression,
    BestCompression,
}

impl CompressionLevel {
    /// The xz preset for the level.
    pub open spec fn xz_preset_spec(self) -> u32 {
        match self {
            CompressionLevel::BestSpeed => 1,
            CompressionLevel::GoodSpeed => 4,
            CompressionLevel::GoodCompression => 6,
            CompressionLevel::BestCompression => 9,
        }
    }

    /// The xz preset for the level.
    pub fn xz_preset(&self) -> (r: u32)
        ensures
            r == self.xz_preset_spec(),
    {
        match self {
            CompressionLevel::BestSpeed => 1,
            CompressionLevel::GoodSpeed => 4,
            CompressionLevel::GoodCompression => 6,
            CompressionLevel::BestCompression => 9,
        }
    }

    /// The bzip2 block level for the level; bzip2 uses the xz presets.
    pub fn bzip2_level(&self) -> (r: u32)
        ensures
            r == self.xz_preset_spec(),
    {
        self.xz_preset()
    }

    /// The deflate level for the level (gzip streams); deflate uses the
    /// scale of the xz presets.
    pub fn deflate_level(&self) -> (r: u32)
        ensures
            r == self.xz_preset_spec(),
    {
        self.xz_preset()
    }

    /// The zstd level for the level.
    pub open spec fn zstd_level_spec(self) -> i32 {
        match self {
            CompressionLevel::BestSpeed => 1,
            CompressionLevel::GoodSpeed => 8,
            CompressionLevel::GoodCompression => 14,
            CompressionLevel::BestCompression => 22,
        }
    }

    /// The zstd level for the level.
    pub fn zstd_level(&self) -> (r: i32)
        ensures
            r == self.zstd_level_spec(),
    {
        match self {
            CompressionLevel::BestSpeed => 1,
            CompressionLevel::GoodSpeed => 8,
            CompressionLevel::GoodCompression => 14,
            CompressionLevel::BestCompression => 22,
        }
    }
}

/// The size of the blocks that the multi-threaded xz encoder compresses
/// independently: one MiB.
pub const XZ_BLOCK_SIZE: u64 = 1048576;

/// The thread count handed to the multi-threaded encoders, which take a
/// `u32`: the low 32 bits of `threads`.
pub fn encoder_threads(threads: usize) -> (r: u32)
    ensures
        r == threads as u32,
{
    #[verifier::truncate]
    (threads as u32)
}

/// How a tar archive is written: its compression and the threads the
/// encoder may use.
#[derive(Clone, Copy, Debug)]
pub struct CreateTarOptions {
    pub compression_type: CompressionType,
    pub compression_level: CompressionLevel,
    pub threads: usize,
}

} // verus!
