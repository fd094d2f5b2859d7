//! Core logic of the wings daemon: schedules, backups, diagnostics and the
//! decisions around the remote panel, each with a machine-checked contract.

pub mod archive;
pub mod compression;
pub mod cursor;
pub mod diagnostics;
pub mod extension;
pub mod manager;
pub mod remote;
pub mod routes;
pub mod schedule;
pub mod stream;
pub mod text;
pub mod timer;
pub mod zfs;

use vstd::prelude::*;

verus! {

/// Size of the buffers used when streaming files and archives.
pub const BUFFER_SIZE: usize = 32768;

/// Whether the call of `from_utf8` on the first `len` bytes of `s` succeeds.
///
/// Wraps `core::str::from_utf8`; the contract states the documented behaviour:
/// it succeeds exactly when the bytes are well-formed UTF-8.
#[verifier::external_body]
fn utf8_prefix_is_valid(s: &[u8], len: usize) -> (r: bool)
    requires
        len <= s@.len(),
    ensures
        r == vstd::utf8::valid_utf8(s@.take(len as int)),
{
    core::str::from_utf8(&s[..len]).is_ok()
}

/// The lengths that `is_valid_utf8_slice` tries: those above `len - 4`
/// (saturating at zero) and at most `len`.
pub open spec fn utf8_probe_length(len: int, k: int) -> bool {
    &&& k <= len
    &&& k > (if len >= 4 { len - 4 } else { 0 })
}

/// True when some prefix of `s` that drops at most three trailing bytes is
/// valid UTF-8 (a buffer that ends inside a multi-byte character passes).
/// An empty slice is not accepted.
pub fn is_valid_utf8_slice(s: &[u8]) -> (r: bool)
    ensures
        r == exists|k: int| #[trigger] utf8_probe_length(s@.len() as int, k)
            && vstd::utf8::valid_utf8(s@.take(k)),
{
    let len = s.len();
    let low: usize = if len >= 4 { len - 4 } else { 0 };
    let mut idx = len;
    while idx > low
        invariant
            low <= idx <= len,
            len == s@.len(),
            low == (if len >= 4 { len - 4 } else { 0 }),
            forall|k: int| idx < k <= len ==> !vstd::utf8::valid_utf8(#[trigger] s@.take(k)),
        decreases idx,
    {
        if utf8_prefix_is_valid(s, idx) {
            assert(utf8_probe_length(len as int, idx as int));
            return true;
        }
        idx -= 1;
    }
    assert forall|k: int| #[trigger] utf8_probe_length(s@.len() as int, k)
        implies !vstd::utf8::valid_utf8(s@.take(k)) by {}
    false
}

#[inline(always)]
fn cold_path() {
}

/// Marks `b` as the expected outcome of a branch; returns `b` unchanged.
#[inline(always)]
pub fn likely(b: bool) -> (r: bool)
    ensures
        r == b,
{
    if b {
        true
    } else {
        cold_path();
        false
    }
}

/// Marks `b` as the unexpected outcome of a branch; returns `b` unchanged.
#[inline(always)]
pub fn unlikely(b: bool) -> (r: bool)
    ensures
        r == b,
{
    if b {
        cold_path();
        true
    } else {
        false
    }
}

} // verus!
