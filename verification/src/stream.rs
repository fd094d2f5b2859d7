//! The polling protocol of the streams that compress or decompress on a
//! background thread: the thread reports a failure over a one-shot channel,
//! and each poll of the stream first looks for such a failure.

use vstd::prelude::*;

verus! {

/// What a look at the failure channel found.
#[derive(Clone, Copy, Debug, PartialEq, Eq, Structural)]
pub enum ChannelState {
    /// The channel already delivered its value or learned that none comes.
    Terminated,
    /// No failure has been reported yet.
    Waiting,
    /// The background thread ended without reporting a failure.
    Closed,
    /// The background thread reported a failure.
    Failed,
}

/// Whether a poll of the stream ends at once with the reported failure
/// instead of polling the inner stream.
pub fn fails_early(channel: ChannelState) -> (r: bool)
    ensures
        r == (channel == ChannelState::Failed),
{
    match channel {
        ChannelState::Failed => true,
        _ => false,
    }
}

/// What a poll of the inner pipe of a reading stream gave.
#[derive(Clone, Copy, Debug, PartialEq, Eq, Structural)]
pub enum InnerRead {
    /// Bytes arrived, or the pipe reached its end when `empty`.
    Ready { empty: bool },
    /// The pipe failed.
    Failed,
    /// Nothing yet.
    Pending,
}

/// How a poll of a reading stream continues after its inner pipe answered.
#[derive(Clone, Copy, Debug, PartialEq, Eq, Structural)]
pub enum ReadStep {
    /// Hand the bytes (or the end of the stream) to the caller.
    Ready,
    /// Hand the pipe's failure to the caller.
    Failed,
    /// Wait to be woken.
    Pending,
    /// The pipe gave no bytes: the stream has ended only if the failure
    /// channel is done; look at it once more.
    CheckFinished,
}

/// Decides how a poll of a reading stream continues.
pub fn read_step(inner: InnerRead) -> (r: ReadStep)
    ensures
        r == (match inner {
            InnerRead::Ready { empty } => if empty {
                ReadStep::CheckFinished
            } else {
                ReadStep::Ready
            },
            InnerRead::Failed => ReadStep::Failed,
            InnerRead::Pending => ReadStep::Pending,
        }),
{
    match inner {
        InnerRead::Ready { empty } => if empty {
            ReadStep::CheckFinished
        } else {
            ReadStep::Ready
        },
        InnerRead::Failed => ReadStep::Failed,
        InnerRead::Pending => ReadStep::Pending,
    }
}

/// After an empty read: the stream has ended when the failure channel is
/// ready (whatever it holds), otherwise the poll waits.
pub fn empty_read_step(channel_ready: bool) -> (r: ReadStep)
    ensures
        r == (if channel_ready {
            ReadStep::Ready
        } else {
            ReadStep::Pending
        }),
{
    if channel_ready {
        ReadStep::Ready
    } else {
        ReadStep::Pending
    }
}

} // verus!
