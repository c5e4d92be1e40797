//! Stream health classification consumed by the bitrate policies.
use vstd::prelude::*;

verus! {

/// Coarse health of a live stream, as classified by the health monitor.
#[derive(Debug, Clone, Copy, PartialEq, Eq, Structural)]
pub enum StreamHealthStatus {
    /// Not streaming.
    Offline,
    /// Streaming was started and no frame has been sent yet.
    Connecting,
    /// The encoder and network keep up.
    Good,
    /// Early signs of congestion.
    Warning,
    /// Frames are dropped or the queue is saturated.
    Poor,
}

/// The part of the stream statistics that the bitrate policies read.
#[derive(Debug, Clone, Copy, PartialEq, Eq, Structural)]
pub struct StreamStats {
    /// Classified health of the stream.
    pub status: StreamHealthStatus,
}

impl StreamStats {
    /// Statistics of a stream that is not running.
    pub fn offline() -> (r: StreamStats)
        ensures
            r.status == StreamHealthStatus::Offline,
    {
        StreamStats { status: StreamHealthStatus::Offline }
    }
}

} // verus!
