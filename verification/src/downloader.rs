//! The download progress record. The streaming transfer itself is the
//! embedding application's business; it reports the total once known and
//! each received chunk, and readers copy the record out at any time. The
//! byte count only ever grows while a transfer runs.

use vstd::prelude::*;

verus! {

/// Live progress of one transfer: bytes received so far and the expected
/// total.
pub struct DownloadProgress {
    pub current: u64,
    pub total: u64,
}

impl Clone for DownloadProgress {
    fn clone(&self) -> (r: Self)
        ensures
            r == *self,
    {
        DownloadProgress { current: self.current, total: self.total }
    }
}

impl DownloadProgress {
    /// A record with nothing received and no total known.
    pub fn new() -> (r: Self)
        ensures
            r.current == 0,
            r.total == 0,
    {
        DownloadProgress { current: 0, total: 0 }
    }

    /// Begins a transfer of `total` expected bytes.
    pub fn start(&mut self, total: u64)
        ensures
            final(self).current == 0,
            final(self).total == total,
    {
        self.current = 0;
        self.total = total;
    }

    /// Records one received chunk: the byte count grows by exactly the
    /// chunk's length and the total stays.
    pub fn record_chunk(&mut self, chunk_len: u64)
        requires
            old(self).current + chunk_len <= u64::MAX,
        ensures
            final(self).current == old(self).current + chunk_len,
            final(self).total == old(self).total,
    {
        self.current = self.current + chunk_len;
    }
}

} // verus!
