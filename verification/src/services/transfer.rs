//! The two sides of a transfer, each as a machine that is told what
//! happened on the connection and answers with what is to be done next, and
//! the count of the payload that both keep.

use vstd::prelude::*;
use crate::types::transfer::TransferError;
use crate::wire::CHUNK_SIZE;

pub mod receiver;
pub mod sender;

verus! {

/// How a transfer ended.
#[derive(Clone, Copy, Debug, PartialEq, Eq, Structural)]
pub enum Outcome {
    /// The receiving side declined the offer; no payload was moved.
    Rejected,
    /// The whole payload was moved and acknowledged.
    Completed,
    /// The transfer ended early.
    Failed(TransferError),
}

/// The count of a payload on its way: how many bytes there are in all, how
/// many have been moved, and how many had been moved when progress was last
/// reported.
#[derive(Clone, Copy, Debug, PartialEq, Eq, Structural)]
pub struct Flow {
    pub total: u64,
    pub moved: u64,
    pub reported: u64,
}

impl Flow {
    /// What holds of a count while the payload is on its way: no more has
    /// been reported than moved, no more moved than there is, and less than
    /// one chunk has been moved since the last report.
    pub open spec fn valid(self) -> bool {
        &&& self.reported <= self.moved <= self.total
        &&& self.moved - self.reported < CHUNK_SIZE
    }

    /// The largest number of bytes that the next read may bring: one chunk,
    /// or what is left of the payload where that is less.
    pub open spec fn limit(self) -> nat {
        if self.total - self.moved < CHUNK_SIZE {
            (self.total - self.moved) as nat
        } else {
            CHUNK_SIZE as nat
        }
    }

    /// Whether progress is reported once `n` more bytes have been moved: a
    /// whole chunk has been moved since the last report, or the payload is
    /// complete.
    pub open spec fn reports_after(self, n: nat) -> bool {
        self.moved + n - self.reported >= CHUNK_SIZE || self.moved + n == self.total
    }

    /// The count once `n` more bytes have been moved.
    pub open spec fn advanced(self, n: nat) -> Flow
        recommends
            n <= self.limit(),
    {
        Flow {
            total: self.total,
            moved: (self.moved + n) as u64,
            reported: if self.reports_after(n) {
                (self.moved + n) as u64
            } else {
                self.reported
            },
        }
    }

    /// Whether the whole payload has been moved.
    pub open spec fn complete(self) -> bool {
        self.moved == self.total
    }

    /// The count of a payload of `total` bytes of which none has been moved.
    pub fn start(total: u64) -> (flow: Flow)
        ensures
            flow == (Flow { total, moved: 0, reported: 0 }),
            flow.valid(),
    {
        Flow { total, moved: 0, reported: 0 }
    }

    /// The largest number of bytes that the next read may bring.
    pub fn chunk_limit(&self) -> (n: usize)
        requires
            self.valid(),
        ensures
            n == self.limit(),
    {
        let left: u64 = self.total - self.moved;
        if left < CHUNK_SIZE {
            left as usize
        } else {
            CHUNK_SIZE as usize
        }
    }

    /// Whether the whole payload has been moved.
    pub fn is_complete(&self) -> (r: bool)
        ensures
            r == self.complete(),
    {
        self.moved == self.total
    }

    /// Counts `n` more bytes as moved, and says whether progress is to be
    /// reported now.
    pub fn advance(&mut self, n: usize) -> (report: bool)
        requires
            old(self).valid(),
            n <= old(self).limit(),
        ensures
            report == old(self).reports_after(n as nat),
            *final(self) == old(self).advanced(n as nat),
            final(self).valid(),
    {
        let moved: u64 = self.moved + n as u64;
        let report: bool = moved - self.reported >= CHUNK_SIZE || moved == self.total;
        self.moved = moved;
        if report {
            self.reported = moved;
        }
        report
    }
}

/// While a payload is on its way, progress is reported as soon as a
/// chunk's worth of bytes has gathered since the last report, and at the
/// last byte: after every step less than one chunk is unreported, and
/// nothing at all once the payload is complete.
pub proof fn lemma_progress_is_reported(flow: Flow, n: nat)
    requires
        flow.valid(),
        n <= flow.limit(),
    ensures
        flow.advanced(n).valid(),
        flow.advanced(n).moved - flow.advanced(n).reported < CHUNK_SIZE,
        flow.advanced(n).complete() ==> flow.advanced(n).reported == flow.total
            && flow.reports_after(n),
        flow.advanced(n).moved == flow.moved + n,
{
}

} // verus!
