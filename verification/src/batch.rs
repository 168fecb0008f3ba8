//! The batch of documents that a source puts together between two heartbeats.

use vstd::prelude::*;

use crate::message::EmitError;
use crate::strings::texts;

verus! {

/// The number of bytes at which a batch is full.
pub const TARGET_BATCH_NUM_BYTES: u64 = 5_000_000;

/// Documents that were received and not yet sent on.
pub struct BatchBuilder {
    pub docs: Vec<String>,
    /// The number of bytes received, those of invalid records as well.
    pub num_bytes: u64,
}

/// Mathematical value of a [`BatchBuilder`].
#[verifier::ext_equal]
pub struct BatchView {
    pub docs: Seq<Seq<char>>,
    pub num_bytes: nat,
}

impl View for BatchBuilder {
    type V = BatchView;

    open spec fn view(&self) -> BatchView {
        BatchView { docs: texts(self.docs@), num_bytes: self.num_bytes as nat }
    }
}

impl BatchView {
    /// The batch in which nothing was received.
    pub open spec fn empty() -> BatchView {
        BatchView { docs: Seq::empty(), num_bytes: 0 }
    }

    /// Whether the batch is to be sent on without waiting for more.
    pub open spec fn is_full(self) -> bool {
        self.num_bytes >= TARGET_BATCH_NUM_BYTES
    }
}

/// How the emission of a batch ends.
#[derive(Debug, PartialEq, Eq)]
pub struct EmitPlan {
    /// The documents to send on together with the checkpoint delta, if any are
    /// to be sent. Sending comes first.
    pub docs: Option<Vec<String>>,
    /// Whether the stream is at its end, so that the source exits with success.
    pub end_of_stream: bool,
}

impl BatchBuilder {
    /// The batch in which nothing was received.
    pub fn new() -> (res: Self)
        ensures
            res@ == BatchView::empty(),
    {
        let res = BatchBuilder { docs: Vec::new(), num_bytes: 0 };
        assert(res@ =~= BatchView::empty());
        res
    }

    /// Whether the batch is to be sent on without waiting for more.
    pub fn is_full(&self) -> (res: bool)
        ensures
            res == self@.is_full(),
            res == (self.num_bytes >= 5_000_000),
    {
        self.num_bytes >= TARGET_BATCH_NUM_BYTES
    }

    /// Whether another message is to be received for the batch: it is not full,
    /// and less than half a heartbeat has passed since it was begun.
    pub fn wants_message(&self, elapsed_nanos: u128, heartbeat_nanos: u128) -> (res: bool)
        ensures
            res == (!self@.is_full() && elapsed_nanos < heartbeat_nanos / 2),
            res == (self.num_bytes < 5_000_000 && elapsed_nanos < heartbeat_nanos / 2),
    {
        !self.is_full() && elapsed_nanos < heartbeat_nanos / 2
    }
}

/// What follows from an attempt to record a step in the checkpoint delta: the
/// batch goes on where the step was taken, and is given up where it was not.
pub fn on_delta_outcome<E>(outcome: Result<(), E>) -> (res: Result<(), EmitError>)
    ensures
        (match res {
            Ok(()) => outcome is Ok,
            Err(error) => outcome is Err && error is DeltaNotRecorded,
        }),
{
    match outcome {
        Ok(()) => Ok(()),
        Err(_) => Err(EmitError::DeltaNotRecorded),
    }
}

} // verus!
