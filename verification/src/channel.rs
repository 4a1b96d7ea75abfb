//! The tokio channel that edit events travel on.

use vstd::prelude::*;

use tokio::sync::mpsc::UnboundedSender;

use crate::accumulator::{EditDelta, EditEvent};

verus! {

/// tokio's sending half of an unbounded channel, declared so that the
/// accumulator can hold one; nothing inside it is visible here.
#[verifier::external_type_specification]
#[verifier::external_body]
#[verifier::reject_recursive_types(T)]
pub struct ExUnboundedSender<T>(tokio::sync::mpsc::UnboundedSender<T>);

/// The sending half of the edit channel, with the record of every event
/// handed to it. The record changes only through `send`.
pub struct EditSink {
    sender: UnboundedSender<EditDelta>,
    handed: Ghost<Seq<EditEvent>>,
}

impl EditSink {
    /// The events handed to tokio's `send` so far, in order.
    pub closed spec fn handed(&self) -> Seq<EditEvent> {
        self.handed@
    }

    /// A sink on `sender` that has handed nothing yet.
    pub fn new(sender: UnboundedSender<EditDelta>) -> (res: Self)
        ensures
            res.handed() == Seq::<EditEvent>::empty(),
    {
        EditSink { sender, handed: Ghost(Seq::empty()) }
    }

    /// Hands `delta` to tokio's `UnboundedSender::send` and ignores its result.
    ///
    /// The contract claims that `delta` is handed to that call, once, after
    /// those handed before. It does not claim that the message arrives:
    /// tokio's `send` gives the message back when the receiving half is
    /// closed, which this code cannot see. tokio's source aborts the process
    /// only once the count of queued messages overflows a `usize`; that count
    /// is not visible here either.
    #[verifier::external_body]
    pub fn send(&mut self, delta: EditDelta)
        ensures
            final(self).handed() == old(self).handed().push(delta@),
    {
        let _ = self.sender.send(delta);
    }
}

} // verus!
