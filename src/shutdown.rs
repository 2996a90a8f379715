//! The one-shot notice that tells the gateway to stop taking requests.

use tokio::sync::mpsc::Sender;
use vstd::prelude::*;

verus! {

/// The sending half of a tokio channel, carried without looking inside.
#[verifier::external_type_specification]
#[verifier::external_body]
#[verifier::reject_recursive_types(T)]
pub struct ExSender<T>(Sender<T>);

/// Relies on tokio::sync::mpsc::Sender::try_send: queues the notice without
/// waiting; whether it was queued depends on the receiver, so nothing is
/// stated of the outcome.
#[verifier::external_body]
fn try_send_notice(tx: &Sender<()>) -> (r: bool) {
    tx.try_send(()).is_ok()
}

/// The sending side of the shutdown notice: it sends at most once, and a
/// send after the first, or to a gateway that is gone, does nothing.
pub struct ShutdownNotifier {
    tx: Sender<()>,
    sent: bool,
}

impl ShutdownNotifier {
    /// Whether the notice was already sent.
    pub closed spec fn spec_sent(&self) -> bool {
        self.sent
    }

    /// A notifier on the channel `tx` that has not sent yet.
    pub fn new(tx: Sender<()>) -> (r: ShutdownNotifier)
        ensures
            !r.spec_sent(),
    {
        ShutdownNotifier { tx, sent: false }
    }

    /// Sends the notice if it was not sent before; returns whether this call
    /// was the first.
    pub fn notify(&mut self) -> (first: bool)
        ensures
            first == !old(self).spec_sent(),
            final(self).spec_sent(),
    {
        if self.sent {
            return false;
        }
        self.sent = true;
        let _queued = try_send_notice(&self.tx);
        true
    }

    /// Whether the notice was already sent.
    pub fn sent(&self) -> (r: bool)
        ensures
            r == self.spec_sent(),
    {
        self.sent
    }
}

} // verus!
