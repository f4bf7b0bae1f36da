//! The channel on which the answer to an offered transfer travels: the
//! single-use sender of `tokio::sync::oneshot`, carrying one `bool`.

use vstd::prelude::*;
use tokio::sync::oneshot::Sender;

verus! {

/// The sending half of a `tokio::sync::oneshot` channel.
#[verifier::external_type_specification]
#[verifier::external_body]
#[verifier::reject_recursive_types(T)]
pub struct ExSender<T>(Sender<T>);

/// `Sender::send` of `tokio::sync::oneshot`: hands `decision` to the
/// receiving half and uses the sender up. The answer is `true` where the
/// value was handed over and `false` where the receiving half was gone;
/// which of the two depends on the other half alone, so nothing is claimed
/// of it.
#[verifier::external_body]
pub(crate) fn signal(tx: Sender<bool>, decision: bool) -> (delivered: bool) {
    tx.send(decision).is_ok()
}

} // verus!
