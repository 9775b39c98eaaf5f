//! Handing records to live subscribers over a broadcast channel.

use crate::record::LogEntry;
use tokio::sync::broadcast::Sender;
use vstd::prelude::*;

verus! {

/// `tokio::sync::broadcast::Sender`, the sending half of a broadcast channel.
/// Nothing inside it is looked at: a sender is carried to the call that sends.
#[verifier::external_type_specification]
#[verifier::external_body]
#[verifier::reject_recursive_types(T)]
pub struct ExSender<T>(Sender<T>);

/// `tokio::sync::broadcast::Sender::send`. The call stores the value for the
/// receivers that exist at this moment and returns at once; it waits for no
/// receiver. It gives the number of those receivers, at least one, or fails
/// where there is none. How many there are depends on what other holders of the
/// channel have done, so only the lower bound is claimed.
#[verifier::external_body]
fn send(sender: &Sender<LogEntry>, entry: LogEntry) -> (receivers: Option<usize>)
    ensures
        receivers matches Some(count) ==> count >= 1,
{
    match sender.send(entry) {
        Ok(count) => Some(count),
        Err(_) => None,
    }
}

/// The number of subscribers that a send reached, given its outcome: a send
/// that found no subscriber reached none, and that is no failure.
pub fn reached(outcome: Option<usize>) -> (count: usize)
    ensures
        count == match outcome {
            Some(receivers) => receivers,
            None => 0,
        },
{
    match outcome {
        Some(receivers) => receivers,
        None => 0,
    }
}

/// Hands a copy of a record to every subscriber that exists now and returns
/// how many there were. Subscribers that join later do not see it. The call
/// never waits and never fails: with no subscriber it does nothing.
pub fn publish(sender: &Sender<LogEntry>, entry: &LogEntry) -> (count: usize) {
    reached(send(sender, entry.clone()))
}

} // verus!
