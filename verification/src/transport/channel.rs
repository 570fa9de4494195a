//! The broadcast channels of `tokio::sync::broadcast`, declared for Verus,
//! and the calls into them that the hub makes.

use vstd::prelude::*;
use tokio::sync::broadcast::{Receiver, Sender};
use super::message::ServerMessage;

verus! {

#[verifier::external_type_specification]
#[verifier::external_body]
#[verifier::reject_recursive_types(T)]
pub struct ExSender<T>(Sender<T>);

#[verifier::external_type_specification]
#[verifier::external_body]
#[verifier::reject_recursive_types(T)]
pub struct ExReceiver<T>(Receiver<T>);

/// The sending half of the channel that a receiver of text messages reads
/// from: the channel's shared state, which a `Receiver` holds beside its
/// read position.
pub uninterp spec fn text_receiver_source(rx: Receiver<String>) -> Sender<String>;

/// The sending half of the channel that a receiver of server messages reads
/// from.
pub uninterp spec fn message_receiver_source(rx: Receiver<ServerMessage>) -> Sender<ServerMessage>;

/// `tokio::sync::broadcast::channel` for text messages: opens a channel
/// with room for `capacity` messages and returns its sender and a receiver
/// of it. The channel is new: tokio allocates fresh shared state for it, so
/// its sender is none of the `others` that exist already. tokio panics on a
/// capacity of zero or above `usize::MAX / 2`; `requires` leaves those out.
#[verifier::external_body]
pub(crate) fn open_text_channel(capacity: usize, others: &Vec<Sender<String>>) -> (r: (
    Sender<String>,
    Receiver<String>,
))
    requires
        0 < capacity <= usize::MAX / 2,
    ensures
        text_receiver_source(r.1) == r.0,
        forall|k: int| 0 <= k < others@.len() ==> others@[k] != r.0,
{
    tokio::sync::broadcast::channel(capacity)
}

/// `tokio::sync::broadcast::channel` for server messages, as
/// `open_text_channel` for text.
#[verifier::external_body]
pub(crate) fn open_message_channel(capacity: usize, others: &Vec<Sender<ServerMessage>>) -> (r: (
    Sender<ServerMessage>,
    Receiver<ServerMessage>,
))
    requires
        0 < capacity <= usize::MAX / 2,
    ensures
        message_receiver_source(r.1) == r.0,
        forall|k: int| 0 <= k < others@.len() ==> others@[k] != r.0,
{
    tokio::sync::broadcast::channel(capacity)
}

/// `Sender::subscribe` on a text channel: a new receiver of the channel of
/// `tx`, which sees what is sent after this call. (tokio panics once a
/// channel has `usize::MAX >> 2` receivers, a count that memory cannot hold.)
#[verifier::external_body]
pub(crate) fn subscribe_text(tx: &Sender<String>) -> (rx: Receiver<String>)
    ensures
        text_receiver_source(rx) == *tx,
{
    tx.subscribe()
}

/// `Sender::subscribe` on a channel of server messages, as `subscribe_text`.
#[verifier::external_body]
pub(crate) fn subscribe_messages(tx: &Sender<ServerMessage>) -> (rx: Receiver<ServerMessage>)
    ensures
        message_receiver_source(rx) == *tx,
{
    tx.subscribe()
}

/// The sends made through one log, in order: for each, the channel a value
/// was handed to and the value, and whether the channel had a receiver at
/// that moment.
#[verifier::reject_recursive_types(T)]
pub struct SendLog<T> {
    records: Ghost<Seq<(Sender<T>, T)>>,
    outcomes: Ghost<Seq<bool>>,
}

impl<T> SendLog<T> {
    /// The sends made so far.
    pub closed spec fn records(&self) -> Seq<(Sender<T>, T)> {
        self.records@
    }

    /// For each send, whether the channel had a receiver at that moment,
    /// so that the send succeeded.
    pub closed spec fn outcomes(&self) -> Seq<bool> {
        self.outcomes@
    }

    /// A log of no sends.
    pub(crate) fn new() -> (l: Self)
        ensures
            l.records() == Seq::<(Sender<T>, T)>::empty(),
            l.outcomes() == Seq::<bool>::empty(),
    {
        SendLog { records: Ghost(Seq::empty()), outcomes: Ghost(Seq::empty()) }
    }
}

/// `Sender::send`: hands `value` to the channel of `tx`, for every receiver
/// of it, and notes the send at the end of `log`. It fails, and the value
/// is dropped, when the channel has no receiver at that moment. Which of
/// the two comes back depends on receivers that other tasks hold; the log
/// notes it as the send's outcome. On success the count is the number of
/// receivers.
#[verifier::external_body]
pub(crate) fn send<T>(tx: &Sender<T>, value: T, log: &mut SendLog<T>) -> (r: Result<usize, ()>)
    ensures
        final(log).records() == old(log).records().push((*tx, value)),
        final(log).outcomes() == old(log).outcomes().push(r is Ok),
{
    log.records = Ghost(log.records@.push((*tx, value)));
    let r = tx.send(value).map_err(|_| ());
    log.outcomes = Ghost(log.outcomes@.push(r is Ok));
    r
}

/// `<Sender as Clone>::clone`: another handle to the same channel; the
/// handle holds only the channel's shared state, so the copy equals the
/// handle it was made from.
#[verifier::external_body]
pub(crate) fn clone_sender<T>(tx: &Sender<T>) -> (r: Sender<T>)
    ensures
        r == *tx,
{
    tx.clone()
}

/// `uuid::Uuid::new_v4`, as its 128-bit value: a random connection id.
/// Nothing is stated of the value.
#[verifier::external_body]
pub(crate) fn new_connection_id() -> (id: u128) {
    uuid::Uuid::new_v4().as_u128()
}

} // verus!
