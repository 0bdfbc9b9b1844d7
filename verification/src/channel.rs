//! The channels the bus hands messages to, and the calls that hand them over.
//!
//! A channel's other end belongs to a task outside this crate, which may drop it at any time.
//! Whether a hand-over succeeds therefore depends on more than its arguments. So each sending
//! handle of a queue (`Outlet`) or of a broadcast channel (`Bus`) keeps, in its view, the record
//! of every hand-over made through it and of whether the channel took it, and giving a value to a
//! one-shot channel yields the record of it (`Answer`). Only the trusted hand-over calls below
//! write those records, so the contracts of the bus can say who was offered what.

use vstd::prelude::*;

verus! {

/// The sending half of an unbounded tokio channel; opaque to proofs.
#[verifier::external_type_specification]
#[verifier::external_body]
#[verifier::reject_recursive_types(T)]
pub struct ExUnboundedSender<T>(tokio::sync::mpsc::UnboundedSender<T>);

/// The receiving half of an unbounded tokio channel; opaque to proofs.
#[verifier::external_type_specification]
#[verifier::external_body]
#[verifier::reject_recursive_types(T)]
pub struct ExUnboundedReceiver<T>(tokio::sync::mpsc::UnboundedReceiver<T>);

/// The sending half of a tokio one-shot channel; opaque to proofs.
#[verifier::external_type_specification]
#[verifier::external_body]
#[verifier::reject_recursive_types(T)]
pub struct ExOneshotSender<T>(tokio::sync::oneshot::Sender<T>);

/// The sending half of a tokio broadcast channel; opaque to proofs.
#[verifier::external_type_specification]
#[verifier::external_body]
#[verifier::reject_recursive_types(T)]
pub struct ExBroadcastSender<T>(tokio::sync::broadcast::Sender<T>);

/// The receiving half of a tokio broadcast channel; opaque to proofs.
#[verifier::external_type_specification]
#[verifier::external_body]
#[verifier::reject_recursive_types(T)]
pub struct ExBroadcastReceiver<T>(tokio::sync::broadcast::Receiver<T>);

/// A sending handle of an unbounded channel, with the record of what was offered through it.
#[verifier::reject_recursive_types(T)]
pub struct Outlet<T> {
    tx: tokio::sync::mpsc::UnboundedSender<T>,
    log: Ghost<Seq<(T, bool)>>,
}

impl<T> Outlet<T> {
    /// The channel handle.
    pub closed spec fn handle(&self) -> tokio::sync::mpsc::UnboundedSender<T> {
        self.tx
    }

    /// Every message offered to the channel through this handle, in order, each with whether the
    /// channel took it.
    pub closed spec fn log(&self) -> Seq<(T, bool)> {
        self.log@
    }

    /// A handle on `tx` through which nothing was offered yet.
    pub fn new(tx: tokio::sync::mpsc::UnboundedSender<T>) -> (o: Outlet<T>)
        ensures
            o.handle() == tx,
            o.log() == Seq::<(T, bool)>::empty(),
    {
        Outlet { tx, log: Ghost(Seq::empty()) }
    }

    /// Offers `msg` to the channel with `UnboundedSender::send`; `true` when the channel took
    /// (queued) it.
    ///
    /// Trusted: the claim is that the call was made with `msg` and returned `taken`, which the
    /// record notes. Which way it goes is not claimed: tokio refuses the message exactly when the
    /// receiving half has been closed or dropped. (tokio aborts the process if the count of
    /// queued messages overflows a `usize`.)
    #[verifier::external_body]
    pub(crate) fn send(&mut self, msg: T) -> (taken: bool)
        ensures
            final(self).handle() == old(self).handle(),
            final(self).log() == old(self).log().push((msg, taken)),
    {
        self.tx.send(msg).is_ok()
    }
}

impl<T> Clone for Outlet<T> {
    /// Another handle on the same channel, with the same record.
    fn clone(&self) -> (copy: Self)
        ensures
            copy == *self,
    {
        Outlet { tx: self.tx.clone(), log: Ghost(self.log@) }
    }
}

/// A sending handle of a broadcast channel, with the record of what was offered through it.
#[verifier::reject_recursive_types(T)]
pub struct Bus<T> {
    tx: tokio::sync::broadcast::Sender<T>,
    log: Ghost<Seq<(T, bool)>>,
}

impl<T> Bus<T> {
    /// The channel handle.
    pub closed spec fn handle(&self) -> tokio::sync::broadcast::Sender<T> {
        self.tx
    }

    /// Every value offered to the subscribers through this handle, in order, each with whether a
    /// subscriber was there to take it.
    pub closed spec fn log(&self) -> Seq<(T, bool)> {
        self.log@
    }

    /// A handle on `tx` through which nothing was offered yet.
    pub fn new(tx: tokio::sync::broadcast::Sender<T>) -> (b: Bus<T>)
        ensures
            b.handle() == tx,
            b.log() == Seq::<(T, bool)>::empty(),
    {
        Bus { tx, log: Ghost(Seq::empty()) }
    }

    /// The channel handle, to subscribe with.
    pub fn sender(&self) -> (tx: &tokio::sync::broadcast::Sender<T>)
        ensures
            *tx == self.handle(),
    {
        &self.tx
    }

    /// Offers `value` to every subscriber with `broadcast::Sender::send`; `true` when at least
    /// one subscriber was there to take it.
    ///
    /// Trusted: the claim is that the call was made with `value` and returned `taken`, which the
    /// record notes. Which way it goes is not claimed: it depends on the subscribers of the
    /// moment.
    #[verifier::external_body]
    pub(crate) fn publish(&mut self, value: T) -> (taken: bool)
        ensures
            final(self).handle() == old(self).handle(),
            final(self).log() == old(self).log().push((value, taken)),
    {
        self.tx.send(value).is_ok()
    }
}

/// The record that the sending half of a one-shot channel was given a value: the channel, the
/// value, and whether it was stored for the waiting side. Only `complete` makes one.
#[verifier::reject_recursive_types(T)]
pub struct Answer<T> {
    origin: Ghost<tokio::sync::oneshot::Sender<T>>,
    value: Ghost<T>,
    stored: bool,
}

impl<T> Answer<T> {
    /// The sending half that was given the value.
    pub closed spec fn origin(&self) -> tokio::sync::oneshot::Sender<T> {
        self.origin@
    }

    /// The value given.
    pub closed spec fn value(&self) -> T {
        self.value@
    }

    /// Whether the value was stored for the waiting side.
    pub closed spec fn stored(&self) -> bool {
        self.stored
    }
}

/// Gives `value` to the one-shot channel `tx` with `oneshot::Sender::send`, and returns the
/// record of it.
///
/// Trusted: the claim is that the call was made on `tx` with `value`, which the record notes.
/// Whether the value was stored is recorded and not claimed: tokio fails the call exactly when
/// the receiving half is gone.
#[verifier::external_body]
pub(crate) fn complete<T>(tx: tokio::sync::oneshot::Sender<T>, value: T) -> (answer: Answer<T>)
    ensures
        answer.origin() == tx,
        answer.value() == value,
{
    let ghost origin = tx;
    let ghost given = value;
    let stored = tx.send(value).is_ok();
    Answer { origin: Ghost(origin), value: Ghost(given), stored }
}

/// The receiving half of an unbounded channel, with the sending handle it was made with.
#[verifier::reject_recursive_types(T)]
pub struct Inlet<T> {
    rx: tokio::sync::mpsc::UnboundedReceiver<T>,
    paired: Ghost<tokio::sync::mpsc::UnboundedSender<T>>,
}

impl<T> Inlet<T> {
    /// The sending handle of the channel this is the receiving half of: what is sent through
    /// it, or through a clone of it, arrives here.
    pub closed spec fn paired(&self) -> tokio::sync::mpsc::UnboundedSender<T> {
        self.paired@
    }

    /// The receiving half itself, to receive with.
    pub fn into_receiver(self) -> tokio::sync::mpsc::UnboundedReceiver<T> {
        self.rx
    }
}

/// Makes a new unbounded channel with `tokio::sync::mpsc::unbounded_channel`: its sending
/// handle, and its receiving half paired with that handle.
///
/// Trusted: the claim is that the two halves returned are those of the one channel that the
/// call made, which the receiving side records. The halves themselves are opaque.
#[verifier::external_body]
pub(crate) fn unbounded<T>() -> (halves: (tokio::sync::mpsc::UnboundedSender<T>, Inlet<T>))
    ensures
        halves.1.paired() == halves.0,
{
    let (tx, rx) = tokio::sync::mpsc::unbounded_channel();
    let ghost paired = tx;
    (tx, Inlet { rx, paired: Ghost(paired) })
}

/// `UnboundedSender::clone` makes another handle to the same channel.
///
/// Trusted: the claim is that the new handle equals the old one. In the tokio source a handle
/// holds nothing but an `Arc` of the channel, and the clone holds a clone of that same `Arc`
/// (after counting one more sender), which proofs take as equal, as they take `Arc` clones.
pub assume_specification<T>[ <tokio::sync::mpsc::UnboundedSender<T> as Clone>::clone ](
    tx: &tokio::sync::mpsc::UnboundedSender<T>,
) -> (handle: tokio::sync::mpsc::UnboundedSender<T>)
    ensures
        handle == *tx,
;

/// Makes a broadcast channel that holds up to `capacity` messages, with
/// `tokio::sync::broadcast::channel`.
///
/// Trusted, with no claim on the result: the two halves are opaque. tokio panics on a capacity
/// of zero or above `usize::MAX >> 1`, which `requires` leaves out.
#[verifier::external_body]
pub(crate) fn bus_channel<T: Clone>(capacity: usize) -> (halves: (
    tokio::sync::broadcast::Sender<T>,
    tokio::sync::broadcast::Receiver<T>,
))
    requires
        0 < capacity <= usize::MAX / 2,
{
    tokio::sync::broadcast::channel(capacity)
}

/// `broadcast::Sender::clone` makes another handle to the same broadcast channel.
///
/// Trusted: the claim is that the new handle equals the old one. In the tokio source a handle
/// holds nothing but an `Arc` of the channel's shared state, and the clone holds a clone of that
/// same `Arc` (after counting one more sender), which proofs take as equal, as they take `Arc`
/// clones.
pub assume_specification<T>[ <tokio::sync::broadcast::Sender<T> as Clone>::clone ](
    tx: &tokio::sync::broadcast::Sender<T>,
) -> (handle: tokio::sync::broadcast::Sender<T>)
    ensures
        handle == *tx,
;

} // verus!
