//! Non-blocking hand-off channels between the host, the realtime thread and
//! the supervisor, over `std::sync::mpsc`.
use std::sync::mpsc::{Receiver, Sender};
use vstd::prelude::*;

use crate::session::PortAction;

verus! {

/// The sending end of a std channel, carried through opaquely.
#[verifier::external_type_specification]
#[verifier::external_body]
#[verifier::reject_recursive_types(T)]
pub struct ExSender<T>(Sender<T>);

/// The receiving end of a std channel, carried through opaquely.
#[verifier::external_type_specification]
#[verifier::external_body]
#[verifier::reject_recursive_types(T)]
pub struct ExReceiver<T>(Receiver<T>);

/// Relies on `std::sync::mpsc::channel`: a connected sending and receiving end.
#[verifier::external_body]
fn open<T>() -> (Sender<T>, Receiver<T>) {
    std::sync::mpsc::channel()
}

/// Relies on `Sender::send`: queues the value for the receiving end without
/// blocking; the result is false when that end is gone.
#[verifier::external_body]
fn post<T>(tx: &Sender<T>, value: T) -> bool {
    tx.send(value).is_ok()
}

/// Relies on `Receiver::try_recv`: the oldest queued value, or nothing when
/// none is queued; values queued before the sending ends were dropped are
/// still handed out. It never blocks.
#[verifier::external_body]
fn poll<T>(rx: &Receiver<T>) -> Option<T> {
    rx.try_recv().ok()
}

/// The consuming end of a channel: drained by one thread, never blocking.
/// It keeps a record of every item it has handed out, in order, and counts
/// the polls that found nothing pending.
#[verifier::reject_recursive_types(T)]
pub struct Inbox<T> {
    rx: Receiver<T>,
    received: Ghost<Seq<T>>,
    empty_polls: Ghost<nat>,
}

impl<T> Inbox<T> {
    /// The items taken from this end so far, oldest first.
    pub closed spec fn received(&self) -> Seq<T> {
        self.received@
    }

    /// How many polls of this end found nothing pending.
    pub closed spec fn empty_polls(&self) -> nat {
        self.empty_polls@
    }

    /// The oldest pending item, if any; it is added to the record. A poll
    /// that finds nothing is counted.
    pub fn try_take(&mut self) -> (r: Option<T>)
        ensures
            r matches Some(v) ==> final(self).received() == old(self).received().push(v),
            r is Some ==> final(self).empty_polls() == old(self).empty_polls(),
            r is None ==> final(self).received() == old(self).received(),
            r is None ==> final(self).empty_polls() == old(self).empty_polls() + 1,
    {
        let r = poll(&self.rx);
        proof {
            if r is Some {
                self.received@ = self.received@.push(r->0);
            } else {
                self.empty_polls@ = self.empty_polls@ + 1;
            }
        }
        r
    }
}

/// Error of a frame buffer whose length is not the session's buffer size.
#[derive(Clone, Copy, Debug, PartialEq, Eq, Structural)]
pub struct FrameLengthError {
    pub expected: usize,
    pub found: usize,
}

/// The host's handle for streaming frame buffers to the realtime thread.
/// It keeps a record of the buffers it has accepted for sending.
#[verifier::reject_recursive_types(S)]
pub struct SendFramesChannel<S> {
    tx: Sender<Vec<S>>,
    buffer_size: usize,
    sent: Ghost<Seq<Seq<S>>>,
}

/// The same handle under the name that the output-only session uses.
pub type SenderChannel<S> = SendFramesChannel<S>;

/// The host's handle for port connect and disconnect intents. It keeps a
/// record of the intents it has accepted for sending, each as
/// `(connect, from, to)`.
pub struct PortActionChannel {
    tx: Sender<PortAction>,
    sent: Ghost<Seq<(bool, Seq<char>, Seq<char>)>>,
}

/// The host's one-shot handle for ending a session. It counts the stop
/// signals it has accepted for sending.
pub struct ShutdownChannel {
    tx: Option<Sender<()>>,
    signals: Ghost<nat>,
}

impl<S> SendFramesChannel<S> {
    pub closed spec fn spec_buffer_size(&self) -> usize {
        self.buffer_size
    }

    /// The buffers this handle has accepted so far, oldest first.
    pub closed spec fn sent(&self) -> Seq<Seq<S>> {
        self.sent@
    }

    /// The length every buffer sent on this handle must have.
    #[verifier::when_used_as_spec(spec_buffer_size)]
    pub fn buffer_size(&self) -> (r: usize)
        ensures
            r == self.spec_buffer_size(),
    {
        self.buffer_size
    }
}

impl PortActionChannel {
    /// The intents this handle has accepted so far, oldest first.
    pub closed spec fn sent(&self) -> Seq<(bool, Seq<char>, Seq<char>)> {
        self.sent@
    }
}

impl ShutdownChannel {
    /// Whether a stop request can still be sent on this handle.
    pub closed spec fn armed(&self) -> bool {
        self.tx is Some
    }

    /// How many stop signals this handle has accepted.
    pub closed spec fn signals(&self) -> nat {
        self.signals@
    }

    pub fn is_armed(&self) -> (r: bool)
        ensures
            r == self.armed(),
    {
        self.tx.is_some()
    }
}

/// A frame channel for buffers of `buffer_size` samples.
pub fn frame_channel<S>(buffer_size: usize) -> (r: (SendFramesChannel<S>, Inbox<Vec<S>>))
    ensures
        r.0.buffer_size() == buffer_size,
        r.0.sent() == Seq::<Seq<S>>::empty(),
        r.1.received() == Seq::<Vec<S>>::empty(),
        r.1.empty_polls() == 0,
{
    let (tx, rx) = open();
    (SendFramesChannel { tx, buffer_size, sent: Ghost(Seq::empty()) }, Inbox { rx, received: Ghost(Seq::empty()), empty_polls: Ghost(0) })
}

/// A channel for port actions.
pub fn port_action_channel() -> (r: (PortActionChannel, Inbox<PortAction>))
    ensures
        r.0.sent() == Seq::<(bool, Seq<char>, Seq<char>)>::empty(),
        r.1.received() == Seq::<PortAction>::empty(),
        r.1.empty_polls() == 0,
{
    let (tx, rx) = open();
    (PortActionChannel { tx, sent: Ghost(Seq::empty()) }, Inbox { rx, received: Ghost(Seq::empty()), empty_polls: Ghost(0) })
}

/// A shutdown channel whose handle is armed and has sent nothing.
pub fn shutdown_channel() -> (r: (ShutdownChannel, Inbox<()>))
    ensures
        r.0.armed(),
        r.0.signals() == 0,
        r.1.received() == Seq::<()>::empty(),
        r.1.empty_polls() == 0,
{
    let (tx, rx) = open();
    (ShutdownChannel { tx: Some(tx), signals: Ghost(0) }, Inbox { rx, received: Ghost(Seq::empty()), empty_polls: Ghost(0) })
}

/// Whether `frames` may be sent on a session whose buffer size is `buffer_size`.
pub fn check_frames<S>(buffer_size: usize, frames: &Vec<S>) -> (r: Result<(), FrameLengthError>)
    ensures
        r is Ok <==> frames@.len() == buffer_size,
        r is Err ==> r->Err_0 == (FrameLengthError { expected: buffer_size, found: frames@.len() as usize }),
{
    let found = frames.len();
    if found == buffer_size {
        Ok(())
    } else {
        Err(FrameLengthError { expected: buffer_size, found })
    }
}

/// Hands a frame buffer to the realtime thread. A buffer whose length differs
/// from the session's buffer size is rejected and never reaches the channel.
/// Once the session has ended the buffer is accepted and has no effect.
pub fn send_frames<S>(channel: &mut SendFramesChannel<S>, frames: Vec<S>) -> (r: Result<(), FrameLengthError>)
    ensures
        final(channel).buffer_size() == old(channel).buffer_size(),
        r is Ok <==> frames@.len() == old(channel).buffer_size(),
        r is Ok ==> final(channel).sent() == old(channel).sent().push(frames@),
        r is Err ==> final(channel).sent() == old(channel).sent(),
        r is Err ==> r->Err_0 == (FrameLengthError {
            expected: old(channel).buffer_size(),
            found: frames@.len() as usize,
        }),
{
    match check_frames(channel.buffer_size, &frames) {
        Ok(()) => {
            let ghost view = frames@;
            let _ = post(&channel.tx, frames);
            proof {
                channel.sent@ = channel.sent@.push(view);
            }
            Ok(())
        },
        Err(e) => Err(e),
    }
}

/// Queues an intent to connect `port_from_name` to `port_to_name`; the
/// supervisor applies it at its next poll tick.
pub fn connect_ports(channel: &mut PortActionChannel, port_from_name: String, port_to_name: String)
    ensures
        final(channel).sent() == old(channel).sent().push((true, port_from_name@, port_to_name@)),
{
    let ghost record = (true, port_from_name@, port_to_name@);
    let _ = post(&channel.tx, PortAction::connect(port_from_name, port_to_name));
    proof {
        channel.sent@ = channel.sent@.push(record);
    }
}

/// Queues an intent to disconnect `port_from_name` from `port_to_name`; the
/// supervisor applies it at its next poll tick.
pub fn disconnect_ports(channel: &mut PortActionChannel, port_from_name: String, port_to_name: String)
    ensures
        final(channel).sent() == old(channel).sent().push((false, port_from_name@, port_to_name@)),
{
    let ghost record = (false, port_from_name@, port_to_name@);
    let _ = post(&channel.tx, PortAction::disconnect(port_from_name, port_to_name));
    proof {
        channel.sent@ = channel.sent@.push(record);
    }
}

/// Requests the end of the session. The handle sends at most once: the result
/// is whether this call was the one that sent, and afterwards the handle is
/// spent, so a second call sends nothing.
pub fn stop(channel: &mut ShutdownChannel) -> (r: bool)
    ensures
        r == old(channel).armed(),
        !final(channel).armed(),
        final(channel).signals() == old(channel).signals() + (if r { 1nat } else { 0nat }),
{
    match channel.tx.take() {
        Some(tx) => {
            let _ = post(&tx, ());
            proof {
                channel.signals@ = channel.signals@ + 1;
            }
            true
        },
        None => false,
    }
}

} // verus!
