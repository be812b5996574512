//! Bounded queues of what is captured or encoded and waits to be fetched.
use crate::audio::capture::AudioPacket;
use crate::protocol::InputEvent;
use crate::video::capture::CapturedFrame;
use crate::video::codec::EncodedFrame;
use vstd::prelude::*;

verus! {

/// What can wait in a queue.
#[derive(Debug)]
pub enum QueueItem {
    /// A frame of the screen.
    Captured(CapturedFrame),
    /// A frame that was encoded.
    Encoded(EncodedFrame),
    /// Sound.
    Audio(AudioPacket),
    /// Something that was done at the keyboard or the mouse.
    Input(InputEvent),
}

/// The sending end of a channel of the `crossbeam-channel` crate.
#[verifier::external_type_specification]
#[verifier::external_body]
#[verifier::reject_recursive_types(T)]
pub struct ExSender<T>(crossbeam_channel::Sender<T>);

/// The receiving end of a channel of the `crossbeam-channel` crate.
#[verifier::external_type_specification]
#[verifier::external_body]
#[verifier::reject_recursive_types(T)]
pub struct ExReceiver<T>(crossbeam_channel::Receiver<T>);

/// The items that wait in a channel, oldest first.
pub uninterp spec fn waiting(rx: crossbeam_channel::Receiver<QueueItem>) -> Seq<QueueItem>;

/// The number of items that a channel was made to hold.
pub uninterp spec fn room(rx: crossbeam_channel::Receiver<QueueItem>) -> nat;

/// Both ends of one bounded channel. The fields never leave this module, and the
/// only queue is the one that `bounded` makes, so nothing else reaches the
/// channel.
pub struct BoundedQueue {
    tx: crossbeam_channel::Sender<QueueItem>,
    rx: crossbeam_channel::Receiver<QueueItem>,
}

impl View for BoundedQueue {
    type V = Seq<QueueItem>;

    /// The items that wait, oldest first.
    closed spec fn view(&self) -> Seq<QueueItem> {
        waiting(self.rx)
    }
}

/// A queue with room for `room` items after `item` was offered to it.
pub open spec fn offered(s: Seq<QueueItem>, room: nat, item: QueueItem) -> Seq<QueueItem> {
    if s.len() < room {
        s.push(item)
    } else {
        s
    }
}

/// A queue after its oldest item was taken out, where it has one.
pub open spec fn taken(s: Seq<QueueItem>) -> Seq<QueueItem> {
    if s.len() > 0 {
        s.skip(1)
    } else {
        s
    }
}

/// What became of an item that was offered to a queue.
#[derive(Debug, Clone, Copy, PartialEq, Eq, Structural)]
pub enum Offer {
    /// It waits at the end of the queue.
    Sent,
    /// It was dropped: the queue is full.
    Full,
    /// It was dropped: nobody can receive it any more.
    Disconnected,
}

/// `crossbeam_channel::bounded`: both ends of a new channel, which is empty and
/// holds up to `capacity` items.
#[verifier::external_body]
fn bounded(capacity: usize) -> (q: BoundedQueue)
    requires
        0 < capacity <= 0x10000,
    ensures
        waiting(q.rx) == Seq::<QueueItem>::empty(),
        room(q.rx) == capacity,
{
    let (tx, rx) = crossbeam_channel::bounded(capacity);
    BoundedQueue { tx, rx }
}

/// `crossbeam_channel::Sender::try_send` on the sending end: appends the item
/// where the channel has room, and gives it back otherwise. The receiving end is
/// in the same queue, so the channel is not disconnected.
#[verifier::external_body]
fn try_send(q: &mut BoundedQueue, item: QueueItem) -> (r: Offer)
    ensures
        room(final(q).rx) == room(old(q).rx),
        waiting(final(q).rx) == (if waiting(old(q).rx).len() < room(old(q).rx) {
            waiting(old(q).rx).push(item)
        } else {
            waiting(old(q).rx)
        }),
        r == (if waiting(old(q).rx).len() < room(old(q).rx) {
            Offer::Sent
        } else {
            Offer::Full
        }),
{
    match q.tx.try_send(item) {
        Ok(()) => Offer::Sent,
        Err(crossbeam_channel::TrySendError::Full(_)) => Offer::Full,
        Err(crossbeam_channel::TrySendError::Disconnected(_)) => Offer::Disconnected,
    }
}

/// `crossbeam_channel::Receiver::try_recv` on the receiving end: takes out the
/// oldest item, where one waits.
#[verifier::external_body]
fn try_recv(q: &mut BoundedQueue) -> (r: Option<QueueItem>)
    ensures
        room(final(q).rx) == room(old(q).rx),
        waiting(final(q).rx) == (if waiting(old(q).rx).len() > 0 {
            waiting(old(q).rx).skip(1)
        } else {
            waiting(old(q).rx)
        }),
        r == (if waiting(old(q).rx).len() > 0 {
            Some(waiting(old(q).rx)[0])
        } else {
            None
        }),
{
    q.rx.try_recv().ok()
}

impl BoundedQueue {
    /// How many items the queue holds at most.
    pub closed spec fn capacity(self) -> nat {
        room(self.rx)
    }

    /// An empty queue.
    pub fn new(capacity: usize) -> (q: Self)
        requires
            0 < capacity <= 0x10000,
        ensures
            q@ == Seq::<QueueItem>::empty(),
            q.capacity() == capacity,
    {
        bounded(capacity)
    }

    /// Offers an item to the queue.
    pub fn offer(&mut self, item: QueueItem) -> (r: Offer)
        ensures
            final(self).capacity() == old(self).capacity(),
            final(self)@ == offered(old(self)@, old(self).capacity(), item),
            r == (if old(self)@.len() < old(self).capacity() {
                Offer::Sent
            } else {
                Offer::Full
            }),
    {
        try_send(self, item)
    }

    /// Takes the oldest item out.
    pub fn take(&mut self) -> (r: Option<QueueItem>)
        ensures
            final(self).capacity() == old(self).capacity(),
            final(self)@ == taken(old(self)@),
            r == (if old(self)@.len() > 0 {
                Some(old(self)@[0])
            } else {
                None
            }),
    {
        try_recv(self)
    }
}

/// A queue never holds more than it has room for.
pub proof fn law_queue_keeps_to_its_room(s: Seq<QueueItem>, room: nat, item: QueueItem)
    requires
        s.len() <= room,
    ensures
        offered(s, room, item).len() <= room,
        taken(s).len() <= room,
{
}

/// What comes first goes first: an item that joins a queue changes nothing about
/// what is taken from it before.
pub proof fn law_first_in_first_out(s: Seq<QueueItem>, room: nat, item: QueueItem)
    requires
        0 < s.len() < room,
    ensures
        offered(s, room, item)[0] == s[0],
        taken(offered(s, room, item)) == offered(taken(s), room, item),
{
    assert(taken(offered(s, room, item)) =~= offered(taken(s), room, item));
}

} // verus!
