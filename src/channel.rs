use vstd::prelude::*;

use crate::error::Error;
use crossbeam_channel::{Receiver, Sender, TryRecvError, TrySendError};

verus! {

/// Largest capacity a channel can be built with: crossbeam rounds
/// `capacity + 1` up to a power of two and doubles it in checked arithmetic,
/// which overflows beyond this bound.
pub const MAX_CAPACITY: usize = usize::MAX / 4;

#[verifier::external_type_specification]
#[verifier::external_body]
#[verifier::reject_recursive_types(T)]
pub struct ExSender<T>(Sender<T>);

#[verifier::external_type_specification]
#[verifier::external_body]
#[verifier::reject_recursive_types(T)]
pub struct ExReceiver<T>(Receiver<T>);

#[verifier::external_type_specification]
#[verifier::reject_recursive_types(T)]
pub struct ExTrySendError<T>(TrySendError<T>);

#[verifier::external_type_specification]
pub struct ExTryRecvError(TryRecvError);

// Once split, the two ends of a channel may be used from different threads,
// so what a call on one end returns depends on the others: the calls below
// are trusted not to panic and promise nothing more. While both ends are
// still held by one `MessageChannel`, the wrappers further down state what
// each call does to the queue.

/// Relies on crossbeam_channel::bounded: it panics when `cap + 1`, rounded up
/// to a power of two and doubled, overflows, which `MAX_CAPACITY` keeps out;
/// otherwise it can fail only to allocate a buffer of `cap` slots, a length
/// beyond any machine's memory.
pub assume_specification<T>[ crossbeam_channel::bounded::<T> ](cap: usize) -> (Sender<T>, Receiver<T>)
    requires
        cap <= MAX_CAPACITY,
;

/// Relies on crossbeam_channel::Sender::try_send: a refused message comes back
/// inside the error.
pub assume_specification<T>[ Sender::<T>::try_send ](s: &Sender<T>, msg: T) -> (r: Result<(), TrySendError<T>>)
    ensures
        r matches Err(TrySendError::Full(m)) ==> m == msg,
        r matches Err(TrySendError::Disconnected(m)) ==> m == msg,
;

/// Relies on crossbeam_channel::Sender::clone: a new handle to the same channel.
pub assume_specification<T>[ <Sender<T> as Clone>::clone ](s: &Sender<T>) -> Sender<T>;

/// Relies on crossbeam_channel::Receiver::clone: a new handle to the same channel.
pub assume_specification<T>[ <Receiver<T> as Clone>::clone ](r: &Receiver<T>) -> Receiver<T>;

/// Relies on crossbeam_channel::Receiver::try_recv, which never blocks.
pub assume_specification<T>[ Receiver::<T>::try_recv ](r: &Receiver<T>) -> Result<T, TryRecvError>;

/// Relies on crossbeam_channel::Sender::is_empty, which never blocks.
pub assume_specification<T>[ Sender::<T>::is_empty ](s: &Sender<T>) -> bool;

/// Relies on crossbeam_channel::Receiver::is_empty, which never blocks.
pub assume_specification<T>[ Receiver::<T>::is_empty ](r: &Receiver<T>) -> bool;

/// Relies on crossbeam_channel::Sender::is_full, which never blocks.
pub assume_specification<T>[ Sender::<T>::is_full ](s: &Sender<T>) -> bool;

/// Relies on crossbeam_channel::Receiver::is_full, which never blocks.
pub assume_specification<T>[ Receiver::<T>::is_full ](r: &Receiver<T>) -> bool;

/// Whether a queue holding `queued` still has room under `capacity`.
pub open spec fn accepts<T>(queued: Seq<T>, capacity: nat) -> bool {
    queued.len() < capacity
}

/// The queue after offering `msg`: appended at the back when there is room,
/// unchanged otherwise.
pub open spec fn offered<T>(queued: Seq<T>, capacity: nat, msg: T) -> Seq<T> {
    if accepts(queued, capacity) {
        queued.push(msg)
    } else {
        queued
    }
}

/// The queue after offering each of `msgs` in turn.
pub open spec fn offered_all<T>(queued: Seq<T>, capacity: nat, msgs: Seq<T>) -> Seq<T>
    decreases msgs.len(),
{
    if msgs.len() == 0 {
        queued
    } else {
        offered(offered_all(queued, capacity, msgs.drop_last()), capacity, msgs.last())
    }
}

/// How many messages a drain limited to `limit` takes from `queued`.
pub open spec fn taken<T>(queued: Seq<T>, limit: nat) -> nat {
    if limit < queued.len() {
        limit
    } else {
        queued.len()
    }
}

/// Offering any messages to an empty queue keeps at most `capacity` of them.
proof fn lemma_offered_all_len<T>(capacity: nat, msgs: Seq<T>)
    ensures
        offered_all(Seq::<T>::empty(), capacity, msgs).len() == if msgs.len() < capacity {
            msgs.len()
        } else {
            capacity
        },
    decreases msgs.len(),
{
    if msgs.len() > 0 {
        lemma_offered_all_len(capacity, msgs.drop_last());
    }
}

/// Messages sent one by one into an empty channel with room for all of them
/// are all queued, in the order they were sent; a drain then returns exactly
/// that sequence.
pub proof fn lemma_sends_within_capacity_drain_in_order<T>(msgs: Seq<T>, capacity: nat)
    requires
        msgs.len() <= capacity,
    ensures
        offered_all(Seq::<T>::empty(), capacity, msgs) == msgs,
    decreases msgs.len(),
{
    if msgs.len() > 0 {
        lemma_sends_within_capacity_drain_in_order(msgs.drop_last(), capacity);
        assert(msgs.drop_last().push(msgs.last()) =~= msgs);
    }
}

/// Sending into an empty channel without draining: the send at position `i`
/// is accepted exactly when fewer than `capacity` sends came before it;
/// every later one is refused as full.
pub proof fn lemma_sends_beyond_capacity_refused<T>(msgs: Seq<T>, capacity: nat, i: int)
    requires
        0 <= i < msgs.len(),
    ensures
        accepts(offered_all(Seq::<T>::empty(), capacity, msgs.take(i)), capacity) <==> i < capacity,
{
    lemma_offered_all_len(capacity, msgs.take(i));
}

/// A lossy send into a full channel leaves its queue as it was: a later
/// drain shows no trace of the dropped message.
pub proof fn lemma_lossy_send_when_full_is_dropped<T>(queued: Seq<T>, capacity: nat, msg: T)
    requires
        !accepts(queued, capacity),
    ensures
        offered(queued, capacity, msg) == queued,
{
}

/// A limited drain followed by a full drain returns every queued message
/// exactly once, in queue order: the two results put together are the queue.
pub proof fn lemma_drain_limit_then_drain_partitions<T>(queued: Seq<T>, limit: nat)
    ensures
        queued.take(taken(queued, limit) as int) + queued.skip(taken(queued, limit) as int) == queued,
{
    assert(queued.take(taken(queued, limit) as int) + queued.skip(taken(queued, limit) as int) =~= queued);
}

/// The sending half of a bounded channel. Clones share the channel.
#[derive(Debug, Clone)]
#[verifier::reject_recursive_types(T)]
pub struct MessageSender<T> {
    inner: Sender<T>,
    capacity: usize,
}

/// The receiving half of a bounded channel. Clones share the channel.
#[derive(Debug, Clone)]
#[verifier::reject_recursive_types(T)]
pub struct MessageReceiver<T> {
    inner: Receiver<T>,
    capacity: usize,
}

/// A bounded FIFO channel whose two ends are both still held here.
///
/// While the channel is whole no other handle to its queue exists, so its
/// contents are known exactly: the view is the queue, oldest message first.
/// `split` hands the two ends out for use from different threads.
#[verifier::reject_recursive_types(T)]
pub struct MessageChannel<T> {
    sender: MessageSender<T>,
    receiver: MessageReceiver<T>,
    queued: Ghost<Seq<T>>,
}

impl<T> View for MessageChannel<T> {
    type V = Seq<T>;

    closed spec fn view(&self) -> Seq<T> {
        self.queued@
    }
}

/// Relies on crossbeam_channel::Sender::try_send on a bounded channel whose
/// receiver is held in the same value: the message joins the back of the
/// queue unless `capacity` messages are queued, in which case it is refused
/// as `Full` (a zero-capacity channel has no receiver waiting and refuses all).
#[verifier::external_body]
fn whole_try_send<T>(ch: &mut MessageChannel<T>, msg: T) -> (r: Result<(), TrySendError<T>>)
    ensures
        final(ch).sender == old(ch).sender,
        final(ch).receiver == old(ch).receiver,
        final(ch)@ == offered(old(ch)@, old(ch).sender.capacity as nat, msg),
        accepts(old(ch)@, old(ch).sender.capacity as nat) ==> r is Ok,
        !accepts(old(ch)@, old(ch).sender.capacity as nat) ==> (r matches Err(TrySendError::Full(m)) && m == msg),
{
    ch.sender.inner.try_send(msg)
}

/// Relies on crossbeam_channel::Receiver::try_recv on a channel whose sender
/// is held in the same value: the oldest message leaves the queue, and an
/// empty queue gives `Empty`.
#[verifier::external_body]
fn whole_try_recv<T>(ch: &mut MessageChannel<T>) -> (r: Result<T, TryRecvError>)
    ensures
        final(ch).sender == old(ch).sender,
        final(ch).receiver == old(ch).receiver,
        old(ch)@.len() == 0 ==> (r matches Err(TryRecvError::Empty)) && final(ch)@ == old(ch)@,
        old(ch)@.len() > 0 ==> (r matches Ok(m) && m == old(ch)@[0]) && final(ch)@ == old(ch)@.drop_first(),
{
    ch.receiver.inner.try_recv()
}

/// Relies on crossbeam_channel::Receiver::len on a channel whose sender is
/// held in the same value: the number of queued messages.
#[verifier::external_body]
fn whole_len<T>(ch: &MessageChannel<T>) -> (r: usize)
    ensures
        r == ch@.len(),
{
    ch.receiver.inner.len()
}

/// Relies on crossbeam_channel::Sender::capacity: a bounded channel reports
/// the capacity it was built with.
#[verifier::external_body]
fn sender_capacity<T>(s: &MessageSender<T>) -> (r: Option<usize>)
    ensures
        r == Some(s.capacity),
{
    s.inner.capacity()
}

/// Relies on crossbeam_channel::Receiver::capacity: a bounded channel reports
/// the capacity it was built with.
#[verifier::external_body]
fn receiver_capacity<T>(r: &MessageReceiver<T>) -> (c: Option<usize>)
    ensures
        c == Some(r.capacity),
{
    r.inner.capacity()
}

/// Relies on crossbeam_channel::Sender::len: without blocking, a count of
/// queued messages that never exceeds the capacity the channel was built with.
#[verifier::external_body]
fn sender_len<T>(s: &MessageSender<T>) -> (r: usize)
    ensures
        r <= s.capacity,
{
    s.inner.len()
}

/// Relies on crossbeam_channel::Receiver::len: without blocking, a count of
/// queued messages that never exceeds the capacity the channel was built with.
#[verifier::external_body]
fn receiver_len<T>(r: &MessageReceiver<T>) -> (n: usize)
    ensures
        n <= r.capacity,
{
    r.inner.len()
}

/// The library's result for what `try_send` returned on a channel of
/// `capacity`.
pub open spec fn send_outcome<T>(r: Result<(), TrySendError<T>>, capacity: usize) -> Result<(), Error> {
    match r {
        Ok(()) => Ok(()),
        Err(TrySendError::Full(_)) => Err(Error::MessageChannelFull { capacity }),
        Err(TrySendError::Disconnected(_)) => Err(Error::MessageChannelDisconnected),
    }
}

/// Maps what `try_send` returned to the library's result.
fn map_send<T>(r: Result<(), TrySendError<T>>, capacity: usize) -> (out: Result<(), Error>)
    ensures
        out == send_outcome(r, capacity),
{
    match r {
        Ok(()) => Ok(()),
        Err(TrySendError::Full(_)) => Err(Error::MessageChannelFull { capacity }),
        Err(TrySendError::Disconnected(_)) => Err(Error::MessageChannelDisconnected),
    }
}

/// Relies on crossbeam_channel::Receiver::try_iter: takes the messages that
/// can be had without blocking, oldest first.
#[verifier::external_body]
fn collect_ready<T>(r: &Receiver<T>) -> Vec<T> {
    r.try_iter().collect()
}

impl<T> MessageChannel<T> {
    /// The number of messages the channel holds at most.
    pub closed spec fn capacity_spec(&self) -> nat {
        self.sender.capacity as nat
    }

    /// The two ends share one queue of one capacity, and it is not over-full.
    pub closed spec fn wf(&self) -> bool {
        &&& self.sender.capacity == self.receiver.capacity
        &&& self.sender.capacity <= MAX_CAPACITY
        &&& self.queued@.len() <= self.sender.capacity
    }

    /// An empty channel that holds at most `capacity` messages.
    pub fn new(capacity: usize) -> (r: Self)
        requires
            capacity <= MAX_CAPACITY,
        ensures
            r.wf(),
            r@ == Seq::<T>::empty(),
            r.capacity_spec() == capacity,
    {
        let (s, r) = crossbeam_channel::bounded(capacity);
        MessageChannel {
            sender: MessageSender { inner: s, capacity },
            receiver: MessageReceiver { inner: r, capacity },
            queued: Ghost(Seq::empty()),
        }
    }

    /// Hands out the two ends, which keep the queue and its capacity.
    pub fn split(self) -> (r: (MessageSender<T>, MessageReceiver<T>))
        requires
            self.wf(),
        ensures
            r.0.capacity_spec() == self.capacity_spec(),
            r.1.capacity_spec() == self.capacity_spec(),
    {
        (self.sender, self.receiver)
    }

    /// Queues `msg` at the back, or refuses it with `MessageChannelFull` when
    /// the channel holds its capacity.
    pub fn send(&mut self, msg: T) -> (r: Result<(), Error>)
        requires
            old(self).wf(),
        ensures
            final(self).wf(),
            final(self).capacity_spec() == old(self).capacity_spec(),
            final(self)@ == offered(old(self)@, old(self).capacity_spec(), msg),
            r == (if accepts(old(self)@, old(self).capacity_spec()) {
                Ok(())
            } else {
                Err(Error::MessageChannelFull { capacity: old(self).capacity_spec() as usize })
            }),
    {
        let capacity = self.sender.capacity;
        map_send(whole_try_send(self, msg), capacity)
    }

    /// Queues `msg` when there is room and drops it silently otherwise.
    pub fn send_lossy(&mut self, msg: T)
        requires
            old(self).wf(),
        ensures
            final(self).wf(),
            final(self).capacity_spec() == old(self).capacity_spec(),
            final(self)@ == offered(old(self)@, old(self).capacity_spec(), msg),
    {
        let _ = self.send(msg);
    }

    /// Takes the oldest message, if any.
    pub fn try_recv(&mut self) -> (r: Option<T>)
        requires
            old(self).wf(),
        ensures
            final(self).wf(),
            final(self).capacity_spec() == old(self).capacity_spec(),
            old(self)@.len() == 0 ==> r is None && final(self)@ == old(self)@,
            old(self)@.len() > 0 ==> r == Some(old(self)@[0]) && final(self)@ == old(self)@.drop_first(),
    {
        match whole_try_recv(self) {
            Ok(msg) => Some(msg),
            Err(_) => None,
        }
    }

    /// Takes every queued message, oldest first, leaving the channel empty.
    pub fn drain(&mut self) -> (r: Vec<T>)
        requires
            old(self).wf(),
        ensures
            final(self).wf(),
            final(self).capacity_spec() == old(self).capacity_spec(),
            r@ == old(self)@,
            final(self)@ == Seq::<T>::empty(),
    {
        let ghost start = self@;
        let mut out: Vec<T> = Vec::new();
        loop
            invariant
                self.wf(),
                self.capacity_spec() == old(self).capacity_spec(),
                out@ + self@ == start,
            ensures
                self.wf(),
                self.capacity_spec() == old(self).capacity_spec(),
                out@ == start,
                self@.len() == 0,
            decreases self@.len(),
        {
            let ghost before = self@;
            match self.try_recv() {
                Some(msg) => {
                    out.push(msg);
                    assert(out@ + self@ =~= start) by {
                        assert(before =~= seq![before[0]] + before.drop_first());
                    }
                },
                None => {
                    assert(out@ =~= start);
                    break;
                },
            }
        }
        out
    }

    /// Takes at most the `limit` oldest messages, oldest first; the rest stay.
    pub fn drain_limit(&mut self, limit: usize) -> (r: Vec<T>)
        requires
            old(self).wf(),
        ensures
            final(self).wf(),
            final(self).capacity_spec() == old(self).capacity_spec(),
            r@ == old(self)@.take(taken(old(self)@, limit as nat) as int),
            final(self)@ == old(self)@.skip(taken(old(self)@, limit as nat) as int),
    {
        let ghost start = self@;
        let mut out: Vec<T> = Vec::new();
        while out.len() < limit
            invariant
                self.wf(),
                self.capacity_spec() == old(self).capacity_spec(),
                out@ + self@ == start,
                out.len() <= limit,
            ensures
                self.wf(),
                self.capacity_spec() == old(self).capacity_spec(),
                out@ + self@ == start,
                out.len() == limit || self@.len() == 0,
            decreases limit - out.len(),
        {
            let ghost before = self@;
            match self.try_recv() {
                Some(msg) => {
                    out.push(msg);
                    assert(out@ + self@ =~= start) by {
                        assert(before =~= seq![before[0]] + before.drop_first());
                    }
                },
                None => {
                    break;
                },
            }
        }
        proof {
            let n = taken(start, limit as nat) as int;
            assert(out.len() == n);
            assert(out@ =~= start.take(n));
            assert(self@ =~= start.skip(n));
        }
        out
    }

    /// The number of queued messages.
    pub fn pending(&self) -> (r: usize)
        ensures
            r == self@.len(),
    {
        whole_len(self)
    }

    /// The capacity the channel was built with.
    pub fn capacity(&self) -> (r: Option<usize>)
        ensures
            r == Some(self.capacity_spec() as usize),
    {
        sender_capacity(&self.sender)
    }

    /// Whether no message is queued.
    pub fn is_empty(&self) -> (r: bool)
        ensures
            r == (self@.len() == 0),
    {
        whole_len(self) == 0
    }

    /// Whether the channel holds its capacity, so that a send is refused.
    pub fn is_full(&self) -> (r: bool)
        requires
            self.wf(),
        ensures
            r == !accepts(self@, self.capacity_spec()),
    {
        whole_len(self) >= self.sender.capacity
    }
}

impl<T> MessageSender<T> {
    /// The capacity of the channel this end belongs to.
    pub closed spec fn capacity_spec(&self) -> nat {
        self.capacity as nat
    }

    /// Queues `msg` without blocking. Another thread may hold the other end,
    /// so the outcome depends on the queue at the moment of the call: `Ok`,
    /// `MessageChannelFull` with this channel's capacity, or
    /// `MessageChannelDisconnected` once every receiver is gone.
    pub fn send(&self, msg: T) -> (r: Result<(), Error>)
        ensures
            r is Ok || r == Err::<(), Error>(Error::MessageChannelFull { capacity: self.capacity_spec() as usize })
                || r == Err::<(), Error>(Error::MessageChannelDisconnected),
    {
        map_send(self.inner.try_send(msg), self.capacity)
    }

    /// Queues `msg` if it can be queued now; a full or disconnected channel
    /// drops it silently.
    pub fn send_lossy(&self, msg: T) {
        let _ = self.send(msg);
    }

    /// The number of messages queued at the moment of the call, never more
    /// than the capacity.
    pub fn pending(&self) -> (r: usize)
        ensures
            r <= self.capacity_spec(),
    {
        sender_len(self)
    }

    /// The capacity the channel was built with.
    pub fn capacity(&self) -> (r: Option<usize>)
        ensures
            r == Some(self.capacity_spec() as usize),
    {
        sender_capacity(self)
    }

    /// Whether no message was queued at the moment of the call.
    pub fn is_empty(&self) -> bool {
        self.inner.is_empty()
    }

    /// Whether the queue held its capacity at the moment of the call.
    pub fn is_full(&self) -> bool {
        self.inner.is_full()
    }
}

impl<T> MessageReceiver<T> {
    /// The capacity of the channel this end belongs to.
    pub closed spec fn capacity_spec(&self) -> nat {
        self.capacity as nat
    }

    /// Takes every message that can be had without blocking, oldest first.
    pub fn drain(&self) -> Vec<T> {
        collect_ready(&self.inner)
    }

    /// Takes at most `limit` messages that can be had without blocking,
    /// oldest first; the rest stay queued.
    pub fn drain_limit(&self, limit: usize) -> (r: Vec<T>)
        ensures
            r.len() <= limit,
    {
        let mut out: Vec<T> = Vec::new();
        while out.len() < limit
            invariant
                out.len() <= limit,
            decreases limit - out.len(),
        {
            match self.try_recv() {
                Some(msg) => out.push(msg),
                None => break,
            }
        }
        out
    }

    /// Takes the oldest message if one can be had without blocking.
    pub fn try_recv(&self) -> Option<T> {
        match self.inner.try_recv() {
            Ok(msg) => Some(msg),
            Err(_) => None,
        }
    }

    /// The number of messages queued at the moment of the call, never more
    /// than the capacity.
    pub fn pending(&self) -> (r: usize)
        ensures
            r <= self.capacity_spec(),
    {
        receiver_len(self)
    }

    /// The capacity the channel was built with.
    pub fn capacity(&self) -> (r: Option<usize>)
        ensures
            r == Some(self.capacity_spec() as usize),
    {
        receiver_capacity(self)
    }

    /// Whether no message was queued at the moment of the call.
    pub fn is_empty(&self) -> bool {
        self.inner.is_empty()
    }

    /// Whether the queue held its capacity at the moment of the call.
    pub fn is_full(&self) -> bool {
        self.inner.is_full()
    }
}

} // verus!
