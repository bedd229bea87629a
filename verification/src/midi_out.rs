//! MIDI output: one queue per render thread, and the drain that empties
//! them, in thread order, into one write.
//!
//! Each render thread sends through a [`MidiSender`] of its own, which
//! queues the message without blocking; the drain takes every queue's
//! messages in turn and hands them to Bela's output in one piece, so a
//! message sent from the thread that opened the port lands behind those
//! already queued.

use vstd::prelude::*;

use crate::error::Error;
use crate::midi::{spec_slot_bytes, spec_slot_len, spec_wire, MidiMessage, Queue, Slot};

verus! {

/// The message a queued slot holds: its bytes, as many as its length
/// says.
pub open spec fn spec_slot_message(word: u32) -> Seq<u8> {
    spec_slot_bytes(word).take(spec_slot_len(word) as int)
}

/// The messages of `slots`, one after another, oldest first.
pub open spec fn spec_messages(slots: Seq<u32>) -> Seq<u8>
    decreases slots.len(),
{
    if slots.len() == 0 {
        Seq::empty()
    } else {
        spec_messages(slots.drop_last()) + spec_slot_message(slots.last())
    }
}

/// The messages of every queue, the first queue's first.
pub open spec fn spec_all_messages(queues: Seq<Seq<u32>>) -> Seq<u8>
    decreases queues.len(),
{
    if queues.len() == 0 {
        Seq::empty()
    } else {
        spec_all_messages(queues.drop_last()) + spec_messages(queues.last())
    }
}

proof fn lemma_messages_front(slots: Seq<u32>)
    requires
        slots.len() > 0,
    ensures
        spec_messages(slots) == spec_slot_message(slots[0]) + spec_messages(slots.drop_first()),
    decreases slots.len(),
{
    if slots.len() == 1 {
        assert(slots.drop_last() =~= Seq::<u32>::empty());
        assert(slots.drop_first() =~= Seq::<u32>::empty());
        assert(spec_messages(slots.drop_first()) =~= Seq::<u8>::empty());
        assert(spec_messages(slots.drop_last()) =~= Seq::<u8>::empty());
        assert(spec_slot_message(slots[0]) + Seq::<u8>::empty() =~= spec_slot_message(slots[0]));
        assert(Seq::<u8>::empty() + spec_slot_message(slots.last()) =~= spec_slot_message(slots[0]));
    } else {
        lemma_messages_front(slots.drop_last());
        assert(slots.drop_last().drop_first() =~= slots.drop_first().drop_last());
        assert(slots.drop_first().last() == slots.last());
        assert(slots.drop_last()[0] == slots[0]);
    }
}

/// A sender for the render thread it was taken for.
#[derive(Debug)]
pub struct MidiSender {
    thread: usize,
}

impl MidiSender {
    /// The render thread this sender belongs to.
    pub closed spec fn spec_thread(&self) -> int {
        self.thread as int
    }

    /// The render thread this sender belongs to.
    pub fn thread(&self) -> (thread: usize)
        ensures
            thread == self.spec_thread(),
    {
        self.thread
    }

    /// Queues `message` for output on this sender's thread, without
    /// blocking, and asks for the queues to be drained.
    ///
    /// # Errors
    /// Returns [`Error::MidiQueueFull`] when this thread's queue is full:
    /// the message is dropped rather than something already queued, and
    /// no drain is asked for.
    pub fn send(&self, outbox: &mut Outbox, message: MidiMessage) -> (result: Result<(), Error>)
        requires
            old(outbox).wf(),
            self.spec_thread() < old(outbox).spec_threads(),
        ensures
            final(outbox).wf(),
            final(outbox).spec_threads() == old(outbox).spec_threads(),
            final(outbox).spec_capacity() == old(outbox).spec_capacity(),
            final(outbox).spec_untaken() == old(outbox).spec_untaken(),
            final(outbox).spec_drain_asked() == (result is Ok || old(outbox).spec_drain_asked()),
            final(outbox).spec_draining() == old(outbox).spec_draining(),
            ({
                let t = self.spec_thread();
                let queued = old(outbox).spec_queues()[t];
                if queued.len() < old(outbox).spec_capacity() {
                    &&& result == Ok::<(), Error>(())
                    &&& final(outbox).spec_queues().len() == old(outbox).spec_queues().len()
                    &&& forall|k: int|
                        0 <= k < final(outbox).spec_queues().len() ==> #[trigger] final(outbox).spec_queues()[k] == if k == t {
                            old(outbox).spec_queues()[k].push(final(outbox).spec_queues()[k].last())
                        } else {
                            old(outbox).spec_queues()[k]
                        }
                    &&& spec_slot_message(final(outbox).spec_queues()[t].last()) == spec_wire(message)
                } else {
                    &&& result == Err::<(), Error>(Error::MidiQueueFull)
                    &&& final(outbox).spec_queues() == old(outbox).spec_queues()
                }
            }),
    {
        let result = outbox.queue_message(self.thread, message);
        if result.is_ok() {
            outbox.asked = true;
        }
        result
    }
}

/// The queues of a MIDI output, one per render thread, and which of
/// their senders have been handed out.
#[derive(Debug)]
pub struct Outbox {
    queues: Vec<Queue>,
    untaken: Vec<bool>,
    asked: bool,
    draining: bool,
}

impl Outbox {
    /// What each queue holds, oldest first.
    pub closed spec fn spec_queues(&self) -> Seq<Seq<u32>> {
        Seq::new(self.queues@.len(), |k: int| self.queues@[k]@)
    }

    /// How many render threads there are queues for.
    pub closed spec fn spec_threads(&self) -> int {
        self.queues@.len() as int
    }

    /// How many messages each queue has room for.
    pub closed spec fn spec_capacity(&self) -> int {
        self.queues@[0].spec_capacity() as int
    }

    /// Which threads' senders have not been handed out yet.
    pub closed spec fn spec_untaken(&self) -> Seq<bool> {
        self.untaken@
    }

    /// Whether a sender has asked for a drain since the last one: what
    /// scheduling the drain task stands for.
    pub closed spec fn spec_drain_asked(&self) -> bool {
        self.asked
    }

    /// Whether one of the two drains, the task's or the opening
    /// thread's, holds the queues.
    pub closed spec fn spec_draining(&self) -> bool {
        self.draining
    }

    /// What the invariant gives a caller: one queue and one sender flag
    /// per render thread, at least one thread, and no queue holding more
    /// than the capacity.
    pub proof fn lemma_shape(&self)
        requires
            self.wf(),
        ensures
            self.spec_threads() >= 1,
            self.spec_queues().len() == self.spec_threads(),
            self.spec_untaken().len() == self.spec_threads(),
            forall|k: int| 0 <= k < self.spec_threads() ==> #[trigger] self.spec_queues()[k].len()
                <= self.spec_capacity(),
    {
        assert forall|k: int| 0 <= k < self.spec_threads() implies #[trigger] self.spec_queues()[k].len()
            <= self.spec_capacity() by {
            self.queues@[k].lemma_within_capacity();
        }
    }

    /// The outbox's invariant: at least one queue, every queue sound and
    /// of the same capacity, and one flag per queue.
    pub closed spec fn wf(&self) -> bool {
        &&& self.queues@.len() >= 1
        &&& self.untaken@.len() == self.queues@.len()
        &&& forall|k: int| 0 <= k < self.queues@.len() ==> (#[trigger] self.queues@[k]).wf()
        &&& forall|k: int|
            0 <= k < self.queues@.len() ==> (#[trigger] self.queues@[k]).spec_capacity()
                == self.queues@[0].spec_capacity()
    }

    /// Queues for `threads` render threads, with 0 read as 1, each with
    /// room for `capacity` messages (or for one if asked for none), and
    /// every sender still to be handed out.
    pub fn new(threads: usize, capacity: usize) -> (outbox: Self)
        ensures
            outbox.wf(),
            outbox.spec_threads() == if threads == 0 { 1 } else { threads as int },
            outbox.spec_capacity() == if capacity == 0 { 1 } else { capacity as int },
            outbox.spec_queues().len() == outbox.spec_threads(),
            outbox.spec_untaken().len() == outbox.spec_threads(),
            !outbox.spec_drain_asked(),
            !outbox.spec_draining(),
            forall|k: int| 0 <= k < outbox.spec_threads() ==> #[trigger] outbox.spec_queues()[k]
                == Seq::<u32>::empty(),
            forall|k: int| 0 <= k < outbox.spec_threads() ==> #[trigger] outbox.spec_untaken()[k],
    {
        let n = if threads == 0 { 1 } else { threads };
        let mut queues: Vec<Queue> = Vec::new();
        let mut untaken: Vec<bool> = Vec::new();
        let mut i: usize = 0;
        while i < n
            invariant
                i <= n,
                queues@.len() == i,
                untaken@.len() == i,
                forall|k: int| 0 <= k < i ==> (#[trigger] queues@[k]).wf(),
                forall|k: int|
                    0 <= k < i ==> (#[trigger] queues@[k]).spec_capacity() == if capacity == 0 {
                        1
                    } else {
                        capacity as nat
                    },
                forall|k: int| 0 <= k < i ==> (#[trigger] queues@[k])@ == Seq::<u32>::empty(),
                forall|k: int| 0 <= k < i ==> #[trigger] untaken@[k],
            decreases n - i,
        {
            queues.push(Queue::new(capacity));
            untaken.push(true);
            i = i + 1;
        }
        Self { queues, untaken, asked: false, draining: false }
    }

    /// How many render threads there are queues for.
    pub fn threads(&self) -> (threads: usize)
        ensures
            threads == self.spec_threads(),
    {
        self.queues.len()
    }

    /// How many messages each render thread can have waiting.
    pub fn capacity(&self) -> (capacity: usize)
        requires
            self.wf(),
        ensures
            capacity == self.spec_capacity(),
    {
        self.queues[0].capacity()
    }

    /// The sender for render thread `thread`, handed out once: `None`
    /// for a thread with no queue, and for one whose sender was already
    /// taken.
    pub fn take_sender(&mut self, thread: usize) -> (sender: Option<MidiSender>)
        requires
            old(self).wf(),
        ensures
            final(self).wf(),
            final(self).spec_queues() == old(self).spec_queues(),
            final(self).spec_threads() == old(self).spec_threads(),
            final(self).spec_capacity() == old(self).spec_capacity(),
            final(self).spec_drain_asked() == old(self).spec_drain_asked(),
            final(self).spec_draining() == old(self).spec_draining(),
            sender is Some <==> thread < old(self).spec_threads() && old(self).spec_untaken()[thread as int],
            sender matches Some(s) ==> s.spec_thread() == thread,
            sender is Some ==> final(self).spec_untaken() == old(self).spec_untaken().update(thread as int, false),
            sender is None ==> final(self).spec_untaken() == old(self).spec_untaken(),
    {
        if thread >= self.untaken.len() || !self.untaken[thread] {
            return None;
        }
        self.untaken.set(thread, false);
        Some(MidiSender { thread })
    }

    /// Pushes `message` onto the queue of `thread`.
    fn queue_message(&mut self, thread: usize, message: MidiMessage) -> (result: Result<(), Error>)
        requires
            old(self).wf(),
            thread < old(self).spec_threads(),
        ensures
            final(self).wf(),
            final(self).spec_threads() == old(self).spec_threads(),
            final(self).spec_capacity() == old(self).spec_capacity(),
            final(self).spec_untaken() == old(self).spec_untaken(),
            final(self).spec_drain_asked() == old(self).spec_drain_asked(),
            final(self).spec_draining() == old(self).spec_draining(),
            ({
                let t = thread as int;
                let queued = old(self).spec_queues()[t];
                if queued.len() < old(self).spec_capacity() {
                    &&& result == Ok::<(), Error>(())
                    &&& final(self).spec_queues().len() == old(self).spec_queues().len()
                    &&& forall|k: int|
                        0 <= k < final(self).spec_queues().len() ==> #[trigger] final(self).spec_queues()[k] == if k == t {
                            old(self).spec_queues()[k].push(final(self).spec_queues()[k].last())
                        } else {
                            old(self).spec_queues()[k]
                        }
                    &&& spec_slot_message(final(self).spec_queues()[t].last()) == spec_wire(message)
                } else {
                    &&& result == Err::<(), Error>(Error::MidiQueueFull)
                    &&& final(self).spec_queues() == old(self).spec_queues()
                }
            }),
    {
        let (bytes, len) = message.to_bytes();
        let slot = Slot::pack(bytes, len);
        let ghost before = self.queues@;
        let mut queue = self.queues.remove(thread);
        assert(queue == before[thread as int]);
        proof {
            queue.lemma_within_capacity();
        }
        let result = queue.push(slot);
        self.queues.insert(thread, queue);
        proof {
            let t = thread as int;
            assert(self.queues@ =~= before.update(t, queue));
            assert(self.queues@[0].spec_capacity() == before[0].spec_capacity());
            assert(bytes@.take(len as int) =~= bytes@.subrange(0, len as int));
            assert forall|k: int| 0 <= k < self.queues@.len() implies #[trigger] self.spec_queues()[k]
                == if k == t {
                if result is Ok {
                    old(self).spec_queues()[k].push(slot@)
                } else {
                    old(self).spec_queues()[k]
                }
            } else {
                old(self).spec_queues()[k]
            } by {
                if k != t {
                    assert(self.queues@[k] == before[k]);
                }
            }
            if result is Err {
                assert(self.spec_queues() =~= old(self).spec_queues());
            }
        }
        result
    }

    /// Takes every queued message, the first thread's first and each
    /// thread's oldest first, followed by `tail`: what one write to Bela's
    /// output carries. Every queue is left empty.
    pub fn drain(&mut self, tail: &[u8]) -> (bytes: Vec<u8>)
        requires
            old(self).wf(),
        ensures
            final(self).wf(),
            final(self).spec_threads() == old(self).spec_threads(),
            final(self).spec_capacity() == old(self).spec_capacity(),
            final(self).spec_untaken() == old(self).spec_untaken(),
            !final(self).spec_drain_asked(),
            final(self).spec_draining() == old(self).spec_draining(),
            final(self).spec_queues().len() == final(self).spec_threads(),
            forall|k: int| 0 <= k < final(self).spec_threads() ==> #[trigger] final(self).spec_queues()[k]
                == Seq::<u32>::empty(),
            bytes@ == spec_all_messages(old(self).spec_queues()) + tail@,
    {
        let ghost queued = self.spec_queues();
        let ghost at_start = self.queues@;
        let n = self.queues.len();
        let mut out: Vec<u8> = Vec::new();
        let mut emptied: Vec<Queue> = Vec::new();
        let mut k: usize = 0;
        while k < n
            invariant
                n == at_start.len(),
                n >= 1,
                k <= n,
                queued == Seq::new(at_start.len(), |j: int| at_start[j]@),
                forall|j: int| 0 <= j < n ==> (#[trigger] at_start[j]).wf(),
                forall|j: int|
                    0 <= j < n ==> (#[trigger] at_start[j]).spec_capacity()
                        == at_start[0].spec_capacity(),
                self.queues@ == at_start.skip(k as int),
                self.untaken@ == old(self).untaken@,
                self.draining == old(self).draining,
                emptied@.len() == k,
                forall|j: int| 0 <= j < k ==> (#[trigger] emptied@[j]).wf(),
                forall|j: int| 0 <= j < k ==> (#[trigger] emptied@[j])@ == Seq::<u32>::empty(),
                forall|j: int|
                    0 <= j < k ==> (#[trigger] emptied@[j]).spec_capacity() == at_start[j].spec_capacity(),
                out@ == spec_all_messages(queued.take(k as int)),
            decreases n - k,
        {
            assert(self.queues@[0] == at_start[k as int]);
            let mut queue = self.queues.remove(0);
            assert(self.queues@ =~= at_start.skip(k + 1));
            let ghost waiting = queue@;
            let ghost start = out@;
            while !queue.is_empty()
                invariant
                    queue.wf(),
                    queue.spec_capacity() == at_start[k as int].spec_capacity(),
                    waiting == at_start[k as int]@,
                    spec_messages(waiting) == spec_messages(
                        waiting.take(waiting.len() - queue@.len()),
                    ) + spec_messages(queue@),
                    queue@ == waiting.skip(waiting.len() - queue@.len()),
                    queue@.len() <= waiting.len(),
                    out@ == start + spec_messages(waiting.take(waiting.len() - queue@.len())),
                decreases queue@.len(),
            {
                let ghost rest = queue@;
                let popped = queue.pop();
                if let Some(slot) = popped {
                let (bytes, len) = slot.unpack();
                let ghost before_out = out@;
                let mut i: usize = 0;
                while i < len
                    invariant
                        i <= len,
                        len <= 3,
                        bytes@.len() == 3,
                        out@ == before_out + bytes@.take(i as int),
                    decreases len - i,
                {
                    out.push(bytes[i]);
                    i = i + 1;
                    assert(out@ =~= before_out + bytes@.take(i as int));
                }
                proof {
                    let taken = waiting.len() - rest.len();
                    lemma_messages_front(rest);
                    assert(waiting.take(taken + 1).drop_last() =~= waiting.take(taken));
                    assert(waiting.take(taken + 1).last() == rest[0]);
                    assert(rest.drop_first() =~= waiting.skip(taken + 1));
                    assert(spec_slot_message(slot@) == bytes@.take(len as int));
                    assert(out@ =~= start + spec_messages(waiting.take(taken + 1)));
                    assert(spec_messages(waiting.take(taken)) + spec_messages(rest) =~= spec_messages(
                        waiting.take(taken + 1),
                    ) + spec_messages(queue@));
                }
                }
            }
            proof {
                assert(waiting.take(waiting.len() as int) =~= waiting);
                assert(queued.take(k + 1).drop_last() =~= queued.take(k as int));
                assert(queued.take(k + 1).last() == waiting);
            }
            emptied.push(queue);
            k = k + 1;
        }
        self.queues = emptied;
        self.asked = false;
        proof {
            assert(queued.take(n as int) =~= queued);
        }
        let ghost before_tail = out@;
        let mut i: usize = 0;
        while i < tail.len()
            invariant
                i <= tail@.len(),
                out@ == before_tail + tail@.take(i as int),
            decreases tail@.len() - i,
        {
            out.push(tail[i]);
            i = i + 1;
            assert(out@ =~= before_tail + tail@.take(i as int));
        }
        assert(tail@.take(tail@.len() as int) =~= tail@);
        out
    }

    /// Empties the queues and sends `message` behind what was in them:
    /// the bytes of one write to Bela's output. Only the thread that
    /// opened the port can write to it, which `on_opening_thread` says
    /// whether the caller is.
    ///
    /// # Errors
    /// Returns [`Error::MidiThread`] from any other thread, with nothing
    /// taken from the queues: a write from there would report success,
    /// deliver nothing, and misalign the output stream.
    pub fn send(&mut self, on_opening_thread: bool, message: MidiMessage) -> (result: Result<Vec<u8>, Error>)
        requires
            old(self).wf(),
        ensures
            final(self).wf(),
            final(self).spec_threads() == old(self).spec_threads(),
            final(self).spec_capacity() == old(self).spec_capacity(),
            final(self).spec_untaken() == old(self).spec_untaken(),
            final(self).spec_draining() == old(self).spec_draining(),
            !on_opening_thread ==> result == Err::<Vec<u8>, Error>(Error::MidiThread)
                && final(self).spec_queues() == old(self).spec_queues()
                && final(self).spec_drain_asked() == old(self).spec_drain_asked(),
            on_opening_thread ==> (result matches Ok(bytes) && bytes@ == spec_all_messages(
                old(self).spec_queues(),
            ) + spec_wire(message)),
            on_opening_thread ==> !final(self).spec_drain_asked() && forall|k: int|
                0 <= k < final(self).spec_threads() ==> #[trigger] final(self).spec_queues()[k]
                    == Seq::<u32>::empty(),
    {
        if !on_opening_thread {
            return Err(Error::MidiThread);
        }
        let (wire, len) = message.to_bytes();
        let mut tail: Vec<u8> = Vec::new();
        let mut i: usize = 0;
        while i < len
            invariant
                i <= len,
                len <= 3,
                wire@.len() == 3,
                tail@ == wire@.subrange(0, i as int),
            decreases len - i,
        {
            tail.push(wire[i]);
            i = i + 1;
            assert(tail@ =~= wire@.subrange(0, i as int));
        }
        let bytes = self.drain(tail.as_slice());
        Ok(bytes)
    }

    /// Sends everything queued, now, as one write to Bela's output, from
    /// the thread that opened the port (`on_opening_thread`).
    ///
    /// # Errors
    /// Returns [`Error::MidiThread`] from any other thread, on the same
    /// terms as [`send`](Outbox::send).
    pub fn flush(&mut self, on_opening_thread: bool) -> (result: Result<Vec<u8>, Error>)
        requires
            old(self).wf(),
        ensures
            final(self).wf(),
            final(self).spec_threads() == old(self).spec_threads(),
            final(self).spec_capacity() == old(self).spec_capacity(),
            final(self).spec_untaken() == old(self).spec_untaken(),
            final(self).spec_draining() == old(self).spec_draining(),
            !on_opening_thread ==> result == Err::<Vec<u8>, Error>(Error::MidiThread)
                && final(self).spec_queues() == old(self).spec_queues()
                && final(self).spec_drain_asked() == old(self).spec_drain_asked(),
            on_opening_thread ==> (result matches Ok(bytes) && bytes@ == spec_all_messages(
                old(self).spec_queues(),
            )),
            on_opening_thread ==> !final(self).spec_drain_asked() && forall|k: int|
                0 <= k < final(self).spec_threads() ==> #[trigger] final(self).spec_queues()[k]
                    == Seq::<u32>::empty(),
    {
        if !on_opening_thread {
            return Err(Error::MidiThread);
        }
        let nothing: Vec<u8> = Vec::new();
        let bytes = self.drain(nothing.as_slice());
        proof {
            assert(spec_all_messages(old(self).spec_queues()) + nothing@ =~= spec_all_messages(
                old(self).spec_queues(),
            ));
        }
        Ok(bytes)
    }

    /// Whether a sender has asked for a drain since the last one.
    pub fn drain_asked(&self) -> (asked: bool)
        ensures
            asked == self.spec_drain_asked(),
    {
        self.asked
    }

    /// Takes the drain, or reports that the other drain has it.
    pub fn try_take(&mut self) -> (took: bool)
        requires
            old(self).wf(),
        ensures
            final(self).wf(),
            took == !old(self).spec_draining(),
            final(self).spec_draining(),
            final(self).spec_queues() == old(self).spec_queues(),
            final(self).spec_threads() == old(self).spec_threads(),
            final(self).spec_capacity() == old(self).spec_capacity(),
            final(self).spec_untaken() == old(self).spec_untaken(),
            final(self).spec_drain_asked() == old(self).spec_drain_asked(),
    {
        let took = !self.draining;
        self.draining = true;
        took
    }

    /// Gives the drain back.
    pub fn release(&mut self)
        requires
            old(self).wf(),
        ensures
            final(self).wf(),
            !final(self).spec_draining(),
            final(self).spec_queues() == old(self).spec_queues(),
            final(self).spec_threads() == old(self).spec_threads(),
            final(self).spec_capacity() == old(self).spec_capacity(),
            final(self).spec_untaken() == old(self).spec_untaken(),
            final(self).spec_drain_asked() == old(self).spec_drain_asked(),
    {
        self.draining = false;
    }

    /// Whether every queue is empty.
    pub fn is_empty(&self) -> (empty: bool)
        requires
            self.wf(),
        ensures
            empty == forall|k: int| 0 <= k < self.spec_threads() ==> #[trigger] self.spec_queues()[k]
                == Seq::<u32>::empty(),
    {
        let mut k: usize = 0;
        while k < self.queues.len()
            invariant
                self.wf(),
                k <= self.queues@.len(),
                forall|j: int| 0 <= j < k ==> #[trigger] self.spec_queues()[j] == Seq::<u32>::empty(),
            decreases self.queues@.len() - k,
        {
            if !self.queues[k].is_empty() {
                assert(self.spec_queues()[k as int] != Seq::<u32>::empty());
                return false;
            }
            k = k + 1;
        }
        true
    }

    /// What the drain task does when it runs: if the other drain holds
    /// the queues it leaves the messages where they are, to be taken by
    /// that drain, and hands nothing out; otherwise it takes the drain,
    /// takes every queue's messages in thread order as one write, and
    /// gives the drain back.
    pub fn drain_task(&mut self) -> (bytes: Vec<u8>)
        requires
            old(self).wf(),
        ensures
            final(self).wf(),
            final(self).spec_threads() == old(self).spec_threads(),
            final(self).spec_capacity() == old(self).spec_capacity(),
            final(self).spec_untaken() == old(self).spec_untaken(),
            final(self).spec_draining() == old(self).spec_draining(),
            old(self).spec_draining() ==> bytes@ == Seq::<u8>::empty() && final(self).spec_queues()
                == old(self).spec_queues() && final(self).spec_drain_asked() == old(
                self,
            ).spec_drain_asked(),
            !old(self).spec_draining() ==> bytes@ == spec_all_messages(old(self).spec_queues())
                && !final(self).spec_drain_asked() && forall|k: int|
                0 <= k < final(self).spec_threads() ==> #[trigger] final(self).spec_queues()[k]
                    == Seq::<u32>::empty(),
    {
        if !self.try_take() {
            return Vec::new();
        }
        let nothing: Vec<u8> = Vec::new();
        let bytes = self.drain(nothing.as_slice());
        self.release();
        proof {
            assert(spec_all_messages(old(self).spec_queues()) + nothing@ =~= spec_all_messages(
                old(self).spec_queues(),
            ));
        }
        bytes
    }
}

proof fn lemma_messages_len(slots: Seq<u32>)
    ensures
        spec_messages(slots).len() <= 3 * slots.len(),
    decreases slots.len(),
{
    if slots.len() > 0 {
        lemma_messages_len(slots.drop_last());
    }
}

/// One drain never takes more than the budget the output was opened
/// for: at most a queue's worth of messages from each render thread, of
/// at most three bytes each.
pub proof fn lemma_a_drain_stays_within_its_budget(queues: Seq<Seq<u32>>, capacity: int)
    requires
        forall|k: int| 0 <= k < queues.len() ==> #[trigger] queues[k].len() <= capacity,
    ensures
        spec_all_messages(queues).len() <= 3 * capacity * queues.len(),
    decreases queues.len(),
{
    if queues.len() > 0 {
        let rest = queues.drop_last();
        assert forall|k: int| 0 <= k < rest.len() implies #[trigger] rest[k].len() <= capacity by {
            assert(rest[k] == queues[k]);
        }
        lemma_a_drain_stays_within_its_budget(rest, capacity);
        lemma_messages_len(queues.last());
        assert(queues.last().len() <= capacity);
        assert(3 * capacity * rest.len() + 3 * capacity == 3 * capacity * queues.len()) by (nonlinear_arith)
            requires
                rest.len() + 1 == queues.len(),
        ;
    }
}

} // verus!
