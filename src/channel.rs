use std::collections::VecDeque;
use vstd::prelude::*;

verus! {

/// Why a non-blocking send did not enqueue its message; the message is handed back.
pub enum TrySendError<M> {
    /// The mailbox holds as many messages as its capacity.
    Full(M),
    /// The receiving side has shut down.
    Closed(M),
}

/// Why a non-blocking receive gave no message.
#[derive(PartialEq, Eq, Structural, Debug, Clone, Copy)]
pub enum TryRecvError {
    /// Nothing is queued, and a sender may still send.
    Empty,
    /// Nothing is queued, and every sender is gone.
    Disconnected,
}

/// One step taken on a mailbox: a non-blocking send of a message, or a non-blocking receive.
pub enum MailOp<M> {
    Send(M),
    Recv,
}

/// The abstract state of a mailbox.
pub struct MailboxModel<M> {
    /// The queued messages, oldest first.
    pub queue: Seq<M>,
    /// The most messages the mailbox holds at once.
    pub capacity: nat,
    /// How many sender handles are alive.
    pub senders: nat,
    /// Whether the receiving side still takes messages.
    pub receiving: bool,
}

impl<M> MailboxModel<M> {
    pub open spec fn wf(&self) -> bool {
        self.capacity >= 1 && self.queue.len() <= self.capacity
    }

    /// Whether a send enqueues its message now.
    pub open spec fn accepts(&self) -> bool {
        self.receiving && self.queue.len() < self.capacity
    }

    pub open spec fn after_send(self, m: M) -> Self {
        if self.accepts() {
            MailboxModel { queue: self.queue.push(m), ..self }
        } else {
            self
        }
    }

    pub open spec fn after_recv(self) -> Self {
        if self.queue.len() > 0 {
            MailboxModel { queue: self.queue.drop_first(), ..self }
        } else {
            self
        }
    }

    pub open spec fn after_op(self, op: MailOp<M>) -> Self {
        match op {
            MailOp::Send(m) => self.after_send(m),
            MailOp::Recv => self.after_recv(),
        }
    }

    /// The mailbox after each step of `ops` in order.
    pub open spec fn run(self, ops: Seq<MailOp<M>>) -> Self
        decreases ops.len(),
    {
        if ops.len() == 0 {
            self
        } else {
            self.run(ops.drop_last()).after_op(ops.last())
        }
    }

    /// The messages that the sends of `ops` enqueued, in the order they were sent.
    pub open spec fn accepted(self, ops: Seq<MailOp<M>>) -> Seq<M>
        decreases ops.len(),
    {
        if ops.len() == 0 {
            Seq::empty()
        } else {
            let before = self.run(ops.drop_last());
            let prev = self.accepted(ops.drop_last());
            match ops.last() {
                MailOp::Send(m) => if before.accepts() {
                    prev.push(m)
                } else {
                    prev
                },
                MailOp::Recv => prev,
            }
        }
    }

    /// The messages that the receives of `ops` took out, in the order they were taken.
    pub open spec fn delivered(self, ops: Seq<MailOp<M>>) -> Seq<M>
        decreases ops.len(),
    {
        if ops.len() == 0 {
            Seq::empty()
        } else {
            let before = self.run(ops.drop_last());
            let prev = self.delivered(ops.drop_last());
            match ops.last() {
                MailOp::Send(_) => prev,
                MailOp::Recv => if before.queue.len() > 0 {
                    prev.push(before.queue[0])
                } else {
                    prev
                },
            }
        }
    }
}

/// A bounded, ordered, single-consumer mailbox of messages for one page.
pub struct Mailbox<M> {
    queue: VecDeque<M>,
    capacity: usize,
    senders: usize,
    receiving: bool,
}

impl<M> View for Mailbox<M> {
    type V = MailboxModel<M>;

    closed spec fn view(&self) -> MailboxModel<M> {
        MailboxModel {
            queue: self.queue@,
            capacity: self.capacity as nat,
            senders: self.senders as nat,
            receiving: self.receiving,
        }
    }
}

impl<M> Mailbox<M> {
    /// An empty mailbox holding up to `capacity` messages, with one sender and an open receiver.
    pub fn new(capacity: usize) -> (r: Self)
        requires
            capacity >= 1,
        ensures
            r@.wf(),
            r@.queue.len() == 0,
            r@.capacity == capacity,
            r@.senders == 1,
            r@.receiving,
    {
        Mailbox { queue: VecDeque::new(), capacity, senders: 1, receiving: true }
    }

    /// Enqueues `m` without waiting. Fails, handing `m` back, when the receiver has shut down
    /// or the mailbox is full; nothing is dropped or reordered.
    pub fn try_send(&mut self, m: M) -> (r: Result<(), TrySendError<M>>)
        requires
            old(self)@.wf(),
        ensures
            final(self)@.wf(),
            final(self)@ == old(self)@.after_send(m),
            r matches Ok(()) <==> old(self)@.accepts(),
            r matches Err(TrySendError::Closed(x)) ==> x == m,
            r matches Err(TrySendError::Full(x)) ==> x == m,
            r matches Err(TrySendError::Closed(_)) <==> !old(self)@.receiving,
            r matches Err(TrySendError::Full(_)) <==> old(self)@.receiving && old(self)@.queue.len()
                == old(self)@.capacity,
    {
        if !self.receiving {
            Err(TrySendError::Closed(m))
        } else if self.queue.len() >= self.capacity {
            Err(TrySendError::Full(m))
        } else {
            self.queue.push_back(m);
            Ok(())
        }
    }

    /// Takes the oldest queued message without waiting.
    pub fn try_recv(&mut self) -> (r: Result<M, TryRecvError>)
        requires
            old(self)@.wf(),
        ensures
            final(self)@.wf(),
            final(self)@ == old(self)@.after_recv(),
            r == (if old(self)@.queue.len() > 0 {
                Ok(old(self)@.queue[0])
            } else if old(self)@.senders == 0 {
                Err(TryRecvError::Disconnected)
            } else {
                Err(TryRecvError::Empty)
            }),
    {
        match self.queue.pop_front() {
            Some(m) => Ok(m),
            None => if self.senders == 0 {
                Err(TryRecvError::Disconnected)
            } else {
                Err(TryRecvError::Empty)
            },
        }
    }

    /// Records one more sender handle.
    pub fn add_sender(&mut self)
        requires
            old(self)@.wf(),
            old(self)@.senders < usize::MAX,
        ensures
            final(self)@ == (MailboxModel { senders: old(self)@.senders + 1, ..old(self)@ }),
    {
        self.senders = self.senders + 1;
    }

    /// Records that a sender handle is gone.
    pub fn drop_sender(&mut self)
        requires
            old(self)@.senders > 0,
        ensures
            final(self)@ == (MailboxModel { senders: (old(self)@.senders - 1) as nat, ..old(self)@ }),
    {
        self.senders = self.senders - 1;
    }

    /// Shuts the receiving side: later sends fail; queued messages can still be taken.
    pub fn close(&mut self)
        ensures
            final(self)@ == (MailboxModel { receiving: false, ..old(self)@ }),
    {
        self.receiving = false;
    }

    /// Whether every sender handle is gone.
    pub fn is_disconnected(&self) -> (r: bool)
        ensures
            r == (self@.senders == 0),
    {
        self.senders == 0
    }

    /// How many messages are queued.
    pub fn len(&self) -> (r: usize)
        ensures
            r == self@.queue.len(),
    {
        self.queue.len()
    }
}

/// Messages come out of a mailbox in the order in which they were accepted, none lost and none
/// repeated, whatever the interleaving of sends and receives (concurrent producers take turns
/// on the mailbox, which makes one such sequence): what was queued followed by what was
/// accepted equals what was delivered followed by what is still queued.
pub proof fn lemma_delivery_order<M>(m: MailboxModel<M>, ops: Seq<MailOp<M>>)
    ensures
        m.queue + m.accepted(ops) == m.delivered(ops) + m.run(ops).queue,
    decreases ops.len(),
{
    if ops.len() == 0 {
        assert(m.queue + Seq::<M>::empty() =~= m.queue);
        assert(Seq::<M>::empty() + m.queue =~= m.queue);
    } else {
        let init = ops.drop_last();
        lemma_delivery_order(m, init);
        let before = m.run(init);
        let acc = m.accepted(init);
        let del = m.delivered(init);
        match ops.last() {
            MailOp::Send(x) => {
                if before.accepts() {
                    assert(m.queue + acc.push(x) =~= (m.queue + acc).push(x));
                    assert(del + before.queue.push(x) =~= (del + before.queue).push(x));
                }
            },
            MailOp::Recv => {
                if before.queue.len() > 0 {
                    assert(del.push(before.queue[0]) + before.queue.drop_first() =~= del
                        + before.queue);
                }
            },
        }
    }
}

/// Sends alone, with no receive between them, enqueue messages until the mailbox is full and
/// no further: of `ops`, all sends, exactly as many are accepted as there was room for while
/// the receiver was open, and the rest fail.
pub proof fn lemma_sends_fill_to_capacity<M>(m: MailboxModel<M>, ops: Seq<MailOp<M>>)
    requires
        m.wf(),
        m.receiving,
        forall|i: int| 0 <= i < ops.len() ==> (#[trigger] ops[i]) is Send,
    ensures
        m.accepted(ops).len() == (if ops.len() <= m.capacity - m.queue.len() {
            ops.len() as int
        } else {
            m.capacity - m.queue.len()
        }),
        m.run(ops).queue.len() == m.queue.len() + m.accepted(ops).len(),
        m.run(ops).receiving,
        m.run(ops).capacity == m.capacity,
        ops.len() > m.capacity - m.queue.len() ==> !m.run(ops.drop_last()).accepts(),
    decreases ops.len(),
{
    if ops.len() > 0 {
        let init = ops.drop_last();
        assert forall|i: int| 0 <= i < init.len() implies (#[trigger] init[i]) is Send by {
            assert(init[i] == ops[i]);
        }
        lemma_sends_fill_to_capacity(m, init);
        assert(ops[ops.len() - 1] is Send);
    }
}

} // verus!
