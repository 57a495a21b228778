//! A ground station that queues messages for satellites, and satellites that
//! collect the messages addressed to them.

use vstd::multiset::Multiset;
use vstd::prelude::*;

verus! {

broadcast use vstd::seq_lib::group_seq_properties;

/// A satellite's health report.
#[derive(Debug, PartialEq, Eq, Structural, Clone, Copy)]
pub enum StatusMessage {
    Okay,
}

/// A message for satellite `to`; `id` is its sequence number at the sender.
#[derive(Debug, Clone)]
pub struct Message {
    pub to: u64,
    pub message: String,
    pub id: u64,
}

/// Messages waiting for delivery, and how many were ever posted.
#[derive(Debug)]
pub struct MailBox {
    pub messages: Vec<Message>,
    pub sent_count: u64,
}

/// A satellite with its own mailbox of received messages.
#[derive(Debug)]
pub struct CubeSat {
    pub id: u64,
    pub mailbox: MailBox,
    pub status: StatusMessage,
}

/// A ground station: an outgoing mailbox and the satellites it reaches.
pub struct GroundStation {
    pub mailbox: MailBox,
    pub live_satellites: Vec<CubeSat>,
}

/// Whether a message is addressed to satellite `id`.
pub open spec fn addressed_to(id: u64) -> spec_fn(Message) -> bool {
    |m: Message| m.to == id
}

/// Whether a message is addressed to some satellite other than `id`.
pub open spec fn not_addressed_to(id: u64) -> spec_fn(Message) -> bool {
    |m: Message| m.to != id
}

impl Message {
    /// A message for `to` carrying `message`, numbered `id`.
    pub fn new(to: u64, message: String, id: u64) -> (m: Self)
        ensures
            m == (Message { to, message, id }),
    {
        Message { to, message, id }
    }

    /// A copy of the message.
    pub fn duplicate(&self) -> (m: Self)
        ensures
            m == *self,
    {
        Message { to: self.to, message: self.message.clone(), id: self.id }
    }
}

impl MailBox {
    /// An empty mailbox that has sent nothing.
    pub fn new() -> (b: Self)
        ensures
            b.messages@ == Seq::<Message>::empty(),
            b.sent_count == 0,
    {
        MailBox { messages: Vec::new(), sent_count: 0 }
    }

    /// Queues `msg` for satellite `to`, numbered with the current count,
    /// and counts it.
    pub fn post(&mut self, to: u64, msg: String)
        requires
            old(self).sent_count < u64::MAX,
        ensures
            final(self).messages@ == old(self).messages@.push(
                Message { to, message: msg, id: old(self).sent_count },
            ),
            final(self).sent_count == old(self).sent_count + 1,
    {
        let message = Message::new(to, msg, self.sent_count);
        self.messages.push(message);
        self.sent_count += 1;
    }

    /// Hands out, in order, the messages addressed to `cubesat_id` and keeps
    /// the others, in order.
    pub fn deliver(&mut self, cubesat_id: u64) -> (response: Vec<Message>)
        ensures
            response@ == old(self).messages@.filter(addressed_to(cubesat_id)),
            final(self).messages@ == old(self).messages@.filter(not_addressed_to(cubesat_id)),
            final(self).sent_count == old(self).sent_count,
    {
        let mut response: Vec<Message> = Vec::new();
        let mut held_messages: Vec<Message> = Vec::new();
        let n = self.messages.len();
        let mut i: usize = 0;
        while i < n
            invariant
                n == self.messages@.len(),
                i <= n,
                response@ == self.messages@.take(i as int).filter(addressed_to(cubesat_id)),
                held_messages@ == self.messages@.take(i as int).filter(
                    not_addressed_to(cubesat_id),
                ),
            decreases n - i,
        {
            let message = self.messages[i].duplicate();
            proof {
                let next = self.messages@.take(i + 1);
                assert(next.drop_last() =~= self.messages@.take(i as int));
                assert(next.last() == message);
                reveal_with_fuel(Seq::<_>::filter, 1);
            }
            if message.to == cubesat_id {
                response.push(message);
            } else {
                held_messages.push(message);
            }
            i += 1;
        }
        assert(self.messages@.take(n as int) =~= self.messages@);
        self.messages = held_messages;
        response
    }

    /// Moves all of `messages` to the end of the mailbox, leaving it empty.
    pub fn store_bulk(&mut self, messages: &mut Vec<Message>)
        ensures
            final(self).messages@ == old(self).messages@ + old(messages)@,
            final(self).sent_count == old(self).sent_count,
            final(messages)@ == Seq::<Message>::empty(),
    {
        self.messages.append(messages);
    }

    /// The number of queued messages.
    pub fn len(&self) -> (n: usize)
        ensures
            n == self.messages@.len(),
    {
        self.messages.len()
    }
}

/// Delivering to a satellite loses no message and invents none: the handed
/// out and the kept messages together are exactly the messages that were
/// queued, the handed-out ones are all addressed to the satellite and the
/// kept ones are not.
pub proof fn lemma_deliver_partitions(messages: Seq<Message>, id: u64)
    ensures
        messages.filter(addressed_to(id)).to_multiset().add(
            messages.filter(not_addressed_to(id)).to_multiset(),
        ) == messages.to_multiset(),
        forall|i: int|
            0 <= i < messages.filter(addressed_to(id)).len() ==> (#[trigger] messages.filter(
                addressed_to(id),
            )[i]).to == id,
        forall|i: int|
            0 <= i < messages.filter(not_addressed_to(id)).len() ==> (#[trigger] messages.filter(
                not_addressed_to(id),
            )[i]).to != id,
    decreases messages.len(),
{
    reveal_with_fuel(Seq::<_>::filter, 1);
    if messages.len() > 0 {
        lemma_deliver_partitions(messages.drop_last(), id);
        let last = messages.last();
        assert(messages =~= messages.drop_last().push(last));
        vstd::seq_lib::lemma_seq_union_to_multiset_commutative(
            messages.drop_last(),
            seq![last],
        );
        assert(messages.drop_last().push(last).to_multiset() =~= messages.drop_last().to_multiset().insert(last));
    } else {
        assert(messages.filter(addressed_to(id)).to_multiset() =~= Multiset::empty());
        assert(messages.filter(not_addressed_to(id)).to_multiset() =~= Multiset::empty());
        assert(messages.to_multiset() =~= Multiset::empty());
    }
}

/// A posted message reaches its addressee: delivering to satellite `m.to`
/// after `m` was queued hands out what it handed out before, then `m`;
/// every other satellite gets what it got before.
pub proof fn lemma_posted_message_is_delivered(messages: Seq<Message>, m: Message, other: u64)
    requires
        other != m.to,
    ensures
        messages.push(m).filter(addressed_to(m.to)) == messages.filter(addressed_to(m.to)).push(m),
        messages.push(m).filter(addressed_to(other)) == messages.filter(addressed_to(other)),
{
    reveal_with_fuel(Seq::<_>::filter, 1);
    assert(messages.push(m).drop_last() =~= messages);
}

/// The ids of the queued messages rise strictly in queue order, and all lie
/// below the number of messages ever posted.
pub open spec fn ids_fresh(messages: Seq<Message>, sent_count: u64) -> bool {
    &&& forall|i: int, j: int|
        0 <= i < j < messages.len() ==> (#[trigger] messages[i]).id < (#[trigger] messages[j]).id
    &&& forall|i: int| 0 <= i < messages.len() ==> (#[trigger] messages[i]).id < sent_count
}

/// An empty mailbox that has posted nothing hands out fresh ids.
pub proof fn lemma_new_mailbox_ids_fresh()
    ensures
        ids_fresh(Seq::<Message>::empty(), 0),
{
}

/// Posting keeps the ids fresh: the new message gets an id above every
/// queued one, and no id is ever handed out twice.
pub proof fn lemma_post_keeps_ids_fresh(messages: Seq<Message>, sent_count: u64, m: Message)
    requires
        ids_fresh(messages, sent_count),
        sent_count < u64::MAX,
        m.id == sent_count,
    ensures
        ids_fresh(messages.push(m), (sent_count + 1) as u64),
{
    assert forall|i: int, j: int| 0 <= i < j < messages.push(m).len() implies (
    #[trigger] messages.push(m)[i]).id < (#[trigger] messages.push(m)[j]).id by {
        if j < messages.len() {
            assert(messages.push(m)[i] == messages[i] && messages.push(m)[j] == messages[j]);
        } else {
            assert(messages.push(m)[i] == messages[i]);
        }
    }
}

/// Delivering keeps the ids fresh, in what is handed out and in what is kept
/// alike: both are the queue with some messages left out, in order.
pub proof fn lemma_deliver_keeps_ids_fresh(messages: Seq<Message>, sent_count: u64, pred: spec_fn(
    Message,
) -> bool)
    requires
        ids_fresh(messages, sent_count),
    ensures
        ids_fresh(messages.filter(pred), sent_count),
    decreases messages.len(),
{
    reveal_with_fuel(Seq::<_>::filter, 1);
    if messages.len() > 0 {
        let rest = messages.drop_last();
        let last = messages.last();
        assert(ids_fresh(rest, sent_count));
        lemma_deliver_keeps_ids_fresh(rest, sent_count, pred);
        if pred(last) {
            let f = rest.filter(pred);
            assert forall|k: int| 0 <= k < f.len() implies (#[trigger] f[k]).id < last.id by {
                assert(f.contains(f[k]));
                rest.lemma_filter_contains_rev(pred, f[k]);
                let w = choose|w: int| 0 <= w < rest.len() && rest[w] == f[k];
                assert(messages[w] == rest[w]);
                assert(messages[messages.len() - 1] == last);
            }
            assert forall|i: int, j: int| 0 <= i < j < f.push(last).len() implies (
            #[trigger] f.push(last)[i]).id < (#[trigger] f.push(last)[j]).id by {
                if j < f.len() {
                    assert(f.push(last)[i] == f[i] && f.push(last)[j] == f[j]);
                } else {
                    assert(f.push(last)[i] == f[i]);
                }
            }
            assert forall|i: int| 0 <= i < f.push(last).len() implies (
            #[trigger] f.push(last)[i]).id < sent_count by {
                if i < f.len() {
                    assert(f.push(last)[i] == f[i]);
                } else {
                    assert(messages[messages.len() - 1] == last);
                }
            }
        }
    }
}

impl CubeSat {
    /// A satellite with an empty mailbox that reports `Okay`.
    pub fn new(id: u64) -> (s: Self)
        ensures
            s.id == id,
            s.mailbox.messages@ == Seq::<Message>::empty(),
            s.mailbox.sent_count == 0,
            s.status == StatusMessage::Okay,
    {
        CubeSat { id, mailbox: MailBox::new(), status: StatusMessage::Okay }
    }

    /// Refreshes the status and reports it.
    pub fn check_status(&mut self) -> (status: StatusMessage)
        ensures
            status == StatusMessage::Okay,
            final(self).status == StatusMessage::Okay,
            final(self).id == old(self).id,
            final(self).mailbox == old(self).mailbox,
    {
        self.set_status();
        self.status
    }

    /// Sets the status to `Okay`.
    pub fn set_status(&mut self)
        ensures
            final(self).status == StatusMessage::Okay,
            final(self).id == old(self).id,
            final(self).mailbox == old(self).mailbox,
    {
        self.status = StatusMessage::Okay
    }

    /// Replaces the satellite's messages with those `mailbox` holds for it,
    /// which leave `mailbox`.
    pub fn recv(&mut self, mailbox: &mut MailBox)
        ensures
            final(self).mailbox.messages@ == old(mailbox).messages@.filter(
                addressed_to(old(self).id),
            ),
            final(mailbox).messages@ == old(mailbox).messages@.filter(
                not_addressed_to(old(self).id),
            ),
            final(mailbox).sent_count == old(mailbox).sent_count,
            final(self).mailbox.sent_count == old(self).mailbox.sent_count,
            final(self).id == old(self).id,
            final(self).status == old(self).status,
    {
        self.mailbox.messages = mailbox.deliver(self.id);
    }

    /// Empties the satellite's mailbox, handing the messages out last
    /// first, in the order in which they are printed.
    pub fn take_messages(&mut self) -> (taken: Vec<Message>)
        ensures
            taken@ == old(self).mailbox.messages@.reverse(),
            final(self).mailbox.messages@ == Seq::<Message>::empty(),
            final(self).mailbox.sent_count == old(self).mailbox.sent_count,
            final(self).id == old(self).id,
            final(self).status == old(self).status,
    {
        let mut taken: Vec<Message> = Vec::new();
        let ghost orig = self.mailbox.messages@;
        while self.mailbox.messages.len() > 0
            invariant
                orig.len() == self.mailbox.messages@.len() + taken@.len(),
                self.mailbox.messages@ == orig.take(self.mailbox.messages@.len() as int),
                taken@ == orig.skip(self.mailbox.messages@.len() as int).reverse(),
                self.mailbox.sent_count == old(self).mailbox.sent_count,
                self.id == old(self).id,
                self.status == old(self).status,
                orig == old(self).mailbox.messages@,
            decreases self.mailbox.messages@.len(),
        {
            let ghost k = self.mailbox.messages@.len() as int;
            let message = self.mailbox.messages.pop();
            match message {
                Some(m) => {
                    taken.push(m);
                    assert(orig.skip(k - 1) =~= seq![orig[k - 1]] + orig.skip(k));
                    assert(taken@ =~= orig.skip(k - 1).reverse());
                },
                None => {},
            }
        }
        assert(orig.skip(0) =~= orig);
        taken
    }

    /// The number of messages the satellite holds.
    pub fn unread_messages(&self) -> (n: usize)
        ensures
            n == self.mailbox.messages@.len(),
    {
        self.mailbox.len()
    }
}

impl GroundStation {
    /// A station with an empty mailbox and no satellites.
    pub fn new() -> (g: GroundStation)
        ensures
            g.mailbox.messages@ == Seq::<Message>::empty(),
            g.mailbox.sent_count == 0,
            g.live_satellites@ == Seq::<CubeSat>::empty(),
    {
        GroundStation { mailbox: MailBox::new(), live_satellites: Vec::new() }
    }

    /// Adds a fresh satellite with the given id and returns the id.
    pub fn connect(&mut self, sat_id: u64) -> (id: u64)
        ensures
            id == sat_id,
            final(self).mailbox == old(self).mailbox,
            final(self).live_satellites@.len() == old(self).live_satellites@.len() + 1,
            final(self).live_satellites@.drop_last() == old(self).live_satellites@,
            final(self).live_satellites@.last().id == sat_id,
            final(self).live_satellites@.last().mailbox.messages@ == Seq::<Message>::empty(),
            final(self).live_satellites@.last().mailbox.sent_count == 0,
            final(self).live_satellites@.last().status == StatusMessage::Okay,
    {
        let new_satellite = CubeSat::new(sat_id);
        self.live_satellites.push(new_satellite);
        assert(self.live_satellites@.drop_last() =~= old(self).live_satellites@);
        sat_id
    }

    /// Queues `msg` for satellite `to` in the station's mailbox.
    pub fn send(&mut self, to: u64, msg: String)
        requires
            old(self).mailbox.sent_count < u64::MAX,
        ensures
            final(self).mailbox.messages@ == old(self).mailbox.messages@.push(
                Message { to, message: msg, id: old(self).mailbox.sent_count },
            ),
            final(self).mailbox.sent_count == old(self).mailbox.sent_count + 1,
            final(self).live_satellites == old(self).live_satellites,
    {
        self.mailbox.post(to, msg);
    }
}

/// The ids of the satellites the station knows about.
pub fn fetch_satellite_ids() -> (ids: Vec<u64>)
    ensures
        ids@ == seq![1u64, 2u64, 3u64],
{
    let mut ids = Vec::new();
    ids.push(1);
    ids.push(2);
    ids.push(3);
    ids
}

} // verus!
