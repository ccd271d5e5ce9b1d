use vstd::prelude::*;

use tokio::sync::mpsc::UnboundedSender;

use crate::types::{DeviceId, Message};
use vstd::pervasive::cloned;

verus! {

/// `tokio::sync::mpsc::UnboundedSender`, the sending half of a channel to
/// one peer's connection, held here as an opaque value.
#[verifier::external_type_specification]
#[verifier::external_body]
#[verifier::reject_recursive_types(T)]
pub struct ExUnboundedSender<T>(UnboundedSender<T>);

/// A channel and the message handed to it.
pub type Handed = (UnboundedSender<Message>, Message);

/// Queues `message` on `sender` (`tokio::sync::mpsc::UnboundedSender::send`)
/// and says whether it was accepted, together with a ghost record of the
/// channel and message it handed over. Acceptance depends on the receiving
/// half still being open, which is not visible here, so no clause states
/// the `bool`; the only clause is about the wrapper's own arguments.
#[verifier::external_body]
fn send_through(sender: &UnboundedSender<Message>, message: Message) -> (r: (bool, Ghost<Handed>))
    ensures
        r.1@ == (*sender, message),
{
    let handed = Ghost((*sender, message));
    (sender.send(message).is_ok(), handed)
}

/// The channel that reaches each connected peer. A connection registers its
/// channel once authenticated and withdraws it when it closes; the capture
/// side only needs this table to forward events to the active machine.
pub struct Routing {
    senders: Vec<(DeviceId, UnboundedSender<Message>)>,
}

impl Routing {
    /// No device appears twice.
    pub closed spec fn wf(&self) -> bool {
        forall|i: int, j: int|
            0 <= i < j < self.senders@.len() ==> (#[trigger] self.senders@[i]).0 != (#[trigger] self.senders@[j]).0
    }

    /// The registered channel of each connected device.
    pub closed spec fn channels(&self) -> Map<DeviceId, UnboundedSender<Message>> {
        Map::new(
            |d: DeviceId| exists|i: int| 0 <= i < self.senders@.len() && #[trigger] self.senders@[i].0 == d,
            |d: DeviceId| self.senders@[choose|i: int| 0 <= i < self.senders@.len() && #[trigger] self.senders@[i].0 == d].1,
        )
    }

    proof fn lemma_lookup(&self, i: int)
        requires
            self.wf(),
            0 <= i < self.senders@.len(),
        ensures
            self.channels().contains_key(self.senders@[i].0),
            self.channels()[self.senders@[i].0] == self.senders@[i].1,
    {
        let d = self.senders@[i].0;
        assert(self.channels().dom().contains(d));
        let j = choose|j: int| 0 <= j < self.senders@.len() && #[trigger] self.senders@[j].0 == d;
        if j != i {
            if j < i {
                assert(self.senders@[j].0 != self.senders@[i].0);
            } else {
                assert(self.senders@[i].0 != self.senders@[j].0);
            }
        }
    }

    pub fn new() -> (r: Routing)
        ensures
            r.wf(),
            r.channels() == Map::<DeviceId, UnboundedSender<Message>>::empty(),
    {
        let r = Routing { senders: Vec::new() };
        assert(r.channels() =~= Map::<DeviceId, UnboundedSender<Message>>::empty());
        r
    }

    fn position(&self, device: &DeviceId) -> (r: Option<usize>)
        requires
            self.wf(),
        ensures
            match r {
                Some(i) => i < self.senders@.len() && self.senders@[i as int].0 == *device,
                None => !self.channels().contains_key(*device),
            },
    {
        let mut i: usize = 0;
        while i < self.senders.len()
            invariant
                0 <= i <= self.senders@.len(),
                forall|j: int| 0 <= j < i ==> self.senders@[j].0 != *device,
            decreases self.senders@.len() - i,
        {
            if self.senders[i].0.same_as(device) {
                return Some(i);
            }
            i = i + 1;
        }
        assert(!self.channels().dom().contains(*device));
        None
    }

    /// Withdraws the channel of `device`, if it has one.
    pub fn unregister(&mut self, device: DeviceId)
        requires
            old(self).wf(),
        ensures
            final(self).wf(),
            final(self).channels() == old(self).channels().remove(device),
    {
        match self.position(&device) {
            None => {
                assert(self.channels() =~= old(self).channels().remove(device));
            },
            Some(i) => {
                let ghost before = self.senders@;
                let _ = self.senders.remove(i);
                assert(forall|j: int| 0 <= j < self.senders@.len() ==> #[trigger] self.senders@[j] == (if j < i { before[j] } else { before[j + 1] }));
                assert(self.wf()) by {
                    assert forall|a: int, b: int| 0 <= a < b < self.senders@.len() implies (#[trigger] self.senders@[a]).0
                        != (#[trigger] self.senders@[b]).0 by {
                        let a0 = if a < i { a } else { a + 1 };
                        let b0 = if b < i { b } else { b + 1 };
                        assert(before[a0].0 != before[b0].0);
                    }
                }
                assert forall|d: DeviceId| #[trigger] self.channels().contains_key(d) <==> old(self).channels().remove(device).contains_key(d) by {
                    if self.channels().contains_key(d) {
                        let j = choose|j: int| 0 <= j < self.senders@.len() && #[trigger] self.senders@[j].0 == d;
                        let j0 = if j < i { j } else { j + 1 };
                        assert(before[j0].0 == d);
                        if d == device {
                            if j0 < i {
                                assert(before[j0].0 != before[i as int].0);
                            } else {
                                assert(before[i as int].0 != before[j0].0);
                            }
                        }
                    }
                    if old(self).channels().remove(device).contains_key(d) {
                        let j0 = choose|j: int| 0 <= j < before.len() && #[trigger] before[j].0 == d;
                        assert(j0 != i);
                        let j = if j0 < i { j0 } else { j0 - 1 };
                        assert(self.senders@[j].0 == d);
                    }
                }
                assert forall|d: DeviceId| #[trigger] self.channels().contains_key(d) implies self.channels()[d] == old(self).channels()[d] by {
                    let j = choose|j: int| 0 <= j < self.senders@.len() && #[trigger] self.senders@[j].0 == d;
                    self.lemma_lookup(j);
                    let j0 = if j < i { j } else { j + 1 };
                    old(self).lemma_lookup(j0);
                }
                assert(self.channels() =~= old(self).channels().remove(device));
            },
        }
    }

    /// Registers `sender` as the channel of `device`, replacing the one it
    /// had.
    pub fn register(&mut self, device: DeviceId, sender: UnboundedSender<Message>)
        requires
            old(self).wf(),
        ensures
            final(self).wf(),
            final(self).channels() == old(self).channels().insert(device, sender),
    {
        self.unregister(device);
        let ghost mid = *self;
        let ghost before = self.senders@;
        self.senders.push((device, sender));
        let n = self.senders.len() - 1;
        assert(self.wf()) by {
            assert forall|a: int, b: int| 0 <= a < b < self.senders@.len() implies (#[trigger] self.senders@[a]).0
                != (#[trigger] self.senders@[b]).0 by {
                if b == n {
                    assert(before[a] == self.senders@[a]);
                    mid.lemma_lookup(a);
                } else {
                    assert(before[a] == self.senders@[a] && before[b] == self.senders@[b]);
                }
            }
        }
        proof {
            self.lemma_lookup(n as int);
        }
        assert forall|d: DeviceId| #[trigger] self.channels().contains_key(d) <==> old(self).channels().dom().insert(device).contains(d) by {
            if self.channels().contains_key(d) && d != device {
                let j = choose|j: int| 0 <= j < self.senders@.len() && #[trigger] self.senders@[j].0 == d;
                assert(j < n);
                assert(before[j].0 == d);
                assert(mid.channels().contains_key(d));
            }
            if old(self).channels().contains_key(d) && d != device {
                assert(mid.channels().contains_key(d));
                let j = choose|j: int| 0 <= j < before.len() && #[trigger] before[j].0 == d;
                assert(self.senders@[j].0 == d);
            }
        }
        assert forall|d: DeviceId| #[trigger] self.channels().contains_key(d) implies self.channels()[d] == old(self).channels().insert(device, sender)[d] by {
            if d != device {
                let j = choose|j: int| 0 <= j < self.senders@.len() && #[trigger] self.senders@[j].0 == d;
                assert(j < n);
                assert(self.senders@[j] == before[j]);
                mid.lemma_lookup(j);
                self.lemma_lookup(j);
            }
        }
        assert(self.channels() =~= old(self).channels().insert(device, sender));
    }

    /// Whether `device` has a registered connection right now. The capture
    /// side uses it to notice that the machine it handed control to went
    /// away, and take control back.
    pub fn is_connected(&self, device: DeviceId) -> (r: bool)
        requires
            self.wf(),
        ensures
            r == self.channels().contains_key(device),
    {
        match self.position(&device) {
            Some(i) => {
                proof {
                    self.lemma_lookup(i as int);
                }
                true
            },
            None => false,
        }
    }

    /// Tries to send `message` to `device`: `false` when it has no
    /// registered connection (it left, or has not finished authenticating)
    /// or its channel no longer accepts messages. The ghost half of the
    /// result is what was handed over: the device's own registered channel
    /// with `message`, or nothing when the device has no channel.
    pub fn send_to(&self, device: DeviceId, message: Message) -> (r: (bool, Ghost<Option<Handed>>))
        requires
            self.wf(),
        ensures
            self.channels().contains_key(device) ==> r.1@ == Some((self.channels()[device], message)),
            !self.channels().contains_key(device) ==> !r.0 && r.1@ is None,
    {
        match self.channel(device) {
            Some(sender) => {
                let (sent, handed) = send_through(sender, message);
                (sent, Ghost(Some(handed@)))
            },
            None => (false, Ghost(None)),
        }
    }

    /// The registered channel of `device`, if it has one.
    pub fn channel(&self, device: DeviceId) -> (r: Option<&UnboundedSender<Message>>)
        requires
            self.wf(),
        ensures
            match r {
                Some(sender) => self.channels().contains_key(device) && *sender == self.channels()[device],
                None => !self.channels().contains_key(device),
            },
    {
        match self.position(&device) {
            Some(i) => {
                proof {
                    self.lemma_lookup(i as int);
                }
                Some(&self.senders[i].1)
            },
            None => None,
        }
    }

    /// Sends `message` to every connected device; a channel that no longer
    /// accepts messages is skipped. The ghost result records what was
    /// handed over: every registered device exactly once, each with its own
    /// channel and a clone of `message`.
    pub fn broadcast(&self, message: &Message) -> (handed: Ghost<Seq<(DeviceId, UnboundedSender<Message>, Message)>>)
        requires
            self.wf(),
        ensures
            forall|i: int| 0 <= i < handed@.len() ==> {
                &&& self.channels().contains_key((#[trigger] handed@[i]).0)
                &&& handed@[i].1 == self.channels()[handed@[i].0]
                &&& cloned(*message, handed@[i].2)
            },
            forall|i: int, j: int| 0 <= i < j < handed@.len() ==> (#[trigger] handed@[i]).0 != (#[trigger] handed@[j]).0,
            forall|d: DeviceId| #[trigger] self.channels().contains_key(d) ==> exists|i: int| 0 <= i < handed@.len() && handed@[i].0 == d,
    {
        let ghost mut log: Seq<(DeviceId, UnboundedSender<Message>, Message)> = Seq::empty();
        let mut i: usize = 0;
        while i < self.senders.len()
            invariant
                0 <= i <= self.senders@.len(),
                self.wf(),
                log.len() == i,
                forall|j: int| 0 <= j < i ==> (#[trigger] log[j]).0 == self.senders@[j].0 && log[j].1 == self.senders@[j].1
                    && cloned(*message, log[j].2),
            decreases self.senders@.len() - i,
        {
            let m = message.clone();
            let (_sent, handed) = send_through(&self.senders[i].1, m);
            proof {
                log = log.push((self.senders@[i as int].0, handed@.0, handed@.1));
            }
            i = i + 1;
        }
        proof {
            assert forall|k: int| 0 <= k < log.len() implies {
                &&& self.channels().contains_key((#[trigger] log[k]).0)
                &&& log[k].1 == self.channels()[log[k].0]
                &&& cloned(*message, log[k].2)
            } by {
                self.lemma_lookup(k);
            }
            assert forall|d: DeviceId| #[trigger] self.channels().contains_key(d) implies exists|k: int| 0 <= k < log.len() && log[k].0 == d by {
                let k = choose|k: int| 0 <= k < self.senders@.len() && #[trigger] self.senders@[k].0 == d;
                assert(log[k].0 == d);
            }
        }
        Ghost(log)
    }
}

/// Once a device's channel is withdrawn, nothing sent to it can be
/// reported as delivered until it registers again: `unregister` leaves it
/// without a channel, and `send_to` reports delivery only to devices with
/// one.
pub proof fn lemma_unregistered_device_unreachable(before: Routing, after: Routing, device: DeviceId)
    requires
        after.channels() == before.channels().remove(device),
    ensures
        !after.channels().contains_key(device),
{
}

/// Registering a device makes it reachable, with the channel just given,
/// and leaves every other device's channel as it was.
pub proof fn lemma_register_reaches_only_that_device(
    before: Routing,
    after: Routing,
    device: DeviceId,
    sender: UnboundedSender<Message>,
    other: DeviceId,
)
    requires
        after.channels() == before.channels().insert(device, sender),
        other != device,
    ensures
        after.channels().contains_key(device),
        after.channels()[device] == sender,
        after.channels().contains_key(other) == before.channels().contains_key(other),
        before.channels().contains_key(other) ==> after.channels()[other] == before.channels()[other],
{
}

} // verus!
