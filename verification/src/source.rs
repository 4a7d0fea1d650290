//! The queue through which captured frames reach the tracker.
//!
//! Whoever captures frames, from live interfaces or from a recorded trace,
//! pushes them here; the tracker takes them out in the order in which they
//! came. Taking never waits: an empty queue gives `None`.

use vstd::prelude::*;
use std::collections::VecDeque;
use crate::packet::RawPacket;

verus! {

/// A monitored interface: its name, its IPv4 address as one number if it
/// has one, and the VLAN that its untagged traffic belongs to.
pub type InterfaceSourceType = (String, Option<u32>, Option<u16>);

/// The frames that have been captured and not yet processed.
#[derive(Debug)]
pub struct RawSocketReceiver {
    /// The frames not yet taken, oldest first.
    pub queue: VecDeque<RawPacket>,
    /// The interfaces that are monitored; empty when a trace is replayed.
    pub interfaces: Vec<InterfaceSourceType>,
    /// When a trace is replayed: the latest capture time of its frames.
    pub last_timestamp: Option<u64>,
}

/// The latest of a capture time seen so far and one more.
pub open spec fn later_of(latest: Option<u64>, timestamp: u64) -> Option<u64> {
    match latest {
        Some(t) => if timestamp > t {
            Some(timestamp)
        } else {
            Some(t)
        },
        None => Some(timestamp),
    }
}

/// The latest capture time of `packets`, or `None` where there are none.
pub open spec fn latest_timestamp(packets: Seq<RawPacket>) -> Option<u64>
    decreases packets.len(),
{
    if packets.len() == 0 {
        None
    } else {
        later_of(latest_timestamp(packets.drop_last()), packets.last().timestamp)
    }
}

impl RawSocketReceiver {
    /// An empty queue for frames captured live on `interfaces`.
    pub fn live(interfaces: Vec<InterfaceSourceType>) -> (receiver: Self)
        ensures
            receiver.queue@ == Seq::<RawPacket>::empty(),
            receiver.interfaces == interfaces,
            receiver.last_timestamp is None,
    {
        RawSocketReceiver { queue: VecDeque::new(), interfaces, last_timestamp: None }
    }

    /// A queue that holds the frames of a recorded trace in their order,
    /// and knows the latest capture time among them.
    pub fn replay(packets: Vec<RawPacket>) -> (receiver: Self)
        ensures
            receiver.queue@ == packets@,
            receiver.interfaces@.len() == 0,
            receiver.last_timestamp == latest_timestamp(packets@),
    {
        let mut packets = packets;
        let ghost all = packets@;
        let mut queue: VecDeque<RawPacket> = VecDeque::new();
        let mut last_timestamp: Option<u64> = None;
        while packets.len() > 0
            invariant
                queue@.len() + packets@.len() == all.len(),
                queue@ == all.skip(packets@.len() as int),
                packets@ == all.take(packets@.len() as int),
            decreases packets@.len(),
        {
            match packets.pop() {
                Some(packet) => {
                    queue.push_front(packet);
                },
                None => {},
            }
            assert(queue@ =~= all.skip(packets@.len() as int));
            assert(packets@ =~= all.take(packets@.len() as int));
        }
        assert(queue@ =~= all);
        let mut i: usize = 0;
        while i < queue.len()
            invariant
                i <= queue@.len(),
                last_timestamp == latest_timestamp(queue@.take(i as int)),
            decreases queue@.len() - i,
        {
            let timestamp: u64 = queue[i].timestamp;
            assert(queue@.take(i + 1).drop_last() =~= queue@.take(i as int));
            last_timestamp = match last_timestamp {
                Some(t) => if timestamp > t {
                    Some(timestamp)
                } else {
                    Some(t)
                },
                None => Some(timestamp),
            };
            i += 1;
        }
        assert(queue@.take(queue@.len() as int) =~= queue@);
        RawSocketReceiver { queue, interfaces: Vec::new(), last_timestamp }
    }

    /// Appends a captured frame to the queue.
    pub fn push(&mut self, packet: RawPacket)
        ensures
            final(self).queue@ == old(self).queue@.push(packet),
            final(self).interfaces == old(self).interfaces,
            final(self).last_timestamp == old(self).last_timestamp,
    {
        self.queue.push_back(packet);
    }

    /// Takes the oldest frame out of the queue, if there is one.
    pub fn try_recv(&mut self) -> (packet: Option<RawPacket>)
        ensures
            old(self).queue@.len() == 0 ==> packet is None && final(self).queue@ == old(
                self,
            ).queue@,
            old(self).queue@.len() > 0 ==> packet == Some(old(self).queue@[0])
                && final(self).queue@ == old(self).queue@.skip(1),
            final(self).interfaces == old(self).interfaces,
            final(self).last_timestamp == old(self).last_timestamp,
    {
        let packet = self.queue.pop_front();
        assert(old(self).queue@.len() > 0 ==> self.queue@ =~= old(self).queue@.skip(1));
        packet
    }

    /// The interfaces that are monitored.
    pub fn get_interfaces(&self) -> (interfaces: &[InterfaceSourceType])
        ensures
            interfaces@ == self.interfaces@,
    {
        self.interfaces.as_slice()
    }

    /// The latest capture time of a replayed trace.
    pub fn get_last_timestamp(&self) -> (latest: Option<u64>)
        ensures
            latest == self.last_timestamp,
    {
        self.last_timestamp
    }
}

} // verus!
