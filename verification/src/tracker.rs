//! The registry of all observed hosts.
//!
//! The tracker takes captured frames out of its queue, decodes them and
//! attributes every message to the host that sent it and, for responses,
//! to the host that asked. It remembers who sent Sync messages lately in
//! every domain, and once per scan cycle it elects the best transmitter of
//! every domain.

use vstd::prelude::*;
use std::rc::Rc;
use std::sync::Arc;
use crate::host::{elapsed, HostView, PtpHost};
use crate::identity::ClockIdentity;
use crate::invariants::{
    lemma_after_cleanup_well_formed,
    lemma_after_frame_well_formed,
    lemma_after_frames_well_formed,
    lemma_with_sync_sender_well_formed,
};
use crate::lookup::{all_distinct, first_index, lemma_first_index, lemma_first_index_is};
use crate::messages::PtpMessage;
use crate::packet::{IpAddress, ParsedPacket, RawPacket};
use crate::source::{InterfaceSourceType, RawSocketReceiver};

verus! {

/// The greatest number of frames that one scan cycle processes.
pub const BATCH_SIZE: usize = 100;

/// The age, in nanoseconds, at which a sync sender is forgotten.
pub const SYNC_SENDER_TIMEOUT: u64 = 60_000_000_000;

/// The senders of Sync messages of one domain, each with the monotonic
/// time of its last Sync.
pub type DomainSenders = (u8, Vec<(ClockIdentity, u64)>);

/// All observed hosts and what is needed to correlate them.
#[derive(Debug)]
pub struct PtpTracker {
    /// One record per clock identity, in the order of first sight.
    pub hosts: Vec<PtpHost>,
    /// The monotonic time at which the last frame was processed.
    pub last_packet: u64,
    pub raw_socket_receiver: RawSocketReceiver,
    /// The recent sync senders of every domain that has any.
    pub recent_sync_senders: Vec<DomainSenders>,
    /// The monitored interfaces.
    pub interfaces: Vec<InterfaceSourceType>,
}

/// A tracker as plain values.
pub struct TrackerView {
    pub hosts: Seq<HostView>,
    pub last_packet: u64,
    /// The frames that wait in the queue, oldest first.
    pub queue: Seq<RawPacket>,
    pub recent_sync_senders: Seq<(u8, Seq<(ClockIdentity, u64)>)>,
}

/// Hosts as plain values.
pub open spec fn hosts_view(hosts: Seq<PtpHost>) -> Seq<HostView> {
    Seq::new(hosts.len(), |i: int| hosts[i]@)
}

/// Sync senders as plain values.
pub open spec fn senders_view(senders: Seq<DomainSenders>) -> Seq<(u8, Seq<(ClockIdentity, u64)>)> {
    Seq::new(senders.len(), |i: int| (senders[i].0, senders[i].1@))
}

/// The identities of `hosts`, in their order.
pub open spec fn identities(hosts: Seq<HostView>) -> Seq<ClockIdentity> {
    Seq::new(hosts.len(), |i: int| hosts[i].clock_identity)
}

/// The domains of `senders`, in their order.
pub open spec fn domains_of(senders: Seq<(u8, Seq<(ClockIdentity, u64)>)>) -> Seq<u8> {
    Seq::new(senders.len(), |i: int| senders[i].0)
}

/// The identities of the senders in `list`, in their order.
pub open spec fn senders_of(list: Seq<(ClockIdentity, u64)>) -> Seq<ClockIdentity> {
    Seq::new(list.len(), |i: int| list[i].0)
}

/// The hosts with one for `id` among them: a fresh one, created at the
/// wall-clock time `wall_clock`, is appended where `id` was unknown.
pub open spec fn with_host(hosts: Seq<HostView>, id: ClockIdentity, wall_clock: u64) -> Seq<
    HostView,
> {
    if first_index(identities(hosts), id) < hosts.len() {
        hosts
    } else {
        hosts.push(HostView::fresh(id, wall_clock))
    }
}

/// The host to which a message is addressed: the requester that a delay
/// response or a peer delay response names.
pub open spec fn addressee(msg: PtpMessage) -> Option<ClockIdentity> {
    match msg {
        PtpMessage::DelayResp(m) => Some(m.requesting_port_identity.clock_identity),
        PtpMessage::PDelayResp(m) => Some(m.requesting_port_identity.clock_identity),
        PtpMessage::PDelayRespFollowup(m) => Some(m.requesting_port_identity.clock_identity),
        _ => None,
    }
}

/// The sender of `list` whose Sync is the most recent, with the time of
/// that Sync; of several with the same time, the last in the list.
pub open spec fn latest_sender(list: Seq<(ClockIdentity, u64)>) -> Option<(ClockIdentity, u64)>
    decreases list.len(),
{
    if list.len() == 0 {
        None
    } else {
        match latest_sender(list.drop_last()) {
            Some(best) => if list.last().1 >= best.1 {
                Some(list.last())
            } else {
                Some(best)
            },
            None => Some(list.last()),
        }
    }
}

/// The most recent sync sender of `domain`, if the domain has any.
pub open spec fn latest_sender_in(
    senders: Seq<(u8, Seq<(ClockIdentity, u64)>)>,
    domain: u8,
) -> Option<(ClockIdentity, u64)> {
    let at = first_index(domains_of(senders), domain);
    if at < senders.len() {
        latest_sender(senders[at].1)
    } else {
        None
    }
}

/// The list of senders with `id` noted at `now`: the time of `id` is
/// replaced where it is listed, else `id` is appended.
pub open spec fn with_sender(list: Seq<(ClockIdentity, u64)>, id: ClockIdentity, now: u64) -> Seq<
    (ClockIdentity, u64),
> {
    let at = first_index(senders_of(list), id);
    if at < list.len() {
        list.update(at, (id, now))
    } else {
        list.push((id, now))
    }
}

/// The sync senders with `id` noted in `domain` at `now`.
pub open spec fn with_sync_sender(
    senders: Seq<(u8, Seq<(ClockIdentity, u64)>)>,
    domain: u8,
    id: ClockIdentity,
    now: u64,
) -> Seq<(u8, Seq<(ClockIdentity, u64)>)> {
    let at = first_index(domains_of(senders), domain);
    if at < senders.len() {
        senders.update(at, (domain, with_sender(senders[at].1, id, now)))
    } else {
        senders.push((domain, seq![(id, now)]))
    }
}

/// Whether the Sync of `entry` is less than sixty seconds old at `now`.
pub open spec fn is_recent(entry: (ClockIdentity, u64), now: u64) -> bool {
    elapsed(entry.1, now) < SYNC_SENDER_TIMEOUT
}

/// The senders of `list` whose Sync is less than sixty seconds old at
/// `now`, in their order.
pub open spec fn recent_of(list: Seq<(ClockIdentity, u64)>, now: u64) -> Seq<(ClockIdentity, u64)>
    decreases list.len(),
{
    if list.len() == 0 {
        list
    } else if is_recent(list.last(), now) {
        recent_of(list.drop_last(), now).push(list.last())
    } else {
        recent_of(list.drop_last(), now)
    }
}

/// The sync senders without those that are sixty seconds old or older at
/// `now`, and without the domains that are left with none.
pub open spec fn pruned(senders: Seq<(u8, Seq<(ClockIdentity, u64)>)>, now: u64) -> Seq<
    (u8, Seq<(ClockIdentity, u64)>),
>
    decreases senders.len(),
{
    if senders.len() == 0 {
        senders
    } else if recent_of(senders.last().1, now).len() > 0 {
        pruned(senders.drop_last(), now).push(
            (senders.last().0, recent_of(senders.last().1, now)),
        )
    } else {
        pruned(senders.drop_last(), now)
    }
}

/// After pruning a list of senders, every sender left is recent, every
/// recent sender is left, and nothing has been added.
pub proof fn lemma_recent_of(list: Seq<(ClockIdentity, u64)>, now: u64)
    ensures
        forall|i: int|
            0 <= i < recent_of(list, now).len() ==> is_recent(
                #[trigger] recent_of(list, now)[i],
                now,
            ) && list.contains(recent_of(list, now)[i]),
        forall|j: int|
            0 <= j < list.len() && is_recent(#[trigger] list[j], now) ==> recent_of(
                list,
                now,
            ).contains(list[j]),
        recent_of(list, now).len() <= list.len(),
    decreases list.len(),
{
    if list.len() > 0 {
        let shorter = list.drop_last();
        let kept = recent_of(shorter, now);
        lemma_recent_of(shorter, now);
        assert forall|i: int| 0 <= i < recent_of(list, now).len() implies is_recent(
            #[trigger] recent_of(list, now)[i],
            now,
        ) && list.contains(recent_of(list, now)[i]) by {
            if i < kept.len() {
                let k = choose|k: int| 0 <= k < shorter.len() && shorter[k] == kept[i];
                assert(list[k] == kept[i]);
            } else {
                assert(list[list.len() - 1] == recent_of(list, now)[i]);
            }
        }
        assert forall|j: int| 0 <= j < list.len() && is_recent(
            #[trigger] list[j],
            now,
        ) implies recent_of(list, now).contains(list[j]) by {
            if j < shorter.len() {
                assert(shorter[j] == list[j]);
                let m = choose|m: int| 0 <= m < kept.len() && kept[m] == list[j];
                assert(recent_of(list, now)[m] == list[j]);
            } else {
                assert(recent_of(list, now)[kept.len() as int] == list[j]);
            }
        }
    }
}

/// After a prune, no domain is left without senders, and every sender
/// left is less than sixty seconds old.
pub proof fn lemma_pruned(senders: Seq<(u8, Seq<(ClockIdentity, u64)>)>, now: u64)
    ensures
        forall|d: int|
            0 <= d < pruned(senders, now).len() ==> (#[trigger] pruned(senders, now)[d]).1.len()
                > 0,
        forall|d: int, i: int|
            0 <= d < pruned(senders, now).len() && 0 <= i < pruned(senders, now)[d].1.len()
                ==> is_recent(#[trigger] pruned(senders, now)[d].1[i], now),
    decreases senders.len(),
{
    if senders.len() > 0 {
        let shorter = pruned(senders.drop_last(), now);
        let kept = recent_of(senders.last().1, now);
        lemma_pruned(senders.drop_last(), now);
        lemma_recent_of(senders.last().1, now);
        assert forall|d: int| 0 <= d < pruned(senders, now).len() implies (#[trigger] pruned(
            senders,
            now,
        )[d]).1.len() > 0 by {
            if d < shorter.len() {
                assert(pruned(senders, now)[d] == shorter[d]);
            }
        }
        assert forall|d: int, i: int|
            0 <= d < pruned(senders, now).len() && 0 <= i < pruned(
                senders,
                now,
            )[d].1.len() implies is_recent(#[trigger] pruned(senders, now)[d].1[i], now) by {
            if d < shorter.len() {
                assert(pruned(senders, now)[d] == shorter[d]);
                assert(is_recent(shorter[d].1[i], now));
            } else {
                assert(pruned(senders, now)[d].1 == kept);
                assert(is_recent(kept[i], now));
            }
        }
    }
}

/// The hosts of `hosts` that are transmitters, in their order.
pub open spec fn transmitters_of(hosts: Seq<HostView>) -> Seq<HostView>
    decreases hosts.len(),
{
    if hosts.len() == 0 {
        hosts
    } else if hosts.last().is_transmitter() {
        transmitters_of(hosts.drop_last()).push(hosts.last())
    } else {
        transmitters_of(hosts.drop_last())
    }
}

/// The hosts of `hosts` that are not transmitters, in their order.
pub open spec fn others_of(hosts: Seq<HostView>) -> Seq<HostView>
    decreases hosts.len(),
{
    if hosts.len() == 0 {
        hosts
    } else if !hosts.last().is_transmitter() {
        others_of(hosts.drop_last()).push(hosts.last())
    } else {
        others_of(hosts.drop_last())
    }
}

/// The hosts of `hosts` that are receivers, in their order.
pub open spec fn receivers_of(hosts: Seq<HostView>) -> Seq<HostView>
    decreases hosts.len(),
{
    if hosts.len() == 0 {
        hosts
    } else if hosts.last().is_receiver() {
        receivers_of(hosts.drop_last()).push(hosts.last())
    } else {
        receivers_of(hosts.drop_last())
    }
}

/// The addresses of the interfaces that have one, in their order.
pub open spec fn local_ips_of(interfaces: Seq<InterfaceSourceType>) -> Seq<IpAddress>
    decreases interfaces.len(),
{
    if interfaces.len() == 0 {
        Seq::empty()
    } else {
        match interfaces.last().1 {
            Some(address) => local_ips_of(interfaces.drop_last()).push(IpAddress::V4(address)),
            None => local_ips_of(interfaces.drop_last()),
        }
    }
}

/// The views of the hosts that `handles` refer to.
pub open spec fn views_of(handles: Seq<&PtpHost>) -> Seq<HostView> {
    Seq::new(handles.len(), |i: int| handles[i]@)
}

impl View for PtpTracker {
    type V = TrackerView;

    open spec fn view(&self) -> TrackerView {
        TrackerView {
            hosts: hosts_view(self.hosts@),
            last_packet: self.last_packet,
            queue: self.raw_socket_receiver.queue@,
            recent_sync_senders: senders_view(self.recent_sync_senders@),
        }
    }
}

impl TrackerView {
    /// The tracker after the decoded `packet` has been processed at the
    /// monotonic time `now` and the wall-clock time `wall_clock`.
    ///
    /// The host that sent the message is looked up by the clock identity
    /// of the header's source port and created where it is unknown; the
    /// message is recorded for it as sent. A delay response or peer delay
    /// response is then recorded as received for the host that it names as
    /// requester, which is created where it is unknown. The sender of a
    /// Sync is noted among the sync senders of the header's domain.
    pub open spec fn after_message(
        self,
        packet: ParsedPacket,
        now: u64,
        wall_clock: u64,
    ) -> TrackerView {
        let header = packet.ptp.header_of();
        let sender = header.source_port_identity.clock_identity;
        let recent = latest_sender_in(self.recent_sync_senders, header.domain_number);
        let known = with_host(self.hosts, sender, wall_clock);
        let s = first_index(identities(known), sender);
        let sent = known.update(s, known[s].after_sending(packet, now, recent));
        let hosts = match addressee(packet.ptp) {
            Some(requester) => {
                let all = with_host(sent, requester, wall_clock);
                let r = first_index(identities(all), requester);
                all.update(r, all[r].after_receiving(packet))
            },
            None => sent,
        };
        let recent_sync_senders = match packet.ptp {
            PtpMessage::Sync(_) => with_sync_sender(
                self.recent_sync_senders,
                header.domain_number,
                sender,
                now,
            ),
            _ => self.recent_sync_senders,
        };
        TrackerView { hosts, recent_sync_senders, last_packet: now, ..self }
    }

    /// The tracker after at most `count` frames have been taken out of
    /// the queue and handled, oldest first. The tracker counts every frame
    /// taken as processed at `now`, also one that does not decode.
    pub open spec fn after_frames(self, count: nat, now: u64, wall_clock: u64) -> TrackerView
        decreases count,
    {
        if count == 0 || self.queue.len() == 0 {
            self
        } else {
            let taken = TrackerView { queue: self.queue.skip(1), ..self };
            let handled = TrackerView {
                last_packet: now,
                ..taken.after_frame(Arc::new(self.queue[0]), now, wall_clock)
            };
            handled.after_frames((count - 1) as nat, now, wall_clock)
        }
    }

    /// The tracker after the sync senders have been pruned at `now`.
    pub open spec fn after_cleanup(self, now: u64) -> TrackerView {
        TrackerView { recent_sync_senders: pruned(self.recent_sync_senders, now), ..self }
    }

    /// The tracker after the frame `raw` has been handled: a frame whose
    /// payload does not decode changes nothing.
    pub open spec fn after_frame(
        self,
        raw: Arc<RawPacket>,
        now: u64,
        wall_clock: u64,
    ) -> TrackerView {
        match PtpMessage::parse(raw.ptp_payload@) {
            Ok(msg) => self.after_message(ParsedPacket { ptp: msg, raw }, now, wall_clock),
            Err(_) => self,
        }
    }
}

impl PtpTracker {
    /// A tracker without hosts that takes its frames from
    /// `raw_socket_receiver`; `now` is the monotonic time of its creation.
    pub fn new(raw_socket_receiver: RawSocketReceiver, now: u64) -> (tracker: Self)
        ensures
            tracker@.hosts == Seq::<HostView>::empty(),
            tracker@.recent_sync_senders == Seq::<(u8, Seq<(ClockIdentity, u64)>)>::empty(),
            tracker@.last_packet == now,
            tracker@.queue == raw_socket_receiver.queue@,
            tracker.raw_socket_receiver == raw_socket_receiver,
            tracker.interfaces.deep_view() == raw_socket_receiver.interfaces.deep_view(),
            tracker@.well_formed(),
    {
        let mut interfaces: Vec<InterfaceSourceType> = Vec::new();
        let given = raw_socket_receiver.get_interfaces();
        let mut i: usize = 0;
        while i < given.len()
            invariant
                i <= given@.len(),
                given@ == raw_socket_receiver.interfaces@,
                interfaces@.len() == i,
                forall|j: int|
                    0 <= j < i ==> (#[trigger] interfaces@[j]).deep_view()
                        == raw_socket_receiver.interfaces@[j].deep_view(),
            decreases given@.len() - i,
        {
            interfaces.push((given[i].0.clone(), given[i].1, given[i].2));
            i += 1;
        }
        assert(interfaces.deep_view() =~= raw_socket_receiver.interfaces.deep_view());
        let tracker = Self {
            hosts: Vec::new(),
            last_packet: now,
            raw_socket_receiver,
            recent_sync_senders: Vec::new(),
            interfaces,
        };
        assert(tracker@.hosts =~= Seq::empty());
        assert(tracker@.recent_sync_senders =~= Seq::empty());
        tracker
    }

    /// The position of the host with identity `id`, or the number of hosts
    /// where there is none.
    fn host_position(&self, id: ClockIdentity) -> (at: usize)
        ensures
            at == first_index(identities(self@.hosts), id),
            at <= self.hosts.len(),
            at < self.hosts.len() ==> self.hosts[at as int].clock_identity == id,
    {
        let ghost keys = identities(self@.hosts);
        let mut i: usize = 0;
        while i < self.hosts.len()
            invariant
                i <= self.hosts.len(),
                keys == identities(self@.hosts),
                forall|j: int| 0 <= j < i ==> keys[j] != id,
            decreases self.hosts.len() - i,
        {
            if self.hosts[i].clock_identity == id {
                proof {
                    lemma_first_index_is(keys, id, i as int);
                }
                return i;
            }
            i += 1;
        }
        proof {
            lemma_first_index_is(keys, id, i as int);
        }
        i
    }

    /// The position of the host with identity `id`, which is created at
    /// the wall-clock time `wall_clock` where it is unknown.
    fn resolve_host(&mut self, id: ClockIdentity, wall_clock: u64) -> (at: usize)
        ensures
            final(self)@ == (TrackerView {
                hosts: with_host(old(self)@.hosts, id, wall_clock),
                ..old(self)@
            }),
            at == first_index(identities(final(self)@.hosts), id),
            at < final(self).hosts.len(),
            final(self).interfaces == old(self).interfaces,
            final(self).raw_socket_receiver == old(self).raw_socket_receiver,
    {
        let at: usize = self.host_position(id);
        if at == self.hosts.len() {
            self.hosts.push(PtpHost::new(id, wall_clock));
            assert(hosts_view(self.hosts@) =~= old(self)@.hosts.push(
                HostView::fresh(id, wall_clock),
            ));
            proof {
                let before = identities(old(self)@.hosts);
                let after = identities(self@.hosts);
                lemma_first_index(before, id);
                assert forall|j: int| 0 <= j < at implies after[j] != id by {
                    assert(after[j] == before[j]);
                }
                lemma_first_index_is(after, id, at as int);
            }
        }
        at
    }

    /// The most recent sync sender of `domain` with the time of its last
    /// Sync, if the domain has any.
    pub fn latest_sync_sender(&self, domain: u8) -> (latest: Option<(ClockIdentity, u64)>)
        ensures
            latest == latest_sender_in(self@.recent_sync_senders, domain),
    {
        let at: usize = self.domain_position(domain);
        if at == self.recent_sync_senders.len() {
            return None;
        }
        let list = &self.recent_sync_senders[at].1;
        let mut latest: Option<(ClockIdentity, u64)> = None;
        let mut i: usize = 0;
        while i < list.len()
            invariant
                i <= list.len(),
                latest == latest_sender(list@.take(i as int)),
            decreases list.len() - i,
        {
            assert(list@.take(i + 1).drop_last() =~= list@.take(i as int));
            latest = match latest {
                Some(best) => if list[i].1 >= best.1 {
                    Some(list[i])
                } else {
                    Some(best)
                },
                None => Some(list[i]),
            };
            i += 1;
        }
        assert(list@.take(list.len() as int) =~= list@);
        latest
    }

    /// The position of the sync senders of `domain`, or the number of
    /// domains where it has none.
    fn domain_position(&self, domain: u8) -> (at: usize)
        ensures
            at == first_index(domains_of(self@.recent_sync_senders), domain),
            at <= self.recent_sync_senders.len(),
            at < self.recent_sync_senders.len() ==> self.recent_sync_senders[at as int].0 == domain,
    {
        let ghost keys = domains_of(self@.recent_sync_senders);
        let mut i: usize = 0;
        while i < self.recent_sync_senders.len()
            invariant
                i <= self.recent_sync_senders.len(),
                keys == domains_of(self@.recent_sync_senders),
                forall|j: int| 0 <= j < i ==> keys[j] != domain,
            decreases self.recent_sync_senders.len() - i,
        {
            if self.recent_sync_senders[i].0 == domain {
                proof {
                    lemma_first_index_is(keys, domain, i as int);
                }
                return i;
            }
            i += 1;
        }
        proof {
            lemma_first_index_is(keys, domain, i as int);
        }
        i
    }

    /// Notes `id` as a sender of Sync in `domain` at the monotonic time
    /// `now`.
    pub fn note_sync_sender(&mut self, domain: u8, id: ClockIdentity, now: u64)
        ensures
            final(self)@ == (TrackerView {
                recent_sync_senders: with_sync_sender(
                    old(self)@.recent_sync_senders,
                    domain,
                    id,
                    now,
                ),
                ..old(self)@
            }),
            final(self).interfaces == old(self).interfaces,
            final(self).raw_socket_receiver == old(self).raw_socket_receiver,
            old(self)@.well_formed() ==> final(self)@.well_formed(),
    {
        proof {
            if old(self)@.well_formed() {
                lemma_with_sync_sender_well_formed(old(self)@, domain, id, now);
            }
        }
        let ghost before = old(self)@.recent_sync_senders;
        let at: usize = self.domain_position(domain);
        if at == self.recent_sync_senders.len() {
            let mut list: Vec<(ClockIdentity, u64)> = Vec::new();
            list.push((id, now));
            assert(list@ =~= seq![(id, now)]);
            self.recent_sync_senders.push((domain, list));
            assert(senders_view(self.recent_sync_senders@) =~= before.push(
                (domain, seq![(id, now)]),
            ));
        } else {
            note_sender(&mut self.recent_sync_senders[at].1, id, now);
            assert(senders_view(self.recent_sync_senders@) =~= before.update(
                at as int,
                (domain, with_sender(before[at as int].1, id, now)),
            ));
        }
    }

    /// Decodes the payload of the frame `raw_packet` and records the
    /// message for the hosts it concerns; `now` is the monotonic time and
    /// `wall_clock` the wall-clock time of the processing. A frame whose
    /// payload does not decode is dropped and changes nothing.
    pub fn handle_raw_packet(&mut self, raw_packet: Arc<RawPacket>, now: u64, wall_clock: u64)
        ensures
            final(self)@ == old(self)@.after_frame(raw_packet, now, wall_clock),
            final(self).interfaces == old(self).interfaces,
            final(self).raw_socket_receiver == old(self).raw_socket_receiver,
            old(self)@.well_formed() ==> final(self)@.well_formed(),
    {
        proof {
            if old(self)@.well_formed() {
                lemma_after_frame_well_formed(old(self)@, raw_packet, now, wall_clock);
            }
        }
        let msg = match PtpMessage::try_from(raw_packet.ptp_payload.as_slice()) {
            Ok(m) => m,
            Err(_) => {
                return;
            },
        };
        let packet = Rc::new(ParsedPacket { ptp: msg, raw: raw_packet });
        let sender = msg.header().source_port_identity.clock_identity;
        let domain: u8 = msg.header().domain_number;
        let recent = self.latest_sync_sender(domain);
        let s: usize = self.resolve_host(sender, wall_clock);
        let ghost known = self@.hosts;
        self.hosts[s].record_sent(&packet, now, recent);
        assert(hosts_view(self.hosts@) =~= known.update(
            s as int,
            known[s as int].after_sending(*packet, now, recent),
        ));
        let requester = match msg {
            PtpMessage::DelayResp(m) => Some(m.requesting_port_identity.clock_identity),
            PtpMessage::PDelayResp(m) => Some(m.requesting_port_identity.clock_identity),
            PtpMessage::PDelayRespFollowup(m) => Some(m.requesting_port_identity.clock_identity),
            _ => None,
        };
        match requester {
            Some(id) => {
                let r: usize = self.resolve_host(id, wall_clock);
                let ghost all = self@.hosts;
                self.hosts[r].record_received(&packet);
                assert(hosts_view(self.hosts@) =~= all.update(
                    r as int,
                    all[r as int].after_receiving(*packet),
                ));
            },
            None => {},
        }
        match msg {
            PtpMessage::Sync(_) => {
                self.note_sync_sender(domain, sender, now);
            },
            _ => {},
        }
        self.last_packet = now;
    }

    /// Takes at most [`BATCH_SIZE`] frames out of the queue and handles
    /// them, oldest first; frames beyond that stay queued for the next
    /// cycle.
    pub fn process_ptp_messages(&mut self, now: u64, wall_clock: u64)
        ensures
            final(self)@ == old(self)@.after_frames(BATCH_SIZE as nat, now, wall_clock),
            final(self).interfaces == old(self).interfaces,
            final(self).raw_socket_receiver.interfaces == old(self).raw_socket_receiver.interfaces,
            final(self).raw_socket_receiver.last_timestamp == old(
                self,
            ).raw_socket_receiver.last_timestamp,
            old(self)@.well_formed() ==> final(self)@.well_formed(),
    {
        proof {
            if old(self)@.well_formed() {
                lemma_after_frames_well_formed(old(self)@, BATCH_SIZE as nat, now, wall_clock);
            }
        }
        let mut left: usize = BATCH_SIZE;
        while left > 0
            invariant
                self@.after_frames(left as nat, now, wall_clock) == old(self)@.after_frames(
                    BATCH_SIZE as nat,
                    now,
                    wall_clock,
                ),
                self.interfaces == old(self).interfaces,
                self.raw_socket_receiver.interfaces == old(self).raw_socket_receiver.interfaces,
                self.raw_socket_receiver.last_timestamp == old(
                    self,
                ).raw_socket_receiver.last_timestamp,
            decreases left,
        {
            let ghost before = self@;
            match self.raw_socket_receiver.try_recv() {
                Some(raw_packet) => {
                    let ghost taken = self@;
                    assert(taken == (TrackerView { queue: before.queue.skip(1), ..before }));
                    self.handle_raw_packet(Arc::new(raw_packet), now, wall_clock);
                    self.last_packet = now;
                    left = left - 1;
                },
                None => {
                    left = 0;
                },
            }
        }
    }

    /// Forgets the sync senders whose last Sync is sixty seconds old or
    /// older at the monotonic time `now`, and the domains that are left
    /// with no sender.
    pub fn cleanup_old_sync_senders(&mut self, now: u64)
        ensures
            final(self)@ == old(self)@.after_cleanup(now),
            final(self).interfaces == old(self).interfaces,
            final(self).raw_socket_receiver == old(self).raw_socket_receiver,
            old(self)@.well_formed() ==> final(self)@.well_formed(),
    {
        proof {
            if old(self)@.well_formed() {
                lemma_after_cleanup_well_formed(old(self)@, now);
            }
        }
        let ghost before = old(self)@.recent_sync_senders;
        let mut kept: Vec<DomainSenders> = Vec::new();
        let mut i: usize = 0;
        while i < self.recent_sync_senders.len()
            invariant
                i <= self.recent_sync_senders.len(),
                *self == *old(self),
                before == senders_view(self.recent_sync_senders@),
                senders_view(kept@) == pruned(before.take(i as int), now),
            decreases self.recent_sync_senders.len() - i,
        {
            let recent = retain_recent(&self.recent_sync_senders[i].1, now);
            assert(before.take(i + 1).drop_last() =~= before.take(i as int));
            assert(before.take(i + 1).last() == before[i as int]);
            if recent.len() > 0 {
                let ghost previous = senders_view(kept@);
                kept.push((self.recent_sync_senders[i].0, recent));
                assert(senders_view(kept@) =~= previous.push(
                    (before[i as int].0, recent_of(before[i as int].1, now)),
                ));
            }
            i += 1;
        }
        assert(before.take(before.len() as int) =~= before);
        self.recent_sync_senders = kept;
    }

    /// All hosts, transmitters first; within the transmitters and within
    /// the others, in the order of first sight.
    pub fn get_hosts(&self) -> (hosts: Vec<&PtpHost>)
        ensures
            views_of(hosts@) == transmitters_of(self@.hosts) + others_of(self@.hosts),
    {
        let ghost all = self@.hosts;
        let mut hosts: Vec<&PtpHost> = Vec::new();
        let mut i: usize = 0;
        while i < self.hosts.len()
            invariant
                i <= self.hosts.len(),
                all == self@.hosts,
                views_of(hosts@) == transmitters_of(all.take(i as int)),
            decreases self.hosts.len() - i,
        {
            assert(all.take(i + 1).drop_last() =~= all.take(i as int));
            let ghost previous = views_of(hosts@);
            if self.hosts[i].is_transmitter() {
                hosts.push(&self.hosts[i]);
                assert(views_of(hosts@) =~= previous.push(all[i as int]));
            }
            i += 1;
        }
        assert(all.take(all.len() as int) =~= all);
        let ghost first = views_of(hosts@);
        let mut i: usize = 0;
        while i < self.hosts.len()
            invariant
                i <= self.hosts.len(),
                all == self@.hosts,
                views_of(hosts@) == first + others_of(all.take(i as int)),
            decreases self.hosts.len() - i,
        {
            assert(all.take(i + 1).drop_last() =~= all.take(i as int));
            let ghost previous = views_of(hosts@);
            if !self.hosts[i].is_transmitter() {
                hosts.push(&self.hosts[i]);
                assert(views_of(hosts@) =~= previous.push(all[i as int]));
                assert(previous.push(all[i as int]) =~= first + others_of(all.take(i as int)).push(
                    all[i as int],
                ));
            }
            i += 1;
        }
        hosts
    }

    /// The host with the clock identity `clock_identity`, if it has been
    /// observed.
    pub fn get_host_by_clock_identity(&self, clock_identity: &ClockIdentity) -> (host: Option<
        &PtpHost,
    >)
        ensures
            match host {
                Some(found) => first_index(identities(self@.hosts), *clock_identity)
                    < self.hosts.len() && *found == self.hosts[first_index(
                    identities(self@.hosts),
                    *clock_identity,
                )],
                None => !identities(self@.hosts).contains(*clock_identity),
            },
    {
        let at: usize = self.host_position(*clock_identity);
        proof {
            lemma_first_index(identities(self@.hosts), *clock_identity);
        }
        if at < self.hosts.len() {
            Some(&self.hosts[at])
        } else {
            None
        }
    }

    /// Forgets every host.
    pub fn clear_hosts(&mut self)
        ensures
            final(self)@ == (TrackerView { hosts: Seq::empty(), ..old(self)@ }),
            final(self).interfaces == old(self).interfaces,
            final(self).raw_socket_receiver == old(self).raw_socket_receiver,
    {
        self.hosts.clear();
        assert(hosts_view(self.hosts@) =~= Seq::empty());
    }

    /// The number of hosts that are transmitters.
    pub fn get_transmitter_count(&self) -> (count: usize)
        ensures
            count == transmitters_of(self@.hosts).len(),
    {
        let ghost all = self@.hosts;
        let mut count: usize = 0;
        let mut i: usize = 0;
        while i < self.hosts.len()
            invariant
                i <= self.hosts.len(),
                all == self@.hosts,
                count == transmitters_of(all.take(i as int)).len(),
                count <= i,
            decreases self.hosts.len() - i,
        {
            assert(all.take(i + 1).drop_last() =~= all.take(i as int));
            if self.hosts[i].is_transmitter() {
                count += 1;
            }
            i += 1;
        }
        assert(all.take(all.len() as int) =~= all);
        count
    }

    /// The number of hosts that are receivers.
    pub fn get_receiver_count(&self) -> (count: usize)
        ensures
            count == receivers_of(self@.hosts).len(),
    {
        let ghost all = self@.hosts;
        let mut count: usize = 0;
        let mut i: usize = 0;
        while i < self.hosts.len()
            invariant
                i <= self.hosts.len(),
                all == self@.hosts,
                count == receivers_of(all.take(i as int)).len(),
                count <= i,
            decreases self.hosts.len() - i,
        {
            assert(all.take(i + 1).drop_last() =~= all.take(i as int));
            if self.hosts[i].is_receiver() {
                count += 1;
            }
            i += 1;
        }
        assert(all.take(all.len() as int) =~= all);
        count
    }

    /// The time since the last frame was processed, in nanoseconds, at the
    /// monotonic time `now`.
    pub fn get_last_packet_age(&self, now: u64) -> (age: u64)
        ensures
            age == elapsed(self.last_packet, now),
    {
        now.saturating_sub(self.last_packet)
    }

    /// Sets the capacity of the history of every host.
    pub fn set_max_packet_history(&mut self, max_history: usize)
        ensures
            final(self)@ == (TrackerView {
                hosts: Seq::new(
                    old(self)@.hosts.len(),
                    |i: int| old(self)@.hosts[i].with_max_packet_history(max_history),
                ),
                ..old(self)@
            }),
            final(self).interfaces == old(self).interfaces,
            final(self).raw_socket_receiver == old(self).raw_socket_receiver,
    {
        let ghost before = old(self)@.hosts;
        let mut i: usize = 0;
        while i < self.hosts.len()
            invariant
                i <= self.hosts.len(),
                self.hosts.len() == before.len(),
                forall|j: int|
                    0 <= j < i ==> (#[trigger] self.hosts[j])@
                        == before[j].with_max_packet_history(max_history),
                forall|j: int| i <= j < before.len() ==> (#[trigger] self.hosts[j])@ == before[j],
                self.last_packet == old(self).last_packet,
                self.recent_sync_senders == old(self).recent_sync_senders,
                self.interfaces == old(self).interfaces,
                self.raw_socket_receiver == old(self).raw_socket_receiver,
            decreases self.hosts.len() - i,
        {
            let ghost current = self.hosts@;
            self.hosts[i].set_max_packet_history(max_history);
            assert forall|j: int| 0 <= j < i + 1 implies (#[trigger] self.hosts[j])@
                == before[j].with_max_packet_history(max_history) by {
                if j < i {
                    assert(self.hosts[j] == current[j]);
                }
            }
            assert forall|j: int| i + 1 <= j < before.len() implies (#[trigger] self.hosts[j])@
                == before[j] by {
                assert(self.hosts[j] == current[j]);
            }
            i += 1;
        }
        assert(hosts_view(self.hosts@) =~= Seq::new(
            before.len(),
            |i: int| before[i].with_max_packet_history(max_history),
        ));
    }

    /// The history of the host with identity `clock_identity`, oldest
    /// packet first; `None` where the host is unknown.
    pub fn get_host_packet_history(&self, clock_identity: ClockIdentity) -> (history: Option<
        Vec<ParsedPacket>,
    >)
        ensures
            match history {
                Some(packets) => first_index(identities(self@.hosts), clock_identity)
                    < self.hosts.len() && packets@ == self@.hosts[first_index(
                    identities(self@.hosts),
                    clock_identity,
                )].packet_history,
                None => !identities(self@.hosts).contains(clock_identity),
            },
    {
        let at: usize = self.host_position(clock_identity);
        proof {
            lemma_first_index(identities(self@.hosts), clock_identity);
        }
        if at < self.hosts.len() {
            Some(self.hosts[at].get_packet_history())
        } else {
            None
        }
    }

    /// Empties the history of the host with identity `clock_identity`;
    /// nothing changes where the host is unknown.
    pub fn clear_host_packet_history(&mut self, clock_identity: ClockIdentity)
        ensures
            final(self)@ == (TrackerView {
                hosts: if first_index(identities(old(self)@.hosts), clock_identity) < old(
                    self,
                )@.hosts.len() {
                    old(self)@.hosts.update(
                        first_index(identities(old(self)@.hosts), clock_identity),
                        old(self)@.hosts[first_index(
                            identities(old(self)@.hosts),
                            clock_identity,
                        )].without_packets(),
                    )
                } else {
                    old(self)@.hosts
                },
                ..old(self)@
            }),
            final(self).interfaces == old(self).interfaces,
            final(self).raw_socket_receiver == old(self).raw_socket_receiver,
    {
        let at: usize = self.host_position(clock_identity);
        if at < self.hosts.len() {
            self.hosts[at].clear_packet_history();
            assert(hosts_view(self.hosts@) =~= old(self)@.hosts.update(
                at as int,
                old(self)@.hosts[at as int].without_packets(),
            ));
        }
    }

    /// Empties the history of every host.
    pub fn clear_all_packet_histories(&mut self)
        ensures
            final(self)@ == (TrackerView {
                hosts: Seq::new(
                    old(self)@.hosts.len(),
                    |i: int| old(self)@.hosts[i].without_packets(),
                ),
                ..old(self)@
            }),
            final(self).interfaces == old(self).interfaces,
            final(self).raw_socket_receiver == old(self).raw_socket_receiver,
    {
        let ghost before = old(self)@.hosts;
        let mut i: usize = 0;
        while i < self.hosts.len()
            invariant
                i <= self.hosts.len(),
                self.hosts.len() == before.len(),
                forall|j: int|
                    0 <= j < i ==> (#[trigger] self.hosts[j])@ == before[j].without_packets(),
                forall|j: int| i <= j < before.len() ==> (#[trigger] self.hosts[j])@ == before[j],
                self.last_packet == old(self).last_packet,
                self.recent_sync_senders == old(self).recent_sync_senders,
                self.interfaces == old(self).interfaces,
                self.raw_socket_receiver == old(self).raw_socket_receiver,
            decreases self.hosts.len() - i,
        {
            let ghost current = self.hosts@;
            self.hosts[i].clear_packet_history();
            assert forall|j: int| 0 <= j < i + 1 implies (#[trigger] self.hosts[j])@
                == before[j].without_packets() by {
                if j < i {
                    assert(self.hosts[j] == current[j]);
                }
            }
            assert forall|j: int| i + 1 <= j < before.len() implies (#[trigger] self.hosts[j])@
                == before[j] by {
                assert(self.hosts[j] == current[j]);
            }
            i += 1;
        }
        assert(hosts_view(self.hosts@) =~= Seq::new(
            before.len(),
            |i: int| before[i].without_packets(),
        ));
    }

    /// The addresses of the monitored interfaces that have one.
    pub fn get_local_ips(&self) -> (ips: Vec<IpAddress>)
        ensures
            ips@ == local_ips_of(self.interfaces@),
    {
        let mut ips: Vec<IpAddress> = Vec::new();
        let mut i: usize = 0;
        while i < self.interfaces.len()
            invariant
                i <= self.interfaces.len(),
                ips@ == local_ips_of(self.interfaces@.take(i as int)),
            decreases self.interfaces.len() - i,
        {
            assert(self.interfaces@.take(i + 1).drop_last() =~= self.interfaces@.take(i as int));
            match self.interfaces[i].1 {
                Some(address) => {
                    ips.push(IpAddress::V4(address));
                },
                None => {},
            }
            i += 1;
        }
        assert(self.interfaces@.take(self.interfaces.len() as int) =~= self.interfaces@);
        ips
    }
}

/// The senders of `list` whose Sync is less than sixty seconds old at
/// `now`.
fn retain_recent(list: &Vec<(ClockIdentity, u64)>, now: u64) -> (kept: Vec<(ClockIdentity, u64)>)
    ensures
        kept@ == recent_of(list@, now),
{
    let mut kept: Vec<(ClockIdentity, u64)> = Vec::new();
    let mut i: usize = 0;
    while i < list.len()
        invariant
            i <= list.len(),
            kept@ == recent_of(list@.take(i as int), now),
        decreases list.len() - i,
    {
        assert(list@.take(i + 1).drop_last() =~= list@.take(i as int));
        if now.saturating_sub(list[i].1) < SYNC_SENDER_TIMEOUT {
            kept.push(list[i]);
        }
        i += 1;
    }
    assert(list@.take(list.len() as int) =~= list@);
    kept
}

/// Notes `id` in `list` at `now`: its time is replaced where it is listed,
/// else it is appended.
fn note_sender(list: &mut Vec<(ClockIdentity, u64)>, id: ClockIdentity, now: u64)
    ensures
        final(list)@ == with_sender(old(list)@, id, now),
{
    let ghost keys = senders_of(old(list)@);
    let mut i: usize = 0;
    while i < list.len()
        invariant
            i <= list.len(),
            *list == *old(list),
            keys == senders_of(list@),
            forall|j: int| 0 <= j < i ==> keys[j] != id,
        decreases list.len() - i,
    {
        if list[i].0 == id {
            proof {
                lemma_first_index_is(keys, id, i as int);
            }
            list[i] = (id, now);
            assert(list@ =~= old(list)@.update(i as int, (id, now)));
            return;
        }
        i += 1;
    }
    proof {
        lemma_first_index_is(keys, id, i as int);
    }
    list.push((id, now));
}

/// Looking a host up, and creating it where it is unknown, keeps one
/// record per clock identity, and afterwards the host is found.
pub proof fn lemma_with_host_keeps_identities_distinct(
    hosts: Seq<HostView>,
    id: ClockIdentity,
    wall_clock: u64,
)
    requires
        all_distinct(identities(hosts)),
    ensures
        all_distinct(identities(with_host(hosts, id, wall_clock))),
        first_index(identities(with_host(hosts, id, wall_clock)), id) < with_host(
            hosts,
            id,
            wall_clock,
        ).len(),
        with_host(hosts, id, wall_clock)[first_index(
            identities(with_host(hosts, id, wall_clock)),
            id,
        )].clock_identity == id,
{
    let before = identities(hosts);
    let after = identities(with_host(hosts, id, wall_clock));
    lemma_first_index(before, id);
    if first_index(before, id) >= hosts.len() {
        assert forall|i: int, j: int| 0 <= i < j < after.len() implies after[i] != after[j] by {
            assert(after[i] == before[i]);
            if j < before.len() {
                assert(after[j] == before[j]);
            } else {
                assert(after[j] == id);
                assert(before.contains(before[i]));
            }
        }
        assert forall|j: int| 0 <= j < hosts.len() implies after[j] != id by {
            assert(after[j] == before[j]);
            assert(before.contains(before[j]));
        }
        lemma_first_index_is(after, id, hosts.len() as int);
    }
}

/// Handling a message keeps one record per clock identity: where no two
/// hosts shared an identity before, none do afterwards.
pub proof fn lemma_after_message_keeps_identities_distinct(
    tracker: TrackerView,
    packet: ParsedPacket,
    now: u64,
    wall_clock: u64,
)
    requires
        all_distinct(identities(tracker.hosts)),
    ensures
        all_distinct(identities(tracker.after_message(packet, now, wall_clock).hosts)),
{
    let header = packet.ptp.header_of();
    let sender = header.source_port_identity.clock_identity;
    let recent = latest_sender_in(tracker.recent_sync_senders, header.domain_number);
    let known = with_host(tracker.hosts, sender, wall_clock);
    lemma_with_host_keeps_identities_distinct(tracker.hosts, sender, wall_clock);
    let s = first_index(identities(known), sender);
    lemma_first_index(identities(known), sender);
    lemma_sender_is_located(known[s], packet, now, recent);
    let sent = known.update(s, known[s].after_sending(packet, now, recent));
    assert(identities(sent) =~= identities(known));
    match addressee(packet.ptp) {
        Some(requester) => {
            let all = with_host(sent, requester, wall_clock);
            lemma_with_host_keeps_identities_distinct(sent, requester, wall_clock);
            let r = first_index(identities(all), requester);
            lemma_first_index(identities(all), requester);
            lemma_receiver_keeps_identity(all[r], packet);
            let received = all.update(r, all[r].after_receiving(packet));
            assert(identities(received) =~= identities(all));
        },
        None => {},
    }
}

/// Attributing a message to a host as its addressee changes neither its
/// identity nor where it was seen.
pub proof fn lemma_receiver_keeps_identity(host: HostView, packet: ParsedPacket)
    ensures
        host.after_receiving(packet).clock_identity == host.clock_identity,
        host.after_receiving(packet).ip_addresses == host.ip_addresses,
        host.after_receiving(packet).interfaces == host.interfaces,
{
}

/// Once a message has been attributed to a host as its sender, the host
/// has an address entry or an interface entry.
pub proof fn lemma_sender_is_located(
    host: HostView,
    packet: ParsedPacket,
    now: u64,
    recent: Option<(ClockIdentity, u64)>,
)
    ensures
        host.after_sending(packet, now, recent).ip_addresses.len() > 0 || host.after_sending(
            packet,
            now,
            recent,
        ).interfaces.len() > 0,
        host.after_sending(packet, now, recent).clock_identity == host.clock_identity,
{
    let raw = *packet.raw;
    match raw.source_addr {
        Some(address) => {
            lemma_first_index(crate::host::addresses_of(host.ip_addresses), address.ip);
        },
        None => {
            let name = raw.interface_name@;
            if host.interfaces.contains(name) {
                let k = choose|k: int| 0 <= k < host.interfaces.len() && host.interfaces[k] == name;
            }
        },
    }
}

} // verus!
