//! What holds of every host and of the whole registry at all times, and
//! the proofs that every step of the tracker keeps it so.
//!
//! A host lists no address twice, no interface name twice, no address
//! without an interface, and no more packets than its history may hold.
//! The registry has one record per clock identity, one list of sync
//! senders per domain, no sender twice in a list and no empty list.

use vstd::prelude::*;
use std::sync::Arc;
use crate::election::{elected, host_elected};
use crate::history::most_recent;
use crate::host::{addresses_of, with_name, HostView};
use crate::identity::ClockIdentity;
use crate::lookup::{all_distinct, first_index, lemma_first_index};
use crate::messages::PtpMessage;
use crate::packet::{IpAddress, ParsedPacket, RawPacket};
use crate::tracker::{
    addressee, domains_of, identities, latest_sender_in,
    lemma_with_host_keeps_identities_distinct, pruned, recent_of, senders_of, with_host,
    with_sender, with_sync_sender, TrackerView,
};

verus! {

impl HostView {
    /// Whether the host lists no address twice, no interface name twice,
    /// no address without an interface name, and no more packets than its
    /// history may hold.
    pub open spec fn well_formed(self) -> bool {
        &&& all_distinct(addresses_of(self.ip_addresses))
        &&& all_distinct(self.interfaces)
        &&& forall|e: int|
            0 <= e < self.ip_addresses.len() ==> (#[trigger] self.ip_addresses[e]).1.len() > 0
                && all_distinct(self.ip_addresses[e].1)
        &&& self.packet_history.len() <= self.max_packet_history
    }
}

impl TrackerView {
    /// Whether the registry has one record per clock identity, every
    /// record well formed, one list of sync senders per domain, no sender
    /// twice in a list and no empty list.
    pub open spec fn well_formed(self) -> bool {
        &&& all_distinct(identities(self.hosts))
        &&& forall|i: int| 0 <= i < self.hosts.len() ==> (#[trigger] self.hosts[i]).well_formed()
        &&& all_distinct(domains_of(self.recent_sync_senders))
        &&& forall|d: int|
            0 <= d < self.recent_sync_senders.len() ==> (
            #[trigger] self.recent_sync_senders[d]).1.len() > 0 && all_distinct(
                senders_of(self.recent_sync_senders[d].1),
            )
    }
}

/// Adding a name to names without repetitions leaves them without
/// repetitions, and not empty.
pub proof fn lemma_with_name_distinct(names: Seq<Seq<char>>, name: Seq<char>)
    requires
        all_distinct(names),
    ensures
        all_distinct(with_name(names, name)),
        with_name(names, name).len() > 0,
        with_name(names, name).contains(name),
{
    if names.contains(name) {
        let k = choose|k: int| 0 <= k < names.len() && names[k] == name;
    } else {
        let after = names.push(name);
        assert forall|i: int, j: int| 0 <= i < j < after.len() implies after[i] != after[j] by {
            if j == names.len() {
                assert(names.contains(names[i]));
            }
        }
        assert(after[names.len() as int] == name);
    }
}

/// A fresh host is well formed.
pub proof fn lemma_fresh_host_well_formed(id: ClockIdentity, last_seen: u64)
    ensures
        HostView::fresh(id, last_seen).well_formed(),
        HostView::fresh(id, last_seen).clock_identity == id,
{
}

/// Recording an interface keeps a host well formed.
pub proof fn lemma_with_interface_well_formed(host: HostView, name: Seq<char>)
    requires
        host.well_formed(),
    ensures
        host.with_interface(name).well_formed(),
        host.with_interface(name).interfaces.contains(name),
{
    lemma_with_name_distinct(host.interfaces, name);
    let after = host.with_interface(name);
    assert forall|e: int| 0 <= e < after.ip_addresses.len() implies (
    #[trigger] after.ip_addresses[e]).1.len() > 0 && all_distinct(after.ip_addresses[e].1) by {
        assert(after.ip_addresses[e] == host.ip_addresses[e]);
    }
}

/// Recording an address with an interface keeps a host well formed.
pub proof fn lemma_with_ip_address_well_formed(
    host: HostView,
    ip: IpAddress,
    vlan_id: Option<u16>,
    name: Seq<char>,
)
    requires
        host.well_formed(),
    ensures
        host.with_ip_address(ip, vlan_id, name).well_formed(),
        addresses_of(host.with_ip_address(ip, vlan_id, name).ip_addresses).contains(ip),
{
    let keys = addresses_of(host.ip_addresses);
    let at = first_index(keys, ip);
    lemma_first_index(keys, ip);
    let after = host.with_ip_address(ip, vlan_id, name);
    let new_keys = addresses_of(after.ip_addresses);
    if at < host.ip_addresses.len() {
        lemma_with_name_distinct(host.ip_addresses[at].1, name);
        assert(new_keys =~= keys);
        assert forall|e: int| 0 <= e < after.ip_addresses.len() implies (
        #[trigger] after.ip_addresses[e]).1.len() > 0 && all_distinct(
            after.ip_addresses[e].1,
        ) by {
            if e != at {
                assert(after.ip_addresses[e] == host.ip_addresses[e]);
            }
        }
        assert(new_keys[at] == ip);
    } else {
        assert forall|i: int, j: int| 0 <= i < j < new_keys.len() implies new_keys[i]
            != new_keys[j] by {
            assert(new_keys[i] == keys[i]);
            if j < keys.len() {
                assert(new_keys[j] == keys[j]);
            } else {
                assert(keys.contains(keys[i]));
            }
        }
        assert forall|e: int| 0 <= e < after.ip_addresses.len() implies (
        #[trigger] after.ip_addresses[e]).1.len() > 0 && all_distinct(
            after.ip_addresses[e].1,
        ) by {
            if e < host.ip_addresses.len() {
                assert(after.ip_addresses[e] == host.ip_addresses[e]);
            }
        }
        assert(new_keys[host.ip_addresses.len() as int] == ip);
    }
}

/// Appending a packet to the history keeps a host well formed.
pub proof fn lemma_with_packet_well_formed(host: HostView, packet: ParsedPacket)
    requires
        host.well_formed(),
    ensures
        host.with_packet(packet).well_formed(),
{
    let after = host.with_packet(packet);
    assert(most_recent(host.packet_history.push(packet), host.max_packet_history as nat).len()
        <= host.max_packet_history);
    assert forall|e: int| 0 <= e < after.ip_addresses.len() implies (
    #[trigger] after.ip_addresses[e]).1.len() > 0 && all_distinct(after.ip_addresses[e].1) by {
        assert(after.ip_addresses[e] == host.ip_addresses[e]);
    }
}

/// Changing the capacity of the history, or emptying it, keeps a host well
/// formed.
pub proof fn lemma_history_changes_well_formed(host: HostView, max_history: usize)
    requires
        host.well_formed(),
    ensures
        host.with_max_packet_history(max_history).well_formed(),
        host.without_packets().well_formed(),
{
    let resized = host.with_max_packet_history(max_history);
    assert forall|e: int| 0 <= e < resized.ip_addresses.len() implies (
    #[trigger] resized.ip_addresses[e]).1.len() > 0 && all_distinct(
        resized.ip_addresses[e].1,
    ) by {
        assert(resized.ip_addresses[e] == host.ip_addresses[e]);
    }
    let emptied = host.without_packets();
    assert forall|e: int| 0 <= e < emptied.ip_addresses.len() implies (
    #[trigger] emptied.ip_addresses[e]).1.len() > 0 && all_distinct(
        emptied.ip_addresses[e].1,
    ) by {
        assert(emptied.ip_addresses[e] == host.ip_addresses[e]);
    }
}

/// A host stays well formed when only fields other than its addresses,
/// its interfaces and its history change.
pub proof fn lemma_same_collections_well_formed(before: HostView, after: HostView)
    requires
        before.well_formed(),
        after.ip_addresses == before.ip_addresses,
        after.interfaces == before.interfaces,
        after.packet_history == before.packet_history,
        after.max_packet_history == before.max_packet_history,
    ensures
        after.well_formed(),
{
    assert forall|e: int| 0 <= e < after.ip_addresses.len() implies (
    #[trigger] after.ip_addresses[e]).1.len() > 0 && all_distinct(after.ip_addresses[e].1) by {
        assert(after.ip_addresses[e] == before.ip_addresses[e]);
    }
}

/// Attributing a sent message to a host keeps it well formed.
pub proof fn lemma_after_sending_well_formed(
    host: HostView,
    packet: ParsedPacket,
    now: u64,
    recent: Option<(ClockIdentity, u64)>,
)
    requires
        host.well_formed(),
    ensures
        host.after_sending(packet, now, recent).well_formed(),
        host.after_sending(packet, now, recent).clock_identity == host.clock_identity,
{
    let raw: RawPacket = *packet.raw;
    let seen = host.seen_in(raw);
    match raw.source_addr {
        Some(address) => {
            lemma_with_ip_address_well_formed(
                host,
                address.ip,
                raw.vlan_id,
                raw.interface_name@,
            );
        },
        None => {
            lemma_with_interface_well_formed(host, raw.interface_name@);
        },
    }
    let counted = HostView {
        total_messages_sent_count: crate::host::bumped(seen.total_messages_sent_count),
        ..seen
    }.with_header(packet.ptp.header_of(), packet.raw.timestamp).counted(packet.ptp);
    lemma_same_collections_well_formed(seen, counted);
    let stated = HostView {
        state: HostView::state_after_sending(counted.state, packet.ptp, now, recent),
        ..counted
    };
    lemma_same_collections_well_formed(counted, stated);
    lemma_with_packet_well_formed(stated, packet);
}

/// Attributing a received message to a host keeps it well formed.
pub proof fn lemma_after_receiving_well_formed(host: HostView, packet: ParsedPacket)
    requires
        host.well_formed(),
    ensures
        host.after_receiving(packet).well_formed(),
        host.after_receiving(packet).clock_identity == host.clock_identity,
{
    let counted = HostView {
        total_messages_received_count: crate::host::bumped(host.total_messages_received_count),
        ..host
    }.counted(packet.ptp);
    lemma_same_collections_well_formed(host, counted);
    let stated = HostView {
        state: HostView::state_after_receiving(counted.state, packet.ptp),
        ..counted
    };
    lemma_same_collections_well_formed(counted, stated);
    lemma_with_packet_well_formed(stated, packet);
}

/// Whatever packet is attributed to a well-formed host, as sent, as
/// received or as one more of its history, the host stays well formed.
pub proof fn lemma_packets_keep_host_well_formed(host: HostView)
    requires
        host.well_formed(),
    ensures
        forall|packet: ParsedPacket, now: u64, recent: Option<(ClockIdentity, u64)>|
            (#[trigger] host.after_sending(packet, now, recent)).well_formed(),
        forall|packet: ParsedPacket| (#[trigger] host.after_receiving(packet)).well_formed(),
        forall|packet: ParsedPacket| (#[trigger] host.with_packet(packet)).well_formed(),
{
    assert forall|packet: ParsedPacket, now: u64, recent: Option<(ClockIdentity, u64)>|
        (#[trigger] host.after_sending(packet, now, recent)).well_formed() by {
        lemma_after_sending_well_formed(host, packet, now, recent);
    }
    assert forall|packet: ParsedPacket| (#[trigger] host.after_receiving(
        packet,
    )).well_formed() by {
        lemma_after_receiving_well_formed(host, packet);
    }
    assert forall|packet: ParsedPacket| (#[trigger] host.with_packet(packet)).well_formed() by {
        lemma_with_packet_well_formed(host, packet);
    }
}

/// Noting a sender in a list without repetitions leaves it without
/// repetitions, and not empty.
pub proof fn lemma_with_sender_distinct(
    list: Seq<(ClockIdentity, u64)>,
    id: ClockIdentity,
    now: u64,
)
    requires
        all_distinct(senders_of(list)),
    ensures
        all_distinct(senders_of(with_sender(list, id, now))),
        with_sender(list, id, now).len() > 0,
{
    let keys = senders_of(list);
    lemma_first_index(keys, id);
    let at = first_index(keys, id);
    let after = senders_of(with_sender(list, id, now));
    if at < list.len() {
        assert(after =~= keys);
    } else {
        assert forall|i: int, j: int| 0 <= i < j < after.len() implies after[i] != after[j] by {
            assert(after[i] == keys[i]);
            if j < keys.len() {
                assert(after[j] == keys[j]);
            } else {
                assert(keys.contains(keys[i]));
            }
        }
    }
}

/// Noting a sync sender keeps the lists of sync senders as they must be:
/// one per domain, none empty, no sender twice.
pub proof fn lemma_with_sync_sender_well_formed(
    tracker: TrackerView,
    domain: u8,
    id: ClockIdentity,
    now: u64,
)
    requires
        tracker.well_formed(),
    ensures
        (TrackerView {
            recent_sync_senders: with_sync_sender(tracker.recent_sync_senders, domain, id, now),
            ..tracker
        }).well_formed(),
{
    let senders = tracker.recent_sync_senders;
    let keys = domains_of(senders);
    lemma_first_index(keys, domain);
    let at = first_index(keys, domain);
    let after = with_sync_sender(senders, domain, id, now);
    let new_keys = domains_of(after);
    if at < senders.len() {
        lemma_with_sender_distinct(senders[at].1, id, now);
        assert(new_keys =~= keys);
        assert forall|d: int| 0 <= d < after.len() implies (#[trigger] after[d]).1.len() > 0
            && all_distinct(senders_of(after[d].1)) by {
            if d != at {
                assert(after[d] == senders[d]);
            }
        }
    } else {
        assert forall|i: int, j: int| 0 <= i < j < new_keys.len() implies new_keys[i]
            != new_keys[j] by {
            assert(new_keys[i] == keys[i]);
            if j < keys.len() {
                assert(new_keys[j] == keys[j]);
            } else {
                assert(keys.contains(keys[i]));
            }
        }
        assert forall|d: int| 0 <= d < after.len() implies (#[trigger] after[d]).1.len() > 0
            && all_distinct(senders_of(after[d].1)) by {
            if d < senders.len() {
                assert(after[d] == senders[d]);
            } else {
                assert(senders_of(after[d].1) =~= seq![id]);
            }
        }
    }
}

/// Looking a host up, and creating it where it is unknown, keeps every
/// record well formed.
pub proof fn lemma_with_host_well_formed(hosts: Seq<HostView>, id: ClockIdentity, wall_clock: u64)
    requires
        forall|i: int| 0 <= i < hosts.len() ==> (#[trigger] hosts[i]).well_formed(),
    ensures
        forall|i: int|
            0 <= i < with_host(hosts, id, wall_clock).len() ==> (#[trigger] with_host(
                hosts,
                id,
                wall_clock,
            )[i]).well_formed(),
{
    let after = with_host(hosts, id, wall_clock);
    assert forall|i: int| 0 <= i < after.len() implies (#[trigger] after[i]).well_formed() by {
        if i < hosts.len() {
            assert(after[i] == hosts[i]);
        } else {
            lemma_fresh_host_well_formed(id, wall_clock);
        }
    }
}

/// Handling a decoded message keeps the registry well formed.
pub proof fn lemma_after_message_well_formed(
    tracker: TrackerView,
    packet: ParsedPacket,
    now: u64,
    wall_clock: u64,
)
    requires
        tracker.well_formed(),
    ensures
        tracker.after_message(packet, now, wall_clock).well_formed(),
{
    let header = packet.ptp.header_of();
    let sender = header.source_port_identity.clock_identity;
    let recent = latest_sender_in(tracker.recent_sync_senders, header.domain_number);
    let known = with_host(tracker.hosts, sender, wall_clock);
    lemma_with_host_keeps_identities_distinct(tracker.hosts, sender, wall_clock);
    lemma_with_host_well_formed(tracker.hosts, sender, wall_clock);
    let s = first_index(identities(known), sender);
    lemma_first_index(identities(known), sender);
    lemma_after_sending_well_formed(known[s], packet, now, recent);
    let sent = known.update(s, known[s].after_sending(packet, now, recent));
    assert(identities(sent) =~= identities(known));
    assert forall|i: int| 0 <= i < sent.len() implies (#[trigger] sent[i]).well_formed() by {
        if i != s {
            assert(sent[i] == known[i]);
        }
    }
    let hosts = match addressee(packet.ptp) {
        Some(requester) => {
            let all = with_host(sent, requester, wall_clock);
            lemma_with_host_keeps_identities_distinct(sent, requester, wall_clock);
            lemma_with_host_well_formed(sent, requester, wall_clock);
            let r = first_index(identities(all), requester);
            lemma_first_index(identities(all), requester);
            lemma_after_receiving_well_formed(all[r], packet);
            let received = all.update(r, all[r].after_receiving(packet));
            assert(identities(received) =~= identities(all));
            assert forall|i: int| 0 <= i < received.len() implies (
            #[trigger] received[i]).well_formed() by {
                if i != r {
                    assert(received[i] == all[i]);
                }
            }
            received
        },
        None => sent,
    };
    match packet.ptp {
        PtpMessage::Sync(_) => {
            lemma_with_sync_sender_well_formed(tracker, header.domain_number, sender, now);
        },
        _ => {},
    }
}

/// Handling a frame, decoded or not, keeps the registry well formed.
pub proof fn lemma_after_frame_well_formed(
    tracker: TrackerView,
    raw: Arc<RawPacket>,
    now: u64,
    wall_clock: u64,
)
    requires
        tracker.well_formed(),
    ensures
        tracker.after_frame(raw, now, wall_clock).well_formed(),
{
    match PtpMessage::parse(raw.ptp_payload@) {
        Ok(msg) => {
            lemma_after_message_well_formed(
                tracker,
                ParsedPacket { ptp: msg, raw },
                now,
                wall_clock,
            );
        },
        Err(_) => {},
    }
}

/// Handling any number of queued frames keeps the registry well formed.
pub proof fn lemma_after_frames_well_formed(
    tracker: TrackerView,
    count: nat,
    now: u64,
    wall_clock: u64,
)
    requires
        tracker.well_formed(),
    ensures
        tracker.after_frames(count, now, wall_clock).well_formed(),
    decreases count,
{
    if count == 0 || tracker.queue.len() == 0 {
    } else {
        let taken = TrackerView { queue: tracker.queue.skip(1), ..tracker };
        lemma_after_frame_well_formed(taken, Arc::new(tracker.queue[0]), now, wall_clock);
        let handled = TrackerView {
            last_packet: now,
            ..taken.after_frame(Arc::new(tracker.queue[0]), now, wall_clock)
        };
        lemma_after_frames_well_formed(handled, (count - 1) as nat, now, wall_clock);
    }
}

/// The senders that a prune leaves are listed once each.
pub proof fn lemma_recent_of_distinct(list: Seq<(ClockIdentity, u64)>, now: u64)
    requires
        all_distinct(senders_of(list)),
    ensures
        all_distinct(senders_of(recent_of(list, now))),
        forall|i: int|
            0 <= i < recent_of(list, now).len() ==> senders_of(list).contains(
                #[trigger] recent_of(list, now)[i].0,
            ),
    decreases list.len(),
{
    if list.len() > 0 {
        let shorter = list.drop_last();
        let kept = recent_of(shorter, now);
        assert forall|i: int, j: int| 0 <= i < j < shorter.len() implies senders_of(shorter)[i]
            != senders_of(shorter)[j] by {
            assert(senders_of(shorter)[i] == senders_of(list)[i]);
            assert(senders_of(shorter)[j] == senders_of(list)[j]);
        }
        lemma_recent_of_distinct(shorter, now);
        let after = recent_of(list, now);
        assert forall|i: int| 0 <= i < after.len() implies senders_of(list).contains(
            #[trigger] after[i].0,
        ) by {
            if i < kept.len() {
                let k = choose|k: int|
                    0 <= k < senders_of(shorter).len() && senders_of(shorter)[k] == kept[i].0;
                assert(senders_of(list)[k] == kept[i].0);
            } else {
                assert(senders_of(list)[list.len() - 1] == after[i].0);
            }
        }
        assert forall|i: int, j: int| 0 <= i < j < after.len() implies senders_of(after)[i]
            != senders_of(after)[j] by {
            if j < kept.len() {
                assert(senders_of(kept)[i] != senders_of(kept)[j]);
            } else {
                let k = choose|k: int|
                    0 <= k < senders_of(shorter).len() && senders_of(shorter)[k] == kept[i].0;
                assert(senders_of(list)[k] == kept[i].0);
                assert(senders_of(list)[list.len() - 1] == after[j].0);
            }
        }
    }
}

/// The domains that a prune leaves are listed once each, each with
/// senders, and no sender twice.
pub proof fn lemma_pruned_well_formed(senders: Seq<(u8, Seq<(ClockIdentity, u64)>)>, now: u64)
    requires
        all_distinct(domains_of(senders)),
        forall|d: int|
            0 <= d < senders.len() ==> all_distinct(senders_of((#[trigger] senders[d]).1)),
    ensures
        all_distinct(domains_of(pruned(senders, now))),
        forall|d: int|
            0 <= d < pruned(senders, now).len() ==> (#[trigger] pruned(senders, now)[d]).1.len()
                > 0 && all_distinct(senders_of(pruned(senders, now)[d].1)),
        forall|d: int|
            0 <= d < pruned(senders, now).len() ==> domains_of(senders).contains(
                #[trigger] pruned(senders, now)[d].0,
            ),
    decreases senders.len(),
{
    if senders.len() > 0 {
        let shorter = senders.drop_last();
        let kept = pruned(shorter, now);
        let last = senders.last();
        assert forall|i: int, j: int| 0 <= i < j < shorter.len() implies domains_of(shorter)[i]
            != domains_of(shorter)[j] by {
            assert(domains_of(shorter)[i] == domains_of(senders)[i]);
            assert(domains_of(shorter)[j] == domains_of(senders)[j]);
        }
        assert forall|d: int| 0 <= d < shorter.len() implies all_distinct(
            senders_of((#[trigger] shorter[d]).1),
        ) by {
            assert(shorter[d] == senders[d]);
        }
        lemma_pruned_well_formed(shorter, now);
        lemma_recent_of_distinct(last.1, now);
        let after = pruned(senders, now);
        assert forall|d: int| 0 <= d < after.len() implies domains_of(senders).contains(
            #[trigger] after[d].0,
        ) by {
            if d < kept.len() {
                let k = choose|k: int|
                    0 <= k < domains_of(shorter).len() && domains_of(shorter)[k] == kept[d].0;
                assert(domains_of(senders)[k] == kept[d].0);
            } else {
                assert(domains_of(senders)[senders.len() - 1] == after[d].0);
            }
        }
        assert forall|d: int| 0 <= d < after.len() implies (#[trigger] after[d]).1.len() > 0
            && all_distinct(senders_of(after[d].1)) by {
            if d < kept.len() {
                assert(after[d] == kept[d]);
            }
        }
        assert forall|i: int, j: int| 0 <= i < j < after.len() implies domains_of(after)[i]
            != domains_of(after)[j] by {
            if j < kept.len() {
                assert(domains_of(kept)[i] != domains_of(kept)[j]);
            } else {
                let k = choose|k: int|
                    0 <= k < domains_of(shorter).len() && domains_of(shorter)[k] == kept[i].0;
                assert(domains_of(senders)[k] == kept[i].0);
                assert(domains_of(senders)[senders.len() - 1] == after[j].0);
            }
        }
    }
}

/// Pruning the sync senders keeps the registry well formed.
pub proof fn lemma_after_cleanup_well_formed(tracker: TrackerView, now: u64)
    requires
        tracker.well_formed(),
    ensures
        tracker.after_cleanup(now).well_formed(),
{
    lemma_pruned_well_formed(tracker.recent_sync_senders, now);
}

/// The election keeps the registry well formed.
pub proof fn lemma_after_election_well_formed(tracker: TrackerView)
    requires
        tracker.well_formed(),
    ensures
        tracker.after_election().well_formed(),
{
    let after = elected(tracker.hosts);
    assert(identities(after) =~= identities(tracker.hosts));
    assert forall|i: int| 0 <= i < after.len() implies (#[trigger] after[i]).well_formed() by {
        assert(after[i] == host_elected(tracker.hosts, i));
        lemma_same_collections_well_formed(tracker.hosts[i], after[i]);
    }
}

/// A whole scan cycle keeps the registry well formed.
pub proof fn lemma_after_scan_well_formed(tracker: TrackerView, now: u64, wall_clock: u64)
    requires
        tracker.well_formed(),
    ensures
        tracker.after_scan(now, wall_clock).well_formed(),
{
    let handled = tracker.after_frames(crate::tracker::BATCH_SIZE as nat, now, wall_clock);
    lemma_after_frames_well_formed(tracker, crate::tracker::BATCH_SIZE as nat, now, wall_clock);
    lemma_after_cleanup_well_formed(handled, now);
    lemma_after_election_well_formed(handled.after_cleanup(now));
}

} // verus!
