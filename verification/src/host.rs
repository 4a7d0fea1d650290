//! The record kept of one observed clock.

use vstd::prelude::*;
use std::rc::Rc;
use crate::header::{PtpCorrectionField, PtpHeader, PtpVersion};
use crate::history::{most_recent, BoundedVec};
use crate::identity::ClockIdentity;
use crate::invariants::{
    lemma_history_changes_well_formed,
    lemma_packets_keep_host_well_formed,
    lemma_with_interface_well_formed,
    lemma_with_ip_address_well_formed,
};
use crate::lookup::{
    all_distinct, first_index, lemma_first_index_is, lemma_without_repeats_adds_nothing,
    lemma_without_repeats_distinct, lemma_without_repeats_keeps, without_repeats,
};
use crate::vendor::VendorTable;
use crate::messages::PtpMessage;
use crate::packet::{IpAddress, ParsedPacket, RawPacket};
use crate::state::PtpHostState;

verus! {

/// The number of packets that a host keeps in its history unless told
/// otherwise.
pub const DEFAULT_MAX_PACKET_HISTORY: usize = 1000;

/// Everything that has been observed of one clock.
#[derive(Debug, Clone)]
pub struct PtpHost {
    pub clock_identity: ClockIdentity,
    /// For PTP over UDP: every source address seen, each with the names
    /// of the interfaces it was seen on, in the order of first sight.
    pub ip_addresses: Vec<(IpAddress, Vec<String>)>,
    /// For PTP carried directly by Ethernet: the names of the interfaces
    /// the host was seen on, in the order of first sight.
    pub interfaces: Vec<String>,
    pub vlan_id: Option<u16>,
    pub domain_number: Option<u8>,
    pub last_version: Option<PtpVersion>,
    /// When the host last sent a message, in nanoseconds since the Unix
    /// epoch.
    pub last_seen: u64,
    pub announce_count: u32,
    pub sync_count: u32,
    pub follow_up_count: u32,
    pub delay_req_count: u32,
    pub delay_resp_count: u32,
    pub pdelay_req_count: u32,
    pub pdelay_resp_count: u32,
    pub pdelay_resp_follow_up_count: u32,
    pub total_messages_sent_count: u32,
    pub total_messages_received_count: u32,
    pub signaling_message_count: u32,
    pub management_message_count: u32,
    pub state: PtpHostState,
    pub last_correction_field: Option<PtpCorrectionField>,
    pub packet_history: BoundedVec<Rc<ParsedPacket>>,
}

/// A host as plain values: its collections as sequences, its texts as
/// sequences of characters, its history as the packets themselves.
pub struct HostView {
    pub clock_identity: ClockIdentity,
    pub ip_addresses: Seq<(IpAddress, Seq<Seq<char>>)>,
    pub interfaces: Seq<Seq<char>>,
    pub vlan_id: Option<u16>,
    pub domain_number: Option<u8>,
    pub last_version: Option<PtpVersion>,
    pub last_seen: u64,
    pub announce_count: u32,
    pub sync_count: u32,
    pub follow_up_count: u32,
    pub delay_req_count: u32,
    pub delay_resp_count: u32,
    pub pdelay_req_count: u32,
    pub pdelay_resp_count: u32,
    pub pdelay_resp_follow_up_count: u32,
    pub total_messages_sent_count: u32,
    pub total_messages_received_count: u32,
    pub signaling_message_count: u32,
    pub management_message_count: u32,
    pub state: PtpHostState,
    pub last_correction_field: Option<PtpCorrectionField>,
    pub packet_history: Seq<ParsedPacket>,
    pub max_packet_history: usize,
}

/// A counter after one more message: it stops at the greatest value it
/// can hold.
pub open spec fn bumped(count: u32) -> u32 {
    if count == u32::MAX {
        count
    } else {
        (count + 1) as u32
    }
}

/// The time from `earlier` to `later` on one clock; zero where `earlier` is
/// the later of the two.
pub open spec fn elapsed(earlier: u64, later: u64) -> u64 {
    if later >= earlier {
        (later - earlier) as u64
    } else {
        0
    }
}

/// The names with `name` among them: appended where it was missing.
pub open spec fn with_name(names: Seq<Seq<char>>, name: Seq<char>) -> Seq<Seq<char>> {
    if names.contains(name) {
        names
    } else {
        names.push(name)
    }
}

/// The addresses of an address book, in its order.
pub open spec fn addresses_of(book: Seq<(IpAddress, Seq<Seq<char>>)>) -> Seq<IpAddress> {
    Seq::new(book.len(), |i: int| book[i].0)
}

/// The interface names of all entries of an address book, one entry after
/// the other.
pub open spec fn names_of(book: Seq<(IpAddress, Seq<Seq<char>>)>) -> Seq<Seq<char>>
    decreases book.len(),
{
    if book.len() == 0 {
        Seq::empty()
    } else {
        names_of(book.drop_last()) + book.last().1
    }
}

/// An address book as plain values.
pub open spec fn book_view(entries: Seq<(IpAddress, Vec<String>)>) -> Seq<
    (IpAddress, Seq<Seq<char>>),
> {
    Seq::new(entries.len(), |i: int| (entries[i].0, entries[i].1.deep_view()))
}

/// The packets that a sequence of shared handles refers to.
pub open spec fn packets_of(handles: Seq<Rc<ParsedPacket>>) -> Seq<ParsedPacket> {
    Seq::new(handles.len(), |i: int| *handles[i])
}

impl View for PtpHost {
    type V = HostView;

    open spec fn view(&self) -> HostView {
        HostView {
            clock_identity: self.clock_identity,
            ip_addresses: book_view(self.ip_addresses@),
            interfaces: self.interfaces.deep_view(),
            vlan_id: self.vlan_id,
            domain_number: self.domain_number,
            last_version: self.last_version,
            last_seen: self.last_seen,
            announce_count: self.announce_count,
            sync_count: self.sync_count,
            follow_up_count: self.follow_up_count,
            delay_req_count: self.delay_req_count,
            delay_resp_count: self.delay_resp_count,
            pdelay_req_count: self.pdelay_req_count,
            pdelay_resp_count: self.pdelay_resp_count,
            pdelay_resp_follow_up_count: self.pdelay_resp_follow_up_count,
            total_messages_sent_count: self.total_messages_sent_count,
            total_messages_received_count: self.total_messages_received_count,
            signaling_message_count: self.signaling_message_count,
            management_message_count: self.management_message_count,
            state: self.state,
            last_correction_field: self.last_correction_field,
            packet_history: packets_of(self.packet_history@),
            max_packet_history: self.packet_history.max_size,
        }
    }
}

impl HostView {
    /// The host of which only the identity is known, created at
    /// `last_seen`.
    pub open spec fn fresh(clock_identity: ClockIdentity, last_seen: u64) -> HostView {
        HostView {
            clock_identity,
            ip_addresses: Seq::empty(),
            interfaces: Seq::empty(),
            vlan_id: None,
            domain_number: None,
            last_version: None,
            last_seen,
            announce_count: 0,
            sync_count: 0,
            follow_up_count: 0,
            delay_req_count: 0,
            delay_resp_count: 0,
            pdelay_req_count: 0,
            pdelay_resp_count: 0,
            pdelay_resp_follow_up_count: 0,
            total_messages_sent_count: 0,
            total_messages_received_count: 0,
            signaling_message_count: 0,
            management_message_count: 0,
            state: PtpHostState::Listening,
            last_correction_field: None,
            packet_history: Seq::empty(),
            max_packet_history: DEFAULT_MAX_PACKET_HISTORY,
        }
    }

    /// This host once it has also been seen on the interface `name`
    /// without an IP address.
    pub open spec fn with_interface(self, name: Seq<char>) -> HostView {
        HostView { interfaces: with_name(self.interfaces, name), ..self }
    }

    /// This host once it has also been seen with the address `ip` on the
    /// interface `name`, in the VLAN `vlan_id`.
    ///
    /// The address is entered where it was not known, and `name` is added
    /// to the names of the address where it was missing. The VLAN is
    /// replaced.
    pub open spec fn with_ip_address(
        self,
        ip: IpAddress,
        vlan_id: Option<u16>,
        name: Seq<char>,
    ) -> HostView {
        let at = first_index(addresses_of(self.ip_addresses), ip);
        if at < self.ip_addresses.len() {
            HostView {
                vlan_id,
                ip_addresses: self.ip_addresses.update(
                    at,
                    (ip, with_name(self.ip_addresses[at].1, name)),
                ),
                ..self
            }
        } else {
            HostView { vlan_id, ip_addresses: self.ip_addresses.push((ip, seq![name])), ..self }
        }
    }

    /// This host after a message with `header` from it, seen at `seen`.
    pub open spec fn with_header(self, header: PtpHeader, seen: u64) -> HostView {
        HostView {
            domain_number: Some(header.domain_number),
            last_version: Some(header.version),
            last_correction_field: Some(header.correction_field),
            last_seen: seen,
            ..self
        }
    }

    /// This host with `packet` as the most recent of its history.
    pub open spec fn with_packet(self, packet: ParsedPacket) -> HostView {
        HostView {
            packet_history: most_recent(
                self.packet_history.push(packet),
                self.max_packet_history as nat,
            ),
            ..self
        }
    }

    /// This host with a history of at most `max_history` packets.
    pub open spec fn with_max_packet_history(self, max_history: usize) -> HostView {
        HostView {
            packet_history: most_recent(self.packet_history, max_history as nat),
            max_packet_history: max_history,
            ..self
        }
    }

    /// This host with an empty history.
    pub open spec fn without_packets(self) -> HostView {
        HostView { packet_history: Seq::empty(), ..self }
    }

    /// This host once it has been seen as the sender of the frame `raw`:
    /// with the frame's source address where it has one, else on the
    /// frame's interface alone.
    pub open spec fn seen_in(self, raw: RawPacket) -> HostView {
        match raw.source_addr {
            Some(address) => self.with_ip_address(address.ip, raw.vlan_id, raw.interface_name@),
            None => self.with_interface(raw.interface_name@),
        }
    }

    /// This host with the counter of the kind of `msg` bumped.
    pub open spec fn counted(self, msg: PtpMessage) -> HostView {
        match msg {
            PtpMessage::Announce(_) => HostView {
                announce_count: bumped(self.announce_count),
                ..self
            },
            PtpMessage::Sync(_) => HostView { sync_count: bumped(self.sync_count), ..self },
            PtpMessage::FollowUp(_) => HostView {
                follow_up_count: bumped(self.follow_up_count),
                ..self
            },
            PtpMessage::DelayReq(_) => HostView {
                delay_req_count: bumped(self.delay_req_count),
                ..self
            },
            PtpMessage::DelayResp(_) => HostView {
                delay_resp_count: bumped(self.delay_resp_count),
                ..self
            },
            PtpMessage::PDelayReq(_) => HostView {
                pdelay_req_count: bumped(self.pdelay_req_count),
                ..self
            },
            PtpMessage::PDelayResp(_) => HostView {
                pdelay_resp_count: bumped(self.pdelay_resp_count),
                ..self
            },
            PtpMessage::PDelayRespFollowup(_) => HostView {
                pdelay_resp_follow_up_count: bumped(self.pdelay_resp_follow_up_count),
                ..self
            },
            PtpMessage::Signaling(_) => HostView {
                signaling_message_count: bumped(self.signaling_message_count),
                ..self
            },
            PtpMessage::Management(_) => HostView {
                management_message_count: bumped(self.management_message_count),
                ..self
            },
        }
    }

    /// The state of a host in `state` after it has sent `msg` at the
    /// monotonic time `now`, where `recent` is the most recent sync sender
    /// of the message's domain with the time of its last Sync.
    ///
    /// Announce, Sync and FollowUp make the host a transmitter. A DelayReq
    /// correlates it with the most recent sync sender, if there is one.
    /// Every other message leaves the state as it is.
    pub open spec fn state_after_sending(
        state: PtpHostState,
        msg: PtpMessage,
        now: u64,
        recent: Option<(ClockIdentity, u64)>,
    ) -> PtpHostState {
        match msg {
            PtpMessage::Announce(m) => state.after_announce(m),
            PtpMessage::Sync(m) => state.after_sync(m, now),
            PtpMessage::FollowUp(m) => state.after_follow_up(m),
            PtpMessage::DelayReq(_) => match recent {
                Some((sender, synced)) => state.after_recent_sync_sender(
                    sender,
                    elapsed(synced, now),
                ),
                None => state,
            },
            _ => state,
        }
    }

    /// The state of a host in `state` after `msg` has been addressed to
    /// it.
    pub open spec fn state_after_receiving(state: PtpHostState, msg: PtpMessage) -> PtpHostState {
        match msg {
            PtpMessage::DelayResp(m) => state.after_delay_resp(m),
            PtpMessage::PDelayResp(m) => state.after_pdelay_resp(m),
            PtpMessage::PDelayRespFollowup(m) => state.after_pdelay_resp_follow_up(m),
            _ => state,
        }
    }

    /// This host after it has sent `packet`, processed at the monotonic
    /// time `now`.
    ///
    /// The address or interface of the frame is recorded, the count of
    /// sent messages and the counter of the message's kind are bumped, the
    /// header's domain, version and correction field are taken over, the
    /// host counts as last seen when the frame was captured, the state
    /// follows the message, and the packet joins the history.
    pub open spec fn after_sending(
        self,
        packet: ParsedPacket,
        now: u64,
        recent: Option<(ClockIdentity, u64)>,
    ) -> HostView {
        let seen = self.seen_in(*packet.raw);
        let counted = HostView {
            total_messages_sent_count: bumped(seen.total_messages_sent_count),
            ..seen
        }.with_header(packet.ptp.header_of(), packet.raw.timestamp).counted(packet.ptp);
        HostView {
            state: Self::state_after_sending(counted.state, packet.ptp, now, recent),
            ..counted
        }.with_packet(packet)
    }

    /// This host after `packet` has been addressed to it.
    ///
    /// The count of received messages and the counter of the message's
    /// kind are bumped, the state follows the message, and the packet
    /// joins the history.
    pub open spec fn after_receiving(self, packet: ParsedPacket) -> HostView {
        let counted = HostView {
            total_messages_received_count: bumped(self.total_messages_received_count),
            ..self
        }.counted(packet.ptp);
        HostView {
            state: Self::state_after_receiving(counted.state, packet.ptp),
            ..counted
        }.with_packet(packet)
    }

    /// The names of all interfaces the host was seen on: those without an
    /// address first, then those of every address. A name may occur more
    /// than once.
    pub open spec fn all_interface_names(self) -> Seq<Seq<char>> {
        self.interfaces + names_of(self.ip_addresses)
    }

    /// Whether the host sends Announce, Sync or FollowUp messages.
    pub open spec fn is_transmitter(self) -> bool {
        self.state is TimeTransmitter
    }

    /// Whether the host has been addressed by delay responses or has asked
    /// for them.
    pub open spec fn is_receiver(self) -> bool {
        self.state is TimeReceiver
    }
}

/// Whether the text `a` does not come after the text `b` in the order of
/// strings: character by character, a shorter text before its extensions.
pub open spec fn text_le(a: Seq<char>, b: Seq<char>) -> bool
    decreases a.len(),
{
    if a.len() == 0 {
        true
    } else if b.len() == 0 {
        false
    } else if a[0] != b[0] {
        (a[0] as u32) < (b[0] as u32)
    } else {
        text_le(a.drop_first(), b.drop_first())
    }
}

/// Whether `names` are in ascending order.
pub open spec fn names_sorted(names: Seq<Seq<char>>) -> bool {
    forall|i: int, j: int| 0 <= i <= j < names.len() ==> text_le(names[i], names[j])
}

/// Calls `<[String]>::sort`, which puts the strings in ascending order,
/// character by character, and keeps each as often as it occurred.
#[verifier::external_body]
fn sort_names(names: &mut Vec<String>)
    ensures
        final(names).deep_view().to_multiset() == old(names).deep_view().to_multiset(),
        names_sorted(final(names).deep_view()),
{
    names.sort();
}

/// The names of the first `n` entries of an address book are the start of
/// the names of the whole book.
pub proof fn lemma_names_of_prefix(book: Seq<(IpAddress, Seq<Seq<char>>)>, n: int)
    requires
        0 <= n <= book.len(),
    ensures
        names_of(book.take(n)).len() <= names_of(book).len(),
        names_of(book.take(n)) == names_of(book).take(names_of(book.take(n)).len() as int),
    decreases book.len(),
{
    if n == book.len() {
        assert(book.take(n) =~= book);
        assert(names_of(book).take(names_of(book).len() as int) =~= names_of(book));
    } else {
        lemma_names_of_prefix(book.drop_last(), n);
        assert(book.drop_last().take(n) =~= book.take(n));
        let shorter = names_of(book.drop_last());
        let part = names_of(book.take(n));
        assert(part =~= names_of(book).take(part.len() as int));
    }
}

/// Whether `name` is among `names`.
pub fn contains_name(names: &Vec<String>, name: &String) -> (found: bool)
    ensures
        found == names.deep_view().contains(name@),
{
    let mut i: usize = 0;
    while i < names.len()
        invariant
            i <= names.len(),
            forall|j: int| 0 <= j < i ==> names.deep_view()[j] != name@,
        decreases names.len() - i,
    {
        if names[i] == *name {
            assert(names.deep_view()[i as int] == name@);
            return true;
        }
        i += 1;
    }
    false
}

/// Appends `name` to `names` unless it is among them already.
pub fn add_name(names: &mut Vec<String>, name: String)
    ensures
        final(names).deep_view() == with_name(old(names).deep_view(), name@),
{
    if !contains_name(names, &name) {
        names.push(name);
        assert(names.deep_view() =~= old(names).deep_view().push(name@));
    }
}

impl PtpHost {
    /// A host of which only the identity is known; `now` is the wall-clock
    /// time of its creation in nanoseconds since the Unix epoch.
    pub fn new(clock_identity: ClockIdentity, now: u64) -> (host: Self)
        ensures
            host@ == HostView::fresh(clock_identity, now),
            host@.well_formed(),
    {
        let host = Self {
            clock_identity,
            ip_addresses: Vec::new(),
            interfaces: Vec::new(),
            vlan_id: None,
            domain_number: None,
            last_seen: now,
            announce_count: 0,
            sync_count: 0,
            follow_up_count: 0,
            delay_req_count: 0,
            delay_resp_count: 0,
            pdelay_req_count: 0,
            pdelay_resp_count: 0,
            pdelay_resp_follow_up_count: 0,
            total_messages_sent_count: 0,
            total_messages_received_count: 0,
            signaling_message_count: 0,
            management_message_count: 0,
            state: PtpHostState::Listening,
            last_version: None,
            last_correction_field: None,
            packet_history: BoundedVec::new(DEFAULT_MAX_PACKET_HISTORY),
        };
        assert(host@.ip_addresses =~= Seq::empty());
        assert(host@.interfaces =~= Seq::empty());
        assert(host@.packet_history =~= Seq::empty());
        host
    }

    /// Records the domain, version and correction field of a header that
    /// the host sent, and `now` as the time it was last seen.
    pub fn update_from_ptp_header(&mut self, header: &PtpHeader, now: u64)
        ensures
            final(self)@ == old(self)@.with_header(*header, now),
    {
        self.domain_number = Some(header.domain_number);
        self.last_version = Some(header.version);
        self.last_correction_field = Some(header.correction_field);
        self.last_seen = now;
    }

    /// Whether the host sends Announce, Sync or FollowUp messages.
    pub fn is_transmitter(&self) -> (transmits: bool)
        ensures
            transmits == self@.is_transmitter(),
    {
        match self.state {
            PtpHostState::TimeTransmitter(_) => true,
            _ => false,
        }
    }

    /// Whether the host has been addressed by delay responses or has asked
    /// for them.
    pub fn is_receiver(&self) -> (receives: bool)
        ensures
            receives == self@.is_receiver(),
    {
        match self.state {
            PtpHostState::TimeReceiver(_) => true,
            _ => false,
        }
    }

    /// The time since the host was last seen, in nanoseconds: counted up to
    /// `reference_time` where one is given, else up to `now`; zero where
    /// the host was seen after that.
    pub fn time_since_last_seen(&self, reference_time: Option<u64>, now: u64) -> (elapsed: u64)
        ensures
            elapsed == match reference_time {
                Some(reference) => if reference >= self.last_seen {
                    reference - self.last_seen
                } else {
                    0
                },
                None => if now >= self.last_seen {
                    now - self.last_seen
                } else {
                    0
                },
            },
    {
        let reference: u64 = match reference_time {
            Some(reference) => reference,
            None => now,
        };
        reference.saturating_sub(self.last_seen)
    }

    /// Records that the host was seen with the address `ip` on
    /// `interface`, in the VLAN `vlan_id`.
    pub fn add_ip_address(&mut self, ip: IpAddress, vlan_id: Option<u16>, interface: String)
        ensures
            final(self)@ == old(self)@.with_ip_address(ip, vlan_id, interface@),
            old(self)@.well_formed() ==> final(self)@.well_formed(),
    {
        proof {
            if old(self)@.well_formed() {
                lemma_with_ip_address_well_formed(
                    old(self)@,
                    ip,
                    vlan_id,
                    interface@,
                );
            }
        }
        let ghost book = old(self)@.ip_addresses;
        let i: usize = self.address_position(ip);
        self.vlan_id = vlan_id;
        if i < self.ip_addresses.len() {
            add_name(&mut self.ip_addresses[i].1, interface);
            assert(book_view(self.ip_addresses@) =~= book.update(
                i as int,
                (ip, with_name(book[i as int].1, interface@)),
            ));
        } else {
            let mut names: Vec<String> = Vec::new();
            names.push(interface);
            assert(names.deep_view() =~= seq![interface@]);
            self.ip_addresses.push((ip, names));
            assert(book_view(self.ip_addresses@) =~= book.push((ip, seq![interface@])));
        }
    }

    /// The position of the entry of `ip` in the address book, or the
    /// number of entries where there is none.
    fn address_position(&self, ip: IpAddress) -> (at: usize)
        ensures
            at == first_index(addresses_of(self@.ip_addresses), ip),
            at <= self.ip_addresses.len(),
            at < self.ip_addresses.len() ==> self.ip_addresses[at as int].0 == ip,
    {
        let ghost keys = addresses_of(self@.ip_addresses);
        let mut i: usize = 0;
        while i < self.ip_addresses.len()
            invariant
                i <= self.ip_addresses.len(),
                keys == addresses_of(self@.ip_addresses),
                forall|j: int| 0 <= j < i ==> keys[j] != ip,
            decreases self.ip_addresses.len() - i,
        {
            if self.ip_addresses[i].0 == ip {
                proof {
                    lemma_first_index_is(keys, ip, i as int);
                }
                return i;
            }
            i += 1;
        }
        proof {
            lemma_first_index_is(keys, ip, i as int);
        }
        i
    }

    /// Records that the host was seen on `interface` without an IP
    /// address.
    pub fn add_interface(&mut self, interface: String)
        ensures
            final(self)@ == old(self)@.with_interface(interface@),
            old(self)@.well_formed() ==> final(self)@.well_formed(),
    {
        proof {
            if old(self)@.well_formed() {
                lemma_with_interface_well_formed(old(self)@, interface@);
            }
        }
        add_name(&mut self.interfaces, interface);
    }

    /// The names of the interfaces the host was seen on without an IP
    /// address.
    pub fn get_interfaces(&self) -> (names: &Vec<String>)
        ensures
            names.deep_view() == self@.interfaces,
    {
        &self.interfaces
    }

    /// Whether the host was seen with an IP address.
    pub fn has_ip_addresses(&self) -> (any: bool)
        ensures
            any == (self@.ip_addresses.len() > 0),
    {
        self.ip_addresses.len() > 0
    }

    /// The address the host was first seen with, if any.
    pub fn get_primary_ip(&self) -> (ip: Option<&IpAddress>)
        ensures
            self@.ip_addresses.len() == 0 ==> ip is None,
            self@.ip_addresses.len() > 0 ==> ip == Some(&self@.ip_addresses[0].0),
    {
        if self.ip_addresses.len() > 0 {
            Some(&self.ip_addresses[0].0)
        } else {
            None
        }
    }

    /// Whether the host was seen with more than one IP address.
    pub fn has_multiple_ips(&self) -> (several: bool)
        ensures
            several == (self@.ip_addresses.len() > 1),
    {
        self.ip_addresses.len() > 1
    }

    /// The number of IP addresses the host was seen with.
    pub fn get_ip_count(&self) -> (count: usize)
        ensures
            count == self@.ip_addresses.len(),
    {
        self.ip_addresses.len()
    }

    /// Whether one of the host's addresses is among `local_ips`.
    pub fn has_local_ip(&self, local_ips: &[IpAddress]) -> (local: bool)
        ensures
            local == exists|i: int, j: int|
                0 <= i < self@.ip_addresses.len() && 0 <= j < local_ips@.len()
                    && self@.ip_addresses[i].0 == local_ips@[j],
    {
        let mut i: usize = 0;
        while i < self.ip_addresses.len()
            invariant
                i <= self.ip_addresses.len(),
                forall|a: int, b: int|
                    0 <= a < i && 0 <= b < local_ips@.len() ==> self@.ip_addresses[a].0
                        != local_ips@[b],
            decreases self.ip_addresses.len() - i,
        {
            let mut j: usize = 0;
            while j < local_ips.len()
                invariant
                    i < self.ip_addresses.len(),
                    j <= local_ips.len(),
                    forall|b: int| 0 <= b < j ==> self@.ip_addresses[i as int].0 != local_ips@[b],
                decreases local_ips.len() - j,
            {
                if self.ip_addresses[i].0 == local_ips[j] {
                    assert(self@.ip_addresses[i as int].0 == local_ips@[j as int]);
                    return true;
                }
                j += 1;
            }
            i += 1;
        }
        false
    }

    /// Bumps the counter of the kind of `msg`.
    fn count(&mut self, msg: &PtpMessage)
        ensures
            final(self)@ == old(self)@.counted(*msg),
    {
        match msg {
            PtpMessage::Announce(_) => {
                self.announce_count = self.announce_count.saturating_add(1);
            },
            PtpMessage::Sync(_) => {
                self.sync_count = self.sync_count.saturating_add(1);
            },
            PtpMessage::FollowUp(_) => {
                self.follow_up_count = self.follow_up_count.saturating_add(1);
            },
            PtpMessage::DelayReq(_) => {
                self.delay_req_count = self.delay_req_count.saturating_add(1);
            },
            PtpMessage::DelayResp(_) => {
                self.delay_resp_count = self.delay_resp_count.saturating_add(1);
            },
            PtpMessage::PDelayReq(_) => {
                self.pdelay_req_count = self.pdelay_req_count.saturating_add(1);
            },
            PtpMessage::PDelayResp(_) => {
                self.pdelay_resp_count = self.pdelay_resp_count.saturating_add(1);
            },
            PtpMessage::PDelayRespFollowup(_) => {
                self.pdelay_resp_follow_up_count = self.pdelay_resp_follow_up_count.saturating_add(
                    1,
                );
            },
            PtpMessage::Signaling(_) => {
                self.signaling_message_count = self.signaling_message_count.saturating_add(1);
            },
            PtpMessage::Management(_) => {
                self.management_message_count = self.management_message_count.saturating_add(1);
            },
        }
    }

    /// Records `packet` as sent by this host and processed at the
    /// monotonic time `now`; `recent` is the most recent sync sender of
    /// the message's domain with the time of its last Sync.
    pub fn record_sent(
        &mut self,
        packet: &Rc<ParsedPacket>,
        now: u64,
        recent: Option<(ClockIdentity, u64)>,
    )
        ensures
            final(self)@ == old(self)@.after_sending(**packet, now, recent),
            old(self)@.well_formed() ==> final(self)@.well_formed(),
    {
        proof {
            if old(self)@.well_formed() {
                lemma_packets_keep_host_well_formed(old(self)@);
            }
        }
        match packet.raw.source_addr {
            Some(address) => {
                self.add_ip_address(
                    address.ip,
                    packet.raw.vlan_id,
                    packet.raw.interface_name.clone(),
                );
            },
            None => {
                self.add_interface(packet.raw.interface_name.clone());
            },
        }
        self.total_messages_sent_count = self.total_messages_sent_count.saturating_add(1);
        self.update_from_ptp_header(packet.ptp.header(), packet.raw.timestamp);
        self.count(&packet.ptp);
        match &packet.ptp {
            PtpMessage::Announce(msg) => {
                self.state.update_from_announce(msg);
            },
            PtpMessage::Sync(msg) => {
                self.state.update_from_sync(msg, now);
            },
            PtpMessage::FollowUp(msg) => {
                self.state.update_from_follow_up(msg);
            },
            PtpMessage::DelayReq(_) => {
                match recent {
                    Some((sender, synced)) => {
                        self.state.update_from_recent_sync_sender(
                            sender,
                            now.saturating_sub(synced),
                        );
                    },
                    None => {},
                }
            },
            _ => {},
        }
        self.add_packet(crate::packet::share(packet));
    }

    /// Records `packet` as addressed to this host.
    pub fn record_received(&mut self, packet: &Rc<ParsedPacket>)
        ensures
            final(self)@ == old(self)@.after_receiving(**packet),
            old(self)@.well_formed() ==> final(self)@.well_formed(),
    {
        proof {
            if old(self)@.well_formed() {
                lemma_packets_keep_host_well_formed(old(self)@);
            }
        }
        self.total_messages_received_count = self.total_messages_received_count.saturating_add(1);
        self.count(&packet.ptp);
        match &packet.ptp {
            PtpMessage::DelayResp(msg) => {
                self.state.update_from_delay_resp(msg);
            },
            PtpMessage::PDelayResp(msg) => {
                self.state.update_from_pdelay_resp(msg);
            },
            PtpMessage::PDelayRespFollowup(msg) => {
                self.state.update_from_pdelay_resp_follow_up(msg);
            },
            _ => {},
        }
        self.add_packet(crate::packet::share(packet));
    }

    /// The vendor that `table` names for the host's clock identity.
    pub fn get_vendor_name<'a>(&self, table: &'a VendorTable) -> (name: Option<&'a str>)
        ensures
            match name {
                Some(text) => table.vendor_of(self.clock_identity.mac()) == Some(text@),
                None => table.vendor_of(self.clock_identity.mac()) is None,
            },
    {
        self.clock_identity.extract_vendor_name(table)
    }

    /// The names of all interfaces the host was seen on, each once, in the
    /// order of first sight.
    pub fn distinct_interface_names(&self) -> (names: Vec<String>)
        ensures
            names.deep_view() == without_repeats(self@.all_interface_names()),
    {
        let ghost direct = self@.interfaces;
        let ghost book = self@.ip_addresses;
        let mut names: Vec<String> = Vec::new();
        assert(names.deep_view() =~= without_repeats(direct.take(0)));
        let mut i: usize = 0;
        while i < self.interfaces.len()
            invariant
                i <= self.interfaces.len(),
                direct == self@.interfaces,
                names.deep_view() == without_repeats(direct.take(i as int)),
            decreases self.interfaces.len() - i,
        {
            assert(direct.take(i + 1).drop_last() =~= direct.take(i as int));
            assert(direct[i as int] == self.interfaces[i as int]@);
            add_name(&mut names, self.interfaces[i].clone());
            i += 1;
        }
        assert(direct.take(direct.len() as int) =~= direct);
        assert(direct + names_of(book.take(0)) =~= direct);
        let mut e: usize = 0;
        while e < self.ip_addresses.len()
            invariant
                e <= self.ip_addresses.len(),
                direct == self@.interfaces,
                book == self@.ip_addresses,
                names.deep_view() == without_repeats(direct + names_of(book.take(e as int))),
            decreases self.ip_addresses.len() - e,
        {
            let entry = &self.ip_addresses[e].1;
            let ghost so_far = direct + names_of(book.take(e as int));
            let ghost entry_names = book[e as int].1;
            assert(entry_names == entry.deep_view());
            assert(so_far + entry_names.take(0) =~= so_far);
            let mut k: usize = 0;
            while k < entry.len()
                invariant
                    k <= entry.len(),
                    entry_names == entry.deep_view(),
                    names.deep_view() == without_repeats(so_far + entry_names.take(k as int)),
                decreases entry.len() - k,
            {
                assert((so_far + entry_names.take(k + 1)).drop_last() =~= so_far
                    + entry_names.take(k as int));
                assert((so_far + entry_names.take(k + 1)).last() == entry[k as int]@);
                add_name(&mut names, entry[k].clone());
                k += 1;
            }
            assert(entry_names.take(entry_names.len() as int) =~= entry_names);
            assert(book.take(e + 1).drop_last() =~= book.take(e as int));
            assert(so_far + entry_names =~= direct + names_of(book.take(e + 1)));
            e += 1;
        }
        assert(book.take(book.len() as int) =~= book);
        names
    }

    /// The names of all interfaces the host was seen on, each once, in
    /// ascending order.
    pub fn get_interface_names(&self) -> (names: Vec<String>)
        ensures
            names.deep_view().to_multiset() == without_repeats(
                self@.all_interface_names(),
            ).to_multiset(),
            names_sorted(names.deep_view()),
    {
        let mut names = self.distinct_interface_names();
        sort_names(&mut names);
        names
    }

    /// The number of different interfaces the host was seen on.
    pub fn get_interface_count(&self) -> (count: usize)
        ensures
            count == without_repeats(self@.all_interface_names()).len(),
    {
        self.distinct_interface_names().len()
    }

    /// The interface the host was first seen on: the first of those
    /// without an address, else the first of the first address that has
    /// any.
    pub fn get_primary_interface(&self) -> (name: Option<&String>)
        ensures
            match name {
                Some(text) => self@.all_interface_names().len() > 0 && text@
                    == self@.all_interface_names()[0],
                None => self@.all_interface_names().len() == 0,
            },
    {
        if self.interfaces.len() > 0 {
            assert(self@.interfaces[0] == self.interfaces[0]@);
            return Some(&self.interfaces[0]);
        }
        let ghost book = self@.ip_addresses;
        assert(names_of(book.take(0)) =~= Seq::empty());
        let mut e: usize = 0;
        while e < self.ip_addresses.len()
            invariant
                e <= self.ip_addresses.len(),
                book == self@.ip_addresses,
                self@.interfaces.len() == 0,
                names_of(book.take(e as int)).len() == 0,
            decreases self.ip_addresses.len() - e,
        {
            assert(book.take(e + 1).drop_last() =~= book.take(e as int));
            assert(book[e as int].1 == self.ip_addresses[e as int].1.deep_view());
            if self.ip_addresses[e].1.len() > 0 {
                proof {
                    lemma_names_of_prefix(book, e + 1);
                    assert(names_of(book.take(e + 1)) =~= book[e as int].1);
                    assert(names_of(book)[0] == names_of(book).take(
                        names_of(book.take(e + 1)).len() as int,
                    )[0]);
                    assert(self@.all_interface_names()[0] == names_of(book)[0]);
                }
                return Some(&self.ip_addresses[e].1[0]);
            }
            assert(names_of(book.take(e + 1)) =~= names_of(book.take(e as int)) + book[e as int].1);
            e += 1;
        }
        assert(book.take(book.len() as int) =~= book);
        None
    }

    /// Whether the host was seen on more than one interface.
    pub fn has_multiple_interfaces(&self) -> (several: bool)
        ensures
            several == (without_repeats(self@.all_interface_names()).len() > 1),
    {
        self.get_interface_count() > 1
    }

    /// Appends `packet` to the history; the oldest packets leave where the
    /// capacity is exceeded.
    pub fn add_packet(&mut self, packet: Rc<ParsedPacket>)
        ensures
            final(self)@ == old(self)@.with_packet(*packet),
            old(self)@.well_formed() ==> final(self)@.well_formed(),
    {
        proof {
            if old(self)@.well_formed() {
                lemma_packets_keep_host_well_formed(old(self)@);
            }
        }
        self.packet_history.push(packet);
        assert(packets_of(self.packet_history@) =~= most_recent(
            packets_of(old(self).packet_history@).push(*packet),
            old(self).packet_history.max_size as nat,
        ));
    }

    /// Sets the capacity of the history and drops the oldest packets beyond
    /// it.
    pub fn set_max_packet_history(&mut self, max_history: usize)
        ensures
            final(self)@ == old(self)@.with_max_packet_history(max_history),
            old(self)@.well_formed() ==> final(self)@.well_formed(),
    {
        proof {
            if old(self)@.well_formed() {
                lemma_history_changes_well_formed(old(self)@, max_history);
            }
        }
        self.packet_history.set_max_size(max_history);
        assert(packets_of(self.packet_history@) =~= most_recent(
            packets_of(old(self).packet_history@),
            max_history as nat,
        ));
    }

    /// The packets of the history, oldest first.
    pub fn get_packet_history(&self) -> (packets: Vec<ParsedPacket>)
        ensures
            packets@ == self@.packet_history,
    {
        let mut packets: Vec<ParsedPacket> = Vec::new();
        let mut i: usize = 0;
        while i < self.packet_history.len()
            invariant
                i <= self.packet_history@.len(),
                packets@ == self@.packet_history.take(i as int),
            decreases self.packet_history@.len() - i,
        {
            match self.packet_history.get(i) {
                Some(handle) => {
                    packets.push(handle.duplicate());
                },
                None => {},
            }
            assert(packets@ =~= self@.packet_history.take(i + 1));
            i += 1;
        }
        assert(self@.packet_history.take(i as int) =~= self@.packet_history);
        packets
    }

    /// Empties the history.
    pub fn clear_packet_history(&mut self)
        ensures
            final(self)@ == old(self)@.without_packets(),
            old(self)@.well_formed() ==> final(self)@.well_formed(),
    {
        proof {
            if old(self)@.well_formed() {
                lemma_history_changes_well_formed(old(self)@, 0);
            }
        }
        self.packet_history.clear();
        assert(packets_of(self.packet_history@) =~= Seq::empty());
    }
}

/// The distinct interface names of a host are exactly the names it was
/// seen on, each listed once.
pub proof fn lemma_distinct_interface_names(host: HostView)
    ensures
        all_distinct(without_repeats(host.all_interface_names())),
        forall|name: Seq<char>|
            without_repeats(host.all_interface_names()).contains(name)
                <==> host.all_interface_names().contains(name),
{
    let all = host.all_interface_names();
    lemma_without_repeats_distinct(all);
    assert forall|name: Seq<char>| without_repeats(all).contains(name) <==> all.contains(name) by {
        if all.contains(name) {
            let k = choose|k: int| 0 <= k < all.len() && all[k] == name;
            lemma_without_repeats_keeps(all, k);
        }
        if without_repeats(all).contains(name) {
            let m = choose|m: int|
                0 <= m < without_repeats(all).len() && without_repeats(all)[m] == name;
            lemma_without_repeats_adds_nothing(all, m);
        }
    }
}

} // verus!
