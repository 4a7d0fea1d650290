//! From a captured Ethernet frame to the PTP message it carries.
//!
//! PTP travels either directly in Ethernet frames (gPTP, EtherType 0x88f7)
//! or in UDP datagrams to the ports 319 and 320 over IPv4. A frame may carry
//! one or two VLAN tags in front of an IPv4 packet. Everything else is not
//! PTP and is dropped.

use vstd::prelude::*;
use vstd::slice::{slice_subrange, slice_to_vec};
use vstd::string::{StrSliceExecFns, StringExecFns, StringSliceAdditionalSpecFns};
use crate::lookup::{first_index, lemma_first_index_is};
use crate::packet::{IpAddress, RawPacket, SocketAddress};
use crate::wire::{be16, be32, read_u16, read_u32};

verus! {

/// The UDP port of PTP event messages.
pub const PTP_EVENT_PORT: u16 = 319;

/// The UDP port of PTP general messages.
pub const PTP_GENERAL_PORT: u16 = 320;

/// The EtherType of PTP carried directly by Ethernet.
pub const GPTP_ETHERTYPE: u16 = 0x88f7;

/// The EtherType of IPv4.
pub const IPV4_ETHERTYPE: u16 = 0x0800;

/// The EtherType of a VLAN tag.
pub const VLAN_ETHERTYPE: u16 = 0x8100;

/// The protocol number of UDP in an IPv4 header.
pub const UDP_PROTOCOL: u8 = 17;

/// What an Ethernet frame says of the packet it carries: the EtherType of
/// that packet, the VLAN of the outer tag if the frame is tagged, and the
/// offset at which the packet starts.
pub struct LinkLayer {
    pub ethertype: u16,
    pub vlan_id: Option<u16>,
    pub offset: usize,
}

/// What has been taken out of an IPv4 packet that carries UDP.
pub struct Datagram {
    pub source: SocketAddress,
    pub destination: SocketAddress,
    pub ttl: u8,
    /// Where the UDP payload starts and ends in the frame.
    pub start: usize,
    pub end: usize,
}

/// The link layer of the frame `d`.
///
/// An untagged frame carries its packet after the 14 bytes of the Ethernet
/// header. A tagged frame is accepted only where it carries IPv4, after one
/// tag or after two; the VLAN is that of the outer tag. A frame that ends
/// within its headers gives `None`.
pub open spec fn link_layer_of(d: Seq<u8>) -> Option<LinkLayer> {
    if d.len() < 14 {
        None
    } else if be16(d, 12) != 0x8100 {
        Some(LinkLayer { ethertype: be16(d, 12) as u16, vlan_id: None, offset: 14 })
    } else if d.len() < 18 {
        None
    } else if be16(d, 16) == 0x0800 {
        Some(
            LinkLayer {
                ethertype: 0x0800,
                vlan_id: Some((be16(d, 14) % 0x1000) as u16),
                offset: 18,
            },
        )
    } else if be16(d, 16) == 0x8100 && d.len() >= 22 && be16(d, 20) == 0x0800 {
        Some(
            LinkLayer {
                ethertype: 0x0800,
                vlan_id: Some((be16(d, 14) % 0x1000) as u16),
                offset: 22,
            },
        )
    } else {
        None
    }
}

/// The number of bytes of an IPv4 header with the header-length nibble
/// `ihl`, which counts words of four bytes: at least 20.
pub open spec fn ipv4_header_length(ihl: int) -> int {
    if ihl * 4 > 20 {
        ihl * 4
    } else {
        20
    }
}

/// Where the payload of the IPv4 packet that starts at `at` in `d` ends,
/// as an offset from `at`: after as many bytes as the total length leaves
/// beyond the header, but not beyond the end of the frame.
pub open spec fn ipv4_payload_end(d: Seq<u8>, at: int) -> int {
    let ihl = d[at] as int % 16;
    let total = be16(d, at + 2);
    let length = if total > ihl * 4 {
        total - ihl * 4
    } else {
        0
    };
    if ipv4_header_length(ihl) + length < d.len() - at {
        ipv4_header_length(ihl) + length
    } else {
        d.len() - at
    }
}

/// The UDP datagram to a PTP port in the IPv4 packet that starts at `at`
/// in `d`.
///
/// The packet must hold the 20 bytes of an IPv4 header and name UDP as its
/// protocol; its payload must hold the 8 bytes of a UDP header, and the
/// destination port must be 319 or 320.
pub open spec fn datagram_of(d: Seq<u8>, at: int) -> Option<Datagram> {
    let header = ipv4_header_length(d[at] as int % 16);
    let end = ipv4_payload_end(d, at);
    if d.len() - at < 20 {
        None
    } else if d[at + 9] != 17 {
        None
    } else if d.len() - at <= header || end - header < 8 {
        None
    } else if be16(d, at + header + 2) != 319 && be16(d, at + header + 2) != 320 {
        None
    } else {
        Some(
            Datagram {
                source: SocketAddress {
                    ip: IpAddress::V4(be32(d, at + 12) as u32),
                    port: be16(d, at + header) as u16,
                },
                destination: SocketAddress {
                    ip: IpAddress::V4(be32(d, at + 16) as u32),
                    port: be16(d, at + header + 2) as u16,
                },
                ttl: d[at + 8],
                start: (at + header + 8) as usize,
                end: (at + end) as usize,
            },
        )
    }
}

/// Whether gPTP accepts a frame to the destination `mac`: the gPTP
/// multicast address `01:80:c2:00:00:0e` or any unicast address.
pub open spec fn gptp_destination(mac: Seq<u8>) -> bool {
    mac == seq![0x01u8, 0x80u8, 0xc2u8, 0x00u8, 0x00u8, 0x0eu8] || mac[0] % 2 == 0
}

/// Whether `packet` is what the frame `d` gives, captured at `timestamp` on
/// the interface `name` whose untagged traffic belongs to the VLAN
/// `native_vlan_id`.
pub open spec fn is_frame_of(
    packet: RawPacket,
    d: Seq<u8>,
    name: Seq<char>,
    native_vlan_id: Option<u16>,
    timestamp: u64,
) -> bool {
    let link = link_layer_of(d).unwrap();
    &&& packet.timestamp == timestamp
    &&& packet.data@ == d
    &&& packet.dest_mac@ == d.subrange(0, 6)
    &&& packet.source_mac@ == d.subrange(6, 12)
    &&& packet.interface_name@ == name
    &&& packet.vlan_id == if link.vlan_id is Some {
        link.vlan_id
    } else {
        native_vlan_id
    }
    &&& if link.ethertype == 0x88f7 {
        &&& packet.source_addr is None
        &&& packet.dest_addr is None
        &&& packet.ttl is None
        &&& packet.ptp_payload@ == d.subrange(link.offset as int, d.len() as int)
    } else {
        let datagram = datagram_of(d, link.offset as int).unwrap();
        &&& packet.source_addr == Some(datagram.source)
        &&& packet.dest_addr == Some(datagram.destination)
        &&& packet.ttl == Some(datagram.ttl)
        &&& packet.ptp_payload@ == d.subrange(datagram.start as int, datagram.end as int)
    }
}

/// Whether the frame `d` carries PTP: directly, to an accepted
/// destination, or in a UDP datagram to a PTP port over IPv4.
pub open spec fn carries_ptp(d: Seq<u8>) -> bool {
    match link_layer_of(d) {
        None => false,
        Some(link) => if link.ethertype == 0x88f7 {
            gptp_destination(d.subrange(0, 6))
        } else if link.ethertype == 0x0800 {
            datagram_of(d, link.offset as int) is Some
        } else {
            false
        },
    }
}

/// Reads the link layer of a frame.
pub fn link_layer(packet_data: &[u8]) -> (link: Option<LinkLayer>)
    ensures
        link == link_layer_of(packet_data@),
        link matches Some(l) ==> 14 <= l.offset <= packet_data.len(),
{
    if packet_data.len() < 14 {
        return None;
    }
    let ethertype: u16 = read_u16(packet_data, 12);
    if ethertype != VLAN_ETHERTYPE {
        return Some(LinkLayer { ethertype, vlan_id: None, offset: 14 });
    }
    if packet_data.len() < 18 {
        return None;
    }
    let vlan_id: u16 = read_u16(packet_data, 14) % 0x1000;
    let inner: u16 = read_u16(packet_data, 16);
    if inner == IPV4_ETHERTYPE {
        Some(LinkLayer { ethertype: IPV4_ETHERTYPE, vlan_id: Some(vlan_id), offset: 18 })
    } else if inner == VLAN_ETHERTYPE && packet_data.len() >= 22 && read_u16(packet_data, 20)
        == IPV4_ETHERTYPE {
        Some(LinkLayer { ethertype: IPV4_ETHERTYPE, vlan_id: Some(vlan_id), offset: 22 })
    } else {
        None
    }
}

/// Reads the UDP datagram to a PTP port out of the IPv4 packet that starts
/// at `at`.
pub fn datagram(packet_data: &[u8], at: usize) -> (found: Option<Datagram>)
    ensures
        found == datagram_of(packet_data@, at as int),
        found matches Some(d) ==> d.start <= d.end <= packet_data.len(),
{
    if at > packet_data.len() {
        return None;
    }
    let available: usize = packet_data.len() - at;
    if available < 20 {
        return None;
    }
    if packet_data[at + 9] != UDP_PROTOCOL {
        return None;
    }
    let words: usize = (packet_data[at] % 16) as usize;
    let header: usize = if words * 4 > 20 {
        words * 4
    } else {
        20
    };
    let total: usize = read_u16(packet_data, at + 2) as usize;
    let length: usize = if total > words * 4 {
        total - words * 4
    } else {
        0
    };
    let end: usize = if header + length < available {
        header + length
    } else {
        available
    };
    if available <= header || end - header < 8 {
        return None;
    }
    let destination_port: u16 = read_u16(packet_data, at + header + 2);
    if destination_port != PTP_EVENT_PORT && destination_port != PTP_GENERAL_PORT {
        return None;
    }
    Some(
        Datagram {
            source: SocketAddress {
                ip: IpAddress::V4(read_u32(packet_data, at + 12)),
                port: read_u16(packet_data, at + header),
            },
            destination: SocketAddress {
                ip: IpAddress::V4(read_u32(packet_data, at + 16)),
                port: destination_port,
            },
            ttl: packet_data[at + 8],
            start: at + header + 8,
            end: at + end,
        },
    )
}

/// Takes the PTP message out of a captured Ethernet frame.
///
/// `interface_name` is the interface the frame was captured on,
/// `native_vlan_id` the VLAN of its untagged traffic, and `timestamp` the
/// time of the capture in nanoseconds since the Unix epoch. A frame that
/// does not carry PTP gives `None`.
pub fn process_ethernet_packet(
    packet_data: &[u8],
    interface_name: &str,
    native_vlan_id: Option<u16>,
    timestamp: u64,
) -> (packet: Option<RawPacket>)
    ensures
        packet is Some == carries_ptp(packet_data@),
        packet matches Some(p) ==> is_frame_of(
            p,
            packet_data@,
            interface_name@,
            native_vlan_id,
            timestamp,
        ),
{
    let link = match link_layer(packet_data) {
        Some(link) => link,
        None => {
            return None;
        },
    };
    let dest_mac: [u8; 6] = [
        packet_data[0],
        packet_data[1],
        packet_data[2],
        packet_data[3],
        packet_data[4],
        packet_data[5],
    ];
    let source_mac: [u8; 6] = [
        packet_data[6],
        packet_data[7],
        packet_data[8],
        packet_data[9],
        packet_data[10],
        packet_data[11],
    ];
    assert(dest_mac@ =~= packet_data@.subrange(0, 6));
    assert(source_mac@ =~= packet_data@.subrange(6, 12));
    let vlan_id: Option<u16> = match link.vlan_id {
        Some(id) => Some(id),
        None => native_vlan_id,
    };
    if link.ethertype == GPTP_ETHERTYPE {
        let multicast: bool = dest_mac[0] == 0x01 && dest_mac[1] == 0x80 && dest_mac[2] == 0xc2
            && dest_mac[3] == 0x00 && dest_mac[4] == 0x00 && dest_mac[5] == 0x0e;
        assert(multicast == (dest_mac@ == seq![0x01u8, 0x80u8, 0xc2u8, 0x00u8, 0x00u8, 0x0eu8]))
            by {
            if multicast {
                assert(dest_mac@ =~= seq![0x01u8, 0x80u8, 0xc2u8, 0x00u8, 0x00u8, 0x0eu8]);
            }
        }
        if !multicast && dest_mac[0] % 2 == 1 {
            return None;
        }
        Some(
            RawPacket {
                timestamp,
                data: slice_to_vec(packet_data),
                source_addr: None,
                source_mac,
                dest_addr: None,
                dest_mac,
                vlan_id,
                ttl: None,
                interface_name: String::from_str(interface_name),
                ptp_payload: slice_to_vec(
                    slice_subrange(packet_data, link.offset, packet_data.len()),
                ),
            },
        )
    } else if link.ethertype == IPV4_ETHERTYPE {
        let found = match datagram(packet_data, link.offset) {
            Some(found) => found,
            None => {
                return None;
            },
        };
        Some(
            RawPacket {
                timestamp,
                data: slice_to_vec(packet_data),
                source_addr: Some(found.source),
                source_mac,
                dest_addr: Some(found.destination),
                dest_mac,
                vlan_id,
                ttl: Some(found.ttl),
                interface_name: String::from_str(interface_name),
                ptp_payload: slice_to_vec(slice_subrange(packet_data, found.start, found.end)),
            },
        )
    } else {
        None
    }
}

/// The prefixes of the names of interfaces that are not monitored unless
/// asked for: virtual interfaces, tunnels, bridges and wireless interfaces.
pub open spec fn virtual_prefixes() -> Seq<&'static str> {
    seq![
        "veth",
        "docker",
        "br-",
        "virbr",
        "vmnet",
        "tun",
        "tap",
        "wg",
        "dummy",
        "bond",
        "team",
        "macvlan",
        "vlan",
        "lo",
        "flannel",
        "cni0",
        "wg",
        "wl",
        "wlan",
        "ww",
        "idrac",
    ]
}

/// Whether the bytes `text` start with the bytes `prefix`.
pub open spec fn starts_with(text: Seq<u8>, prefix: Seq<u8>) -> bool {
    prefix.len() <= text.len() && text.subrange(0, prefix.len() as int) == prefix
}

/// Whether `text` starts with `prefix`.
pub fn has_prefix(text: &str, prefix: &str) -> (found: bool)
    ensures
        found == starts_with(text.spec_bytes(), prefix.spec_bytes()),
{
    let text_bytes = text.as_bytes();
    let prefix_bytes = prefix.as_bytes();
    if prefix_bytes.len() > text_bytes.len() {
        return false;
    }
    let ghost start = text_bytes@.subrange(0, prefix_bytes@.len() as int);
    let mut i: usize = 0;
    while i < prefix_bytes.len()
        invariant
            i <= prefix_bytes.len() <= text_bytes.len(),
            start == text_bytes@.subrange(0, prefix_bytes@.len() as int),
            text_bytes@ == text.spec_bytes(),
            prefix_bytes@ == prefix.spec_bytes(),
            forall|j: int| 0 <= j < i ==> start[j] == prefix_bytes@[j],
        decreases prefix_bytes.len() - i,
    {
        if text_bytes[i] != prefix_bytes[i] {
            assert(start[i as int] != prefix_bytes@[i as int]);
            assert(start != prefix_bytes@);
            return false;
        }
        i += 1;
    }
    assert(start =~= prefix_bytes@);
    true
}

/// Whether the name with the bytes `name` starts with none of the
/// prefixes of virtual interfaces.
pub open spec fn is_suitable_name(name: Seq<u8>) -> bool {
    forall|i: int|
        0 <= i < virtual_prefixes().len() ==> !starts_with(
            name,
            (#[trigger] virtual_prefixes()[i]).spec_bytes(),
        )
}

/// Whether an interface of this name is monitored when no interface is
/// asked for: whether its name starts with none of the prefixes of
/// virtual interfaces.
pub fn is_suitable_interface_name(interface_name: &str) -> (suitable: bool)
    ensures
        suitable == is_suitable_name(interface_name.spec_bytes()),
{
    let prefixes: [&'static str; 21] = [
        "veth",
        "docker",
        "br-",
        "virbr",
        "vmnet",
        "tun",
        "tap",
        "wg",
        "dummy",
        "bond",
        "team",
        "macvlan",
        "vlan",
        "lo",
        "flannel",
        "cni0",
        "wg",
        "wl",
        "wlan",
        "ww",
        "idrac",
    ];
    assert(prefixes@ =~= virtual_prefixes());
    let mut i: usize = 0;
    while i < 21
        invariant
            i <= 21,
            prefixes@ == virtual_prefixes(),
            forall|j: int|
                0 <= j < i ==> !starts_with(
                    interface_name.spec_bytes(),
                    (#[trigger] virtual_prefixes()[j]).spec_bytes(),
                ),
        decreases 21 - i,
    {
        if has_prefix(interface_name, prefixes[i]) {
            assert(starts_with(
                interface_name.spec_bytes(),
                virtual_prefixes()[i as int].spec_bytes(),
            ));
            return false;
        }
        i += 1;
    }
    true
}

/// Whether an IPv4 address, given as one number, is a loopback address:
/// whether its first byte is 127.
pub open spec fn is_loopback(address: u32) -> bool {
    address / 0x100_0000 == 127
}

/// The first of `addresses` that is an IPv4 address and no loopback
/// address.
pub open spec fn first_usable(addresses: Seq<IpAddress>) -> Option<u32>
    decreases addresses.len(),
{
    if addresses.len() == 0 {
        None
    } else {
        match addresses[0] {
            IpAddress::V4(address) => if is_loopback(address) {
                first_usable(addresses.drop_first())
            } else {
                Some(address)
            },
            IpAddress::V6(_) => first_usable(addresses.drop_first()),
        }
    }
}

/// The address under which an interface is monitored when no interface is
/// asked for: its first IPv4 address that is no loopback address, provided
/// that its name is suitable.
pub fn monitored_address(interface_name: &str, addresses: &[IpAddress]) -> (address: Option<u32>)
    ensures
        address == if is_suitable_name(interface_name.spec_bytes()) {
            first_usable(addresses@)
        } else {
            None
        },
{
    if !is_suitable_interface_name(interface_name) {
        return None;
    }
    assert(addresses@.skip(0) =~= addresses@);
    let mut i: usize = 0;
    while i < addresses.len()
        invariant
            i <= addresses.len(),
            is_suitable_name(interface_name.spec_bytes()),
            first_usable(addresses@) == first_usable(addresses@.skip(i as int)),
        decreases addresses.len() - i,
    {
        let ghost rest = addresses@.skip(i as int);
        assert(rest.drop_first() =~= addresses@.skip(i + 1));
        assert(rest[0] == addresses@[i as int]);
        match addresses[i] {
            IpAddress::V4(address) => {
                if address / 0x100_0000 != 127 {
                    assert(first_usable(rest) == Some(address));
                    return Some(address);
                }
                assert(first_usable(rest) == first_usable(rest.drop_first()));
            },
            IpAddress::V6(_) => {
                assert(first_usable(rest) == first_usable(rest.drop_first()));
            },
        }
        i += 1;
    }
    None
}

/// The value of a decimal digit, or `None` for any other character.
pub open spec fn digit_of(c: char) -> Option<u8> {
    if c == '0' {
        Some(0)
    } else if c == '1' {
        Some(1)
    } else if c == '2' {
        Some(2)
    } else if c == '3' {
        Some(3)
    } else if c == '4' {
        Some(4)
    } else if c == '5' {
        Some(5)
    } else if c == '6' {
        Some(6)
    } else if c == '7' {
        Some(7)
    } else if c == '8' {
        Some(8)
    } else if c == '9' {
        Some(9)
    } else {
        None
    }
}

/// The number that the decimal digits `digits` stand for; `None` where one
/// of them is no digit or the number does not fit 16 bits. No digits
/// stand for zero.
pub open spec fn digits_value(digits: Seq<char>) -> Option<u16>
    decreases digits.len(),
{
    if digits.len() == 0 {
        Some(0)
    } else {
        match (digits_value(digits.drop_last()), digit_of(digits.last())) {
            (Some(value), Some(digit)) => if value * 10 + digit <= u16::MAX {
                Some((value * 10 + digit) as u16)
            } else {
                None
            },
            _ => None,
        }
    }
}

/// The number that `text` stands for: one or more decimal digits, with an
/// optional plus sign in front, of a value that fits 16 bits.
pub open spec fn number_of(text: Seq<char>) -> Option<u16> {
    let digits = if text.len() > 0 && text[0] == '+' {
        text.skip(1)
    } else {
        text
    };
    if digits.len() == 0 {
        None
    } else {
        digits_value(digits)
    }
}

/// The position of the first comma of `text`, or its length where it has
/// none.
pub open spec fn comma_of(text: Seq<char>) -> int {
    first_index(text, ',')
}

/// What an interface given as `NAME` or `NAME,VLAN` asks for: the name up
/// to the first comma and, where there is a comma, the number between it
/// and the next comma as the VLAN of untagged traffic, if that is a number.
pub open spec fn interface_spec_of(text: Seq<char>) -> (Seq<char>, Option<u16>) {
    let first = comma_of(text);
    if first >= text.len() {
        (text, None)
    } else {
        let rest = text.skip(first + 1);
        (text.take(first), number_of(rest.take(comma_of(rest))))
    }
}

/// The value of a decimal digit.
fn digit_value(c: char) -> (value: Option<u8>)
    ensures
        value == digit_of(c),
{
    if c == '0' {
        Some(0)
    } else if c == '1' {
        Some(1)
    } else if c == '2' {
        Some(2)
    } else if c == '3' {
        Some(3)
    } else if c == '4' {
        Some(4)
    } else if c == '5' {
        Some(5)
    } else if c == '6' {
        Some(6)
    } else if c == '7' {
        Some(7)
    } else if c == '8' {
        Some(8)
    } else if c == '9' {
        Some(9)
    } else {
        None
    }
}

/// The position of the first comma of `text` at or after `from`, or the
/// length of `text` where there is none.
fn find_comma(text: &str, from: usize) -> (at: usize)
    requires
        from <= text@.len(),
    ensures
        from <= at <= text@.len(),
        at - from == comma_of(text@.skip(from as int)),
{
    let length: usize = text.unicode_len();
    let ghost rest = text@.skip(from as int);
    let mut i: usize = from;
    while i < length
        invariant
            from <= i <= length,
            length == text@.len(),
            rest == text@.skip(from as int),
            forall|j: int| 0 <= j < i - from ==> rest[j] != ',',
        decreases length - i,
    {
        if text.get_char(i) == ',' {
            proof {
                lemma_first_index_is(rest, ',', i - from);
            }
            return i;
        }
        i += 1;
    }
    proof {
        lemma_first_index_is(rest, ',', i - from);
    }
    i
}

/// Reads the number that the characters of `text` from `from` up to `to`
/// stand for.
fn parse_number(text: &str, from: usize, to: usize) -> (number: Option<u16>)
    requires
        from <= to <= text@.len(),
    ensures
        number == number_of(text@.subrange(from as int, to as int)),
{
    let ghost all = text@.subrange(from as int, to as int);
    let mut start: usize = from;
    if from < to && text.get_char(from) == '+' {
        start = from + 1;
    }
    let ghost digits = text@.subrange(start as int, to as int);
    assert(digits =~= if all.len() > 0 && all[0] == '+' {
        all.skip(1)
    } else {
        all
    });
    if start == to {
        return None;
    }
    assert(number_of(all) == digits_value(digits));
    assert(digits.take(0) =~= Seq::<char>::empty());
    let mut value: u16 = 0;
    let mut i: usize = start;
    while i < to
        invariant
            from <= start <= i <= to <= text@.len(),
            all == text@.subrange(from as int, to as int),
            digits == text@.subrange(start as int, to as int),
            number_of(all) == digits_value(digits),
            digits_value(digits.take(i - start)) == Some(value),
        decreases to - i,
    {
        let ghost longer = digits.take(i - start + 1);
        assert(longer.drop_last() =~= digits.take(i - start));
        assert(longer.last() == text@[i as int]);
        let digit: u8 = match digit_value(text.get_char(i)) {
            Some(digit) => digit,
            None => {
                proof {
                    assert(digits_value(longer) is None);
                    lemma_digits_value_fails(digits, i - start + 1);
                }
                return None;
            },
        };
        if value > 6553 || (value == 6553 && digit > 5) {
            proof {
                assert(digits_value(longer) is None);
                lemma_digits_value_fails(digits, i - start + 1);
            }
            return None;
        }
        value = value * 10 + digit as u16;
        assert(digits_value(longer) == Some(value));
        i += 1;
    }
    assert(digits.take(to - start) =~= digits);
    Some(value)
}

/// Digits of which a start stands for no number stand for no number.
pub proof fn lemma_digits_value_fails(digits: Seq<char>, n: int)
    requires
        0 <= n <= digits.len(),
        digits_value(digits.take(n)) is None,
    ensures
        digits_value(digits) is None,
    decreases digits.len(),
{
    if n < digits.len() {
        assert(digits.drop_last().take(n) =~= digits.take(n));
        lemma_digits_value_fails(digits.drop_last(), n);
    } else {
        assert(digits.take(n) =~= digits);
    }
}

/// Reads an interface given as `NAME` or `NAME,VLAN`: the name, and the
/// VLAN of untagged traffic where one is given as a number.
pub fn parse_interface_spec(text: &str) -> (spec: (String, Option<u16>))
    ensures
        (spec.0@, spec.1) == interface_spec_of(text@),
{
    let length: usize = text.unicode_len();
    let first: usize = find_comma(text, 0);
    assert(text@.skip(0) =~= text@);
    if first >= length {
        return (String::from_str(text), None);
    }
    let second: usize = find_comma(text, first + 1);
    let name = String::from_str(text.substring_char(0, first));
    let vlan = parse_number(text, first + 1, second);
    proof {
        let rest = text@.skip(first + 1);
        assert(text@.subrange(0, first as int) =~= text@.take(first as int));
        assert(text@.subrange(first + 1, second as int) =~= rest.take(comma_of(rest)));
    }
    (name, vlan)
}

} // verus!
