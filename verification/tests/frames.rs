use ptp_trace::error::DecodeError;
use ptp_trace::frame::{
    datagram, has_prefix, is_suitable_interface_name, link_layer, monitored_address,
    parse_interface_spec, process_ethernet_packet,
};
use ptp_trace::header::{
    format_clock_accuracy, format_clock_class, PtpClockAccuracy, PtpClockClass, PtpHeaderFlags,
    PtpMessageType, PtpUtcOffset,
};
use ptp_trace::identity::{ClockIdentity, PortIdentity};
use ptp_trace::messages::{
    AnnounceMessage, DelayReqMessage, DelayRespMessage, FollowUpMessage, ManagementMessage,
    PDelayReqMessage, PDelayRespFollowUpMessage, PDelayRespMessage, PtpMessage, SignalingMessage,
    SyncMessage,
};
use ptp_trace::packet::{IpAddress, SocketAddress};
use ptp_trace::text::{decimal_string, format_kv};
use ptp_trace::timestamp::{format_calendar, format_timestamp, PtpTimestamp};

fn ptp_payload() -> Vec<u8> {
    let mut payload = vec![0u8; 44];
    payload[1] = 0x02;
    payload[3] = 44;
    payload[20..28].copy_from_slice(&[0, 0x1b, 0x19, 0xff, 0xfe, 1, 2, 3]);
    payload
}

fn ethernet(destination: [u8; 6], ethertype: u16, rest: &[u8]) -> Vec<u8> {
    let mut frame = Vec::new();
    frame.extend_from_slice(&destination);
    frame.extend_from_slice(&[0x02, 0x11, 0x22, 0x33, 0x44, 0x55]);
    frame.extend_from_slice(&ethertype.to_be_bytes());
    frame.extend_from_slice(rest);
    frame
}

fn ipv4_udp(words: u8, destination_port: u16, payload: &[u8], trailer: usize) -> Vec<u8> {
    let header = words as usize * 4;
    let total = header + 8 + payload.len();
    let mut packet = vec![0u8; header];
    packet[0] = 0x40 | words;
    packet[2..4].copy_from_slice(&(total as u16).to_be_bytes());
    packet[8] = 64;
    packet[9] = 17;
    packet[12..16].copy_from_slice(&[10, 0, 0, 50]);
    packet[16..20].copy_from_slice(&[224, 0, 1, 129]);
    packet.extend_from_slice(&319u16.to_be_bytes());
    packet.extend_from_slice(&destination_port.to_be_bytes());
    packet.extend_from_slice(&((8 + payload.len()) as u16).to_be_bytes());
    packet.extend_from_slice(&[0, 0]);
    packet.extend_from_slice(payload);
    packet.extend(std::iter::repeat(0xeeu8).take(trailer));
    packet
}

const MULTICAST: [u8; 6] = [0x01, 0x00, 0x5e, 0x00, 0x01, 0x81];
const GPTP_MULTICAST: [u8; 6] = [0x01, 0x80, 0xc2, 0x00, 0x00, 0x0e];

#[test]
fn udp_frame_is_stripped_to_its_ptp_payload() {
    let frame = ethernet(MULTICAST, 0x0800, &ipv4_udp(5, 320, &ptp_payload(), 0));
    let packet = process_ethernet_packet(&frame, "eth0", Some(12), 99).unwrap();
    assert_eq!(packet.timestamp, 99);
    assert_eq!(packet.data, frame);
    assert_eq!(packet.ptp_payload, ptp_payload());
    assert_eq!(
        packet.source_addr,
        Some(SocketAddress {
            ip: IpAddress::v4(10, 0, 0, 50),
            port: 319
        })
    );
    assert_eq!(
        packet.dest_addr,
        Some(SocketAddress {
            ip: IpAddress::v4(224, 0, 1, 129),
            port: 320
        })
    );
    assert_eq!(packet.ttl, Some(64));
    assert_eq!(packet.vlan_id, Some(12));
    assert_eq!(packet.interface_name, "eth0");
    assert_eq!(packet.dest_mac, MULTICAST);
    assert_eq!(packet.source_mac, [0x02, 0x11, 0x22, 0x33, 0x44, 0x55]);
    assert!(PtpMessage::try_from(&packet.ptp_payload[..]).is_ok());
}

#[test]
fn ip_options_and_padding_are_left_out() {
    let frame = ethernet(MULTICAST, 0x0800, &ipv4_udp(7, 319, &ptp_payload(), 6));
    let packet = process_ethernet_packet(&frame, "eth0", None, 1).unwrap();
    assert_eq!(packet.ptp_payload, ptp_payload());
    assert_eq!(packet.vlan_id, None);
    let found = datagram(&frame, 14).unwrap();
    assert_eq!(found.start, 14 + 28 + 8);
    assert_eq!(found.end, frame.len() - 6);
}

#[test]
fn frames_that_are_not_ptp_are_dropped() {
    let good = ipv4_udp(5, 319, &ptp_payload(), 0);
    assert!(process_ethernet_packet(&ethernet(MULTICAST, 0x0800, &good), "e", None, 1).is_some());
    // Another port.
    let other = ipv4_udp(5, 321, &ptp_payload(), 0);
    assert!(process_ethernet_packet(&ethernet(MULTICAST, 0x0800, &other), "e", None, 1).is_none());
    // Not UDP.
    let mut tcp = good.clone();
    tcp[9] = 6;
    assert!(process_ethernet_packet(&ethernet(MULTICAST, 0x0800, &tcp), "e", None, 1).is_none());
    // IPv6 and ARP.
    assert!(process_ethernet_packet(&ethernet(MULTICAST, 0x86dd, &good), "e", None, 1).is_none());
    assert!(process_ethernet_packet(&ethernet(MULTICAST, 0x0806, &good), "e", None, 1).is_none());
    // Truncated headers.
    assert!(process_ethernet_packet(&[0u8; 13], "e", None, 1).is_none());
    assert!(
        process_ethernet_packet(&ethernet(MULTICAST, 0x0800, &good[..19]), "e", None, 1).is_none()
    );
    assert!(
        process_ethernet_packet(&ethernet(MULTICAST, 0x0800, &good[..27]), "e", None, 1).is_none()
    );
    // Exactly the UDP header: an empty payload is still a datagram.
    let empty = process_ethernet_packet(&ethernet(MULTICAST, 0x0800, &good[..28]), "e", None, 1);
    assert_eq!(empty.unwrap().ptp_payload, Vec::<u8>::new());
    // A total length that ends before the UDP header does.
    let mut short = good.clone();
    short[2..4].copy_from_slice(&27u16.to_be_bytes());
    assert!(process_ethernet_packet(&ethernet(MULTICAST, 0x0800, &short), "e", None, 1).is_none());
}

#[test]
fn vlan_tags_are_skipped_and_the_outer_one_is_kept() {
    let ip = ipv4_udp(5, 319, &ptp_payload(), 0);
    let mut tagged = vec![0x20, 0x64, 0x08, 0x00];
    tagged.extend_from_slice(&ip);
    let packet =
        process_ethernet_packet(&ethernet(MULTICAST, 0x8100, &tagged), "e", Some(5), 1).unwrap();
    assert_eq!(packet.vlan_id, Some(100));
    assert_eq!(packet.ptp_payload, ptp_payload());

    let mut double = vec![0xf0, 0x07, 0x81, 0x00, 0x00, 0x09, 0x08, 0x00];
    double.extend_from_slice(&ip);
    let frame = ethernet(MULTICAST, 0x8100, &double);
    let link = link_layer(&frame).unwrap();
    assert_eq!(link.ethertype, 0x0800);
    assert_eq!(link.vlan_id, Some(7));
    assert_eq!(link.offset, 22);
    let packet = process_ethernet_packet(&frame, "e", None, 1).unwrap();
    assert_eq!(packet.vlan_id, Some(7));
    assert_eq!(packet.ptp_payload, ptp_payload());

    // A tag in front of anything but IPv4 is not handled.
    let mut gptp = vec![0x00, 0x01, 0x88, 0xf7];
    gptp.extend_from_slice(&ptp_payload());
    assert!(process_ethernet_packet(&ethernet(GPTP_MULTICAST, 0x8100, &gptp), "e", None, 1)
        .is_none());
    let triple = vec![0, 1, 0x81, 0x00, 0, 2, 0x81, 0x00, 0, 3, 0x08, 0x00];
    assert!(process_ethernet_packet(&ethernet(MULTICAST, 0x8100, &triple), "e", None, 1).is_none());
    assert!(process_ethernet_packet(&ethernet(MULTICAST, 0x8100, &[0, 1, 8]), "e", None, 1)
        .is_none());
    assert!(
        process_ethernet_packet(&ethernet(MULTICAST, 0x8100, &[0, 1, 0x81, 0, 0, 2]), "e", None, 1)
            .is_none()
    );
}

#[test]
fn gptp_frames_carry_no_addresses() {
    let frame = ethernet(GPTP_MULTICAST, 0x88f7, &ptp_payload());
    let packet = process_ethernet_packet(&frame, "enp1s0", Some(3), 8).unwrap();
    assert_eq!(packet.source_addr, None);
    assert_eq!(packet.dest_addr, None);
    assert_eq!(packet.ttl, None);
    assert_eq!(packet.vlan_id, Some(3));
    assert_eq!(packet.ptp_payload, ptp_payload());
    // Unicast is accepted, other multicast groups are not.
    let unicast = ethernet([0x02, 0, 0, 0, 0, 1], 0x88f7, &ptp_payload());
    assert!(process_ethernet_packet(&unicast, "e", None, 1).is_some());
    let other = ethernet([0x01, 0x80, 0xc2, 0, 0, 0x0f], 0x88f7, &ptp_payload());
    assert!(process_ethernet_packet(&other, "e", None, 1).is_none());
    let bare = ethernet(GPTP_MULTICAST, 0x88f7, &[]);
    assert_eq!(
        process_ethernet_packet(&bare, "e", None, 1).unwrap().ptp_payload,
        Vec::<u8>::new()
    );
}

#[test]
fn virtual_interfaces_are_not_suitable() {
    for name in ["eth0", "enp3s0", "en0", "eno1", "Loopback", "bridge0", "l", ""] {
        assert!(is_suitable_interface_name(name), "{}", name);
    }
    for name in [
        "veth12", "docker0", "br-1234", "virbr0", "vmnet8", "tun0", "tap1", "wg0", "dummy0",
        "bond0", "team0", "macvlan1", "vlan10", "lo", "lo0", "flannel.1", "cni0", "wlp2s0",
        "wlan0", "wwan0", "idrac",
    ] {
        assert!(!is_suitable_interface_name(name), "{}", name);
    }
    assert!(has_prefix("eth0", ""));
    assert!(has_prefix("eth0", "eth0"));
    assert!(!has_prefix("eth", "eth0"));
    assert!(!has_prefix("éth0", "e"));
}

fn header_bytes(message_type: u8, length: usize) -> Vec<u8> {
    let mut data = vec![0u8; length];
    data[0] = 0xa0 | message_type;
    data[1] = 0x12;
    data[2] = 0x12;
    data[3] = 0x34;
    data[4] = 24;
    data[5] = 0xbc;
    data[6] = 0x02;
    data[7] = 0x4c;
    data[8..16].copy_from_slice(&[0xff, 0xff, 0xff, 0xff, 0xff, 0xfe, 0x80, 0x00]);
    data[16..20].copy_from_slice(&[1, 2, 3, 4]);
    data[20..30].copy_from_slice(&[0, 0x1b, 0x19, 0xff, 0xfe, 0x12, 0x34, 0x56, 0xab, 0xcd]);
    data[30] = 0xfe;
    data[31] = 0xdc;
    data[32] = 5;
    data[33] = 0xfd;
    data
}

fn check_header(header: &ptp_trace::header::PtpHeader, message_type: PtpMessageType) {
    assert_eq!(header.message_type, message_type);
    assert_eq!(header.version.to_string(), "v2");
    assert_eq!(header.version_minor, 1);
    assert_eq!(header.message_length, 0x1234);
    assert_eq!(header.domain_number, 24);
    assert_eq!(header.sdo_id, 0xabc);
    assert_eq!(header.flags.short(), "024c");
    assert_eq!(header.correction_field.value, -98304);
    assert_eq!(header.msg_specific, [1, 2, 3, 4]);
    assert_eq!(
        header.source_port_identity.to_string(),
        "00:1b:19:ff:fe:12:34:56-abcd"
    );
    assert_eq!(header.sequence_id, 0xfedc);
    assert_eq!(header._control_field, 5);
    assert_eq!(header.log_message_interval.exponent, -3);
}

const STAMP: [u8; 10] = [0x12, 0x34, 0x56, 0x78, 0x9a, 0xbc, 0x3b, 0x9a, 0xc9, 0xff];
const PORT: [u8; 10] = [0xde, 0xad, 0xbe, 0xef, 0x00, 0x01, 0x02, 0x03, 0x80, 0x01];

fn stamp() -> PtpTimestamp {
    PtpTimestamp {
        seconds: 0x1234_5678_9abc,
        nanoseconds: 999_999_999,
    }
}

fn port() -> PortIdentity {
    PortIdentity {
        clock_identity: ClockIdentity {
            clock_id: [0xde, 0xad, 0xbe, 0xef, 0x00, 0x01, 0x02, 0x03],
        },
        port_number: 0x8001,
    }
}

#[test]
fn every_variant_decodes_its_fields_at_minimum_length() {
    let mut data = header_bytes(0xb, 64);
    data[34..44].copy_from_slice(&STAMP);
    data[44..46].copy_from_slice(&(-5i16).to_be_bytes());
    data[46] = 0x99;
    data[47] = 1;
    data[48] = 248;
    data[49] = 0xfe;
    data[50..52].copy_from_slice(&[0xab, 0xcd]);
    data[52] = 2;
    data[53..61].copy_from_slice(&PORT[..8]);
    data[61..63].copy_from_slice(&[0x01, 0x02]);
    data[63] = 0xa0;
    let announce = AnnounceMessage::try_from(&data[..]).unwrap();
    check_header(&announce.header, PtpMessageType::Announce);
    assert_eq!(announce.origin_timestamp, stamp());
    assert_eq!(announce.current_utc_offset, PtpUtcOffset::new(-5));
    assert_eq!(announce.priority1, 1);
    assert_eq!(announce.priority2, 2);
    assert_eq!(announce.clock_class, PtpClockClass::new(248));
    assert_eq!(announce.clock_accuracy, PtpClockAccuracy::new(0xfe));
    assert_eq!(announce.offset_scaled_log_variance, 0xabcd);
    assert_eq!(announce.ptt_identity, port().clock_identity);
    assert_eq!(announce.steps_removed, 0x0102);
    assert_eq!(announce.time_source, 0xa0);
    assert_eq!(
        AnnounceMessage::try_from(&data[..63]).err(),
        Some(DecodeError::TooShort)
    );
    assert!(matches!(
        PtpMessage::try_from(&data[..]),
        Ok(PtpMessage::Announce(_))
    ));
    assert!(PtpMessage::try_from(&data[..63]).is_err());

    let mut data = header_bytes(0x0, 44);
    data[34..44].copy_from_slice(&STAMP);
    let sync = SyncMessage::try_from(&data[..]).unwrap();
    check_header(&sync.header, PtpMessageType::Sync);
    assert_eq!(sync.origin_timestamp, stamp());
    assert_eq!(SyncMessage::try_from(&data[..43]).err(), Some(DecodeError::TooShort));
    assert!(matches!(PtpMessage::try_from(&data[..]), Ok(PtpMessage::Sync(_))));
    assert!(PtpMessage::try_from(&data[..43]).is_err());

    data[0] = 0xa8;
    let follow_up = FollowUpMessage::try_from(&data[..]).unwrap();
    check_header(&follow_up.header, PtpMessageType::FollowUp);
    assert_eq!(follow_up.precise_origin_timestamp, stamp());
    assert_eq!(
        FollowUpMessage::try_from(&data[..43]).err(),
        Some(DecodeError::TooShort)
    );
    assert!(matches!(PtpMessage::try_from(&data[..]), Ok(PtpMessage::FollowUp(_))));

    data[0] = 0xa1;
    let delay_req = DelayReqMessage::try_from(&data[..]).unwrap();
    check_header(&delay_req.header, PtpMessageType::DelayReq);
    assert_eq!(delay_req.origin_timestamp, stamp());
    assert_eq!(
        DelayReqMessage::try_from(&data[..43]).err(),
        Some(DecodeError::TooShort)
    );
    assert!(matches!(PtpMessage::try_from(&data[..]), Ok(PtpMessage::DelayReq(_))));

    let mut data = header_bytes(0x2, 54);
    data[34..44].copy_from_slice(&STAMP);
    let pdelay_req = PDelayReqMessage::try_from(&data[..]).unwrap();
    check_header(&pdelay_req.header, PtpMessageType::PDelayReq);
    assert_eq!(pdelay_req.origin_timestamp, stamp());
    assert_eq!(
        PDelayReqMessage::try_from(&data[..53]).err(),
        Some(DecodeError::TooShort)
    );
    assert!(matches!(PtpMessage::try_from(&data[..]), Ok(PtpMessage::PDelayReq(_))));
    assert!(PtpMessage::try_from(&data[..53]).is_err());

    data[44..54].copy_from_slice(&PORT);
    data[0] = 0xa3;
    let pdelay_resp = PDelayRespMessage::try_from(&data[..]).unwrap();
    check_header(&pdelay_resp.header, PtpMessageType::PDelayResp);
    assert_eq!(pdelay_resp.request_receipt_timestamp, stamp());
    assert_eq!(pdelay_resp.requesting_port_identity, port());
    assert_eq!(
        PDelayRespMessage::try_from(&data[..53]).err(),
        Some(DecodeError::TooShort)
    );
    assert!(matches!(PtpMessage::try_from(&data[..]), Ok(PtpMessage::PDelayResp(_))));

    data[0] = 0xaa;
    let follow_up = PDelayRespFollowUpMessage::try_from(&data[..]).unwrap();
    check_header(&follow_up.header, PtpMessageType::PDelayRespFollowUp);
    assert_eq!(follow_up.response_origin_timestamp, stamp());
    assert_eq!(follow_up.requesting_port_identity, port());
    assert_eq!(
        PDelayRespFollowUpMessage::try_from(&data[..53]).err(),
        Some(DecodeError::TooShort)
    );
    assert!(matches!(
        PtpMessage::try_from(&data[..]),
        Ok(PtpMessage::PDelayRespFollowup(_))
    ));

    data[0] = 0xa9;
    let delay_resp = DelayRespMessage::try_from(&data[..]).unwrap();
    check_header(&delay_resp.header, PtpMessageType::DelayResp);
    assert_eq!(delay_resp.receive_timestamp, stamp());
    assert_eq!(delay_resp.requesting_port_identity, port());
    assert_eq!(
        DelayRespMessage::try_from(&data[..53]).err(),
        Some(DecodeError::TooShort)
    );
    assert!(matches!(PtpMessage::try_from(&data[..]), Ok(PtpMessage::DelayResp(_))));

    let mut data = header_bytes(0xc, 54);
    data[34..44].copy_from_slice(&PORT);
    let signaling = SignalingMessage::try_from(&data[..]).unwrap();
    check_header(&signaling.header, PtpMessageType::Signaling);
    assert_eq!(signaling.target_port_identity, port());
    assert_eq!(
        SignalingMessage::try_from(&data[..53]).err(),
        Some(DecodeError::TooShort)
    );
    assert!(matches!(PtpMessage::try_from(&data[..]), Ok(PtpMessage::Signaling(_))));

    data[0] = 0xad;
    data[44] = 7;
    data[45] = 6;
    data[46] = 0xf3;
    let management = ManagementMessage::try_from(&data[..]).unwrap();
    check_header(&management.header, PtpMessageType::Management);
    assert_eq!(management.target_port_identity, port());
    assert_eq!(management.starting_boundary_hops, 7);
    assert_eq!(management.boundary_hops, 6);
    assert_eq!(management.action_field, 3);
    assert_eq!(
        ManagementMessage::try_from(&data[..53]).err(),
        Some(DecodeError::TooShort)
    );
    assert!(matches!(PtpMessage::try_from(&data[..]), Ok(PtpMessage::Management(_))));
    assert!(PtpMessage::try_from(&data[..53]).is_err());
}

#[test]
fn small_fields_decode_from_their_own_bytes() {
    assert_eq!(PtpTimestamp::try_from(&STAMP[..]), Ok(stamp()));
    assert_eq!(
        PtpTimestamp::try_from(&STAMP[..9]).err(),
        Some(DecodeError::WrongLength)
    );
    assert_eq!(PortIdentity::try_from(&PORT[..]), Ok(port()));
    assert_eq!(
        PortIdentity::try_from(&PORT[..9]).err(),
        Some(DecodeError::TooShort)
    );
    assert_eq!(
        ClockIdentity::try_from(&PORT[..]).err(),
        Some(DecodeError::WrongLength)
    );
    assert_eq!(ClockIdentity::try_from(&PORT[..8]), Ok(port().clock_identity));
    assert_eq!(port().clock_identity.to_u64(), 0xdead_beef_0001_0203);
    assert!(ClockIdentity::default() == ClockIdentity { clock_id: [0; 8] });
    assert!(port().clock_identity != ClockIdentity::default());
    assert_eq!(
        PtpHeaderFlags::try_from(&[1u8, 2, 3][..]).err(),
        Some(DecodeError::WrongLength)
    );
    let flags = PtpHeaderFlags::try_from(&[0xa6u8, 0x59][..]).unwrap();
    assert_eq!(
        flags.details(),
        vec![
            ("Alternate TT Flag", false),
            ("Two-Step Flag", true),
            ("Unicast Flag", true),
            ("Profile Specific 1", true),
            ("Profile Specific 2", false),
            ("Security Flag", true),
            ("Leap 61", true),
            ("Leap 59", false),
            ("UTC Offset Valid", false),
            ("PTP Timescale", true),
            ("Time Traceable", true),
            ("Frequency Traceable", false),
            ("Syncronization Uncertain", true),
        ]
    );
    assert!(flags.to_string().starts_with("Alternate TT Flag: false, Two-Step Flag: true, "));
    assert!(flags.to_string().ends_with(", Syncronization Uncertain: true"));
    assert_eq!(PtpMessageType::try_from(0x4).err(), Some(DecodeError::UnknownMessageType));
    assert_eq!(PtpMessageType::try_from(0xa), Ok(PtpMessageType::PDelayRespFollowUp));
    assert_eq!(DecodeError::UnknownVersion.message(), "Unknown PTP version");
}

#[test]
fn details_are_labelled_text() {
    assert_eq!(decimal_string(0), "0");
    assert_eq!(decimal_string(u128::MAX), u128::MAX.to_string());
    assert_eq!(
        format_kv(&vec![
            ("a".to_string(), "1".to_string()),
            ("b".to_string(), "2".to_string())
        ]),
        "a: 1, b: 2"
    );
    assert_eq!(format_kv(&Vec::new()), "");
    assert_eq!(PtpUtcOffset::new(37).to_string(), "+37s");
    assert_eq!(PtpUtcOffset::new(-32768).to_string(), "-32768s");
    assert_eq!(PtpUtcOffset::new(0).to_string(), "+0s");
    assert_eq!(PtpClockAccuracy::new(0x23).to_string(), "35 (1 µs)");
    assert_eq!(PtpClockAccuracy::new(0x90).to_string(), "144 (Alternate PTP profile)");
    assert_eq!(PtpClockClass::new(100).to_string(), "100 (Alternate PTP profile)");
    assert_eq!(PtpClockClass::new(255).to_string(), "255 (Follower-only)");
    assert_eq!(PtpClockClass::new(0).to_string(), "0 (Reserved)");
    assert_eq!(format_clock_class(None), "N/A");
    assert_eq!(
        format_clock_class(Some(PtpClockClass::new(248))),
        "248 (Default, free-running)"
    );
    assert_eq!(format_clock_accuracy(None), "N/A");
    assert_eq!(
        format_clock_accuracy(Some(PtpClockAccuracy::new(0x20))),
        "32 (25 ns)"
    );
    assert_eq!(format_timestamp(None), "N/A");
    assert_eq!(format_timestamp(Some(PtpTimestamp { seconds: 0, nanoseconds: 0 })), "0");
    assert_eq!(
        format_calendar((2024, 2, 29, 1, 2, 3, 4), 37_000_000_000),
        "2024-02-29 01:02:03.000000004 (+37s)"
    );
    assert_eq!(
        format_calendar((-5, 12, 1, 23, 59, 59, 999_999_999), -1_500_000_000),
        "-5-12-01 23:59:59.999999999 (-1s)"
    );

    let mut data = header_bytes(0x0, 44);
    data[34..44].copy_from_slice(&[0, 0, 0, 0, 0, 2, 0x1d, 0xcd, 0x65, 0x00]);
    let sync = SyncMessage::try_from(&data[..]).unwrap();
    let stamp = "1970-01-01 00:00:02.500000000 (+0s)".to_string();
    assert_eq!(
        sync.details_compact(),
        vec![("OriginTS".to_string(), stamp.clone())]
    );
    assert_eq!(
        sync.details(),
        vec![
            ("OriginTS".to_string(), stamp.clone()),
            ("→ samples @44100 Hz".to_string(), "110250".to_string()),
            ("→ samples @48000 Hz".to_string(), "120000".to_string()),
            ("→ samples @96000 Hz".to_string(), "240000".to_string()),
        ]
    );
    assert_eq!(sync.to_string(), format!("OriginTS: {}", stamp));
    assert_eq!(PtpMessage::try_from(&data[..]).unwrap().details(), sync.details());
    data[34..44].copy_from_slice(&[0; 10]);
    let unset = SyncMessage::try_from(&data[..]).unwrap();
    assert_eq!(unset.details(), vec![("OriginTS".to_string(), "0".to_string())]);

    let mut data = header_bytes(0xd, 54);
    data[34..44].copy_from_slice(&PORT);
    data[44] = 200;
    data[46] = 4;
    let management = ManagementMessage::try_from(&data[..]).unwrap();
    assert_eq!(
        management.to_string(),
        "Target PI: de:ad:be:ef:00:01:02:03-8001, StartingBoundaryHops: 200, BoundaryHops: 0, \
         ActionField: 4"
    );
    let timestamp = PtpTimestamp { seconds: u64::MAX, nanoseconds: u32::MAX };
    assert_eq!(timestamp.total_nanoseconds(), 18446744073709551615000000000 + 4294967295);
    assert_eq!(
        timestamp.rtp_samples(u32::MAX) as u128,
        (timestamp.total_nanoseconds() * u32::MAX as u128 / 1_000_000_000) % (1u128 << 32)
    );
    assert_eq!(timestamp.common_samplerates(), vec![44100, 48000, 96000]);
    assert!(timestamp.format_common_samplerates("x").len() == 3);
}

#[test]
fn interfaces_are_monitored_under_their_first_usable_address() {
    let addresses = [
        IpAddress::V6(1),
        IpAddress::v4(127, 0, 0, 1),
        IpAddress::v4(192, 168, 1, 7),
        IpAddress::v4(10, 0, 0, 1),
    ];
    assert_eq!(monitored_address("eth0", &addresses), Some(0xc0a80107));
    assert_eq!(monitored_address("docker0", &addresses), None);
    assert_eq!(monitored_address("eth0", &addresses[..2]), None);
    assert_eq!(monitored_address("eth0", &[]), None);
    assert_eq!(
        monitored_address("eth0", &[IpAddress::v4(128, 0, 0, 1)]),
        Some(0x80000001)
    );
}

#[test]
fn interface_arguments_name_an_interface_and_a_vlan() {
    assert_eq!(parse_interface_spec("eth0"), ("eth0".to_string(), None));
    assert_eq!(parse_interface_spec("eth0,100"), ("eth0".to_string(), Some(100)));
    assert_eq!(parse_interface_spec("eth0,+7,9"), ("eth0".to_string(), Some(7)));
    assert_eq!(parse_interface_spec("eth0,65535"), ("eth0".to_string(), Some(65535)));
    assert_eq!(parse_interface_spec("eth0,65536"), ("eth0".to_string(), None));
    assert_eq!(parse_interface_spec("eth0,0007"), ("eth0".to_string(), Some(7)));
    assert_eq!(parse_interface_spec("eth0,"), ("eth0".to_string(), None));
    assert_eq!(parse_interface_spec("eth0,+"), ("eth0".to_string(), None));
    assert_eq!(parse_interface_spec("eth0,-1"), ("eth0".to_string(), None));
    assert_eq!(parse_interface_spec("eth0, 1"), ("eth0".to_string(), None));
    assert_eq!(parse_interface_spec("eth0,1x"), ("eth0".to_string(), None));
    assert_eq!(parse_interface_spec(",5"), ("".to_string(), Some(5)));
    assert_eq!(parse_interface_spec(""), ("".to_string(), None));
    assert_eq!(parse_interface_spec("énp0,12"), ("énp0".to_string(), Some(12)));
    for text in ["eth0,100", "a,b,c", "x,+65535", "x,99999", "plain", "x,,4"] {
        let parts: Vec<&str> = text.split(",").collect();
        let expected = if parts.len() > 1 {
            (parts[0].to_string(), parts[1].parse::<u16>().ok())
        } else {
            (text.to_string(), None)
        };
        assert_eq!(parse_interface_spec(text), expected);
    }
}
