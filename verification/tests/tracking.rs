use std::rc::Rc;
use std::sync::Arc;

use ptp_trace::header::{PtpClockAccuracy, PtpClockClass};
use ptp_trace::history::BoundedVec;
use ptp_trace::host::PtpHost;
use ptp_trace::identity::ClockIdentity;
use ptp_trace::messages::PtpMessage;
use ptp_trace::packet::{IpAddress, ParsedPacket, RawPacket, SocketAddress};
use ptp_trace::source::RawSocketReceiver;
use ptp_trace::state::{
    PtpHostState, PtpHostStateTimeReceiver, PtpHostStateTimeTransmitter, FULL_CONFIDENCE,
    HEURISTIC_CONFIDENCE_CAP,
};
use ptp_trace::tracker::PtpTracker;
use ptp_trace::vendor::VendorTable;

const SECOND: u64 = 1_000_000_000;

fn create_test_transmitter_state() -> PtpHostStateTimeTransmitter {
    PtpHostStateTimeTransmitter {
        priority1: Some(128),
        priority2: Some(128),
        clock_class: Some(PtpClockClass::new(6)),
        clock_accuracy: Some(PtpClockAccuracy::new(0x20)),
        offset_scaled_log_variance: Some(0x4E5D),
        steps_removed: Some(0),
        time_source: Some(0x20),
        ..Default::default()
    }
}

fn create_test_clock_identity(id: u64) -> ClockIdentity {
    ClockIdentity {
        clock_id: [
            (id >> 56) as u8,
            (id >> 48) as u8,
            (id >> 40) as u8,
            (id >> 32) as u8,
            (id >> 24) as u8,
            (id >> 16) as u8,
            (id >> 8) as u8,
            id as u8,
        ],
    }
}

fn header(message_type: u8, domain: u8, clock: u64, length: usize) -> Vec<u8> {
    let mut data = vec![0u8; length];
    data[0] = message_type;
    data[1] = 0x02;
    data[2] = (length >> 8) as u8;
    data[3] = length as u8;
    data[4] = domain;
    data[20..28].copy_from_slice(&create_test_clock_identity(clock).clock_id);
    data[29] = 1;
    data
}

fn announce(domain: u8, clock: u64, priority1: u8) -> Vec<u8> {
    let mut data = header(0x0b, domain, clock, 64);
    data[45] = 37;
    data[47] = priority1;
    data[48] = 6;
    data[49] = 0x20;
    data[50] = 0x4e;
    data[51] = 0x5d;
    data[52] = 128;
    data[53..61].copy_from_slice(&create_test_clock_identity(clock).clock_id);
    data[63] = 0x20;
    data
}

fn sync(domain: u8, clock: u64) -> Vec<u8> {
    header(0x00, domain, clock, 44)
}

fn delay_req(domain: u8, clock: u64) -> Vec<u8> {
    header(0x01, domain, clock, 44)
}

fn delay_resp(domain: u8, clock: u64, requester: u64) -> Vec<u8> {
    let mut data = header(0x09, domain, clock, 54);
    data[44..52].copy_from_slice(&create_test_clock_identity(requester).clock_id);
    data[53] = 1;
    data
}

fn frame(payload: Vec<u8>, timestamp: u64) -> RawPacket {
    RawPacket {
        timestamp,
        data: payload.clone(),
        source_addr: Some(SocketAddress {
            ip: IpAddress::v4(10, 0, 0, 50),
            port: 319,
        }),
        source_mac: [0, 1, 2, 3, 4, 5],
        dest_addr: Some(SocketAddress {
            ip: IpAddress::v4(224, 0, 1, 129),
            port: 319,
        }),
        dest_mac: [1, 0, 0x5e, 0, 1, 0x81],
        vlan_id: Some(7),
        ttl: Some(1),
        interface_name: "eth0".to_string(),
        ptp_payload: payload,
    }
}

fn tracker() -> PtpTracker {
    PtpTracker::new(RawSocketReceiver::live(Vec::new()), 0)
}

fn transmitter_of(tracker: &PtpTracker, clock: u64) -> PtpHostStateTimeTransmitter {
    let host = tracker
        .get_host_by_clock_identity(&create_test_clock_identity(clock))
        .unwrap();
    match host.state {
        PtpHostState::TimeTransmitter(state) => state,
        _ => panic!("not a transmitter"),
    }
}

fn receiver_of(tracker: &PtpTracker, clock: u64) -> PtpHostStateTimeReceiver {
    let host = tracker
        .get_host_by_clock_identity(&create_test_clock_identity(clock))
        .unwrap();
    match host.state {
        PtpHostState::TimeReceiver(state) => state,
        _ => panic!("not a receiver"),
    }
}

#[test]
fn test_bmca_priority1_comparison() {
    let mut state1 = create_test_transmitter_state();
    let mut state2 = create_test_transmitter_state();

    state1.priority1 = Some(64);
    state2.priority1 = Some(128);

    let clock1 = create_test_clock_identity(1);
    let clock2 = create_test_clock_identity(2);

    assert_eq!(
        state1.compare_for_bmca(&state2, clock1, clock2),
        std::cmp::Ordering::Less
    );
    assert_eq!(
        state2.compare_for_bmca(&state1, clock2, clock1),
        std::cmp::Ordering::Greater
    );
}

#[test]
fn test_bmca_clock_class_comparison() {
    let mut state1 = create_test_transmitter_state();
    let mut state2 = create_test_transmitter_state();

    state1.priority1 = Some(128);
    state2.priority1 = Some(128);
    state1.clock_class = Some(PtpClockClass::new(6));
    state2.clock_class = Some(PtpClockClass::new(7));

    let clock1 = create_test_clock_identity(1);
    let clock2 = create_test_clock_identity(2);

    assert_eq!(
        state1.compare_for_bmca(&state2, clock1, clock2),
        std::cmp::Ordering::Less
    );
}

#[test]
fn test_bmca_clock_identity_tiebreaker() {
    let state1 = create_test_transmitter_state();
    let state2 = create_test_transmitter_state();

    let clock1 = create_test_clock_identity(0x0000000000000001);
    let clock2 = create_test_clock_identity(0x0000000000000002);

    assert_eq!(
        state1.compare_for_bmca(&state2, clock1, clock2),
        std::cmp::Ordering::Less
    );
    assert_eq!(
        state2.compare_for_bmca(&state1, clock2, clock1),
        std::cmp::Ordering::Greater
    );
}

#[test]
fn test_bmca_missing_data_handling() {
    let mut state1 = create_test_transmitter_state();
    let mut state2 = create_test_transmitter_state();

    state1.priority1 = Some(128);
    state2.priority1 = None;

    let clock1 = create_test_clock_identity(1);
    let clock2 = create_test_clock_identity(2);

    assert_eq!(
        state1.compare_for_bmca(&state2, clock1, clock2),
        std::cmp::Ordering::Less
    );
    assert_eq!(
        state2.compare_for_bmca(&state1, clock2, clock1),
        std::cmp::Ordering::Greater
    );
}

#[test]
fn test_bmca_winner_flag() {
    let mut state = create_test_transmitter_state();
    assert!(!state.is_bmca_winner);

    state.is_bmca_winner = true;
    assert!(state.is_bmca_winner);
}

#[test]
fn bmca_compares_every_criterion_in_order() {
    let base = create_test_transmitter_state();
    let low = create_test_clock_identity(1);
    let high = create_test_clock_identity(2);

    let mut worse = base;
    worse.clock_accuracy = Some(PtpClockAccuracy::new(0x21));
    assert_eq!(
        base.compare_for_bmca(&worse, high, low),
        std::cmp::Ordering::Less
    );
    let mut worse = base;
    worse.offset_scaled_log_variance = Some(0x4E5E);
    assert_eq!(
        worse.compare_for_bmca(&base, low, high),
        std::cmp::Ordering::Greater
    );
    let mut worse = base;
    worse.priority2 = Some(129);
    assert_eq!(
        base.compare_for_bmca(&worse, high, low),
        std::cmp::Ordering::Less
    );
    // An earlier criterion decides against a later one.
    let mut a = base;
    let mut b = base;
    a.clock_class = Some(PtpClockClass::new(7));
    b.priority2 = Some(200);
    assert_eq!(a.compare_for_bmca(&b, low, high), std::cmp::Ordering::Greater);
    // The same state under the same identity ties.
    assert_eq!(base.compare_for_bmca(&base, low, low), std::cmp::Ordering::Equal);
    assert!(base.outranks(&base, low, high));
    assert!(!base.outranks(&base, high, low));
    // A missing priority1 loses against any present one, whatever else holds.
    let mut missing = base;
    missing.priority1 = None;
    missing.clock_class = Some(PtpClockClass::new(0));
    let mut present = base;
    present.priority1 = Some(255);
    assert_eq!(
        present.compare_for_bmca(&missing, high, low),
        std::cmp::Ordering::Less
    );
}

#[test]
fn test_multiple_ip_addresses() {
    let mut host = PtpHost::new(ClockIdentity::default(), 0);

    host.add_ip_address(IpAddress::v4(10, 0, 0, 50), Some(1), "eth1".to_string());

    assert_eq!(host.get_ip_count(), 1);
    assert!(host.get_primary_ip().is_some());
    assert!(!host.has_multiple_ips());

    host.add_ip_address(IpAddress::v4(192, 168, 1, 100), Some(2), "eth0".to_string());
    assert_eq!(host.get_ip_count(), 2);
    assert!(host.has_multiple_ips());

    host.add_ip_address(IpAddress::v4(10, 0, 0, 50), Some(3), "eth1-backup".to_string());
    assert_eq!(host.get_ip_count(), 2);

    host.add_ip_address(IpAddress::v4(172, 16, 0, 1), Some(4), "eth2".to_string());
    assert_eq!(host.get_ip_count(), 3);
    assert!(host.has_multiple_ips());
    assert_eq!(host.vlan_id, Some(4));
    assert_eq!(host.get_primary_ip(), Some(&IpAddress::V4(0x0a000032)));
    assert!(host.has_local_ip(&[IpAddress::v4(172, 16, 0, 1)]));
    assert!(!host.has_local_ip(&[IpAddress::v4(172, 16, 0, 2)]));
}

#[test]
fn test_interface_collection() {
    let mut host = PtpHost::new(ClockIdentity::default(), 0);

    assert_eq!(host.get_interface_count(), 0);
    assert!(host.get_interface_names().is_empty());

    host.add_ip_address(IpAddress::v4(10, 0, 0, 50), Some(1), "eth0".to_string());
    assert_eq!(host.get_interface_count(), 1);
    let interfaces = host.get_interface_names();
    assert_eq!(interfaces.len(), 1);
    assert!(interfaces.contains(&"eth0".to_string()));

    host.add_ip_address(IpAddress::v4(192, 168, 1, 100), Some(1), "eth1".to_string());
    assert_eq!(host.get_interface_count(), 2);
    let interfaces = host.get_interface_names();
    assert_eq!(interfaces.len(), 2);
    assert!(interfaces.contains(&"eth0".to_string()));
    assert!(interfaces.contains(&"eth1".to_string()));

    host.add_interface("wlan0".to_string());
    assert_eq!(host.get_interface_count(), 3);
    let interfaces = host.get_interface_names();
    assert_eq!(interfaces.len(), 3);
    assert!(interfaces.contains(&"eth0".to_string()));
    assert!(interfaces.contains(&"eth1".to_string()));
    assert!(interfaces.contains(&"wlan0".to_string()));

    host.add_ip_address(IpAddress::v4(10, 0, 0, 50), Some(1), "eth0-backup".to_string());
    assert_eq!(host.get_interface_count(), 4);
    let interfaces = host.get_interface_names();
    assert_eq!(interfaces.len(), 4);
    assert!(interfaces.contains(&"eth0-backup".to_string()));

    host.add_interface("wlan0".to_string());
    assert_eq!(host.get_interface_count(), 4);
}

#[test]
fn test_primary_interface_and_multiple_interfaces() {
    let mut host = PtpHost::new(ClockIdentity::default(), 0);

    assert_eq!(host.get_primary_interface(), None);
    assert!(!host.has_multiple_interfaces());

    host.add_ip_address(IpAddress::v4(10, 0, 0, 50), Some(1), "eth0".to_string());
    assert_eq!(host.get_primary_interface(), Some(&"eth0".to_string()));
    assert!(!host.has_multiple_interfaces());

    host.add_ip_address(IpAddress::v4(192, 168, 1, 100), Some(1), "eth1".to_string());
    assert!(host.has_multiple_interfaces());
    let primary = host.get_primary_interface();
    assert!(primary.is_some());

    host.add_interface("wlan0".to_string());
    assert!(host.has_multiple_interfaces());
    assert_eq!(host.get_interface_count(), 3);

    let mut host2 = PtpHost::new(ClockIdentity::default(), 0);
    host2.add_interface("wlan0".to_string());
    assert_eq!(host2.get_primary_interface(), Some(&"wlan0".to_string()));
    assert!(!host2.has_multiple_interfaces());

    host2.add_interface("eth0".to_string());
    assert!(host2.has_multiple_interfaces());
}

#[test]
fn interface_names_come_out_sorted_and_once() {
    let mut host = PtpHost::new(ClockIdentity::default(), 0);
    host.add_interface("wlan0".to_string());
    host.add_ip_address(IpAddress::v4(10, 0, 0, 1), None, "eth1".to_string());
    host.add_ip_address(IpAddress::v4(10, 0, 0, 2), None, "eth0".to_string());
    host.add_ip_address(IpAddress::v4(10, 0, 0, 2), None, "wlan0".to_string());
    host.add_ip_address(IpAddress::v4(10, 0, 0, 1), None, "Eth9".to_string());
    assert_eq!(
        host.get_interface_names(),
        vec![
            "Eth9".to_string(),
            "eth0".to_string(),
            "eth1".to_string(),
            "wlan0".to_string()
        ]
    );
    assert_eq!(
        host.distinct_interface_names(),
        vec![
            "wlan0".to_string(),
            "eth1".to_string(),
            "Eth9".to_string(),
            "eth0".to_string()
        ]
    );
    assert_eq!(host.get_interface_count(), 4);
    assert_eq!(host.get_primary_interface(), Some(&"wlan0".to_string()));
}

#[test]
fn test_oui_vendor_lookup() {
    let mut table = VendorTable::new();
    table.add(0x00000c, "Cisco Systems, Inc".to_string());
    table.add(0x001b19, "IEEE I&M Society TC9".to_string());

    let b: [u8; 8] = [0x00, 0x00, 0x0c, 0x11, 0x22, 0x33, 0x44, 0x55];
    assert_eq!(
        ClockIdentity::try_from(&b[..])
            .unwrap()
            .extract_vendor_name(&table),
        Some("Cisco Systems, Inc")
    );

    let b: [u8; 8] = [0xff, 0xff, 0xff, 0x11, 0x22, 0x33, 0x44, 0x55];
    assert_eq!(
        ClockIdentity::try_from(&b[..])
            .unwrap()
            .extract_vendor_name(&table),
        None
    );
    let host = PtpHost::new(create_test_clock_identity(0x001b19fffe123456), 0);
    assert_eq!(host.get_vendor_name(&table), Some("IEEE I&M Society TC9"));
}

#[test]
fn history_keeps_the_most_recent_packets_oldest_first() {
    let mut history: BoundedVec<u32> = BoundedVec::new(3);
    for item in 1..=4u32 {
        history.push(item);
    }
    assert_eq!(history.len(), 3);
    assert_eq!(history.items.iter().copied().collect::<Vec<u32>>(), vec![2, 3, 4]);
    assert_eq!(history.get(0), Some(&2));
    assert_eq!(history.get(3), None);
    history.set_max_size(1);
    assert_eq!(history.items.iter().copied().collect::<Vec<u32>>(), vec![4]);
    history.push(5);
    assert_eq!(history.items.iter().copied().collect::<Vec<u32>>(), vec![5]);
    history.clear();
    assert!(history.is_empty());
    assert_eq!(history.max_size, 1);
    let mut none: BoundedVec<u32> = BoundedVec::new(0);
    none.push(1);
    assert!(none.is_empty());
}

#[test]
fn host_history_is_bounded_and_shared() {
    let mut host = PtpHost::new(create_test_clock_identity(9), 0);
    host.set_max_packet_history(2);
    for sequence in 0..3u8 {
        let mut payload = sync(0, 9);
        payload[31] = sequence;
        let msg = PtpMessage::try_from(&payload[..]).unwrap();
        let packet = Rc::new(ParsedPacket {
            ptp: msg,
            raw: Arc::new(frame(payload, 5)),
        });
        host.add_packet(packet);
    }
    let history = host.get_packet_history();
    assert_eq!(history.len(), 2);
    assert_eq!(history[0].ptp.header().sequence_id, 1);
    assert_eq!(history[1].ptp.header().sequence_id, 2);
    assert_eq!(history[1].raw.interface_name, "eth0");
    host.clear_packet_history();
    assert!(host.get_packet_history().is_empty());
}

#[test]
fn announce_makes_a_transmitter_that_has_not_won_yet() {
    let msg_data = [
        0x0B, 0x02, 0x00, 0x40, 0x00, 0x00, 0x08, 0x00, 0x00, 0x00, 0x00, 0x00, 0x00, 0x00, 0x00,
        0x00, 0x00, 0x00, 0x00, 0x00, 0x00, 0x1B, 0x19, 0xFF, 0xFE, 0x12, 0x34, 0x56, 0x00, 0x01,
        0x00, 0x01, 0x05, 0x01, 0x00, 0x00, 0x01, 0x00, 0x00, 0x00, 0x00, 0x00, 0x00, 0x00, 0x00,
        0x25, 0x00, 0x80, 0x06, 0x20, 0xFF, 0xFF, 0x80, 0x00, 0x1B, 0x19, 0xFF, 0xFE, 0x12, 0x34,
        0x56, 0x00, 0x00, 0x20,
    ];
    let mut tracker = tracker();
    tracker.handle_raw_packet(Arc::new(frame(msg_data.to_vec(), 77)), SECOND, 99);
    let state = transmitter_of(&tracker, 0x001b19fffe123456);
    assert_eq!(state.priority1, Some(0x80));
    assert_eq!(state.priority2, Some(0x80));
    assert_eq!(state.clock_class, Some(PtpClockClass::new(6)));
    assert_eq!(state.current_utc_offset.unwrap().offset, 37);
    assert_eq!(state.steps_removed, Some(0));
    assert_eq!(state.time_source, Some(0x20));
    assert!(!state.is_bmca_winner);
    let host = tracker
        .get_host_by_clock_identity(&create_test_clock_identity(0x001b19fffe123456))
        .unwrap();
    assert_eq!(host.announce_count, 1);
    assert_eq!(host.total_messages_sent_count, 1);
    assert_eq!(host.domain_number, Some(0));
    assert_eq!(host.last_seen, 77);
    assert_eq!(host.vlan_id, Some(7));
    assert_eq!(host.get_primary_ip(), Some(&IpAddress::v4(10, 0, 0, 50)));
    assert_eq!(host.get_packet_history().len(), 1);
    assert_eq!(tracker.last_packet, SECOND);
    tracker.run_bmca_election();
    assert!(transmitter_of(&tracker, 0x001b19fffe123456).is_bmca_winner);
    assert_eq!(
        tracker
            .get_host_by_clock_identity(&create_test_clock_identity(0x001b19fffe123456))
            .unwrap()
            .state
            .short_string(),
        "PTT"
    );
}

#[test]
fn election_marks_the_best_transmitter_and_moves_the_receivers() {
    let mut tracker = tracker();
    // B first, so that the winner is not simply the first host.
    tracker.handle_raw_packet(Arc::new(frame(announce(0, 0xb, 128), 1)), 1, 1);
    tracker.handle_raw_packet(Arc::new(frame(announce(0, 0xa, 64), 2)), 2, 2);
    // A transmitter of another domain and receivers of both domains.
    tracker.handle_raw_packet(Arc::new(frame(announce(1, 0xc, 200), 3)), 3, 3);
    tracker.handle_raw_packet(Arc::new(frame(delay_resp(0, 0xb, 0x10), 4)), 4, 4);
    tracker.handle_raw_packet(Arc::new(frame(delay_req(0, 0x10), 5)), 5, 5);
    tracker.handle_raw_packet(Arc::new(frame(delay_req(1, 0x11), 6)), 6, 6);
    tracker.handle_raw_packet(Arc::new(frame(sync(1, 0xc), 7)), 7, 7);
    tracker.handle_raw_packet(Arc::new(frame(delay_req(1, 0x11), 8)), 8, 8);
    tracker.handle_raw_packet(Arc::new(frame(delay_req(2, 0x12), 9)), 9, 9);
    assert_eq!(
        receiver_of(&tracker, 0x10).selected_transmitter_identity,
        Some(create_test_clock_identity(0xb))
    );
    assert_eq!(
        tracker
            .get_host_by_clock_identity(&create_test_clock_identity(0x12))
            .unwrap()
            .state
            .short_string(),
        "L"
    );

    tracker.run_bmca_election();

    assert!(transmitter_of(&tracker, 0xa).is_bmca_winner);
    assert!(!transmitter_of(&tracker, 0xb).is_bmca_winner);
    assert!(transmitter_of(&tracker, 0xc).is_bmca_winner);
    let follower = receiver_of(&tracker, 0x10);
    assert_eq!(
        follower.selected_transmitter_identity,
        Some(create_test_clock_identity(0xa))
    );
    assert_eq!(follower.selected_transmitter_confidence, FULL_CONFIDENCE);
    assert_eq!(
        follower.selected_transmitter_confidence as f32 / FULL_CONFIDENCE as f32,
        1.0
    );
    let other = receiver_of(&tracker, 0x11);
    assert_eq!(
        other.selected_transmitter_identity,
        Some(create_test_clock_identity(0xc))
    );
    assert_eq!(other.selected_transmitter_confidence, FULL_CONFIDENCE);
    assert_eq!(tracker.get_transmitter_count(), 3);
    assert_eq!(tracker.get_receiver_count(), 2);
    let hosts = tracker.get_hosts();
    let letters: Vec<&str> = hosts.iter().map(|h| h.state.short_string()).collect();
    assert_eq!(letters, vec!["TT", "PTT", "PTT", "TR", "TR", "L"]);

    // A better clock appears: the flag moves.
    tracker.handle_raw_packet(Arc::new(frame(announce(0, 0xd, 10), 10)), 10, 10);
    tracker.run_bmca_election();
    assert!(!transmitter_of(&tracker, 0xa).is_bmca_winner);
    assert!(transmitter_of(&tracker, 0xd).is_bmca_winner);
    assert_eq!(
        receiver_of(&tracker, 0x10).selected_transmitter_identity,
        Some(create_test_clock_identity(0xd))
    );
}

#[test]
fn delay_req_is_correlated_with_the_latest_sync_sender() {
    let mut tracker = tracker();
    tracker.handle_raw_packet(Arc::new(frame(sync(0, 0x20), 1)), 10 * SECOND, 1);
    tracker.handle_raw_packet(Arc::new(frame(sync(0, 0x21), 1)), 11 * SECOND, 1);
    tracker.handle_raw_packet(Arc::new(frame(sync(0, 0x20), 1)), 12 * SECOND, 1);
    tracker.handle_raw_packet(Arc::new(frame(sync(5, 0x22), 1)), 13 * SECOND, 1);
    assert_eq!(tracker.recent_sync_senders.len(), 2);
    assert_eq!(
        tracker.recent_sync_senders[0],
        (
            0u8,
            vec![
                (create_test_clock_identity(0x20), 12 * SECOND),
                (create_test_clock_identity(0x21), 11 * SECOND)
            ]
        )
    );
    assert_eq!(
        tracker.latest_sync_sender(0),
        Some((create_test_clock_identity(0x20), 12 * SECOND))
    );
    assert_eq!(tracker.latest_sync_sender(9), None);

    tracker.handle_raw_packet(
        Arc::new(frame(delay_req(0, 0x30), 1)),
        12 * SECOND + 2_500_000_000,
        1,
    );
    let state = receiver_of(&tracker, 0x30);
    assert_eq!(
        state.selected_transmitter_identity,
        Some(create_test_clock_identity(0x20))
    );
    assert_eq!(state.selected_transmitter_confidence, 2500);
    let confidence = state.selected_transmitter_confidence as f32 / FULL_CONFIDENCE as f32;
    assert_eq!(confidence, (2500.0_f32 / 5000.0).clamp(0.0, 0.9));

    // Long after the last Sync the heuristic stops at its cap.
    tracker.handle_raw_packet(Arc::new(frame(delay_req(0, 0x30), 1)), 40 * SECOND, 1);
    assert_eq!(
        receiver_of(&tracker, 0x30).selected_transmitter_confidence,
        HEURISTIC_CONFIDENCE_CAP
    );
    // A completed exchange gives full confidence, which the heuristic keeps.
    tracker.handle_raw_packet(Arc::new(frame(delay_resp(0, 0x21, 0x30), 1)), 41 * SECOND, 1);
    let state = receiver_of(&tracker, 0x30);
    assert_eq!(state.selected_transmitter_confidence, FULL_CONFIDENCE);
    assert_eq!(
        state.selected_transmitter_identity,
        Some(create_test_clock_identity(0x21))
    );
    tracker.handle_raw_packet(Arc::new(frame(delay_req(0, 0x30), 1)), 42 * SECOND, 1);
    tracker.handle_raw_packet(Arc::new(frame(delay_req(0, 0x30), 1)), 43 * SECOND, 1);
    let state = receiver_of(&tracker, 0x30);
    assert_eq!(state.selected_transmitter_confidence, FULL_CONFIDENCE);
    assert_eq!(
        state.selected_transmitter_identity,
        Some(create_test_clock_identity(0x21))
    );
    let host = tracker
        .get_host_by_clock_identity(&create_test_clock_identity(0x30))
        .unwrap();
    assert_eq!(host.delay_req_count, 4);
    assert_eq!(host.delay_resp_count, 1);
    assert_eq!(host.total_messages_sent_count, 4);
    assert_eq!(host.total_messages_received_count, 1);
    assert_eq!(host.get_packet_history().len(), 5);
    // A DelayReq in a domain without sync senders changes no role.
    tracker.handle_raw_packet(Arc::new(frame(delay_req(3, 0x31), 1)), 44 * SECOND, 1);
    assert!(!tracker
        .get_host_by_clock_identity(&create_test_clock_identity(0x31))
        .unwrap()
        .is_receiver());
}

#[test]
fn old_sync_senders_are_pruned_and_empty_domains_removed() {
    let mut tracker = tracker();
    tracker.handle_raw_packet(Arc::new(frame(sync(0, 0x20), 1)), 10 * SECOND, 1);
    tracker.handle_raw_packet(Arc::new(frame(sync(0, 0x21), 1)), 50 * SECOND, 1);
    tracker.handle_raw_packet(Arc::new(frame(sync(1, 0x22), 1)), 10 * SECOND, 1);
    tracker.cleanup_old_sync_senders(69 * SECOND + 999_999_999);
    assert_eq!(tracker.recent_sync_senders.len(), 2);
    tracker.cleanup_old_sync_senders(70 * SECOND);
    assert_eq!(
        tracker.recent_sync_senders,
        vec![(0u8, vec![(create_test_clock_identity(0x21), 50 * SECOND)])]
    );
    // A clock that runs behind the recorded time keeps the entry.
    tracker.cleanup_old_sync_senders(0);
    assert_eq!(tracker.recent_sync_senders.len(), 1);
    tracker.cleanup_old_sync_senders(110 * SECOND);
    assert!(tracker.recent_sync_senders.is_empty());
}

#[test]
fn a_scan_cycle_handles_one_batch_and_defers_the_rest() {
    let mut frames = Vec::new();
    for n in 0..150u64 {
        let payload = if n == 3 { vec![0u8; 20] } else { announce(0, 0x100 + n, 128) };
        frames.push(frame(payload, 1_000 + n));
    }
    let receiver = RawSocketReceiver::replay(frames);
    assert_eq!(receiver.get_last_timestamp(), Some(1_149));
    assert!(receiver.get_interfaces().is_empty());
    let mut tracker = PtpTracker::new(receiver, 5);
    assert_eq!(tracker.get_last_packet_age(7), 2);
    assert_eq!(tracker.get_last_packet_age(3), 0);
    tracker.scan_network(SECOND, 2 * SECOND);
    assert_eq!(tracker.raw_socket_receiver.queue.len(), 50);
    assert_eq!(tracker.get_hosts().len(), 99);
    assert_eq!(tracker.get_transmitter_count(), 99);
    assert!(transmitter_of(&tracker, 0x100).is_bmca_winner);
    assert!(!transmitter_of(&tracker, 0x101).is_bmca_winner);
    tracker.scan_network(2 * SECOND, 3 * SECOND);
    assert_eq!(tracker.raw_socket_receiver.queue.len(), 0);
    assert_eq!(tracker.get_hosts().len(), 149);
    tracker.scan_network(3 * SECOND, 4 * SECOND);
    assert_eq!(tracker.last_packet, 2 * SECOND);
    tracker.set_max_packet_history(0);
    assert_eq!(
        tracker
            .get_host_packet_history(create_test_clock_identity(0x100))
            .map(|h| h.len()),
        Some(0)
    );
    assert!(tracker
        .get_host_packet_history(create_test_clock_identity(0x1))
        .is_none());
    tracker.clear_hosts();
    assert!(tracker.get_hosts().is_empty());
}

#[test]
fn malformed_frames_change_nothing() {
    let mut tracker = tracker();
    tracker.handle_raw_packet(Arc::new(frame(vec![1, 2, 3], 1)), 9, 9);
    let mut version1 = sync(0, 1);
    version1[1] = 0x01;
    tracker.handle_raw_packet(Arc::new(frame(version1, 1)), 9, 9);
    let mut unknown = sync(0, 1);
    unknown[0] = 0x0e;
    tracker.handle_raw_packet(Arc::new(frame(unknown, 1)), 9, 9);
    let mut short = announce(0, 1, 1);
    short.truncate(63);
    tracker.handle_raw_packet(Arc::new(frame(short, 1)), 9, 9);
    assert!(tracker.get_hosts().is_empty());
    assert_eq!(tracker.last_packet, 0);
    assert!(tracker.recent_sync_senders.is_empty());
}

#[test]
fn layer_two_frames_record_the_interface_only() {
    let mut tracker = tracker();
    let mut raw = frame(sync(0, 0x40), 1);
    raw.source_addr = None;
    raw.dest_addr = None;
    raw.interface_name = "enp3s0".to_string();
    tracker.raw_socket_receiver.push(raw);
    tracker.scan_network(3, 4);
    let host = tracker
        .get_host_by_clock_identity(&create_test_clock_identity(0x40))
        .unwrap();
    assert!(!host.has_ip_addresses());
    assert_eq!(host.get_interfaces(), &vec!["enp3s0".to_string()]);
    assert_eq!(host.vlan_id, None);
    assert_eq!(host.time_since_last_seen(Some(11), 0), 10);
    assert_eq!(host.time_since_last_seen(None, 21), 20);
    assert_eq!(host.time_since_last_seen(Some(0), 21), 0);
    assert!(host.is_transmitter());
    assert_eq!(host.state.to_string(), "Primary Time Transmitter");
    tracker.clear_host_packet_history(create_test_clock_identity(0x40));
    tracker.clear_all_packet_histories();
    assert_eq!(
        tracker
            .get_host_packet_history(create_test_clock_identity(0x40))
            .map(|h| h.len()),
        Some(0)
    );
}

fn pdelay(message_type: u8, domain: u8, clock: u64, requester: u64) -> Vec<u8> {
    let mut data = header(message_type, domain, clock, 54);
    data[44..52].copy_from_slice(&create_test_clock_identity(requester).clock_id);
    data[53] = 1;
    data
}

#[test]
fn peer_delay_messages_are_counted_and_kept_but_change_no_sender_role() {
    let mut tracker = tracker();
    tracker.handle_raw_packet(Arc::new(frame(pdelay(0x2, 0, 0x50, 0), 1)), 1, 1);
    let asker = tracker
        .get_host_by_clock_identity(&create_test_clock_identity(0x50))
        .unwrap();
    assert_eq!(asker.pdelay_req_count, 1);
    assert_eq!(asker.total_messages_sent_count, 1);
    assert_eq!(asker.get_packet_history().len(), 1);
    assert_eq!(asker.state.short_string(), "L");
    assert_eq!(tracker.get_hosts().len(), 1);

    tracker.handle_raw_packet(Arc::new(frame(pdelay(0x3, 0, 0x51, 0x50), 2)), 2, 9);
    tracker.handle_raw_packet(Arc::new(frame(pdelay(0xa, 0, 0x51, 0x50), 3)), 3, 9);
    let responder = tracker
        .get_host_by_clock_identity(&create_test_clock_identity(0x51))
        .unwrap();
    assert_eq!(responder.pdelay_resp_count, 1);
    assert_eq!(responder.pdelay_resp_follow_up_count, 1);
    assert_eq!(responder.total_messages_sent_count, 2);
    assert_eq!(responder.total_messages_received_count, 0);
    assert_eq!(responder.get_packet_history().len(), 2);
    assert_eq!(responder.state.short_string(), "L");
    let asker = tracker
        .get_host_by_clock_identity(&create_test_clock_identity(0x50))
        .unwrap();
    assert_eq!(asker.pdelay_resp_count, 1);
    assert_eq!(asker.pdelay_resp_follow_up_count, 1);
    assert_eq!(asker.total_messages_received_count, 2);
    assert_eq!(asker.get_packet_history().len(), 3);
    let state = receiver_of(&tracker, 0x50);
    assert_eq!(state.selected_transmitter_identity, None);
    assert_eq!(state.selected_transmitter_confidence, 0);
    assert!(state.last_pdelay_response_origin_timestamp.is_some());
    assert!(state.last_pdelay_follow_up_timestamp.is_some());

    // A response that names its own sender as the requester updates that
    // one host twice.
    tracker.handle_raw_packet(Arc::new(frame(delay_resp(0, 0x52, 0x52), 4)), 4, 9);
    let own = tracker
        .get_host_by_clock_identity(&create_test_clock_identity(0x52))
        .unwrap();
    assert_eq!(own.delay_resp_count, 2);
    assert_eq!(own.total_messages_sent_count, 1);
    assert_eq!(own.total_messages_received_count, 1);
    assert_eq!(own.get_packet_history().len(), 2);
    assert_eq!(
        receiver_of(&tracker, 0x52).selected_transmitter_identity,
        Some(create_test_clock_identity(0x52))
    );
    // A host created as a requester counts as last seen when it was created.
    let mut other = PtpTracker::new(RawSocketReceiver::live(Vec::new()), 0);
    other.handle_raw_packet(Arc::new(frame(delay_resp(0, 0x60, 0x61), 4)), 4, 77);
    let requester = other
        .get_host_by_clock_identity(&create_test_clock_identity(0x61))
        .unwrap();
    assert_eq!(requester.last_seen, 77);
    assert_eq!(requester.domain_number, None);
    assert!(!requester.has_ip_addresses());
    assert_eq!(requester.get_interface_count(), 0);

    // A signaling and a management message only count.
    let mut signaling = header(0xc, 3, 0x70, 54);
    signaling[34] = 1;
    tracker.handle_raw_packet(Arc::new(frame(signaling, 5)), 5, 9);
    tracker.handle_raw_packet(Arc::new(frame(header(0xd, 3, 0x70, 54), 6)), 6, 9);
    let host = tracker
        .get_host_by_clock_identity(&create_test_clock_identity(0x70))
        .unwrap();
    assert_eq!(host.signaling_message_count, 1);
    assert_eq!(host.management_message_count, 1);
    assert_eq!(host.state.short_string(), "L");
    assert_eq!(host.get_packet_history().len(), 2);
}
