use pnet::packet::ethernet::{EtherTypes, EthernetPacket};
use pnet::packet::ip::IpNextHeaderProtocols;
use pnet::packet::ipv4::Ipv4Packet;
use pnet::packet::udp::UdpPacket;
use pnet::packet::Packet;
use ptp_trace::frame::process_ethernet_packet;
use ptp_trace::packet::{IpAddress, SocketAddress};

/// What a frame gives when it is taken apart with pnet's packet types.
struct Stripped {
    vlan_id: Option<u16>,
    source: Option<SocketAddress>,
    destination: Option<SocketAddress>,
    ttl: Option<u8>,
    source_mac: [u8; 6],
    dest_mac: [u8; 6],
    payload: Vec<u8>,
}

fn with_pnet(packet_data: &[u8]) -> Option<Stripped> {
    let ethernet = EthernetPacket::new(packet_data)?;
    let mut vlan_id: Option<u16> = None;
    let mut payload_data = ethernet.payload();
    let mut ethertype = ethernet.get_ethertype();

    if ethertype == EtherTypes::Vlan {
        if payload_data.len() < 4 {
            return None;
        }
        vlan_id = Some(u16::from_be_bytes([payload_data[0], payload_data[1]]) & 0x0FFF);
        let inner = u16::from_be_bytes([payload_data[2], payload_data[3]]);
        ethertype = if inner == 0x0800 {
            EtherTypes::Ipv4
        } else if inner == 0x8100 {
            EtherTypes::Vlan
        } else {
            return None;
        };
        payload_data = &payload_data[4..];
        if ethertype == EtherTypes::Vlan {
            if payload_data.len() < 4 {
                return None;
            }
            let inner = u16::from_be_bytes([payload_data[2], payload_data[3]]);
            ethertype = if inner == 0x0800 {
                EtherTypes::Ipv4
            } else {
                return None;
            };
            payload_data = &payload_data[4..];
        }
    }

    let source_mac = ethernet.get_source().octets();
    let dest_mac = ethernet.get_destination().octets();
    if ethertype.0 == 0x88f7 {
        if dest_mac != [0x01, 0x80, 0xc2, 0x00, 0x00, 0x0e] && dest_mac[0] & 0x01 == 0x01 {
            return None;
        }
        Some(Stripped {
            vlan_id,
            source: None,
            destination: None,
            ttl: None,
            source_mac,
            dest_mac,
            payload: payload_data.to_vec(),
        })
    } else if ethertype == EtherTypes::Ipv4 {
        let ipv4 = Ipv4Packet::new(payload_data)?;
        if ipv4.get_next_level_protocol() != IpNextHeaderProtocols::Udp {
            return None;
        }
        let udp = UdpPacket::new(ipv4.payload())?;
        let dest_port = udp.get_destination();
        if dest_port != 319 && dest_port != 320 {
            return None;
        }
        Some(Stripped {
            vlan_id,
            source: Some(SocketAddress {
                ip: IpAddress::V4(u32::from(ipv4.get_source())),
                port: udp.get_source(),
            }),
            destination: Some(SocketAddress {
                ip: IpAddress::V4(u32::from(ipv4.get_destination())),
                port: dest_port,
            }),
            ttl: Some(ipv4.get_ttl()),
            source_mac,
            dest_mac,
            payload: udp.payload().to_vec(),
        })
    } else {
        None
    }
}

struct Generator(u64);

impl Generator {
    fn next(&mut self) -> u64 {
        self.0 = self
            .0
            .wrapping_mul(6364136223846793005)
            .wrapping_add(1442695040888963407);
        self.0 >> 33
    }

    fn below(&mut self, bound: u64) -> u64 {
        self.next() % bound
    }

    fn frame(&mut self) -> Vec<u8> {
        let length = self.below(120) as usize;
        let mut frame: Vec<u8> = (0..length).map(|_| self.next() as u8).collect();
        let set = |frame: &mut Vec<u8>, at: usize, bytes: &[u8]| {
            for (k, byte) in bytes.iter().enumerate() {
                if at + k < frame.len() {
                    frame[at + k] = *byte;
                }
            }
        };
        if self.below(3) == 0 {
            set(&mut frame, 0, &[0x01, 0x80, 0xc2, 0x00, 0x00, 0x0e]);
        }
        let mut at = 12;
        let tags = self.below(4);
        for _ in 0..tags.min(3) {
            set(&mut frame, at, &[0x81, 0x00]);
            at += 4;
        }
        match self.below(5) {
            0 => set(&mut frame, at, &[0x88, 0xf7]),
            1 => {}
            _ => set(&mut frame, at, &[0x08, 0x00]),
        }
        at += 2;
        let words = self.below(16) as u8;
        set(&mut frame, at, &[0x40 | words]);
        if self.below(2) == 0 {
            let total = self.below(140) as u16;
            set(&mut frame, at + 2, &total.to_be_bytes());
        }
        if self.below(8) != 0 {
            set(&mut frame, at + 9, &[17]);
        }
        for header in [20usize, words as usize * 4] {
            if self.below(4) != 0 {
                let port: u16 = 319 + self.below(2) as u16;
                set(&mut frame, at + header + 2, &port.to_be_bytes());
            }
        }
        frame
    }
}

#[test]
fn frames_are_taken_apart_as_pnet_takes_them_apart() {
    let mut generator = Generator(0x5eed);
    let mut accepted = 0;
    for round in 0..50_000u32 {
        let frame = generator.frame();
        let native = if round % 2 == 0 { Some(9) } else { None };
        let ours = process_ethernet_packet(&frame, "eth0", native, 42);
        let theirs = with_pnet(&frame);
        assert_eq!(ours.is_some(), theirs.is_some(), "{:?}", frame);
        if let (Some(ours), Some(theirs)) = (ours, theirs) {
            accepted += 1;
            assert_eq!(ours.vlan_id, theirs.vlan_id.or(native), "{:?}", frame);
            assert_eq!(ours.source_addr, theirs.source, "{:?}", frame);
            assert_eq!(ours.dest_addr, theirs.destination, "{:?}", frame);
            assert_eq!(ours.ttl, theirs.ttl, "{:?}", frame);
            assert_eq!(ours.source_mac, theirs.source_mac, "{:?}", frame);
            assert_eq!(ours.dest_mac, theirs.dest_mac, "{:?}", frame);
            assert_eq!(ours.ptp_payload, theirs.payload, "{:?}", frame);
            assert_eq!(ours.data, frame);
            assert_eq!(ours.timestamp, 42);
            assert_eq!(ours.interface_name, "eth0");
        }
    }
    assert!(accepted > 250, "{}", accepted);
}
