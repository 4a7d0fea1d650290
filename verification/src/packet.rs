//! Captured frames, before and after their PTP payload is decoded.

use vstd::prelude::*;
use std::rc::Rc;
use std::sync::Arc;
use crate::messages::PtpMessage;

verus! {

/// An IP address as one number: the four bytes of an IPv4 address or the
/// sixteen of an IPv6 address, first byte most significant.
#[derive(Debug, Clone, Copy, PartialEq, Eq, Structural, Hash)]
pub enum IpAddress {
    V4(u32),
    V6(u128),
}

impl IpAddress {
    /// The IPv4 address `a.b.c.d`.
    pub open spec fn v4_of(a: u8, b: u8, c: u8, d: u8) -> IpAddress {
        IpAddress::V4((a as int * 0x100_0000 + b as int * 0x1_0000 + c as int * 0x100 + d) as u32)
    }

    /// The IPv4 address `a.b.c.d`.
    pub fn v4(a: u8, b: u8, c: u8, d: u8) -> (address: IpAddress)
        ensures
            address == IpAddress::v4_of(a, b, c, d),
    {
        IpAddress::V4(
            (a as u32) * 0x100_0000 + (b as u32) * 0x1_0000 + (c as u32) * 0x100 + (d as u32),
        )
    }
}

/// An IP address and a UDP port.
#[derive(Debug, Clone, Copy, PartialEq, Eq, Structural, Hash)]
pub struct SocketAddress {
    pub ip: IpAddress,
    pub port: u16,
}

/// One captured frame that carries a PTP message.
///
/// The capture side has already stripped the Ethernet, VLAN, IPv4 and UDP
/// headers: `ptp_payload` holds the PTP message alone.
#[derive(Debug, Clone)]
pub struct RawPacket {
    /// When the frame was captured, in nanoseconds since the Unix epoch.
    pub timestamp: u64,
    /// The whole frame as captured.
    pub data: Vec<u8>,
    /// The sender's address; `None` for PTP carried directly by Ethernet.
    pub source_addr: Option<SocketAddress>,
    pub source_mac: [u8; 6],
    /// The destination address; `None` for PTP carried directly by
    /// Ethernet.
    pub dest_addr: Option<SocketAddress>,
    pub dest_mac: [u8; 6],
    pub vlan_id: Option<u16>,
    /// The IP time to live; `None` for PTP carried directly by Ethernet.
    pub ttl: Option<u8>,
    /// The interface that the frame arrived on.
    pub interface_name: String,
    pub ptp_payload: Vec<u8>,
}

/// A frame together with the PTP message decoded from its payload.
#[derive(Debug, Clone)]
pub struct ParsedPacket {
    pub ptp: PtpMessage,
    pub raw: Arc<RawPacket>,
}

/// Calls `Rc::clone`, which gives another handle to the same value.
#[verifier::external_body]
pub(crate) fn share<T>(handle: &Rc<T>) -> (other: Rc<T>)
    ensures
        other == *handle,
{
    Rc::clone(handle)
}

/// Calls `Arc::clone`, which gives another handle to the same value.
#[verifier::external_body]
pub(crate) fn share_frame<T>(handle: &Arc<T>) -> (other: Arc<T>)
    ensures
        other == *handle,
{
    Arc::clone(handle)
}

impl ParsedPacket {
    /// A second record of the same packet; the frame itself is shared, not
    /// copied.
    pub fn duplicate(&self) -> (copy: ParsedPacket)
        ensures
            copy == *self,
    {
        ParsedPacket { ptp: self.ptp, raw: share_frame(&self.raw) }
    }
}

} // verus!
