//! What the datapath reads from a frame: the 5-tuple of an IPv4 packet with
//! a TCP or UDP header, and the length that the IPv4 header states.

use crate::flow::{flow_key, BytesAddr, FlowLabel};
use vstd::prelude::*;

verus! {

/// Length of an Ethernet header.
pub const ETH_HEADER_LEN: usize = 14;

/// The EtherType of IPv4.
pub const ETHERTYPE_IPV4: u16 = 0x0800;

/// Length of an IPv4 header without options.
pub const IPV4_HEADER_LEN: usize = 20;

/// Length of a TCP header without options.
pub const TCP_HEADER_LEN: usize = 20;

/// Length of a UDP header.
pub const UDP_HEADER_LEN: usize = 8;

/// The protocol number of TCP.
pub const IPPROTO_TCP: u8 = 6;

/// The protocol number of UDP.
pub const IPPROTO_UDP: u8 = 17;

/// What the datapath keeps of one packet.
#[derive(Clone, Copy, Debug, PartialEq, Eq, Structural)]
pub struct Packet {
    /// Protocol number of the transport header.
    pub proto: u8,
    /// Source address as read from the wire: the first octet is the least
    /// significant.
    pub saddr: u32,
    /// Destination address, read like the source address.
    pub daddr: u32,
    /// Source port in host order.
    pub sport: u16,
    /// Destination port in host order.
    pub dport: u16,
    /// Total length of the IPv4 packet in bytes.
    pub length: u16,
}

/// The 16-bit number that two octets spell in network byte order.
pub open spec fn be_u16(hi: u8, lo: u8) -> u16 {
    (hi as int * 0x100 + lo as int) as u16
}

/// Four octets kept in the order of the wire: the first octet is the least
/// significant byte of the result.
pub open spec fn wire_u32(first: u8, second: u8, third: u8, fourth: u8) -> u32 {
    (first as int + second as int * 0x100 + third as int * 0x1_0000 + fourth as int
        * 0x100_0000) as u32
}

/// The length of the IPv4 header that starts at `frame[ETH_HEADER_LEN]`, as
/// its own length field states it.
pub open spec fn ipv4_header_len(frame: Seq<u8>) -> int {
    (frame[ETH_HEADER_LEN as int] as int % 16) * 4
}

/// The bytes that the transport header must offer in a frame: a whole TCP or
/// UDP header, and nothing for any other protocol, which is not parsed.
pub open spec fn transport_header_len(proto: u8) -> Option<int> {
    if proto == IPPROTO_TCP {
        Some(TCP_HEADER_LEN as int)
    } else if proto == IPPROTO_UDP {
        Some(UDP_HEADER_LEN as int)
    } else {
        None
    }
}

/// Whether a frame can be parsed: it is long enough for an Ethernet and an
/// IPv4 header, says that it carries IPv4, carries TCP or UDP, and is long
/// enough for that header where the IPv4 header says it starts.
pub open spec fn parsable(frame: Seq<u8>) -> bool {
    &&& frame.len() >= ETH_HEADER_LEN + IPV4_HEADER_LEN
    &&& be_u16(frame[12], frame[13]) == ETHERTYPE_IPV4
    &&& transport_header_len(frame[ETH_HEADER_LEN + 9]) matches Some(need)
    &&& frame.len() >= ETH_HEADER_LEN + ipv4_header_len(frame) + need
}

/// What a parsable frame says.
pub open spec fn parsed(frame: Seq<u8>) -> Packet {
    let ip = ETH_HEADER_LEN as int;
    let transport = ip + ipv4_header_len(frame);
    Packet {
        proto: frame[ip + 9],
        saddr: wire_u32(frame[ip + 12], frame[ip + 13], frame[ip + 14], frame[ip + 15]),
        daddr: wire_u32(frame[ip + 16], frame[ip + 17], frame[ip + 18], frame[ip + 19]),
        sport: be_u16(frame[transport], frame[transport + 1]),
        dport: be_u16(frame[transport + 2], frame[transport + 3]),
        length: be_u16(frame[ip + 2], frame[ip + 3]),
    }
}

fn read_be_u16(frame: &[u8], at: usize) -> (value: u16)
    requires
        at + 1 < frame@.len(),
    ensures
        value == be_u16(frame@[at as int], frame@[at + 1]),
{
    frame[at] as u16 * 0x100 + frame[at + 1] as u16
}

fn read_wire_u32(frame: &[u8], at: usize) -> (value: u32)
    requires
        at + 3 < frame@.len(),
    ensures
        value == wire_u32(frame@[at as int], frame@[at + 1], frame@[at + 2], frame@[at + 3]),
{
    frame[at] as u32 + frame[at + 1] as u32 * 0x100 + frame[at + 2] as u32 * 0x1_0000 + frame[at
        + 3] as u32 * 0x100_0000
}

/// Reads the 5-tuple and the length of a packet from a frame that starts
/// with its Ethernet header. A frame that is cut short, carries no IPv4, or
/// carries neither TCP nor UDP is skipped: the result is `None`.
pub fn parse_frame(frame: &[u8]) -> (packet: Option<Packet>)
    ensures
        packet is Some <==> parsable(frame@),
        packet matches Some(p) ==> p == parsed(frame@),
{
    if frame.len() < ETH_HEADER_LEN + IPV4_HEADER_LEN {
        return None;
    }
    if read_be_u16(frame, 12) != ETHERTYPE_IPV4 {
        return None;
    }
    let ip: usize = ETH_HEADER_LEN;
    let header_len: usize = (frame[ip] % 16) as usize * 4;
    let proto: u8 = frame[ip + 9];
    let need: usize = if proto == IPPROTO_TCP {
        TCP_HEADER_LEN
    } else if proto == IPPROTO_UDP {
        UDP_HEADER_LEN
    } else {
        return None;
    };
    let transport: usize = ip + header_len;
    if frame.len() < transport + need {
        return None;
    }
    Some(
        Packet {
            proto,
            saddr: read_wire_u32(frame, ip + 12),
            daddr: read_wire_u32(frame, ip + 16),
            sport: read_be_u16(frame, transport),
            dport: read_be_u16(frame, transport + 2),
            length: read_be_u16(frame, ip + 2),
        },
    )
}

impl Packet {
    /// The label of the flow that the packet belongs to.
    pub open spec fn flow_label(self) -> FlowLabel {
        FlowLabel(flow_key(self.proto, self.saddr, self.daddr, self.sport, self.dport) as u64)
    }

    /// The record that the packet opens when it is the first of its flow.
    pub open spec fn flow_record(self) -> BytesAddr {
        BytesAddr { bytes: self.length as u64, saddr: self.saddr, daddr: self.daddr }
    }

    /// The label of the flow that the packet belongs to.
    pub fn label(&self) -> (label: FlowLabel)
        ensures
            label == self.flow_label(),
    {
        FlowLabel::new(self.proto, self.saddr, self.daddr, self.sport, self.dport)
    }

    /// The record that the packet opens when it is the first of its flow.
    pub fn record(&self) -> (record: BytesAddr)
        ensures
            record == self.flow_record(),
    {
        BytesAddr::new(self.length as u64, self.saddr, self.daddr)
    }
}

} // verus!
