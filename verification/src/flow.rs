//! Flow identifiers and the accumulator record kept for each flow.

use vstd::bytes::{
    lemma_auto_spec_u32_to_from_le_bytes, lemma_auto_spec_u64_to_from_le_bytes,
    spec_u32_from_le_bytes, spec_u32_to_le_bytes, spec_u64_from_le_bytes, spec_u64_to_le_bytes,
    u32_from_le_bytes, u32_to_le_bytes, u64_from_le_bytes, u64_to_le_bytes,
};
use vstd::prelude::*;
use vstd::slice::slice_subrange;
use vstd::string::StringExecFns;

verus! {

/// Base of the positional hash that folds a 5-tuple into a flow key.
pub const HASH_BASE: u64 = 131;

/// Bytes that a flow label takes in a table.
pub const LABEL_LEN: usize = 8;

/// Bytes that a flow record takes in a table.
pub const RECORD_LEN: usize = 16;

/// The key of the 5-tuple `(proto, saddr, daddr, sport, dport)`: the tuple
/// read as a number in base [`HASH_BASE`], most significant digit first.
///
/// The digits are wider than the base, so distinct tuples may share a key.
pub open spec fn flow_key(proto: u8, saddr: u32, daddr: u32, sport: u16, dport: u16) -> int {
    let base = HASH_BASE as int;
    (((proto as int * base + saddr as int) * base + daddr as int) * base + sport as int) * base
        + dport as int
}

/// Identifier of one direction of traffic between two endpoints.
#[derive(Clone, Copy, Debug, PartialEq, Eq, Structural, Hash)]
pub struct FlowLabel(pub u64);

impl FlowLabel {
    /// Derives the label of a flow from its 5-tuple. Addresses are taken as
    /// the datapath read them, ports in host order.
    pub fn new(proto: u8, saddr: u32, daddr: u32, sport: u16, dport: u16) -> (label: FlowLabel)
        ensures
            label.0 as int == flow_key(proto, saddr, daddr, sport, dport),
    {
        let v: u64 = (((proto as u64 * HASH_BASE + saddr as u64) * HASH_BASE + daddr as u64)
            * HASH_BASE + sport as u64) * HASH_BASE + dport as u64;
        FlowLabel(v)
    }
}

/// A flow key never leaves the 64-bit range, so the executable hash computes
/// it without wrapping.
pub proof fn lemma_flow_key_fits(proto: u8, saddr: u32, daddr: u32, sport: u16, dport: u16)
    ensures
        0 <= flow_key(proto, saddr, daddr, sport, dport) <= u64::MAX,
{
}

/// Flows are directional in their addresses: exchanging source and
/// destination address changes the key exactly when the two differ.
pub proof fn lemma_flow_key_swapped_addresses(
    proto: u8,
    saddr: u32,
    daddr: u32,
    sport: u16,
    dport: u16,
)
    ensures
        flow_key(proto, saddr, daddr, sport, dport) == flow_key(proto, daddr, saddr, sport, dport)
            <==> saddr == daddr,
{
}

/// Flows are directional in their ports: exchanging source and destination
/// port changes the key exactly when the two differ.
pub proof fn lemma_flow_key_swapped_ports(
    proto: u8,
    saddr: u32,
    daddr: u32,
    sport: u16,
    dport: u16,
)
    ensures
        flow_key(proto, saddr, daddr, sport, dport) == flow_key(proto, saddr, daddr, dport, sport)
            <==> sport == dport,
{
}

/// Reversing a flow keeps its key only by coincidence: the address
/// difference, scaled by the square of the base, would have to cancel the
/// port difference.
pub proof fn lemma_flow_key_reversed(proto: u8, saddr: u32, daddr: u32, sport: u16, dport: u16)
    ensures
        flow_key(proto, saddr, daddr, sport, dport) == flow_key(proto, daddr, saddr, dport, sport)
            <==> (saddr - daddr) * (HASH_BASE * HASH_BASE) == dport - sport,
{
    assert(HASH_BASE * HASH_BASE == 17161);
}

/// The hexadecimal digits, in lower case.
pub open spec fn hex_digits() -> Seq<char> {
    seq!['0', '1', '2', '3', '4', '5', '6', '7', '8', '9', 'a', 'b', 'c', 'd', 'e', 'f']
}

/// The last `width` hexadecimal digits of a number, padded with zeros.
pub open spec fn hex_fixed(value: nat, width: nat) -> Seq<char>
    decreases width,
{
    if width == 0 {
        Seq::empty()
    } else {
        hex_fixed(value / 16, (width - 1) as nat).push(hex_digits()[(value % 16) as int])
    }
}

fn hex_digit_str(d: u64) -> (s: &'static str)
    requires
        d < 16,
    ensures
        s@ == seq![hex_digits()[d as int]],
{
    proof {
        reveal_strlit("0");
        reveal_strlit("1");
        reveal_strlit("2");
        reveal_strlit("3");
        reveal_strlit("4");
        reveal_strlit("5");
        reveal_strlit("6");
        reveal_strlit("7");
        reveal_strlit("8");
        reveal_strlit("9");
        reveal_strlit("a");
        reveal_strlit("b");
        reveal_strlit("c");
        reveal_strlit("d");
        reveal_strlit("e");
        reveal_strlit("f");
    }
    let s = if d == 0 {
        "0"
    } else if d == 1 {
        "1"
    } else if d == 2 {
        "2"
    } else if d == 3 {
        "3"
    } else if d == 4 {
        "4"
    } else if d == 5 {
        "5"
    } else if d == 6 {
        "6"
    } else if d == 7 {
        "7"
    } else if d == 8 {
        "8"
    } else if d == 9 {
        "9"
    } else if d == 10 {
        "a"
    } else if d == 11 {
        "b"
    } else if d == 12 {
        "c"
    } else if d == 13 {
        "d"
    } else if d == 14 {
        "e"
    } else {
        "f"
    };
    assert(s@ =~= seq![hex_digits()[d as int]]);
    s
}

fn push_hex_fixed(out: &mut String, value: u64, width: u32)
    ensures
        final(out)@ == old(out)@ + hex_fixed(value as nat, width as nat),
    decreases width,
{
    if width > 0 {
        push_hex_fixed(out, value / 16, width - 1);
        out.append(hex_digit_str(value % 16));
    }
    assert(out@ =~= old(out)@ + hex_fixed(value as nat, width as nat));
}

impl FlowLabel {
    /// The label as text: `0x` and sixteen hexadecimal digits.
    pub fn to_string(&self) -> (text: String)
        ensures
            text@ == "0x"@ + hex_fixed(self.0 as nat, 16),
    {
        let mut text = String::from_str("0x");
        push_hex_fixed(&mut text, self.0, 16);
        text
    }
}

/// What a flow table remembers of one flow: the bytes seen since the last
/// drain and the addresses of the packet that opened the record, kept as the
/// datapath read them (the first octet on the wire is the least significant).
#[derive(Clone, Copy, Debug, PartialEq, Eq, Structural)]
pub struct BytesAddr {
    pub bytes: u64,
    pub saddr: u32,
    pub daddr: u32,
}

impl BytesAddr {
    pub fn new(bytes: u64, saddr: u32, daddr: u32) -> (record: BytesAddr)
        ensures
            record == (BytesAddr { bytes, saddr, daddr }),
    {
        BytesAddr { bytes, saddr, daddr }
    }
}

/// The address in host order, first octet most significant, of an address
/// kept as the datapath read it, first octet least significant.
pub open spec fn host_order(addr: u32) -> u32 {
    let first = addr as int % 0x100;
    let second = (addr as int / 0x100) % 0x100;
    let third = ((addr as int / 0x100) / 0x100) % 0x100;
    let fourth = ((addr as int / 0x100) / 0x100) / 0x100;
    (first * 0x100_0000 + second * 0x1_0000 + third * 0x100 + fourth) as u32
}

/// Decodes an address from network byte order: the four octets change
/// places end for end.
pub fn from_network_order(addr: u32) -> (host: u32)
    ensures
        host == host_order(addr),
{
    let first: u32 = addr % 0x100;
    let second: u32 = (addr / 0x100) % 0x100;
    let third: u32 = ((addr / 0x100) / 0x100) % 0x100;
    let fourth: u32 = ((addr / 0x100) / 0x100) / 0x100;
    first * 0x100_0000 + second * 0x1_0000 + third * 0x100 + fourth
}

impl BytesAddr {
    /// The source address in host order.
    pub fn source(&self) -> (addr: u32)
        ensures
            addr == host_order(self.saddr),
    {
        from_network_order(self.saddr)
    }

    /// The destination address in host order.
    pub fn destination(&self) -> (addr: u32)
        ensures
            addr == host_order(self.daddr),
    {
        from_network_order(self.daddr)
    }
}

/// The number that four octets spell, least significant first, gives each
/// octet back under division and remainder.
proof fn lemma_octets(first: int, second: int, third: int, fourth: int)
    requires
        0 <= first < 0x100,
        0 <= second < 0x100,
        0 <= third < 0x100,
        0 <= fourth < 0x100,
    ensures
        ({
            let x = first + second * 0x100 + third * 0x1_0000 + fourth * 0x100_0000;
            &&& 0 <= x <= u32::MAX
            &&& x % 0x100 == first
            &&& (x / 0x100) % 0x100 == second
            &&& ((x / 0x100) / 0x100) % 0x100 == third
            &&& ((x / 0x100) / 0x100) / 0x100 == fourth
        }),
{
    let x = first + second * 0x100 + third * 0x1_0000 + fourth * 0x100_0000;
    assert(x / 0x100 == second + third * 0x100 + fourth * 0x1_0000);
    assert((x / 0x100) / 0x100 == third + fourth * 0x100);
}

/// Changing the byte order twice gives the address back.
pub proof fn lemma_host_order_involution(addr: u32)
    ensures
        host_order(host_order(addr)) == addr,
{
    let first = addr as int % 0x100;
    let rest = addr as int / 0x100;
    let second = rest % 0x100;
    let third = (rest / 0x100) % 0x100;
    let fourth = (rest / 0x100) / 0x100;
    assert(addr as int == first + rest * 0x100);
    assert(rest == second + (rest / 0x100) * 0x100);
    assert(rest / 0x100 == third + fourth * 0x100);
    lemma_octets(fourth, third, second, first);
}

/// An address that the datapath read as the octets `a.b.c.d` decodes to the
/// number that spells them with `a` most significant.
pub proof fn lemma_host_order_octets(a: u8, b: u8, c: u8, d: u8)
    ensures
        host_order(
            (a as int + b as int * 0x100 + c as int * 0x1_0000 + d as int * 0x100_0000) as u32,
        ) == a as int * 0x100_0000 + b as int * 0x1_0000 + c as int * 0x100 + d as int,
{
    lemma_octets(a as int, b as int, c as int, d as int);
}

/// A label as it lies in a table: eight bytes, least significant first.
pub open spec fn label_bytes(label: FlowLabel) -> Seq<u8> {
    spec_u64_to_le_bytes(label.0)
}

/// The label that eight bytes of a table spell.
pub open spec fn label_of(bytes: Seq<u8>) -> FlowLabel {
    FlowLabel(spec_u64_from_le_bytes(bytes))
}

/// A record as it lies in a table: the byte total in eight bytes, least
/// significant first, then the source address and the destination address
/// in four bytes each, which are the octets in the order of the wire.
pub open spec fn record_bytes(record: BytesAddr) -> Seq<u8> {
    spec_u64_to_le_bytes(record.bytes) + spec_u32_to_le_bytes(record.saddr) + spec_u32_to_le_bytes(
        record.daddr,
    )
}

/// The record that sixteen bytes of a table spell.
pub open spec fn record_of(bytes: Seq<u8>) -> BytesAddr {
    BytesAddr {
        bytes: spec_u64_from_le_bytes(bytes.subrange(0, 8)),
        saddr: spec_u32_from_le_bytes(bytes.subrange(8, 12)),
        daddr: spec_u32_from_le_bytes(bytes.subrange(12, 16)),
    }
}

impl FlowLabel {
    /// The label as it lies in a table.
    pub fn to_bytes(&self) -> (bytes: Vec<u8>)
        ensures
            bytes@ == label_bytes(*self),
            bytes@.len() == LABEL_LEN,
    {
        u64_to_le_bytes(self.0)
    }

    /// Reads a label from the bytes of a table: `None` unless there are
    /// exactly eight.
    pub fn from_bytes(bytes: &[u8]) -> (label: Option<FlowLabel>)
        ensures
            label is Some <==> bytes@.len() == LABEL_LEN,
            label matches Some(l) ==> l == label_of(bytes@),
    {
        if bytes.len() != LABEL_LEN {
            return None;
        }
        Some(FlowLabel(u64_from_le_bytes(bytes)))
    }
}

impl BytesAddr {
    /// The record as it lies in a table.
    pub fn to_bytes(&self) -> (bytes: Vec<u8>)
        ensures
            bytes@ == record_bytes(*self),
            bytes@.len() == RECORD_LEN,
    {
        let mut bytes = u64_to_le_bytes(self.bytes);
        let mut saddr = u32_to_le_bytes(self.saddr);
        let mut daddr = u32_to_le_bytes(self.daddr);
        bytes.append(&mut saddr);
        bytes.append(&mut daddr);
        bytes
    }

    /// Reads a record from the bytes of a table: `None` unless there are
    /// exactly sixteen.
    pub fn from_bytes(bytes: &[u8]) -> (record: Option<BytesAddr>)
        ensures
            record is Some <==> bytes@.len() == RECORD_LEN,
            record matches Some(r) ==> r == record_of(bytes@),
    {
        if bytes.len() != RECORD_LEN {
            return None;
        }
        Some(
            BytesAddr {
                bytes: u64_from_le_bytes(slice_subrange(bytes, 0, 8)),
                saddr: u32_from_le_bytes(slice_subrange(bytes, 8, 12)),
                daddr: u32_from_le_bytes(slice_subrange(bytes, 12, 16)),
            },
        )
    }
}

/// What is written to a table is read back unchanged.
pub proof fn lemma_table_bytes_round_trip(label: FlowLabel, record: BytesAddr)
    ensures
        label_bytes(label).len() == LABEL_LEN,
        label_of(label_bytes(label)) == label,
        record_bytes(record).len() == RECORD_LEN,
        record_of(record_bytes(record)) == record,
{
    lemma_auto_spec_u64_to_from_le_bytes();
    lemma_auto_spec_u32_to_from_le_bytes();
    let bytes = record_bytes(record);
    assert(bytes.subrange(0, 8) =~= spec_u64_to_le_bytes(record.bytes));
    assert(bytes.subrange(8, 12) =~= spec_u32_to_le_bytes(record.saddr));
    assert(bytes.subrange(12, 16) =~= spec_u32_to_le_bytes(record.daddr));
}

} // verus!
