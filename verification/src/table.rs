//! The bounded table in which the datapath accumulates bytes per flow, and
//! which the agent drains on every poll tick.

use crate::counter::capped_sum;
use crate::flow::{BytesAddr, FlowLabel};
use crate::packet::{parsable, parse_frame, parsed, Packet};
use vstd::prelude::*;

verus! {

/// The number of flows that a table holds at most.
pub const CAPACITY: usize = 10240;

/// What became of a frame that the datapath looked at. The frame itself
/// passes in every case.
#[derive(Clone, Copy, Debug, PartialEq, Eq, Structural)]
pub enum Observation {
    /// The frame could not be parsed and was not counted.
    Skipped,
    /// The bytes of the packet were added to the record of its flow.
    Counted,
    /// The flow is new and the table is full: the bytes were not counted.
    Dropped,
}

/// A table of flow records with at most [`CAPACITY`] entries.
pub struct FlowTable {
    entries: Vec<(FlowLabel, BytesAddr)>,
}

/// Whether some entry of `entries` has the label `label`.
pub open spec fn has_label(entries: Seq<(FlowLabel, BytesAddr)>, label: FlowLabel) -> bool {
    exists|i: int| 0 <= i < entries.len() && (#[trigger] entries[i]).0 == label
}

/// The place of an entry with the label `label`.
pub open spec fn place_of(entries: Seq<(FlowLabel, BytesAddr)>, label: FlowLabel) -> int {
    choose|i: int| 0 <= i < entries.len() && (#[trigger] entries[i]).0 == label
}

/// No two entries have the same label.
pub open spec fn distinct_labels(entries: Seq<(FlowLabel, BytesAddr)>) -> bool {
    forall|i: int, j: int|
        0 <= i < j < entries.len() ==> (#[trigger] entries[i]).0 != (#[trigger] entries[j]).0
}

/// The mapping that a list of entries with distinct labels spells.
pub open spec fn entries_map(entries: Seq<(FlowLabel, BytesAddr)>) -> Map<FlowLabel, BytesAddr> {
    Map::new(
        |label: FlowLabel| has_label(entries, label),
        |label: FlowLabel| entries[place_of(entries, label)].1,
    )
}

/// The labels of a list of entries, in their order.
pub open spec fn labels_of(entries: Seq<(FlowLabel, BytesAddr)>) -> Seq<FlowLabel> {
    Seq::new(entries.len(), |i: int| entries[i].0)
}

/// The records of a table in a given order of its flows.
pub open spec fn records_in_order(
    order: Seq<FlowLabel>,
    table: Map<FlowLabel, BytesAddr>,
) -> Seq<(FlowLabel, BytesAddr)> {
    Seq::new(order.len(), |i: int| (order[i], table[order[i]]))
}

/// The order of the flows after the datapath has seen one packet: a flow
/// that gets a new record goes to the end.
pub open spec fn observed_order(
    order: Seq<FlowLabel>,
    table: Map<FlowLabel, BytesAddr>,
    label: FlowLabel,
) -> Seq<FlowLabel> {
    if !table.contains_key(label) && table.len() < CAPACITY {
        order.push(label)
    } else {
        order
    }
}

/// A record after `bytes` more bytes of its flow: the total grows and stops
/// at the largest value; the addresses stay those of the first packet.
pub open spec fn bumped(record: BytesAddr, bytes: u64) -> BytesAddr {
    BytesAddr {
        bytes: capped_sum(record.bytes as nat, bytes as nat) as u64,
        saddr: record.saddr,
        daddr: record.daddr,
    }
}

/// The table after the datapath has seen one packet: a known flow gains the
/// bytes, a new flow gets a record while there is room, and a new flow is
/// not counted when the table is full.
pub open spec fn observed(
    table: Map<FlowLabel, BytesAddr>,
    label: FlowLabel,
    packet: BytesAddr,
) -> Map<FlowLabel, BytesAddr> {
    if table.contains_key(label) {
        table.insert(label, bumped(table[label], packet.bytes))
    } else if table.len() < CAPACITY {
        table.insert(label, packet)
    } else {
        table
    }
}

/// The table after the datapath has looked at one frame: a frame that
/// cannot be parsed changes nothing.
pub open spec fn frame_observed(table: Map<FlowLabel, BytesAddr>, frame: Seq<u8>) -> Map<
    FlowLabel,
    BytesAddr,
> {
    if parsable(frame) {
        observed(table, parsed(frame).flow_label(), parsed(frame).flow_record())
    } else {
        table
    }
}

/// What becomes of a frame that the datapath looks at.
pub open spec fn observation(table: Map<FlowLabel, BytesAddr>, frame: Seq<u8>) -> Observation {
    if !parsable(frame) {
        Observation::Skipped
    } else if table.contains_key(parsed(frame).flow_label()) || table.len() < CAPACITY {
        Observation::Counted
    } else {
        Observation::Dropped
    }
}

/// The table after the datapath has seen, one after the other, packets of
/// the lengths `lengths` that all carry the label `label` and the addresses
/// `saddr` and `daddr`.
pub open spec fn observed_all(
    table: Map<FlowLabel, BytesAddr>,
    label: FlowLabel,
    saddr: u32,
    daddr: u32,
    lengths: Seq<u64>,
) -> Map<FlowLabel, BytesAddr>
    decreases lengths.len(),
{
    if lengths.len() == 0 {
        table
    } else {
        observed(
            observed_all(table, label, saddr, daddr, lengths.drop_last()),
            label,
            BytesAddr { bytes: lengths.last(), saddr, daddr },
        )
    }
}

/// The sum of a list of lengths.
pub open spec fn total(lengths: Seq<u64>) -> nat
    decreases lengths.len(),
{
    if lengths.len() == 0 {
        0
    } else {
        total(lengths.drop_last()) + lengths.last() as nat
    }
}

proof fn lemma_place(entries: Seq<(FlowLabel, BytesAddr)>, i: int)
    requires
        distinct_labels(entries),
        0 <= i < entries.len(),
    ensures
        has_label(entries, entries[i].0),
        place_of(entries, entries[i].0) == i,
{
    let label = entries[i].0;
    let j = place_of(entries, label);
    assert(0 <= j < entries.len() && entries[j].0 == label);
    if j < i {
        assert(entries[j].0 != entries[i].0);
    } else if i < j {
        assert(entries[i].0 != entries[j].0);
    }
}

proof fn lemma_push_entry(entries: Seq<(FlowLabel, BytesAddr)>, entry: (FlowLabel, BytesAddr))
    requires
        distinct_labels(entries),
        !has_label(entries, entry.0),
    ensures
        distinct_labels(entries.push(entry)),
        entries_map(entries.push(entry)) == entries_map(entries).insert(entry.0, entry.1),
{
    let next = entries.push(entry);
    assert forall|i: int, j: int| 0 <= i < j < next.len() implies (#[trigger] next[i]).0 != (
    #[trigger] next[j]).0 by {
        if j < entries.len() {
            assert(entries[i].0 != entries[j].0);
        } else {
            assert(entries[i].0 != entry.0);
        }
    }
    assert forall|label: FlowLabel| has_label(next, label) <==> (has_label(entries, label) || label
        == entry.0) by {
        if has_label(next, label) {
            let i = place_of(next, label);
            if i < entries.len() {
                assert(entries[i].0 == label);
            }
        }
        if has_label(entries, label) {
            let i = place_of(entries, label);
            assert(next[i].0 == label);
        }
        if label == entry.0 {
            assert(next[entries.len() as int].0 == label);
        }
    }
    assert forall|label: FlowLabel| has_label(next, label) implies entries_map(next)[label]
        == entries_map(entries).insert(entry.0, entry.1)[label] by {
        if label == entry.0 {
            lemma_place(next, entries.len() as int);
        } else {
            let i = place_of(entries, label);
            assert(next[i] == entries[i]);
            lemma_place(next, i);
        }
    }
    assert(entries_map(next) =~= entries_map(entries).insert(entry.0, entry.1));
}

proof fn lemma_update_entry(entries: Seq<(FlowLabel, BytesAddr)>, i: int, record: BytesAddr)
    requires
        distinct_labels(entries),
        0 <= i < entries.len(),
    ensures
        distinct_labels(entries.update(i, (entries[i].0, record))),
        entries_map(entries.update(i, (entries[i].0, record))) == entries_map(entries).insert(
            entries[i].0,
            record,
        ),
{
    let key = entries[i].0;
    let next = entries.update(i, (key, record));
    assert forall|a: int, b: int| 0 <= a < b < next.len() implies (#[trigger] next[a]).0 != (
    #[trigger] next[b]).0 by {
        assert(entries[a].0 != entries[b].0);
    }
    assert forall|label: FlowLabel| has_label(next, label) <==> has_label(entries, label) by {
        if has_label(next, label) {
            let j = place_of(next, label);
            assert(entries[j].0 == label);
        }
        if has_label(entries, label) {
            let j = place_of(entries, label);
            assert(next[j].0 == label);
        }
    }
    lemma_place(entries, i);
    assert forall|label: FlowLabel| has_label(next, label) implies entries_map(next)[label]
        == entries_map(entries).insert(key, record)[label] by {
        let j = place_of(entries, label);
        lemma_place(entries, j);
        assert(next[j].0 == label);
        lemma_place(next, j);
    }
    assert(entries_map(next) =~= entries_map(entries).insert(key, record));
}

/// The table never grows beyond its capacity, whatever the datapath sees.
pub proof fn lemma_observed_within_capacity(
    table: Map<FlowLabel, BytesAddr>,
    label: FlowLabel,
    packet: BytesAddr,
)
    requires
        table.dom().finite(),
        table.len() <= CAPACITY,
    ensures
        observed(table, label, packet).dom().finite(),
        observed(table, label, packet).len() <= CAPACITY,
        observed(table, label, packet).len() >= table.len(),
{
}

/// A packet of a new flow that meets a full table is not counted, and every
/// record of the table stays as it is.
pub proof fn lemma_full_table_drops(
    table: Map<FlowLabel, BytesAddr>,
    label: FlowLabel,
    packet: BytesAddr,
)
    requires
        table.len() >= CAPACITY,
        !table.contains_key(label),
    ensures
        observed(table, label, packet) == table,
{
}

/// A packet changes no record but that of its own flow.
pub proof fn lemma_observed_other_flows(
    table: Map<FlowLabel, BytesAddr>,
    label: FlowLabel,
    packet: BytesAddr,
    other: FlowLabel,
)
    requires
        other != label,
    ensures
        observed(table, label, packet).contains_key(other) == table.contains_key(other),
        observed(table, label, packet)[other] == table[other],
{
}

/// Packets of one flow add up: after a run of packets that share a label,
/// the record of the flow holds the bytes that it held before plus the sum
/// of their lengths, capped at the largest value. The addresses are those
/// of the packet that opened the record, and no other record has changed.
/// The flow must have a record or find room for one.
pub proof fn lemma_same_flow_accumulates(
    table: Map<FlowLabel, BytesAddr>,
    label: FlowLabel,
    saddr: u32,
    daddr: u32,
    lengths: Seq<u64>,
)
    requires
        table.dom().finite(),
        lengths.len() > 0,
        table.contains_key(label) || table.len() < CAPACITY,
    ensures
        ({
            let after = observed_all(table, label, saddr, daddr, lengths);
            let before = if table.contains_key(label) {
                table[label]
            } else {
                BytesAddr { bytes: 0, saddr, daddr }
            };
            &&& after.dom().finite()
            &&& after.contains_key(label)
            &&& after[label] == (BytesAddr {
                bytes: capped_sum(before.bytes as nat, total(lengths)) as u64,
                saddr: before.saddr,
                daddr: before.daddr,
            })
            &&& after.remove(label) == table.remove(label)
        }),
    decreases lengths.len(),
{
    let after = observed_all(table, label, saddr, daddr, lengths);
    let rest = lengths.drop_last();
    let last = BytesAddr { bytes: lengths.last(), saddr, daddr };
    if rest.len() == 0 {
        assert(observed_all(table, label, saddr, daddr, rest) == table);
        assert(total(rest) == 0);
        assert(after == observed(table, label, last));
        assert(after.remove(label) =~= table.remove(label));
    } else {
        lemma_same_flow_accumulates(table, label, saddr, daddr, rest);
        let middle = observed_all(table, label, saddr, daddr, rest);
        assert(after == observed(middle, label, last));
        assert(after.remove(label) =~= middle.remove(label));
    }
}

/// Within one drain window the record of a new flow holds exactly the sum
/// of the lengths of its packets, as long as that sum is a 64-bit number.
pub proof fn lemma_new_flow_total(
    table: Map<FlowLabel, BytesAddr>,
    label: FlowLabel,
    saddr: u32,
    daddr: u32,
    lengths: Seq<u64>,
)
    requires
        table.dom().finite(),
        lengths.len() > 0,
        !table.contains_key(label),
        table.len() < CAPACITY,
        total(lengths) <= u64::MAX,
    ensures
        observed_all(table, label, saddr, daddr, lengths).contains_key(label),
        observed_all(table, label, saddr, daddr, lengths)[label] == (BytesAddr {
            bytes: total(lengths) as u64,
            saddr,
            daddr,
        }),
{
    lemma_same_flow_accumulates(table, label, saddr, daddr, lengths);
}

/// A drain leaves nothing behind and brings nothing twice: where the
/// order lists each flow of the table once, every record of the table comes
/// out, each under its own label, and a drain of the empty table that
/// follows brings nothing.
pub proof fn lemma_drain_complete(order: Seq<FlowLabel>, table: Map<FlowLabel, BytesAddr>)
    requires
        order.no_duplicates(),
        forall|label: FlowLabel| order.contains(label) <==> table.contains_key(label),
    ensures
        records_in_order(order, table).len() == order.len(),
        distinct_labels(records_in_order(order, table)),
        entries_map(records_in_order(order, table)) == table,
        records_in_order(Seq::<FlowLabel>::empty(), Map::<FlowLabel, BytesAddr>::empty())
            == Seq::<(FlowLabel, BytesAddr)>::empty(),
{
    let records = records_in_order(order, table);
    assert forall|i: int, j: int| 0 <= i < j < records.len() implies (#[trigger] records[i]).0 != (
    #[trigger] records[j]).0 by {
        assert(order[i] != order[j]);
    }
    assert forall|label: FlowLabel| has_label(records, label) <==> table.contains_key(label) by {
        if has_label(records, label) {
            let i = place_of(records, label);
            assert(order[i] == label);
            assert(order.contains(label));
        }
        if table.contains_key(label) {
            assert(order.contains(label));
            let i = choose|i: int| 0 <= i < order.len() && order[i] == label;
            assert(records[i].0 == label);
        }
    }
    assert forall|label: FlowLabel| table.contains_key(label) implies entries_map(records)[label]
        == table[label] by {
        assert(has_label(records, label));
        let i = place_of(records, label);
        assert(records[i].0 == label);
    }
    assert(entries_map(records) =~= table);
    assert(records_in_order(Seq::<FlowLabel>::empty(), Map::<FlowLabel, BytesAddr>::empty())
        =~= Seq::<(FlowLabel, BytesAddr)>::empty());
}

impl View for FlowTable {
    type V = Map<FlowLabel, BytesAddr>;

    closed spec fn view(&self) -> Map<FlowLabel, BytesAddr> {
        entries_map(self.entries@)
    }
}

impl FlowTable {
    /// The flows of the table in the order in which they were first seen
    /// since the last drain.
    pub closed spec fn order(&self) -> Seq<FlowLabel> {
        labels_of(self.entries@)
    }

    /// The table holds each flow once and never more than [`CAPACITY`]
    /// flows.
    pub closed spec fn wf(&self) -> bool {
        &&& distinct_labels(self.entries@)
        &&& self.entries@.len() <= CAPACITY
        &&& self@.dom().finite()
        &&& self@.len() == self.entries@.len()
    }

    /// A table is finite and within capacity, and its order lists each of
    /// its flows once.
    pub proof fn lemma_wf(&self)
        requires
            self.wf(),
        ensures
            self@.dom().finite(),
            self@.len() <= CAPACITY,
            self.order().len() == self@.len(),
            self.order().no_duplicates(),
            forall|label: FlowLabel| self.order().contains(label) <==> self@.contains_key(label),
    {
        let entries = self.entries@;
        assert forall|label: FlowLabel| self.order().contains(label) <==> self@.contains_key(
            label,
        ) by {
            if self.order().contains(label) {
                let i = choose|i: int| 0 <= i < self.order().len() && self.order()[i] == label;
                assert(entries[i].0 == label);
            }
            if self@.contains_key(label) {
                let i = place_of(entries, label);
                assert(self.order()[i] == label);
            }
        }
    }

    /// An empty table.
    pub fn new() -> (table: FlowTable)
        ensures
            table.wf(),
            table@ == Map::<FlowLabel, BytesAddr>::empty(),
            table.order() == Seq::<FlowLabel>::empty(),
    {
        let table = FlowTable { entries: Vec::new() };
        assert(table@ =~= Map::<FlowLabel, BytesAddr>::empty());
        assert(table.order() =~= Seq::<FlowLabel>::empty());
        table
    }

    /// The number of flows in the table.
    pub fn len(&self) -> (n: usize)
        requires
            self.wf(),
        ensures
            n == self@.len(),
            n <= CAPACITY,
    {
        self.entries.len()
    }

    /// Whether the table holds no flow.
    pub fn is_empty(&self) -> (empty: bool)
        requires
            self.wf(),
        ensures
            empty <==> self@ == Map::<FlowLabel, BytesAddr>::empty(),
    {
        proof {
            if self.entries@.len() == 0 {
                assert(self@ =~= Map::<FlowLabel, BytesAddr>::empty());
            } else {
                lemma_place(self.entries@, 0);
                assert(self@.contains_key(self.entries@[0].0));
            }
        }
        self.entries.len() == 0
    }

    fn find(&self, label: FlowLabel) -> (place: Option<usize>)
        requires
            self.wf(),
        ensures
            place is Some <==> self@.contains_key(label),
            place matches Some(i) ==> i < self.entries@.len() && self.entries@[i as int].0 == label
                && self.entries@[i as int].1 == self@[label],
    {
        let mut i: usize = 0;
        while i < self.entries.len()
            invariant
                self.wf(),
                i <= self.entries@.len(),
                forall|j: int| 0 <= j < i ==> (#[trigger] self.entries@[j]).0 != label,
            decreases self.entries@.len() - i,
        {
            if self.entries[i].0 == label {
                proof {
                    lemma_place(self.entries@, i as int);
                }
                return Some(i);
            }
            i += 1;
        }
        None
    }

    /// The record of a flow, if the table holds one.
    pub fn get(&self, label: FlowLabel) -> (record: Option<BytesAddr>)
        requires
            self.wf(),
        ensures
            record is Some <==> self@.contains_key(label),
            record matches Some(r) ==> r == self@[label],
    {
        match self.find(label) {
            Some(i) => Some(self.entries[i].1),
            None => None,
        }
    }

    /// Accounts for one packet of the flow `label`: `bytes` bytes from
    /// `saddr` to `daddr`. Returns whether the bytes were counted; they are
    /// not when the flow is new and the table is full.
    pub fn observe(&mut self, label: FlowLabel, bytes: u64, saddr: u32, daddr: u32) -> (counted:
        bool)
        requires
            old(self).wf(),
        ensures
            final(self).wf(),
            final(self)@ == observed(old(self)@, label, BytesAddr { bytes, saddr, daddr }),
            final(self).order() == observed_order(old(self).order(), old(self)@, label),
            counted <==> old(self)@.contains_key(label) || old(self)@.len() < CAPACITY,
    {
        match self.find(label) {
            Some(i) => {
                let record = self.entries[i].1;
                let next = BytesAddr {
                    bytes: record.bytes.saturating_add(bytes),
                    saddr: record.saddr,
                    daddr: record.daddr,
                };
                proof {
                    lemma_update_entry(self.entries@, i as int, next);
                }
                self.entries.set(i, (label, next));
                assert(self.order() =~= old(self).order());
                true
            },
            None => {
                if self.entries.len() < CAPACITY {
                    proof {
                        lemma_push_entry(self.entries@, (label, BytesAddr { bytes, saddr, daddr }));
                    }
                    self.entries.push((label, BytesAddr { bytes, saddr, daddr }));
                    assert(self.order() =~= old(self).order().push(label));
                    true
                } else {
                    false
                }
            },
        }
    }

    /// Accounts for one parsed packet under the label of its flow.
    pub fn record_packet(&mut self, packet: &Packet) -> (counted: bool)
        requires
            old(self).wf(),
        ensures
            final(self).wf(),
            final(self)@ == observed(old(self)@, packet.flow_label(), packet.flow_record()),
            final(self).order() == observed_order(
                old(self).order(),
                old(self)@,
                packet.flow_label(),
            ),
            counted <==> old(self)@.contains_key(packet.flow_label()) || old(self)@.len()
                < CAPACITY,
    {
        let label = packet.label();
        self.observe(label, packet.length as u64, packet.saddr, packet.daddr)
    }

    /// What the datapath does with one frame: a frame that cannot be parsed
    /// is skipped and leaves the table as it is; any other frame is
    /// accounted for as [`FlowTable::record_packet`] says. The frame itself
    /// is never changed or held back.
    pub fn observe_frame(&mut self, frame: &[u8]) -> (seen: Observation)
        requires
            old(self).wf(),
        ensures
            final(self).wf(),
            final(self)@ == frame_observed(old(self)@, frame@),
            final(self).order() == if parsable(frame@) {
                observed_order(old(self).order(), old(self)@, parsed(frame@).flow_label())
            } else {
                old(self).order()
            },
            seen == observation(old(self)@, frame@),
    {
        match parse_frame(frame) {
            None => Observation::Skipped,
            Some(packet) => {
                if self.record_packet(&packet) {
                    Observation::Counted
                } else {
                    Observation::Dropped
                }
            },
        }
    }

    /// Takes every record out of the table: the flows come out in the order
    /// in which they were first seen, each with the record that the table
    /// held for it, and the table is empty afterwards.
    pub fn drain(&mut self) -> (records: Vec<(FlowLabel, BytesAddr)>)
        requires
            old(self).wf(),
        ensures
            final(self).wf(),
            final(self)@ == Map::<FlowLabel, BytesAddr>::empty(),
            final(self).order() == Seq::<FlowLabel>::empty(),
            records@ == records_in_order(old(self).order(), old(self)@),
            records@.len() == old(self)@.len(),
    {
        let mut records: Vec<(FlowLabel, BytesAddr)> = Vec::new();
        std::mem::swap(&mut self.entries, &mut records);
        assert(self@ =~= Map::<FlowLabel, BytesAddr>::empty());
        assert(self.order() =~= Seq::<FlowLabel>::empty());
        proof {
            assert forall|i: int| 0 <= i < records@.len() implies records@[i] == (
                old(self).order()[i],
                old(self)@[old(self).order()[i]],
            ) by {
                lemma_place(records@, i);
            }
            assert(records@ =~= records_in_order(old(self).order(), old(self)@));
        }
        records
    }
}

} // verus!
