//! The drain and aggregate loop: on every poll tick the records of both
//! directions are attributed to the peers of this host, the counters of the
//! tick are folded into the moving averages, and once per report period the
//! averages go out as a report.

use crate::counter::{
    AvgCounterUnit, AvgCounterUnitView, CounterType, CounterUnit, CounterUnitView, Smoothing,
};
use crate::flow::{host_order, BytesAddr, FlowLabel};
use crate::report::{
    bincode_serialized, encode_report, encoded_len, report_outcome, wire_units, ReportError,
};
use crate::table::{labels_of, records_in_order, FlowTable};
use vstd::prelude::*;

verus! {

/// The direction of traffic that a hook and its table see.
#[derive(Clone, Copy, Debug, PartialEq, Eq, Structural, Hash)]
pub enum Direction {
    /// Packets that arrive at this host.
    Ingress,
    /// Packets that leave this host.
    Egress,
}

impl Direction {
    /// The category that counts all bytes of this direction.
    pub open spec fn total_type(self) -> CounterType {
        match self {
            Direction::Ingress => CounterType::Rx,
            Direction::Egress => CounterType::Tx,
        }
    }

    /// The category that counts the bytes of this direction that stay in
    /// the rack.
    pub open spec fn rack_type(self) -> CounterType {
        match self {
            Direction::Ingress => CounterType::RxIn,
            Direction::Egress => CounterType::TxIn,
        }
    }

    /// The end of a flow that is on this host, in host order: the
    /// destination of what arrives, the source of what leaves.
    pub open spec fn local_addr(self, record: BytesAddr) -> u32 {
        match self {
            Direction::Ingress => host_order(record.daddr),
            Direction::Egress => host_order(record.saddr),
        }
    }

    /// The other end of a flow, in host order.
    pub open spec fn remote_addr(self, record: BytesAddr) -> u32 {
        match self {
            Direction::Ingress => host_order(record.saddr),
            Direction::Egress => host_order(record.daddr),
        }
    }

    fn categories(self) -> (types: (CounterType, CounterType))
        ensures
            types == (self.total_type(), self.rack_type()),
    {
        match self {
            Direction::Ingress => (CounterType::Rx, CounterType::RxIn),
            Direction::Egress => (CounterType::Tx, CounterType::TxIn),
        }
    }

    fn ends(self, record: &BytesAddr) -> (addrs: (u32, u32))
        ensures
            addrs == (self.local_addr(*record), self.remote_addr(*record)),
    {
        match self {
            Direction::Ingress => (record.destination(), record.source()),
            Direction::Egress => (record.source(), record.destination()),
        }
    }
}

/// One address of this host with what is counted for it.
#[derive(Clone, Debug)]
pub struct Peer {
    /// The address in host order.
    pub addr: u32,
    /// What the current tick has counted.
    pub counter: CounterUnit,
    /// What the current report window has seen.
    pub average: AvgCounterUnit,
}

/// The mathematical value of a [`Peer`].
pub struct PeerView {
    pub addr: u32,
    pub counter: CounterUnitView,
    pub average: AvgCounterUnitView,
}

impl View for Peer {
    type V = PeerView;

    open spec fn view(&self) -> PeerView {
        PeerView { addr: self.addr, counter: self.counter@, average: self.average@ }
    }
}

/// The values of a list of peers.
pub open spec fn peer_views(peers: Seq<Peer>) -> Seq<PeerView> {
    Seq::new(peers.len(), |i: int| peers[i]@)
}

/// Whether `addr` is an address of this host.
pub open spec fn is_local(peers: Seq<PeerView>, addr: u32) -> bool {
    exists|i: int| 0 <= i < peers.len() && (#[trigger] peers[i]).addr == addr
}

/// Whether `i` is the first place in `peers` with the address `addr`.
pub open spec fn is_first_place(peers: Seq<PeerView>, addr: u32, i: int) -> bool {
    &&& 0 <= i < peers.len()
    &&& peers[i].addr == addr
    &&& forall|j: int| 0 <= j < i ==> (#[trigger] peers[j]).addr != addr
}

/// The first place in `peers` with the address `addr`.
pub open spec fn first_place(peers: Seq<PeerView>, addr: u32) -> int {
    choose|i: int| is_first_place(peers, addr, i)
}

/// A peer after one more flow of `bytes` bytes in `direction`: the flow
/// counts for the direction as a whole, and once more for the rack where
/// its other end is in the rack.
pub open spec fn credited(
    peer: PeerView,
    direction: Direction,
    bytes: u64,
    in_rack: bool,
) -> PeerView {
    let counted = peer.counter.add_flow(direction.total_type(), bytes);
    PeerView {
        addr: peer.addr,
        counter: if in_rack {
            counted.add_flow(direction.rack_type(), bytes)
        } else {
            counted
        },
        average: peer.average,
    }
}

/// The peers after one record of `direction` was attributed: the first peer
/// with the local address of the record is credited; a record for an
/// address that is of no peer changes nothing.
pub open spec fn attributed(
    peers: Seq<PeerView>,
    rack: Set<u32>,
    direction: Direction,
    record: BytesAddr,
) -> Seq<PeerView> {
    let local = direction.local_addr(record);
    if is_local(peers, local) {
        let place = first_place(peers, local);
        peers.update(
            place,
            credited(
                peers[place],
                direction,
                record.bytes,
                rack.contains(direction.remote_addr(record)),
            ),
        )
    } else {
        peers
    }
}

/// The peers after a list of records of `direction` was attributed, one
/// after the other.
pub open spec fn attributed_all(
    peers: Seq<PeerView>,
    rack: Set<u32>,
    direction: Direction,
    records: Seq<(FlowLabel, BytesAddr)>,
) -> Seq<PeerView>
    decreases records.len(),
{
    if records.len() == 0 {
        peers
    } else {
        attributed(
            attributed_all(peers, rack, direction, records.drop_last()),
            rack,
            direction,
            records.last().1,
        )
    }
}

/// The addresses of a rack as a set.
pub open spec fn rack_set(rack: Seq<u32>) -> Set<u32> {
    Set::new(|addr: u32| rack.contains(addr))
}

proof fn lemma_first_place(peers: Seq<PeerView>, addr: u32, i: int)
    requires
        is_first_place(peers, addr, i),
    ensures
        is_local(peers, addr),
        first_place(peers, addr) == i,
{
    let j = first_place(peers, addr);
    assert(is_first_place(peers, addr, j));
    if j < i {
        assert(peers[j].addr != addr);
    } else if i < j {
        assert(peers[i].addr != addr);
    }
}

/// Among the peers with an address there is a first one.
proof fn lemma_first_place_exists(peers: Seq<PeerView>, addr: u32, some: int)
    requires
        0 <= some < peers.len(),
        peers[some].addr == addr,
    ensures
        is_first_place(peers, addr, first_place(peers, addr)),
    decreases some,
{
    if exists|j: int| 0 <= j < some && (#[trigger] peers[j]).addr == addr {
        let earlier = choose|j: int| 0 <= j < some && (#[trigger] peers[j]).addr == addr;
        lemma_first_place_exists(peers, addr, earlier);
    } else {
        assert(is_first_place(peers, addr, some));
    }
}

/// A record credits the first peer that has its local address: the bytes
/// count for the direction, and once more for the rack where the other end
/// is in the rack. Every other peer stays as it is.
pub proof fn lemma_attributed_credit(
    peers: Seq<PeerView>,
    rack: Set<u32>,
    direction: Direction,
    record: BytesAddr,
    place: int,
)
    requires
        is_first_place(peers, direction.local_addr(record), place),
    ensures
        attributed(peers, rack, direction, record) == peers.update(
            place,
            credited(
                peers[place],
                direction,
                record.bytes,
                rack.contains(direction.remote_addr(record)),
            ),
        ),
{
    lemma_first_place(peers, direction.local_addr(record), place);
}

/// Attribution changes counters and nothing else: the peers stay as many,
/// and each keeps its address, its names and its window.
pub proof fn lemma_attributed_all_keeps(
    peers: Seq<PeerView>,
    rack: Set<u32>,
    direction: Direction,
    records: Seq<(FlowLabel, BytesAddr)>,
)
    ensures
        attributed_all(peers, rack, direction, records).len() == peers.len(),
        forall|i: int|
            0 <= i < peers.len() ==> {
                let after = #[trigger] attributed_all(peers, rack, direction, records)[i];
                &&& after.addr == peers[i].addr
                &&& after.average == peers[i].average
                &&& after.counter.vnodename == peers[i].counter.vnodename
            },
    decreases records.len(),
{
    if records.len() > 0 {
        let before = attributed_all(peers, rack, direction, records.drop_last());
        lemma_attributed_all_keeps(peers, rack, direction, records.drop_last());
        let record = records.last().1;
        let local = direction.local_addr(record);
        if is_local(before, local) {
            let some = choose|i: int| 0 <= i < before.len() && (#[trigger] before[i]).addr == local;
            lemma_first_place_exists(before, local, some);
        }
    }
}

/// A tick that finds both tables empty still folds every peer: the counters
/// of the tick are zero, so the windows keep their bytes and the averages
/// sink.
pub proof fn lemma_idle_tick(agent: AgentView)
    ensures
        agent.aggregated(
            Seq::<(FlowLabel, BytesAddr)>::empty(),
            Seq::<(FlowLabel, BytesAddr)>::empty(),
        ) == folded(agent.peers, agent.num, agent.den),
{
}

fn in_rack(rack: &Vec<u32>, addr: u32) -> (found: bool)
    ensures
        found == rack_set(rack@).contains(addr),
{
    let mut i: usize = 0;
    while i < rack.len()
        invariant
            i <= rack@.len(),
            forall|j: int| 0 <= j < i ==> rack@[j] != addr,
        decreases rack@.len() - i,
    {
        if rack[i] == addr {
            assert(rack@.contains(addr));
            return true;
        }
        i += 1;
    }
    false
}

fn find_peer(peers: &Vec<Peer>, addr: u32) -> (place: Option<usize>)
    ensures
        place is Some <==> is_local(peer_views(peers@), addr),
        place matches Some(i) ==> is_first_place(peer_views(peers@), addr, i as int),
{
    let mut i: usize = 0;
    while i < peers.len()
        invariant
            i <= peers@.len(),
            forall|j: int| 0 <= j < i ==> (#[trigger] peer_views(peers@)[j]).addr != addr,
        decreases peers@.len() - i,
    {
        if peers[i].addr == addr {
            proof {
                lemma_first_place(peer_views(peers@), addr, i as int);
            }
            return Some(i);
        }
        i += 1;
    }
    None
}

/// Attributes one record of `direction` to the peers.
pub fn attribute(peers: &mut Vec<Peer>, rack: &Vec<u32>, direction: Direction, record: &BytesAddr)
    ensures
        peer_views(final(peers)@) == attributed(
            peer_views(old(peers)@),
            rack_set(rack@),
            direction,
            *record,
        ),
{
    let (local, remote) = direction.ends(record);
    let (total_type, rack_type) = direction.categories();
    match find_peer(peers, local) {
        None => {},
        Some(i) => {
            let ghost before = peer_views(peers@);
            proof {
                lemma_first_place(before, local, i as int);
            }
            let inside = in_rack(rack, remote);
            peers[i].counter.add_flow(total_type, record.bytes);
            if inside {
                peers[i].counter.add_flow(rack_type, record.bytes);
            }
            assert(peer_views(peers@) =~= before.update(
                i as int,
                credited(before[i as int], direction, record.bytes, inside),
            ));
        },
    }
}

/// Attributes the records that were read from the table of `direction`, in
/// their order, and returns the labels of the records, which are those that
/// the caller now deletes from the table.
pub fn attribute_all(
    peers: &mut Vec<Peer>,
    rack: &Vec<u32>,
    direction: Direction,
    records: &Vec<(FlowLabel, BytesAddr)>,
) -> (drained: Vec<FlowLabel>)
    ensures
        peer_views(final(peers)@) == attributed_all(
            peer_views(old(peers)@),
            rack_set(rack@),
            direction,
            records@,
        ),
        drained@ == labels_of(records@),
{
    let mut drained: Vec<FlowLabel> = Vec::new();
    let mut i: usize = 0;
    while i < records.len()
        invariant
            i <= records@.len(),
            peer_views(peers@) == attributed_all(
                peer_views(old(peers)@),
                rack_set(rack@),
                direction,
                records@.take(i as int),
            ),
            drained@ =~= labels_of(records@.take(i as int)),
        decreases records@.len() - i,
    {
        assert(records@.take(i + 1).drop_last() =~= records@.take(i as int));
        attribute(peers, rack, direction, &records[i].1);
        drained.push(records[i].0);
        i += 1;
    }
    assert(records@.take(records@.len() as int) =~= records@);
    drained
}

/// The peers as they start out: one for each local address, in the order of
/// the list, with nothing counted.
pub open spec fn fresh_peers(locals: Seq<(u32, String)>) -> Seq<PeerView> {
    Seq::new(
        locals.len(),
        |i: int|
            PeerView {
                addr: locals[i].0,
                counter: CounterUnitView::empty(locals[i].1@),
                average: AvgCounterUnitView::empty(locals[i].1@),
            },
    )
}

/// A peer at the end of a tick: the counter of the tick is folded into the
/// window with weight `num / den` and starts again from zero.
pub open spec fn folded_peer(peer: PeerView, num: nat, den: nat) -> PeerView {
    PeerView {
        addr: peer.addr,
        counter: CounterUnitView::empty(peer.counter.vnodename),
        average: peer.average.merged(peer.counter, num, den),
    }
}

/// The peers at the end of a tick: every peer is folded, whether or not it
/// has seen traffic.
pub open spec fn folded(peers: Seq<PeerView>, num: nat, den: nat) -> Seq<PeerView> {
    Seq::new(peers.len(), |i: int| folded_peer(peers[i], num, den))
}

/// The peers after a report: every window starts again from zero bytes and
/// keeps its averages.
pub open spec fn window_closed(peers: Seq<PeerView>) -> Seq<PeerView> {
    Seq::new(
        peers.len(),
        |i: int|
            PeerView {
                addr: peers[i].addr,
                counter: peers[i].counter,
                average: peers[i].average.without_bytes(),
            },
    )
}

/// What a report says of the peers: the window of each as a plain counter.
pub open spec fn snapshot(peers: Seq<PeerView>) -> Seq<CounterUnitView> {
    Seq::new(peers.len(), |i: int| peers[i].average.snapshot())
}

/// Why an agent could not be set up.
#[derive(Clone, Copy, Debug, PartialEq, Eq, Structural)]
pub enum ConfigError {
    /// The poll period is longer than the report period.
    PollLongerThanReport,
}

/// What the caller of a tick has to do.
#[derive(Debug)]
pub struct Tick {
    /// The labels to delete from the ingress table.
    pub ingress: Vec<FlowLabel>,
    /// The labels to delete from the egress table.
    pub egress: Vec<FlowLabel>,
    /// The report that fell due in this tick: the payload to send, or why
    /// there is none.
    pub report: Option<Result<Vec<u8>, ReportError>>,
}

/// The state of the drain and aggregate loop.
#[derive(Debug)]
pub struct Agent {
    peers: Vec<Peer>,
    rack: Vec<u32>,
    weight: Smoothing,
    poll_period_ms: u64,
    report_period_ms: u64,
    last_report_ms: u64,
    running: bool,
}

/// The mathematical value of an [`Agent`].
pub struct AgentView {
    /// The addresses of this host with their counters.
    pub peers: Seq<PeerView>,
    /// The addresses of the rack, in host order.
    pub rack: Set<u32>,
    /// Numerator of the weight of a tick in the moving average.
    pub num: nat,
    /// Denominator of that weight.
    pub den: nat,
    /// Milliseconds between two ticks.
    pub poll_period_ms: u64,
    /// Milliseconds between two reports.
    pub report_period_ms: u64,
    /// The time of the last report, or of the start.
    pub last_report_ms: u64,
    /// Whether the loop still runs.
    pub running: bool,
}

impl AgentView {
    /// Whether a report is due at `now_ms`: at least one report period has
    /// passed since the last report.
    pub open spec fn report_due(self, now_ms: u64) -> bool {
        now_ms >= self.last_report_ms + self.report_period_ms
    }

    /// The peers at the end of a tick that read `ingress` and `egress` from
    /// the tables: ingress is attributed first, then egress, then every
    /// peer is folded.
    pub open spec fn aggregated(
        self,
        ingress: Seq<(FlowLabel, BytesAddr)>,
        egress: Seq<(FlowLabel, BytesAddr)>,
    ) -> Seq<PeerView> {
        folded(
            attributed_all(
                attributed_all(self.peers, self.rack, Direction::Ingress, ingress),
                self.rack,
                Direction::Egress,
                egress,
            ),
            self.num,
            self.den,
        )
    }

    /// The agent after a report at `now_ms`.
    pub open spec fn reported(self, now_ms: u64) -> AgentView {
        AgentView { peers: window_closed(self.peers), last_report_ms: now_ms, ..self }
    }

    /// The agent after a tick at `now_ms`. A stopped agent stays as it is.
    pub open spec fn ticked(
        self,
        ingress: Seq<(FlowLabel, BytesAddr)>,
        egress: Seq<(FlowLabel, BytesAddr)>,
        now_ms: u64,
    ) -> AgentView {
        if !self.running {
            self
        } else {
            let after = AgentView { peers: self.aggregated(ingress, egress), ..self };
            if self.report_due(now_ms) {
                after.reported(now_ms)
            } else {
                after
            }
        }
    }
}

impl View for Agent {
    type V = AgentView;

    closed spec fn view(&self) -> AgentView {
        AgentView {
            peers: peer_views(self.peers@),
            rack: rack_set(self.rack@),
            num: self.weight.num(),
            den: self.weight.den(),
            poll_period_ms: self.poll_period_ms,
            report_period_ms: self.report_period_ms,
            last_report_ms: self.last_report_ms,
            running: self.running,
        }
    }
}

impl Agent {
    /// The weight is a proper fraction and the poll period is no longer than
    /// the report period.
    pub closed spec fn wf(&self) -> bool {
        &&& self.weight.wf()
        &&& self.poll_period_ms <= self.report_period_ms
    }

    /// What [`Agent::wf`] says of the value of an agent.
    pub proof fn lemma_wf(&self)
        requires
            self.wf(),
        ensures
            Smoothing::valid(self@.num, self@.den),
            self@.poll_period_ms <= self@.report_period_ms,
    {
        self.weight.lemma_wf();
    }

    /// Sets up the loop for the local addresses `locals`, each with the name
    /// of its counters, and the rack `rack`; all addresses in host order.
    /// The first report window opens at `now_ms`. A poll period that is
    /// longer than the report period is refused.
    pub fn new(
        locals: &Vec<(u32, String)>,
        rack: Vec<u32>,
        weight: Smoothing,
        poll_period_ms: u64,
        report_period_ms: u64,
        now_ms: u64,
    ) -> (agent: Result<Agent, ConfigError>)
        requires
            weight.wf(),
        ensures
            agent is Err <==> poll_period_ms > report_period_ms,
            agent matches Err(e) ==> e == ConfigError::PollLongerThanReport,
            agent matches Ok(a) ==> a.wf() && a@ == (AgentView {
                peers: fresh_peers(locals@),
                rack: rack_set(rack@),
                num: weight.num(),
                den: weight.den(),
                poll_period_ms,
                report_period_ms,
                last_report_ms: now_ms,
                running: true,
            }),
    {
        if poll_period_ms > report_period_ms {
            return Err(ConfigError::PollLongerThanReport);
        }
        let mut peers: Vec<Peer> = Vec::new();
        let mut i: usize = 0;
        while i < locals.len()
            invariant
                i <= locals@.len(),
                peers@.len() == i,
                forall|j: int| 0 <= j < i ==> (#[trigger] peers@[j])@ == fresh_peers(locals@)[j],
            decreases locals@.len() - i,
        {
            let name = locals[i].1.as_str();
            peers.push(
                Peer {
                    addr: locals[i].0,
                    counter: CounterUnit::new(name),
                    average: AvgCounterUnit::new(name),
                },
            );
            i += 1;
        }
        assert(peer_views(peers@) =~= fresh_peers(locals@));
        Ok(
            Agent {
                peers,
                rack,
                weight,
                poll_period_ms,
                report_period_ms,
                last_report_ms: now_ms,
                running: true,
            },
        )
    }

    /// The peers with their counters.
    pub fn peers(&self) -> (peers: &Vec<Peer>)
        ensures
            peer_views(peers@) == self@.peers,
    {
        &self.peers
    }

    /// Whether the loop still runs.
    pub fn is_running(&self) -> (running: bool)
        ensures
            running == self@.running,
    {
        self.running
    }

    /// Stops the loop: every later tick does nothing. Stopping twice is the
    /// same as stopping once.
    pub fn cancel(&mut self)
        requires
            old(self).wf(),
        ensures
            final(self).wf(),
            final(self)@ == (AgentView { running: false, ..old(self)@ }),
    {
        self.running = false;
    }

    /// Attributes the records that were read from the table of `direction`
    /// and returns their labels, which the caller deletes from the table.
    pub fn drain_records(
        &mut self,
        direction: Direction,
        records: &Vec<(FlowLabel, BytesAddr)>,
    ) -> (drained: Vec<FlowLabel>)
        requires
            old(self).wf(),
        ensures
            final(self).wf(),
            final(self)@ == (AgentView {
                peers: attributed_all(old(self)@.peers, old(self)@.rack, direction, records@),
                ..old(self)@
            }),
            drained@ == labels_of(records@),
    {
        attribute_all(&mut self.peers, &self.rack, direction, records)
    }

    /// Drains a table of `direction` and attributes what it held, in the
    /// order in which the table saw its flows. The table is empty
    /// afterwards.
    pub fn drain_table(&mut self, direction: Direction, table: &mut FlowTable)
        requires
            old(self).wf(),
            old(table).wf(),
        ensures
            final(self).wf(),
            final(table).wf(),
            final(table)@ == Map::<FlowLabel, BytesAddr>::empty(),
            final(table).order() == Seq::<FlowLabel>::empty(),
            final(self)@ == (AgentView {
                peers: attributed_all(
                    old(self)@.peers,
                    old(self)@.rack,
                    direction,
                    records_in_order(old(table).order(), old(table)@),
                ),
                ..old(self)@
            }),
    {
        let records = table.drain();
        let _ = attribute_all(&mut self.peers, &self.rack, direction, &records);
    }

    /// Ends a tick: the counter of every peer is folded into its window and
    /// starts again from zero.
    pub fn fold(&mut self)
        requires
            old(self).wf(),
        ensures
            final(self).wf(),
            final(self)@ == (AgentView {
                peers: folded(old(self)@.peers, old(self)@.num, old(self)@.den),
                ..old(self)@
            }),
    {
        let ghost before = peer_views(self.peers@);
        let weight = self.weight;
        let mut i: usize = 0;
        while i < self.peers.len()
            invariant
                weight.wf(),
                weight == self.weight,
                self.rack == old(self).rack,
                self.poll_period_ms == old(self).poll_period_ms,
                self.report_period_ms == old(self).report_period_ms,
                self.last_report_ms == old(self).last_report_ms,
                self.running == old(self).running,
                before == peer_views(old(self).peers@),
                i <= self.peers@.len(),
                self.peers@.len() == before.len(),
                forall|j: int|
                    0 <= j < i ==> (#[trigger] self.peers@[j])@ == folded_peer(
                        before[j],
                        weight.num(),
                        weight.den(),
                    ),
                forall|j: int| i <= j < before.len() ==> (#[trigger] self.peers@[j])@ == before[j],
            decreases self.peers@.len() - i,
        {
            let tick = self.peers[i].counter.clone_counts();
            self.peers[i].average.merge_weighted(&tick, weight);
            self.peers[i].counter.clear();
            i += 1;
        }
        assert(peer_views(self.peers@) =~= folded(before, weight.num(), weight.den()));
    }

    /// Whether a report is due at `now_ms`.
    pub fn report_due(&self, now_ms: u64) -> (due: bool)
        ensures
            due == self@.report_due(now_ms),
    {
        match self.last_report_ms.checked_add(self.report_period_ms) {
            Some(next) => now_ms >= next,
            None => false,
        }
    }

    /// Builds the report of the current windows and opens the next window at
    /// `now_ms`. The payload is the encoding of the windows as they were
    /// before; a report that is too large for one datagram is refused as a
    /// whole. The next window opens whether or not there is a payload.
    pub fn report(&mut self, now_ms: u64) -> (payload: Result<Vec<u8>, ReportError>)
        requires
            old(self).wf(),
        ensures
            final(self).wf(),
            final(self)@ == old(self)@.reported(now_ms),
            report_outcome(bincode_serialized(wire_units(snapshot(old(self)@.peers))), payload),
            payload matches Ok(p) ==> p@.len() == encoded_len(
                wire_units(snapshot(old(self)@.peers)),
            ),
    {
        let ghost before = peer_views(self.peers@);
        let mut units: Vec<CounterUnit> = Vec::new();
        let mut i: usize = 0;
        while i < self.peers.len()
            invariant
                i <= self.peers@.len(),
                units@.len() == i,
                forall|j: int| 0 <= j < i ==> (#[trigger] units@[j])@ == snapshot(
                    peer_views(self.peers@),
                )[j],
            decreases self.peers@.len() - i,
        {
            units.push(self.peers[i].average.to_counter_unit());
            i += 1;
        }
        assert(crate::counter::unit_views(units@) =~= snapshot(before));
        let payload = encode_report(&units);
        let mut k: usize = 0;
        while k < self.peers.len()
            invariant
                self.weight == old(self).weight,
                self.rack == old(self).rack,
                self.poll_period_ms == old(self).poll_period_ms,
                self.report_period_ms == old(self).report_period_ms,
                self.running == old(self).running,
                before == peer_views(old(self).peers@),
                k <= self.peers@.len(),
                self.peers@.len() == before.len(),
                forall|j: int|
                    0 <= j < k ==> (#[trigger] self.peers@[j])@ == window_closed(before)[j],
                forall|j: int| k <= j < before.len() ==> (#[trigger] self.peers@[j])@ == before[j],
            decreases self.peers@.len() - k,
        {
            self.peers[k].average.clear_bytes();
            k += 1;
        }
        assert(peer_views(self.peers@) =~= window_closed(before));
        self.last_report_ms = now_ms;
        payload
    }

    /// One pass of the loop at `now_ms`, with the records that were read
    /// from the two tables. A running agent attributes ingress, then egress,
    /// folds every peer, and reports where a report is due; the caller
    /// deletes the labels that come back and sends the payload. A stopped
    /// agent does nothing and asks for nothing.
    pub fn tick(
        &mut self,
        ingress: &Vec<(FlowLabel, BytesAddr)>,
        egress: &Vec<(FlowLabel, BytesAddr)>,
        now_ms: u64,
    ) -> (asked: Tick)
        requires
            old(self).wf(),
        ensures
            final(self).wf(),
            final(self)@ == old(self)@.ticked(ingress@, egress@, now_ms),
            !old(self)@.running ==> asked.ingress@.len() == 0 && asked.egress@.len() == 0
                && asked.report is None,
            old(self)@.running ==> asked.ingress@ == labels_of(ingress@) && asked.egress@
                == labels_of(egress@),
            old(self)@.running && !old(self)@.report_due(now_ms) ==> asked.report is None,
            old(self)@.running && old(self)@.report_due(now_ms) ==> (asked.report matches Some(
                payload,
            ) && report_outcome(
                bincode_serialized(
                    wire_units(snapshot(old(self)@.aggregated(ingress@, egress@))),
                ),
                payload,
            )),
    {
        if !self.running {
            return Tick { ingress: Vec::new(), egress: Vec::new(), report: None };
        }
        let drained_ingress = self.drain_records(Direction::Ingress, ingress);
        let drained_egress = self.drain_records(Direction::Egress, egress);
        self.fold();
        let report = if self.report_due(now_ms) {
            Some(self.report(now_ms))
        } else {
            None
        };
        Tick { ingress: drained_ingress, egress: drained_egress, report }
    }
}

} // verus!
