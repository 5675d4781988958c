//! Per-peer traffic counters: the instantaneous counter of one poll tick and
//! the running counter that smooths it over a report window.
//!
//! Smoothed values are fixed-point numbers with [`FRACTION_BITS`] fractional
//! bits, so that every update is exact integer arithmetic.

use vstd::prelude::*;
use vstd::string::StringExecFns;

verus! {

/// Number of fractional bits in a smoothed count.
pub const FRACTION_BITS: u32 = 32;

/// The smoothed count that stands for exactly one competitor.
pub const ONE: u64 = 0x1_0000_0000;

/// Half of [`ONE`]: what rounding to the nearest whole count adds.
pub const HALF: u64 = 0x8000_0000;

/// The four categories of traffic that are counted for a peer.
#[derive(Clone, Copy, Debug, PartialEq, Eq, Structural, Hash)]
pub enum CounterType {
    /// Bytes sent.
    Tx,
    /// Bytes sent to a peer in the same rack.
    TxIn,
    /// Bytes received.
    Rx,
    /// Bytes received from a peer in the same rack.
    RxIn,
}

/// Traffic of one category within one poll tick.
#[derive(Clone, Copy, Debug, PartialEq, Eq, Structural)]
pub struct CounterUnitData {
    /// Bytes seen.
    pub bytes: u64,
    /// Flows that contributed.
    pub num_competitors: u32,
}

/// Traffic of one category over a report window.
#[derive(Clone, Copy, Debug, PartialEq, Eq, Structural)]
pub struct AvgCounterUnitData {
    /// Bytes seen since the window opened.
    pub bytes: u64,
    /// Moving average of the flows per tick, in units of 1/[`ONE`].
    pub num_competitors: u64,
}

/// The weight `num / den` that a moving average gives to a new sample; the
/// history keeps `1 - num / den`.
#[derive(Clone, Copy, Debug, PartialEq, Eq, Structural)]
pub struct Smoothing {
    num: u32,
    den: u32,
}

/// `avg * (1 - num/den) + sample * num/den` on fixed-point values, rounded
/// down to the next representable value.
pub open spec fn blend(avg: nat, sample: nat, num: nat, den: nat) -> nat {
    (((den - num) * avg + num * (sample * ONE as nat)) / (den as int)) as nat
}

/// The smoothed count `avg` rounded to the nearest whole count, halves up,
/// and capped at the largest count.
pub open spec fn rounded(avg: nat) -> nat {
    if (avg + HALF as nat) / ONE as nat > u32::MAX as nat {
        u32::MAX as nat
    } else {
        (avg + HALF as nat) / ONE as nat
    }
}

/// `x + y`, capped at the largest 64-bit value.
pub open spec fn capped_sum(x: nat, y: nat) -> nat {
    if x + y > u64::MAX as nat {
        u64::MAX as nat
    } else {
        x + y
    }
}

/// `x + 1`, capped at the largest 32-bit value.
pub open spec fn capped_succ(x: nat) -> nat {
    if x >= u32::MAX as nat {
        u32::MAX as nat
    } else {
        x + 1
    }
}

/// The average after `rounds` ticks without any traffic.
pub open spec fn decayed(avg: nat, num: nat, den: nat, rounds: nat) -> nat
    decreases rounds,
{
    if rounds == 0 {
        avg
    } else {
        blend(decayed(avg, num, den, (rounds - 1) as nat), 0, num, den)
    }
}

impl Smoothing {
    /// A weight is a proper fraction: `0 < num <= den`.
    pub open spec fn valid(num: nat, den: nat) -> bool {
        0 < num <= den
    }

    /// The numerator of the weight.
    pub closed spec fn num(self) -> nat {
        self.num as nat
    }

    /// The denominator of the weight.
    pub closed spec fn den(self) -> nat {
        self.den as nat
    }

    /// The weight is a proper fraction.
    pub closed spec fn wf(self) -> bool {
        Self::valid(self.num as nat, self.den as nat)
    }

    /// What [`Smoothing::wf`] says of the two numbers.
    pub proof fn lemma_wf(self)
        requires
            self.wf(),
        ensures
            Self::valid(self.num(), self.den()),
    {
    }

    /// The weight `num / den`, or `None` where that is no proper fraction.
    pub fn new(num: u32, den: u32) -> (w: Option<Smoothing>)
        ensures
            w is Some <==> Self::valid(num as nat, den as nat),
            w matches Some(s) ==> s.wf() && s.num() == num && s.den() == den,
    {
        if 0 < num && num <= den {
            Some(Smoothing { num, den })
        } else {
            None
        }
    }

    /// The fixed weight 1/8: history keeps 0.875, the sample adds 0.125.
    pub fn fixed() -> (w: Smoothing)
        ensures
            w.wf(),
            w.num() == 1,
            w.den() == 8,
    {
        Smoothing { num: 1, den: 8 }
    }

    /// The weight of one poll tick within a report window: the ratio of the
    /// poll period to the report period. `None` where the poll period is
    /// zero or longer than the report period.
    pub fn from_periods(poll_ms: u32, report_ms: u32) -> (w: Option<Smoothing>)
        ensures
            w is Some <==> 0 < poll_ms <= report_ms,
            w matches Some(s) ==> s.wf() && s.num() == poll_ms && s.den() == report_ms,
    {
        Smoothing::new(poll_ms, report_ms)
    }

    /// Folds one sample into a smoothed count.
    pub fn apply(&self, avg: u64, sample: u32) -> (next: u64)
        requires
            self.wf(),
        ensures
            next as nat == blend(avg as nat, sample as nat, self.num(), self.den()),
    {
        let keep: u128 = (self.den - self.num) as u128;
        let take: u128 = self.num as u128;
        assert(sample as u128 * ONE as u128 <= 0xffff_ffff * 0x1_0000_0000) by (nonlinear_arith)
            requires
                sample <= 0xffff_ffff,
                ONE == 0x1_0000_0000,
        ;
        let scaled: u128 = sample as u128 * ONE as u128;
        proof {
            lemma_blend_bounds(avg as nat, sample as nat, self.num as nat, self.den as nat);
            assert(keep * avg as u128 <= 0x1_0000_0000 * 0x1_0000_0000_0000_0000)
                by (nonlinear_arith)
                requires
                    keep <= 0x1_0000_0000,
                    avg <= 0x1_0000_0000_0000_0000,
            ;
            assert(take * scaled <= 0x1_0000_0000 * 0x1_0000_0000_0000_0000) by (nonlinear_arith)
                requires
                    take <= 0x1_0000_0000,
                    scaled <= 0x1_0000_0000_0000_0000,
            ;
        }
        let total: u128 = keep * avg as u128 + take * scaled;
        (total / self.den as u128) as u64
    }
}

/// What is counted for one peer within one poll tick.
#[derive(Clone, Debug)]
pub struct CounterUnit {
    /// The name that the topology gives to the peer.
    pub vnodename: String,
    pub tx: CounterUnitData,
    pub tx_in: CounterUnitData,
    pub rx: CounterUnitData,
    pub rx_in: CounterUnitData,
}

/// The mathematical value of a [`CounterUnit`].
pub struct CounterUnitView {
    pub vnodename: Seq<char>,
    pub tx: CounterUnitData,
    pub tx_in: CounterUnitData,
    pub rx: CounterUnitData,
    pub rx_in: CounterUnitData,
}

impl View for CounterUnit {
    type V = CounterUnitView;

    open spec fn view(&self) -> CounterUnitView {
        CounterUnitView {
            vnodename: self.vnodename@,
            tx: self.tx,
            tx_in: self.tx_in,
            rx: self.rx,
            rx_in: self.rx_in,
        }
    }
}

/// The values of a list of counters.
pub open spec fn unit_views(units: Seq<CounterUnit>) -> Seq<CounterUnitView> {
    Seq::new(units.len(), |i: int| units[i]@)
}

impl CounterUnitData {
    /// Nothing seen.
    pub open spec fn zero() -> CounterUnitData {
        CounterUnitData { bytes: 0, num_competitors: 0 }
    }

    /// One more flow of `delta` bytes; both numbers stop at their largest
    /// value.
    pub open spec fn with_flow(self, delta: u64) -> CounterUnitData {
        CounterUnitData {
            bytes: capped_sum(self.bytes as nat, delta as nat) as u64,
            num_competitors: capped_succ(self.num_competitors as nat) as u32,
        }
    }

    fn add_flow(&mut self, delta: u64)
        ensures
            *final(self) == old(self).with_flow(delta),
    {
        self.bytes = self.bytes.saturating_add(delta);
        self.num_competitors = self.num_competitors.saturating_add(1);
    }
}

impl CounterUnitView {
    /// A counter that has seen nothing.
    pub open spec fn empty(vnodename: Seq<char>) -> CounterUnitView {
        CounterUnitView {
            vnodename,
            tx: CounterUnitData::zero(),
            tx_in: CounterUnitData::zero(),
            rx: CounterUnitData::zero(),
            rx_in: CounterUnitData::zero(),
        }
    }

    /// What is counted in one category.
    pub open spec fn get(self, counter_type: CounterType) -> CounterUnitData {
        match counter_type {
            CounterType::Tx => self.tx,
            CounterType::TxIn => self.tx_in,
            CounterType::Rx => self.rx,
            CounterType::RxIn => self.rx_in,
        }
    }

    /// The counter with one category replaced.
    pub open spec fn with(
        self,
        counter_type: CounterType,
        data: CounterUnitData,
    ) -> CounterUnitView {
        match counter_type {
            CounterType::Tx => CounterUnitView { tx: data, ..self },
            CounterType::TxIn => CounterUnitView { tx_in: data, ..self },
            CounterType::Rx => CounterUnitView { rx: data, ..self },
            CounterType::RxIn => CounterUnitView { rx_in: data, ..self },
        }
    }

    /// The counter after one more flow of `delta` bytes in one category.
    pub open spec fn add_flow(self, counter_type: CounterType, delta: u64) -> CounterUnitView {
        self.with(counter_type, self.get(counter_type).with_flow(delta))
    }
}

impl CounterUnit {
    /// A counter for the peer named `vnodename` that has seen nothing.
    pub fn new(vnodename: &str) -> (unit: CounterUnit)
        ensures
            unit@ == CounterUnitView::empty(vnodename@),
    {
        let zero = CounterUnitData { bytes: 0, num_competitors: 0 };
        CounterUnit {
            vnodename: String::from_str(vnodename),
            tx: zero,
            tx_in: zero,
            rx: zero,
            rx_in: zero,
        }
    }

    /// What is counted in one category.
    pub fn get(&self, counter_type: CounterType) -> (data: CounterUnitData)
        ensures
            data == self@.get(counter_type),
    {
        match counter_type {
            CounterType::Tx => self.tx,
            CounterType::TxIn => self.tx_in,
            CounterType::Rx => self.rx,
            CounterType::RxIn => self.rx_in,
        }
    }

    /// Counts one flow of `delta` bytes in one category. The byte total and
    /// the flow count stop at their largest value instead of wrapping.
    pub fn add_flow(&mut self, counter_type: CounterType, delta: u64)
        ensures
            final(self)@ == old(self)@.add_flow(counter_type, delta),
    {
        match counter_type {
            CounterType::Tx => self.tx.add_flow(delta),
            CounterType::TxIn => self.tx_in.add_flow(delta),
            CounterType::Rx => self.rx.add_flow(delta),
            CounterType::RxIn => self.rx_in.add_flow(delta),
        }
    }

    /// A counter of the same name and the same counts.
    pub fn clone_counts(&self) -> (copy: CounterUnit)
        ensures
            copy@ == self@,
    {
        CounterUnit {
            vnodename: self.vnodename.clone(),
            tx: self.tx,
            tx_in: self.tx_in,
            rx: self.rx,
            rx_in: self.rx_in,
        }
    }

    /// Forgets what was counted; the name stays.
    pub fn clear(&mut self)
        ensures
            final(self)@ == CounterUnitView::empty(old(self)@.vnodename),
    {
        let zero = CounterUnitData { bytes: 0, num_competitors: 0 };
        self.tx = zero;
        self.tx_in = zero;
        self.rx = zero;
        self.rx_in = zero;
    }
}

/// What is known of one peer over a report window: the bytes of the window
/// and the smoothed flow counts.
#[derive(Clone, Debug)]
pub struct AvgCounterUnit {
    /// The name that the topology gives to the peer.
    pub vnodename: String,
    pub tx: AvgCounterUnitData,
    pub tx_in: AvgCounterUnitData,
    pub rx: AvgCounterUnitData,
    pub rx_in: AvgCounterUnitData,
}

/// The mathematical value of an [`AvgCounterUnit`].
pub struct AvgCounterUnitView {
    pub vnodename: Seq<char>,
    pub tx: AvgCounterUnitData,
    pub tx_in: AvgCounterUnitData,
    pub rx: AvgCounterUnitData,
    pub rx_in: AvgCounterUnitData,
}

impl View for AvgCounterUnit {
    type V = AvgCounterUnitView;

    open spec fn view(&self) -> AvgCounterUnitView {
        AvgCounterUnitView {
            vnodename: self.vnodename@,
            tx: self.tx,
            tx_in: self.tx_in,
            rx: self.rx,
            rx_in: self.rx_in,
        }
    }
}

impl AvgCounterUnitData {
    /// Nothing seen, average at rest.
    pub open spec fn zero() -> AvgCounterUnitData {
        AvgCounterUnitData { bytes: 0, num_competitors: 0 }
    }

    /// The window after one more tick: the bytes of the tick are added, capped
    /// at the largest value, and the flow count of the tick is blended into
    /// the average with weight `num / den`.
    pub open spec fn merged(self, tick: CounterUnitData, num: nat, den: nat) -> AvgCounterUnitData {
        AvgCounterUnitData {
            bytes: capped_sum(self.bytes as nat, tick.bytes as nat) as u64,
            num_competitors: blend(
                self.num_competitors as nat,
                tick.num_competitors as nat,
                num,
                den,
            ) as u64,
        }
    }

    /// The window with its bytes forgotten; the average stays.
    pub open spec fn without_bytes(self) -> AvgCounterUnitData {
        AvgCounterUnitData { bytes: 0, num_competitors: self.num_competitors }
    }

    /// The window as a plain counter: the bytes, and the average rounded to
    /// whole flows.
    pub open spec fn snapshot(self) -> CounterUnitData {
        CounterUnitData {
            bytes: self.bytes,
            num_competitors: rounded(self.num_competitors as nat) as u32,
        }
    }

    fn merge(&mut self, tick: CounterUnitData, weight: Smoothing)
        requires
            weight.wf(),
        ensures
            *final(self) == old(self).merged(tick, weight.num(), weight.den()),
    {
        self.bytes = self.bytes.saturating_add(tick.bytes);
        self.num_competitors = weight.apply(self.num_competitors, tick.num_competitors);
    }

    fn to_counter(&self) -> (data: CounterUnitData)
        ensures
            data == self.snapshot(),
    {
        let whole: u64 = self.num_competitors / ONE;
        let up: u64 = if self.num_competitors % ONE >= HALF {
            1
        } else {
            0
        };
        let nearest: u64 = whole + up;
        let num_competitors: u32 = if nearest > u32::MAX as u64 {
            u32::MAX
        } else {
            nearest as u32
        };
        CounterUnitData { bytes: self.bytes, num_competitors }
    }
}

impl AvgCounterUnitView {
    /// A window that has seen nothing.
    pub open spec fn empty(vnodename: Seq<char>) -> AvgCounterUnitView {
        AvgCounterUnitView {
            vnodename,
            tx: AvgCounterUnitData::zero(),
            tx_in: AvgCounterUnitData::zero(),
            rx: AvgCounterUnitData::zero(),
            rx_in: AvgCounterUnitData::zero(),
        }
    }

    /// What is known of one category.
    pub open spec fn get(self, counter_type: CounterType) -> AvgCounterUnitData {
        match counter_type {
            CounterType::Tx => self.tx,
            CounterType::TxIn => self.tx_in,
            CounterType::Rx => self.rx,
            CounterType::RxIn => self.rx_in,
        }
    }

    /// The window after the tick `tick` was folded in with weight `num / den`,
    /// category by category. The name of the tick's counter plays no part.
    pub open spec fn merged(self, tick: CounterUnitView, num: nat, den: nat) -> AvgCounterUnitView {
        AvgCounterUnitView {
            vnodename: self.vnodename,
            tx: self.tx.merged(tick.tx, num, den),
            tx_in: self.tx_in.merged(tick.tx_in, num, den),
            rx: self.rx.merged(tick.rx, num, den),
            rx_in: self.rx_in.merged(tick.rx_in, num, den),
        }
    }

    /// The window with the bytes of every category forgotten.
    pub open spec fn without_bytes(self) -> AvgCounterUnitView {
        AvgCounterUnitView {
            vnodename: self.vnodename,
            tx: self.tx.without_bytes(),
            tx_in: self.tx_in.without_bytes(),
            rx: self.rx.without_bytes(),
            rx_in: self.rx_in.without_bytes(),
        }
    }

    /// The window as a plain counter.
    pub open spec fn snapshot(self) -> CounterUnitView {
        CounterUnitView {
            vnodename: self.vnodename,
            tx: self.tx.snapshot(),
            tx_in: self.tx_in.snapshot(),
            rx: self.rx.snapshot(),
            rx_in: self.rx_in.snapshot(),
        }
    }
}

impl AvgCounterUnit {
    /// A window for the peer named `vnodename` that has seen nothing.
    pub fn new(vnodename: &str) -> (unit: AvgCounterUnit)
        ensures
            unit@ == AvgCounterUnitView::empty(vnodename@),
    {
        let zero = AvgCounterUnitData { bytes: 0, num_competitors: 0 };
        AvgCounterUnit {
            vnodename: String::from_str(vnodename),
            tx: zero,
            tx_in: zero,
            rx: zero,
            rx_in: zero,
        }
    }

    /// What is known of one category.
    pub fn get(&self, counter_type: CounterType) -> (data: AvgCounterUnitData)
        ensures
            data == self@.get(counter_type),
    {
        match counter_type {
            CounterType::Tx => self.tx,
            CounterType::TxIn => self.tx_in,
            CounterType::Rx => self.rx,
            CounterType::RxIn => self.rx_in,
        }
    }

    /// Folds the counter of one tick into the window with the fixed weight
    /// 1/8: `avg = avg * 0.875 + tick * 0.125`.
    pub fn merge_counter(&mut self, tick: &CounterUnit)
        ensures
            final(self)@ == old(self)@.merged(tick@, 1, 8),
    {
        self.merge_weighted(tick, Smoothing::fixed());
    }

    /// Folds the counter of one tick into the window with the given weight:
    /// `avg = avg * (1 - weight) + tick * weight`.
    pub fn merge_weighted(&mut self, tick: &CounterUnit, weight: Smoothing)
        requires
            weight.wf(),
        ensures
            final(self)@ == old(self)@.merged(tick@, weight.num(), weight.den()),
    {
        self.tx.merge(tick.tx, weight);
        self.tx_in.merge(tick.tx_in, weight);
        self.rx.merge(tick.rx, weight);
        self.rx_in.merge(tick.rx_in, weight);
    }

    /// Opens a new window: the bytes start again from zero, the averages go
    /// on from where they are.
    pub fn clear_bytes(&mut self)
        ensures
            final(self)@ == old(self)@.without_bytes(),
    {
        self.tx.bytes = 0;
        self.tx_in.bytes = 0;
        self.rx.bytes = 0;
        self.rx_in.bytes = 0;
    }

    /// The window as a plain counter, as it goes into a report.
    pub fn to_counter_unit(&self) -> (unit: CounterUnit)
        ensures
            unit@ == self@.snapshot(),
    {
        CounterUnit {
            vnodename: self.vnodename.clone(),
            tx: self.tx.to_counter(),
            tx_in: self.tx_in.to_counter(),
            rx: self.rx.to_counter(),
            rx_in: self.rx_in.to_counter(),
        }
    }
}

/// A blend lies between its two inputs, so it is never negative and never
/// leaves the range of the larger one.
pub proof fn lemma_blend_bounds(avg: nat, sample: nat, num: nat, den: nat)
    requires
        Smoothing::valid(num, den),
    ensures
        blend(avg, sample, num, den) <= if avg >= sample * ONE as nat {
            avg
        } else {
            sample * ONE as nat
        },
        blend(avg, sample, num, den) >= if avg <= sample * ONE as nat {
            avg
        } else {
            sample * ONE as nat
        },
{
    let s = sample * ONE as nat;
    let hi = if avg >= s { avg } else { s };
    let lo = if avg <= s { avg } else { s };
    let total = (den - num) * avg + num * s;
    assert(total <= den * hi) by (nonlinear_arith)
        requires
            total == (den - num) * avg + num * s,
            avg <= hi,
            s <= hi,
            0 < num <= den,
    ;
    assert(total >= den * lo) by (nonlinear_arith)
        requires
            total == (den - num) * avg + num * s,
            avg >= lo,
            s >= lo,
            0 < num <= den,
    ;
    assert(total / (den as int) <= hi) by (nonlinear_arith)
        requires
            total <= den * hi,
            den > 0,
    ;
    assert(total / (den as int) >= lo) by (nonlinear_arith)
        requires
            total >= den * lo,
            den > 0,
    ;
}

/// A tick without traffic lowers every positive average and leaves zero at
/// zero.
pub proof fn lemma_blend_zero_decreases(avg: nat, num: nat, den: nat)
    requires
        Smoothing::valid(num, den),
    ensures
        blend(avg, 0, num, den) <= avg,
        avg > 0 ==> blend(avg, 0, num, den) < avg,
{
    let total = (den - num) * avg + num * (0 * ONE as nat);
    assert(total == (den - num) * avg) by (nonlinear_arith)
        requires
            total == (den - num) * avg + num * (0 * ONE as nat),
    ;
    if avg > 0 {
        assert(total < den * avg) by (nonlinear_arith)
            requires
                total == (den - num) * avg,
                0 < num <= den,
                avg > 0,
        ;
        assert(total / (den as int) < avg) by (nonlinear_arith)
            requires
                total < den * avg,
                den > 0,
                total >= 0,
        ;
    } else {
        assert(total == 0) by (nonlinear_arith)
            requires
                total == (den - num) * avg,
                avg == 0,
        ;
    }
}

/// A tick without traffic keeps the bytes of a window and lets its average
/// sink: the average does not grow, and it shrinks while it is positive.
pub proof fn lemma_merge_idle(window: AvgCounterUnitData, num: nat, den: nat)
    requires
        Smoothing::valid(num, den),
    ensures
        window.merged(CounterUnitData::zero(), num, den).bytes == window.bytes,
        window.merged(CounterUnitData::zero(), num, den).num_competitors
            <= window.num_competitors,
        window.num_competitors > 0 ==> window.merged(
            CounterUnitData::zero(),
            num,
            den,
        ).num_competitors < window.num_competitors,
{
    lemma_blend_zero_decreases(window.num_competitors as nat, num, den);
}

/// An average that equals the sample stays where it is.
pub proof fn lemma_blend_steady(sample: nat, num: nat, den: nat)
    requires
        Smoothing::valid(num, den),
    ensures
        blend(sample * ONE as nat, sample, num, den) == sample * ONE as nat,
{
    let s = sample * ONE as nat;
    let total = (den - num) * s + num * s;
    assert(total == den * s) by (nonlinear_arith)
        requires
            total == (den - num) * s + num * s,
            num <= den,
    ;
    assert((den * s) / den == s) by (nonlinear_arith)
        requires
            den > 0,
    ;
}

/// Ticks without traffic drive an average towards zero: it never grows, it
/// loses at least one unit per tick while it is positive, and so it is zero
/// after at most `avg` ticks.
pub proof fn lemma_decay_converges(avg: nat, num: nat, den: nat, rounds: nat)
    requires
        Smoothing::valid(num, den),
    ensures
        decayed(avg, num, den, rounds) <= avg,
        decayed(avg, num, den, rounds) + rounds <= avg || decayed(avg, num, den, rounds) == 0,
        rounds >= avg ==> decayed(avg, num, den, rounds) == 0,
        decayed(avg, num, den, rounds + 1) <= decayed(avg, num, den, rounds),
    decreases rounds,
{
    if rounds > 0 {
        lemma_decay_converges(avg, num, den, (rounds - 1) as nat);
        lemma_blend_zero_decreases(decayed(avg, num, den, (rounds - 1) as nat), num, den);
    }
    lemma_blend_zero_decreases(decayed(avg, num, den, rounds), num, den);
}

} // verus!
