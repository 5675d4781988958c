//! The outbound report: the counters of all peers as one datagram payload of
//! bounded size.

use crate::counter::{unit_views, CounterUnit, CounterUnitView};
use vstd::prelude::*;
use vstd::utf8::encode_utf8;

verus! {

/// The largest payload that one datagram carries.
pub const MAX_PAYLOAD: usize = 65507;

/// Bytes that a report spends before the first peer: the number of peers.
pub const HEADER_LEN: usize = 8;

/// Bytes that one peer takes besides its name: the length of the name and
/// four categories of a byte total and a flow count each.
pub const UNIT_OVERHEAD: usize = 56;

/// Why no payload was built.
#[derive(Clone, Copy, Debug, PartialEq, Eq, Structural)]
pub enum ReportError {
    /// The encoder gave no bytes.
    Refused,
    /// The encoding has `len` bytes, more than one datagram carries.
    TooLarge { len: usize },
}

/// One peer as the encoder sees it: the name, then byte total and flow count
/// of the categories in the order Tx, TxIn, Rx, RxIn.
pub open spec fn wire_unit(unit: CounterUnitView) -> (Seq<char>, Seq<(u64, u32)>) {
    (
        unit.vnodename,
        seq![
            (unit.tx.bytes, unit.tx.num_competitors),
            (unit.tx_in.bytes, unit.tx_in.num_competitors),
            (unit.rx.bytes, unit.rx.num_competitors),
            (unit.rx_in.bytes, unit.rx_in.num_competitors),
        ],
    )
}

/// The peers of a report as the encoder sees them.
pub open spec fn wire_units(units: Seq<CounterUnitView>) -> Seq<(Seq<char>, Seq<(u64, u32)>)> {
    Seq::new(units.len(), |i: int| wire_unit(units[i]))
}

/// The number of bytes in the encoding of `units`: the header, and for each
/// peer the length prefix of the name, the name in UTF-8, and twelve bytes for
/// each category.
pub open spec fn encoded_len(units: Seq<(Seq<char>, Seq<(u64, u32)>)>) -> nat
    decreases units.len(),
{
    if units.len() == 0 {
        HEADER_LEN as nat
    } else {
        encoded_len(units.drop_last()) + 8 + encode_utf8(units.last().0).len() + 12
            * units.last().1.len()
    }
}

/// The bytes that `bincode::serialize` gives for a list of peers, or `None`
/// where it gives an error.
pub uninterp spec fn bincode_serialized(units: Seq<(Seq<char>, Seq<(u64, u32)>)>) -> Option<
    Seq<u8>,
>;

/// Calls `bincode::serialize` on the list of peers. The encoding depends on
/// the list alone. Its length is as the encoder's size pass computes it: eight
/// bytes for the number of peers; for each peer eight bytes for the length of
/// the name, the name in UTF-8, and for each category eight bytes of total and
/// four bytes of count.
#[verifier::external_body]
fn serialize_units(units: &Vec<(String, [(u64, u32); 4])>) -> (bytes: Option<Vec<u8>>)
    ensures
        bytes matches Some(b) ==> bincode_serialized(units.deep_view()) == Some(b@) && b@.len()
            == encoded_len(units.deep_view()),
        bytes is None ==> bincode_serialized(units.deep_view()) is None,
{
    bincode::serialize(units).ok()
}

/// Decides whether an encoded report goes out: the bytes pass unchanged where
/// one datagram carries them, and are refused as a whole where it does not.
pub fn check_payload(bytes: Vec<u8>) -> (checked: Result<Vec<u8>, ReportError>)
    ensures
        bytes@.len() <= MAX_PAYLOAD ==> checked == Ok::<Vec<u8>, ReportError>(bytes),
        bytes@.len() > MAX_PAYLOAD ==> checked == Err::<Vec<u8>, ReportError>(
            ReportError::TooLarge { len: bytes.len() },
        ),
{
    let len = bytes.len();
    if len <= MAX_PAYLOAD {
        Ok(bytes)
    } else {
        Err(ReportError::TooLarge { len })
    }
}

/// What [`encode_report`] returns for each outcome of the encoder.
pub open spec fn report_outcome(
    encoding: Option<Seq<u8>>,
    payload: Result<Vec<u8>, ReportError>,
) -> bool {
    match encoding {
        None => payload == Err::<Vec<u8>, ReportError>(ReportError::Refused),
        Some(bytes) => if bytes.len() <= MAX_PAYLOAD {
            payload matches Ok(p) && p@ == bytes
        } else {
            payload matches Err(ReportError::TooLarge { len }) && len == bytes.len()
        },
    }
}

/// Builds the payload of a report from the counters of all peers. A report
/// that one datagram cannot carry is refused, never cut short.
pub fn encode_report(units: &Vec<CounterUnit>) -> (payload: Result<Vec<u8>, ReportError>)
    ensures
        report_outcome(bincode_serialized(wire_units(unit_views(units@))), payload),
        payload matches Ok(p) ==> p@.len() == encoded_len(wire_units(unit_views(units@))),
        payload matches Err(ReportError::TooLarge { len }) ==> len == encoded_len(
            wire_units(unit_views(units@)),
        ),
{
    let mut wire: Vec<(String, [(u64, u32); 4])> = Vec::new();
    let mut i: usize = 0;
    while i < units.len()
        invariant
            i <= units.len(),
            wire.len() == i,
            forall|j: int| 0 <= j < i ==> #[trigger] wire@[j].deep_view() == wire_unit(units@[j]@),
        decreases units.len() - i,
    {
        let u = &units[i];
        let data: [(u64, u32); 4] = [
            (u.tx.bytes, u.tx.num_competitors),
            (u.tx_in.bytes, u.tx_in.num_competitors),
            (u.rx.bytes, u.rx.num_competitors),
            (u.rx_in.bytes, u.rx_in.num_competitors),
        ];
        assert(data.deep_view() =~= wire_unit(u@).1);
        wire.push((u.vnodename.clone(), data));
        i += 1;
    }
    assert(wire.deep_view() =~= wire_units(unit_views(units@)));
    match serialize_units(&wire) {
        None => Err(ReportError::Refused),
        Some(bytes) => check_payload(bytes),
    }
}

/// The peers of a report take four categories each.
pub proof fn lemma_wire_units_shape(units: Seq<CounterUnitView>)
    ensures
        wire_units(units).len() == units.len(),
        forall|i: int|
            0 <= i < units.len() ==> (#[trigger] wire_units(units)[i]).1.len() == 4
                && wire_units(units)[i].0 == units[i].vnodename,
{
}

/// With four categories for each peer and at most `name_len` bytes for each
/// name, a report of `n` peers takes at most `8 + (56 + name_len) * n` bytes.
pub proof fn lemma_encoded_len_ceiling(units: Seq<(Seq<char>, Seq<(u64, u32)>)>, name_len: nat)
    requires
        forall|i: int|
            0 <= i < units.len() ==> (#[trigger] units[i]).1.len() == 4 && encode_utf8(
                units[i].0,
            ).len() <= name_len,
    ensures
        encoded_len(units) <= HEADER_LEN + (UNIT_OVERHEAD + name_len) * units.len(),
    decreases units.len(),
{
    if units.len() > 0 {
        let rest = units.drop_last();
        assert forall|i: int| 0 <= i < rest.len() implies (#[trigger] rest[i]).1.len() == 4
            && encode_utf8(rest[i].0).len() <= name_len by {
            assert(rest[i] == units[i]);
        }
        lemma_encoded_len_ceiling(rest, name_len);
        assert(units.last() == units[units.len() - 1]);
        assert((UNIT_OVERHEAD + name_len) * units.len() == (UNIT_OVERHEAD + name_len) * rest.len()
            + UNIT_OVERHEAD + name_len) by (nonlinear_arith)
            requires
                units.len() == rest.len() + 1,
        ;
    }
}

/// Whether the encoding of a report goes out depends on its size alone: a
/// list of peers that encodes into at most [`MAX_PAYLOAD`] bytes is sent
/// whole, and a larger one is refused with its size.
pub proof fn lemma_report_outcome_by_size(encoding: Seq<u8>, payload: Result<Vec<u8>, ReportError>)
    requires
        report_outcome(Some(encoding), payload),
    ensures
        encoding.len() <= MAX_PAYLOAD <==> payload is Ok,
        payload matches Ok(p) ==> p@ == encoding,
        payload is Err ==> payload == Err::<Vec<u8>, ReportError>(
            ReportError::TooLarge { len: encoding.len() as usize },
        ),
{
}

/// A report fits into one datagram where the peers are few enough for the
/// bytes of their names: `n` peers with names of at most `name_len` bytes fit
/// whenever `8 + (56 + name_len) * n` is within the bound.
pub proof fn lemma_report_fits(units: Seq<CounterUnitView>, name_len: nat)
    requires
        forall|i: int|
            0 <= i < units.len() ==> encode_utf8((#[trigger] units[i]).vnodename).len()
                <= name_len,
        HEADER_LEN + (UNIT_OVERHEAD + name_len) * units.len() <= MAX_PAYLOAD,
    ensures
        encoded_len(wire_units(units)) <= MAX_PAYLOAD,
{
    lemma_wire_units_shape(units);
    let wire = wire_units(units);
    assert forall|i: int| 0 <= i < wire.len() implies (#[trigger] wire[i]).1.len() == 4
        && encode_utf8(wire[i].0).len() <= name_len by {
        assert(wire[i].0 == units[i].vnodename);
    }
    lemma_encoded_len_ceiling(wire, name_len);
}

/// More than 1169 peers never fit into one report, whatever their names.
pub proof fn lemma_report_peer_limit(units: Seq<CounterUnitView>)
    requires
        units.len() > 1169,
    ensures
        encoded_len(wire_units(units)) > MAX_PAYLOAD,
{
    lemma_wire_units_shape(units);
    let wire = wire_units(units);
    lemma_encoded_len_floor(wire);
}

/// A report takes at least the header and the fixed part of each peer.
pub proof fn lemma_encoded_len_floor(units: Seq<(Seq<char>, Seq<(u64, u32)>)>)
    requires
        forall|i: int| 0 <= i < units.len() ==> (#[trigger] units[i]).1.len() == 4,
    ensures
        encoded_len(units) >= HEADER_LEN + UNIT_OVERHEAD * units.len(),
    decreases units.len(),
{
    if units.len() > 0 {
        let rest = units.drop_last();
        assert forall|i: int| 0 <= i < rest.len() implies (#[trigger] rest[i]).1.len() == 4 by {
            assert(rest[i] == units[i]);
        }
        lemma_encoded_len_floor(rest);
        assert(units.last() == units[units.len() - 1]);
        assert(UNIT_OVERHEAD * units.len() == UNIT_OVERHEAD * rest.len() + UNIT_OVERHEAD)
            by (nonlinear_arith)
            requires
                units.len() == rest.len() + 1,
        ;
    }
}

} // verus!
