use nethint_bpf::counter::{CounterType, CounterUnit, CounterUnitData};
use nethint_bpf::report::{
    check_payload, encode_report, ReportError, HEADER_LEN, MAX_PAYLOAD, UNIT_OVERHEAD,
};

fn unit(name: &str, base: u64) -> CounterUnit {
    let mut u = CounterUnit::new(name);
    u.tx = CounterUnitData { bytes: base + 1, num_competitors: 11 };
    u.tx_in = CounterUnitData { bytes: base + 2, num_competitors: 12 };
    u.rx = CounterUnitData { bytes: base + 3, num_competitors: 13 };
    u.rx_in = CounterUnitData { bytes: base + 4, num_competitors: 14 };
    u
}

#[test]
fn payload_bound_is_the_datagram_limit() {
    assert_eq!(MAX_PAYLOAD, 65507);
    assert_eq!(HEADER_LEN, 8);
    assert_eq!(UNIT_OVERHEAD, 56);
}

#[test]
fn payload_at_the_bound_passes_unchanged() {
    let bytes: Vec<u8> = (0..MAX_PAYLOAD).map(|i| (i % 251) as u8).collect();
    assert_eq!(check_payload(bytes.clone()), Ok(bytes));
    assert_eq!(check_payload(vec![]), Ok(vec![]));
    assert_eq!(check_payload(vec![1, 2, 3]), Ok(vec![1, 2, 3]));
}

#[test]
fn payload_over_the_bound_is_refused() {
    assert_eq!(
        check_payload(vec![0u8; MAX_PAYLOAD + 1]),
        Err(ReportError::TooLarge { len: MAX_PAYLOAD + 1 })
    );
    assert_eq!(check_payload(vec![7u8; 100_000]), Err(ReportError::TooLarge { len: 100_000 }));
}

#[test]
fn empty_report_is_the_header_alone() {
    assert_eq!(encode_report(&vec![]), Ok(0u64.to_le_bytes().to_vec()));
}

#[test]
fn report_spells_every_peer() {
    let payload = encode_report(&vec![unit("a", 100), unit("vm1", 200)]).unwrap();
    let mut expected: Vec<u8> = Vec::new();
    expected.extend_from_slice(&2u64.to_le_bytes());
    for (name, base) in [("a", 100u64), ("vm1", 200u64)] {
        expected.extend_from_slice(&(name.len() as u64).to_le_bytes());
        expected.extend_from_slice(name.as_bytes());
        for k in 1..=4u64 {
            expected.extend_from_slice(&(base + k).to_le_bytes());
            expected.extend_from_slice(&(10 + k as u32).to_le_bytes());
        }
    }
    assert_eq!(payload, expected);
    assert_eq!(payload.len(), 8 + (56 + 1) + (56 + 3));
}

#[test]
fn report_agrees_with_the_encoder_on_plain_values() {
    let units = vec![unit("alpha", 1), unit("", 2), unit("h\u{e9}", 3)];
    let plain: Vec<(String, [(u64, u32); 4])> = units
        .iter()
        .map(|u| {
            (
                u.vnodename.clone(),
                [
                    (u.get(CounterType::Tx).bytes, u.get(CounterType::Tx).num_competitors),
                    (u.get(CounterType::TxIn).bytes, u.get(CounterType::TxIn).num_competitors),
                    (u.get(CounterType::Rx).bytes, u.get(CounterType::Rx).num_competitors),
                    (u.get(CounterType::RxIn).bytes, u.get(CounterType::RxIn).num_competitors),
                ],
            )
        })
        .collect();
    let payload = encode_report(&units).unwrap();
    assert_eq!(payload, bincode::serialize(&plain).unwrap());
    // Names count by their bytes in UTF-8.
    assert_eq!(payload.len(), 8 + (56 + 5) + 56 + (56 + 3));
}

#[test]
fn largest_report_that_fits() {
    // 1169 peers without names take 8 + 56 * 1169 = 65472 bytes.
    let units: Vec<CounterUnit> = (0..1169).map(|_| CounterUnit::new("")).collect();
    assert_eq!(encode_report(&units).unwrap().len(), 65472);
    // 1091 peers with names of four bytes take 8 + 60 * 1091 = 65468 bytes.
    let named: Vec<CounterUnit> = (0..1091).map(|_| CounterUnit::new("peer")).collect();
    assert_eq!(encode_report(&named).unwrap().len(), 65468);
}

#[test]
fn report_for_too_many_peers_is_refused() {
    let units: Vec<CounterUnit> = (0..1170).map(|_| CounterUnit::new("")).collect();
    assert_eq!(encode_report(&units), Err(ReportError::TooLarge { len: 65528 }));
    let named: Vec<CounterUnit> = (0..1092).map(|_| CounterUnit::new("peer")).collect();
    assert_eq!(encode_report(&named), Err(ReportError::TooLarge { len: 65528 }));
    let table: Vec<CounterUnit> = (0..10240).map(|_| CounterUnit::new("")).collect();
    assert_eq!(encode_report(&table), Err(ReportError::TooLarge { len: 8 + 56 * 10240 }));
}
