use nethint_bpf::flow::{BytesAddr, FlowLabel};
use nethint_bpf::table::{FlowTable, Observation, CAPACITY};

fn tcp_frame(total: u16, src: [u8; 4], dst: [u8; 4], sport: u16, dport: u16) -> Vec<u8> {
    let mut f = vec![0u8; 54];
    f[12] = 0x08;
    f[14] = 0x45;
    f[16] = (total >> 8) as u8;
    f[17] = (total & 0xff) as u8;
    f[23] = 6;
    f[26..30].copy_from_slice(&src);
    f[30..34].copy_from_slice(&dst);
    f[34] = (sport >> 8) as u8;
    f[35] = (sport & 0xff) as u8;
    f[36] = (dport >> 8) as u8;
    f[37] = (dport & 0xff) as u8;
    f
}

#[test]
fn capacity_is_ten_thousand_two_hundred_and_forty() {
    assert_eq!(CAPACITY, 10240);
}

#[test]
fn new_table_is_empty() {
    let t = FlowTable::new();
    assert_eq!(t.len(), 0);
    assert!(t.is_empty());
    assert_eq!(t.get(FlowLabel(1)), None);
}

#[test]
fn packets_of_one_flow_add_up() {
    let mut t = FlowTable::new();
    let label = FlowLabel::new(6, 1, 2, 3, 4);
    let lengths = [1000u64, 40, 1500, 1, 0, 65535];
    for len in lengths {
        assert!(t.observe(label, len, 1, 2));
    }
    assert_eq!(t.len(), 1);
    assert_eq!(t.get(label), Some(BytesAddr::new(lengths.iter().sum(), 1, 2)));
    assert_eq!(t.get(label).unwrap().bytes, 68076);
}

#[test]
fn first_packet_fixes_the_addresses() {
    let mut t = FlowTable::new();
    t.observe(FlowLabel(9), 10, 1, 2);
    t.observe(FlowLabel(9), 5, 7, 8);
    assert_eq!(t.get(FlowLabel(9)), Some(BytesAddr::new(15, 1, 2)));
}

#[test]
fn byte_total_stops_at_the_largest_value() {
    let mut t = FlowTable::new();
    t.observe(FlowLabel(9), u64::MAX - 1, 1, 2);
    t.observe(FlowLabel(9), 5, 1, 2);
    assert_eq!(t.get(FlowLabel(9)).unwrap().bytes, u64::MAX);
}

#[test]
fn flows_are_kept_apart() {
    let mut t = FlowTable::new();
    t.observe(FlowLabel(1), 10, 1, 2);
    t.observe(FlowLabel(2), 20, 3, 4);
    t.observe(FlowLabel(1), 30, 1, 2);
    assert_eq!(t.len(), 2);
    assert_eq!(t.get(FlowLabel(1)).unwrap().bytes, 40);
    assert_eq!(t.get(FlowLabel(2)).unwrap().bytes, 20);
}

#[test]
fn full_table_drops_new_flows_and_keeps_the_old() {
    let mut t = FlowTable::new();
    for k in 0..CAPACITY as u64 {
        assert!(t.observe(FlowLabel(k), k + 1, 1, 2));
    }
    assert_eq!(t.len(), CAPACITY);
    assert!(!t.observe(FlowLabel(CAPACITY as u64), 77, 1, 2));
    assert_eq!(t.len(), CAPACITY);
    assert_eq!(t.get(FlowLabel(CAPACITY as u64)), None);
    for k in [0u64, 1, 5000, CAPACITY as u64 - 1] {
        assert_eq!(t.get(FlowLabel(k)), Some(BytesAddr::new(k + 1, 1, 2)));
    }
    // A flow that has its record is still counted.
    assert!(t.observe(FlowLabel(3), 6, 9, 9));
    assert_eq!(t.get(FlowLabel(3)), Some(BytesAddr::new(10, 1, 2)));
}

#[test]
fn drain_takes_everything_once() {
    let mut t = FlowTable::new();
    t.observe(FlowLabel(5), 10, 1, 2);
    t.observe(FlowLabel(3), 20, 3, 4);
    t.observe(FlowLabel(5), 1, 1, 2);
    let records = t.drain();
    assert_eq!(
        records,
        vec![(FlowLabel(5), BytesAddr::new(11, 1, 2)), (FlowLabel(3), BytesAddr::new(20, 3, 4))]
    );
    assert!(t.is_empty());
    assert_eq!(t.len(), 0);
    assert!(t.drain().is_empty());
    // After a drain a flow starts again from nothing.
    t.observe(FlowLabel(5), 4, 8, 9);
    assert_eq!(t.get(FlowLabel(5)), Some(BytesAddr::new(4, 8, 9)));
}

#[test]
fn drained_full_table_has_room_again() {
    let mut t = FlowTable::new();
    for k in 0..CAPACITY as u64 {
        t.observe(FlowLabel(k), 1, 1, 2);
    }
    assert_eq!(t.drain().len(), CAPACITY);
    assert!(t.observe(FlowLabel(CAPACITY as u64), 1, 1, 2));
}

#[test]
fn frames_are_counted_skipped_or_dropped() {
    let mut t = FlowTable::new();
    let f = tcp_frame(1000, [10, 0, 0, 1], [10, 0, 0, 2], 1000, 80);
    assert_eq!(t.observe_frame(&f), Observation::Counted);
    assert_eq!(t.observe_frame(&f), Observation::Counted);
    assert_eq!(t.observe_frame(&f[..40]), Observation::Skipped);
    let label = FlowLabel::new(6, 0x0100_000a, 0x0200_000a, 1000, 80);
    assert_eq!(t.get(label), Some(BytesAddr::new(2000, 0x0100_000a, 0x0200_000a)));
    assert_eq!(t.len(), 1);
    for k in 1..CAPACITY as u64 {
        t.observe(FlowLabel(k), 1, 1, 2);
    }
    let g = tcp_frame(500, [10, 0, 0, 1], [10, 0, 0, 3], 1000, 80);
    assert_eq!(t.observe_frame(&g), Observation::Dropped);
    assert_eq!(t.observe_frame(&f), Observation::Counted);
    assert_eq!(t.get(label).unwrap().bytes, 3000);
    assert_eq!(t.len(), CAPACITY);
}
