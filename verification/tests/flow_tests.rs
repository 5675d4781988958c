use nethint_bpf::flow::{
    from_network_order, BytesAddr, FlowLabel, HASH_BASE, LABEL_LEN, RECORD_LEN,
};

#[test]
fn flow_key_has_the_positional_value() {
    assert_eq!(HASH_BASE, 131);
    assert_eq!(FlowLabel::new(6, 1, 2, 3, 4).0, 1_769_282_336);
    assert_eq!(FlowLabel::new(0, 0, 0, 0, 0).0, 0);
    assert_eq!(FlowLabel::new(0, 0, 0, 0, 7).0, 7);
    assert_eq!(FlowLabel::new(0, 0, 0, 1, 0).0, 131);
    assert_eq!(FlowLabel::new(1, 0, 0, 0, 0).0, 294_499_921);
}

#[test]
fn flow_key_of_the_largest_tuple_does_not_wrap() {
    let label = FlowLabel::new(u8::MAX, u32::MAX, u32::MAX, u16::MAX, u16::MAX);
    assert_eq!(label.0, 9_729_258_361_063_815);
}

#[test]
fn flow_key_is_deterministic() {
    let a = FlowLabel::new(17, 0x0100_000a, 0x0200_000a, 1234, 80);
    let b = FlowLabel::new(17, 0x0100_000a, 0x0200_000a, 1234, 80);
    assert_eq!(a, b);
    assert_eq!(a.0, 38_297_565_215_119);
}

#[test]
fn flow_key_is_directional() {
    let forward = FlowLabel::new(6, 10, 20, 1000, 2000);
    assert_ne!(forward, FlowLabel::new(6, 20, 10, 1000, 2000));
    assert_ne!(forward, FlowLabel::new(6, 10, 20, 2000, 1000));
    assert_eq!(FlowLabel::new(6, 10, 10, 7, 7), FlowLabel::new(6, 10, 10, 7, 7));
}

#[test]
fn flow_key_collides_where_digits_carry() {
    // One more in the source port weighs as much as 131 more in the
    // destination port.
    assert_eq!(FlowLabel::new(6, 1, 2, 10, 200), FlowLabel::new(6, 1, 2, 11, 69));
    // A reversed flow keeps its key where the differences cancel.
    assert_eq!(FlowLabel::new(6, 5, 4, 0, 17161), FlowLabel::new(6, 4, 5, 17161, 0));
}

#[test]
fn flow_label_prints_as_padded_hex() {
    assert_eq!(FlowLabel(0).to_string(), "0x0000000000000000");
    assert_eq!(FlowLabel(0x698b_1e20).to_string(), "0x00000000698b1e20");
    assert_eq!(FlowLabel(u64::MAX).to_string(), "0xffffffffffffffff");
    for v in [1u64, 0xabcdef, 1_769_282_336, 0x0123_4567_89ab_cdef] {
        assert_eq!(FlowLabel(v).to_string(), format!("{:#018x}", v));
    }
}

#[test]
fn record_keeps_what_it_is_given() {
    let record = BytesAddr::new(1000, 0x0100_000a, 0x0200_000a);
    assert_eq!(record.bytes, 1000);
    assert_eq!(record.saddr, 0x0100_000a);
    assert_eq!(record.daddr, 0x0200_000a);
}

#[test]
fn addresses_decode_from_network_order() {
    assert_eq!(from_network_order(0x0100_000a), 0x0a00_0001);
    assert_eq!(from_network_order(0x1234_5678), 0x7856_3412);
    assert_eq!(from_network_order(0), 0);
    assert_eq!(from_network_order(u32::MAX), u32::MAX);
    for v in [1u32, 0xff00_0000, 0x00ff_0000, 0xdead_beef, 0x0200_000a] {
        assert_eq!(from_network_order(v), v.swap_bytes());
        assert_eq!(from_network_order(from_network_order(v)), v);
    }
    let record = BytesAddr::new(1, 0x0100_000a, 0x0200_a8c0);
    assert_eq!(record.source(), 0x0a00_0001);
    assert_eq!(record.destination(), 0xc0a8_0002);
}

#[test]
fn label_takes_eight_bytes_in_a_table() {
    assert_eq!(LABEL_LEN, 8);
    let label = FlowLabel(0x0102_0304_0506_0708);
    assert_eq!(label.to_bytes(), vec![8, 7, 6, 5, 4, 3, 2, 1]);
    assert_eq!(FlowLabel::from_bytes(&label.to_bytes()), Some(label));
    assert_eq!(FlowLabel::from_bytes(&[1, 0, 0, 0, 0, 0, 0, 0]), Some(FlowLabel(1)));
    assert_eq!(FlowLabel::from_bytes(&[0; 7]), None);
    assert_eq!(FlowLabel::from_bytes(&[0; 9]), None);
    assert_eq!(FlowLabel::from_bytes(&[]), None);
}

#[test]
fn record_takes_sixteen_bytes_in_a_table() {
    assert_eq!(RECORD_LEN, 16);
    // 1000 bytes from 10.0.0.1 to 192.168.0.2.
    let record = BytesAddr::new(1000, u32::from_le_bytes([10, 0, 0, 1]), u32::from_le_bytes([192, 168, 0, 2]));
    let bytes = record.to_bytes();
    assert_eq!(bytes, vec![0xe8, 0x03, 0, 0, 0, 0, 0, 0, 10, 0, 0, 1, 192, 168, 0, 2]);
    assert_eq!(BytesAddr::from_bytes(&bytes), Some(record));
    assert_eq!(BytesAddr::from_bytes(&bytes[..15]), None);
    assert_eq!(BytesAddr::from_bytes(&[0; 17]), None);
    let other = BytesAddr::from_bytes(&[1, 2, 3, 4, 5, 6, 7, 8, 9, 10, 11, 12, 13, 14, 15, 16]).unwrap();
    assert_eq!(other.bytes, 0x0807_0605_0403_0201);
    assert_eq!(other.saddr, 0x0c0b_0a09);
    assert_eq!(other.daddr, 0x100f_0e0d);
    assert_eq!(other.source(), 0x090a_0b0c);
}
